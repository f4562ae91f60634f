//! The HTTP edge as data: which status, tag and fields each failure is answered
//! with, how a bearer header becomes a session token, and the request and response
//! shapes.
use vstd::prelude::*;

use crate::cart::Quantity;
use crate::catalog::ProductId;
use crate::errors::{
    CartError, CheckoutError, LoginError, OrderLookupError, ProductError, RegisterError, RepoError,
};
use crate::order::OrderId;
use crate::text::{chars_of, string_from_chars, CaseMap};
use crate::user::{Email, Password, SessionToken, User, UserId};
use crate::workflows::auth::AuthSession;
use crate::workflows::catalog::BrowseQuery;

verus! {

/// Every way the API can fail, as data.
#[derive(Debug, PartialEq, Eq)]
pub enum ApiError {
    /// The request body or parameters failed to decode into domain types.
    DecodeError(String),
    /// No usable session: missing, malformed or unknown token alike.
    Unauthorized,
    InvalidCredentials,
    EmailTaken { email: Email },
    ProductNotFound { product_id: ProductId },
    OrderNotFound { order_id: OrderId },
    CartEmpty,
    InsufficientStock { product_id: ProductId, requested: u32, available: u32 },
    /// Infrastructure broke; the cause is for the log, never for the client.
    Internal(RepoError),
}

/// The value of a field of an error body.
#[derive(Debug, Clone, PartialEq, Eq)]
pub enum FieldValue {
    Text(String),
    Count(u32),
}

/// The view of a field value: text by its characters.
pub enum FieldValueView {
    Text(Seq<char>),
    Count(u32),
}

impl View for FieldValue {
    type V = FieldValueView;

    open spec fn view(&self) -> FieldValueView {
        match self {
            FieldValue::Text(s) => FieldValueView::Text(s@),
            FieldValue::Count(n) => FieldValueView::Count(*n),
        }
    }
}

/// An error's answer: the HTTP status, the `_tag` naming the failure, and the
/// failure's own fields, in order.
pub struct ErrorParts {
    pub status: u16,
    pub tag: &'static str,
    pub fields: Vec<(&'static str, FieldValue)>,
}

/// The answer to each failure, as (status, tag, fields by name and value).
pub open spec fn spec_parts(e: ApiError) -> (u16, Seq<char>, Seq<(Seq<char>, FieldValueView)>) {
    match e {
        ApiError::DecodeError(message) => (
            400,
            "HttpApiDecodeError"@,
            seq![("message"@, FieldValueView::Text(message@))],
        ),
        ApiError::Unauthorized => (401, "Unauthorized"@, seq![]),
        ApiError::InvalidCredentials => (401, "InvalidCredentials"@, seq![]),
        ApiError::EmailTaken { email } => (409, "EmailTaken"@, seq![("email"@, FieldValueView::Text(email@))]),
        ApiError::ProductNotFound { product_id } => (
            404,
            "ProductNotFound"@,
            seq![("productId"@, FieldValueView::Text(product_id@))],
        ),
        ApiError::OrderNotFound { order_id } => (
            404,
            "OrderNotFound"@,
            seq![("orderId"@, FieldValueView::Text(order_id@))],
        ),
        ApiError::CartEmpty => (409, "CartEmpty"@, seq![]),
        ApiError::InsufficientStock { product_id, requested, available } => (
            409,
            "InsufficientStock"@,
            seq![
                ("productId"@, FieldValueView::Text(product_id@)),
                ("requested"@, FieldValueView::Count(requested)),
                ("available"@, FieldValueView::Count(available)),
            ],
        ),
        ApiError::Internal(_) => (500, "InternalServerError"@, seq![]),
    }
}

/// The fields of an answer by name and view.
pub open spec fn fields_view(fields: Seq<(&'static str, FieldValue)>) -> Seq<(Seq<char>, FieldValueView)> {
    fields.map_values(|f: (&'static str, FieldValue)| (f.0@, f.1@))
}

impl ApiError {
    /// The status, tag and fields for this failure, in one table.
    pub fn parts(&self) -> (p: ErrorParts)
        ensures
            (p.status, p.tag@, fields_view(p.fields@)) == spec_parts(*self),
    {
        proof {
            reveal_strlit("HttpApiDecodeError");
            reveal_strlit("message");
            reveal_strlit("Unauthorized");
            reveal_strlit("InvalidCredentials");
            reveal_strlit("EmailTaken");
            reveal_strlit("email");
            reveal_strlit("ProductNotFound");
            reveal_strlit("productId");
            reveal_strlit("OrderNotFound");
            reveal_strlit("orderId");
            reveal_strlit("CartEmpty");
            reveal_strlit("InsufficientStock");
            reveal_strlit("requested");
            reveal_strlit("available");
            reveal_strlit("InternalServerError");
        }
        let mut fields: Vec<(&'static str, FieldValue)> = Vec::new();
        let (status, tag): (u16, &'static str) = match self {
            ApiError::DecodeError(message) => {
                fields.push(("message", FieldValue::Text(message.clone())));
                (400, "HttpApiDecodeError")
            },
            ApiError::Unauthorized => (401, "Unauthorized"),
            ApiError::InvalidCredentials => (401, "InvalidCredentials"),
            ApiError::EmailTaken { email } => {
                fields.push(("email", FieldValue::Text(crate::text::string_of(email.as_ref()))));
                (409, "EmailTaken")
            },
            ApiError::ProductNotFound { product_id } => {
                fields.push(("productId", FieldValue::Text(crate::text::string_of(product_id.as_ref()))));
                (404, "ProductNotFound")
            },
            ApiError::OrderNotFound { order_id } => {
                fields.push(("orderId", FieldValue::Text(crate::text::string_of(order_id.as_ref()))));
                (404, "OrderNotFound")
            },
            ApiError::CartEmpty => (409, "CartEmpty"),
            ApiError::InsufficientStock { product_id, requested, available } => {
                fields.push(("productId", FieldValue::Text(crate::text::string_of(product_id.as_ref()))));
                fields.push(("requested", FieldValue::Count(*requested)));
                fields.push(("available", FieldValue::Count(*available)));
                (409, "InsufficientStock")
            },
            ApiError::Internal(_) => (500, "InternalServerError"),
        };
        let p = ErrorParts { status, tag, fields };
        proof {
            assert(fields_view(p.fields@) =~= spec_parts(*self).2);
        }
        p
    }
}

// ---------------------------------------------------------------------------
// From each workflow's error to the answer it gets
// ---------------------------------------------------------------------------

impl From<RepoError> for ApiError {
    fn from(err: RepoError) -> (r: Self) {
        ApiError::Internal(err)
    }
}

impl vstd::std_specs::convert::FromSpecImpl<RepoError> for ApiError {
    open spec fn obeys_from_spec() -> bool {
        true
    }

    open spec fn from_spec(err: RepoError) -> Self {
        ApiError::Internal(err)
    }
}

impl From<RegisterError> for ApiError {
    fn from(err: RegisterError) -> (r: Self) {
        match err {
            RegisterError::EmailTaken { email } => ApiError::EmailTaken { email },
            RegisterError::Repo(e) => ApiError::Internal(e),
        }
    }
}

impl vstd::std_specs::convert::FromSpecImpl<RegisterError> for ApiError {
    open spec fn obeys_from_spec() -> bool {
        true
    }

    open spec fn from_spec(err: RegisterError) -> Self {
        match err {
            RegisterError::EmailTaken { email } => ApiError::EmailTaken { email },
            RegisterError::Repo(e) => ApiError::Internal(e),
        }
    }
}

impl From<LoginError> for ApiError {
    fn from(err: LoginError) -> (r: Self) {
        match err {
            LoginError::InvalidCredentials => ApiError::InvalidCredentials,
            LoginError::Repo(e) => ApiError::Internal(e),
        }
    }
}

impl vstd::std_specs::convert::FromSpecImpl<LoginError> for ApiError {
    open spec fn obeys_from_spec() -> bool {
        true
    }

    open spec fn from_spec(err: LoginError) -> Self {
        match err {
            LoginError::InvalidCredentials => ApiError::InvalidCredentials,
            LoginError::Repo(e) => ApiError::Internal(e),
        }
    }
}

impl From<ProductError> for ApiError {
    fn from(err: ProductError) -> (r: Self) {
        match err {
            ProductError::NotFound { product_id } => ApiError::ProductNotFound { product_id },
            ProductError::Repo(e) => ApiError::Internal(e),
        }
    }
}

impl vstd::std_specs::convert::FromSpecImpl<ProductError> for ApiError {
    open spec fn obeys_from_spec() -> bool {
        true
    }

    open spec fn from_spec(err: ProductError) -> Self {
        match err {
            ProductError::NotFound { product_id } => ApiError::ProductNotFound { product_id },
            ProductError::Repo(e) => ApiError::Internal(e),
        }
    }
}

impl From<CartError> for ApiError {
    fn from(err: CartError) -> (r: Self) {
        match err {
            CartError::ProductNotFound { product_id } => ApiError::ProductNotFound { product_id },
            CartError::Repo(e) => ApiError::Internal(e),
        }
    }
}

impl vstd::std_specs::convert::FromSpecImpl<CartError> for ApiError {
    open spec fn obeys_from_spec() -> bool {
        true
    }

    open spec fn from_spec(err: CartError) -> Self {
        match err {
            CartError::ProductNotFound { product_id } => ApiError::ProductNotFound { product_id },
            CartError::Repo(e) => ApiError::Internal(e),
        }
    }
}

impl From<CheckoutError> for ApiError {
    fn from(err: CheckoutError) -> (r: Self) {
        match err {
            CheckoutError::CartEmpty => ApiError::CartEmpty,
            CheckoutError::InsufficientStock { product_id, requested, available } => {
                ApiError::InsufficientStock { product_id, requested, available }
            },
            CheckoutError::Repo(e) => ApiError::Internal(e),
        }
    }
}

impl vstd::std_specs::convert::FromSpecImpl<CheckoutError> for ApiError {
    open spec fn obeys_from_spec() -> bool {
        true
    }

    open spec fn from_spec(err: CheckoutError) -> Self {
        match err {
            CheckoutError::CartEmpty => ApiError::CartEmpty,
            CheckoutError::InsufficientStock { product_id, requested, available } => {
                ApiError::InsufficientStock { product_id, requested, available }
            },
            CheckoutError::Repo(e) => ApiError::Internal(e),
        }
    }
}

impl From<OrderLookupError> for ApiError {
    fn from(err: OrderLookupError) -> (r: Self) {
        match err {
            OrderLookupError::NotFound { order_id } => ApiError::OrderNotFound { order_id },
            OrderLookupError::Repo(e) => ApiError::Internal(e),
        }
    }
}

impl vstd::std_specs::convert::FromSpecImpl<OrderLookupError> for ApiError {
    open spec fn obeys_from_spec() -> bool {
        true
    }

    open spec fn from_spec(err: OrderLookupError) -> Self {
        match err {
            OrderLookupError::NotFound { order_id } => ApiError::OrderNotFound { order_id },
            OrderLookupError::Repo(e) => ApiError::Internal(e),
        }
    }
}

/// Law: a failure of the infrastructure is answered with a 500 that carries no
/// fields, whatever went wrong, so nothing about the store reaches the client.
pub proof fn law_internal_failures_disclose_nothing(e: RepoError)
    ensures
        spec_parts(ApiError::Internal(e)).0 == 500,
        spec_parts(ApiError::Internal(e)).2.len() == 0,
{
}

// ---------------------------------------------------------------------------
// Authentication
// ---------------------------------------------------------------------------

/// The scheme prefix of an `Authorization` header.
pub open spec fn bearer_prefix() -> Seq<char> {
    seq!['B', 'e', 'a', 'r', 'e', 'r', ' ']
}

/// The session token an `Authorization` header carries: the text after `Bearer `,
/// if it is a valid token. A missing header, another scheme and a malformed token
/// are the same failure.
pub open spec fn spec_bearer(header: Option<Seq<char>>) -> Option<Seq<char>> {
    match header {
        Some(h) => if h.len() >= 7 && h.take(7) == bearer_prefix() {
            match crate::catalog::spec_validated(h.skip(7), CaseMap::Keep, 128) {
                Ok(t) => Some(t),
                Err(_) => None,
            }
        } else {
            None
        },
        None => None,
    }
}

/// Parses an `Authorization` header value (`None` when absent or not text).
pub fn bearer_token(header: Option<&str>) -> (r: Result<SessionToken, ApiError>)
    ensures
        match spec_bearer(
            match header {
                Some(h) => Some(h@),
                None => None,
            },
        ) {
            Some(t) => r matches Ok(token) && token@ == t,
            None => r == Err::<SessionToken, ApiError>(ApiError::Unauthorized),
        },
{
    let h = match header {
        Some(h) => h,
        None => return Err(ApiError::Unauthorized),
    };
    let v = chars_of(h);
    if v.len() < 7 || v[0] != 'B' || v[1] != 'e' || v[2] != 'a' || v[3] != 'r' || v[4] != 'e'
        || v[5] != 'r' || v[6] != ' ' {
        proof {
            if v@.len() >= 7 && v@.take(7) == bearer_prefix() {
                assert(v@.take(7)[0] == 'B');
                assert(v@.take(7)[6] == ' ');
            }
        }
        return Err(ApiError::Unauthorized);
    }
    proof {
        assert(v@.take(7) =~= bearer_prefix());
    }
    let rest = string_from_chars(v.as_slice(), 7, v.len());
    proof {
        assert(rest@ =~= h@.skip(7));
    }
    match SessionToken::try_new(rest.as_str()) {
        Ok(token) => Ok(token),
        Err(_) => Err(ApiError::Unauthorized),
    }
}

/// The authenticated caller.
#[derive(Debug, PartialEq, Eq)]
pub struct CurrentUser {
    pub user_id: UserId,
    pub email: Email,
}

/// The caller behind a token: the user the session belongs to, or `Unauthorized`
/// when the token is unknown.
pub fn current_user(found: Option<User>) -> (r: Result<CurrentUser, ApiError>)
    ensures
        match found {
            Some(u) => r == Ok::<CurrentUser, ApiError>(CurrentUser { user_id: u.id, email: u.email }),
            None => r == Err::<CurrentUser, ApiError>(ApiError::Unauthorized),
        },
{
    match found {
        Some(u) => Ok(CurrentUser { user_id: u.id, email: u.email }),
        None => Err(ApiError::Unauthorized),
    }
}

// ---------------------------------------------------------------------------
// Request and response bodies
// ---------------------------------------------------------------------------

/// Registration and login credentials, already parsed into domain types.
pub struct Credentials {
    pub email: Email,
    pub password: Password,
}

/// A request to set the quantity of a product in the cart.
#[derive(Debug, PartialEq, Eq)]
pub struct SetCartItem {
    pub product_id: ProductId,
    pub quantity: Quantity,
}

/// The query parameters of a product listing.
#[derive(Debug, Clone, Default)]
pub struct BrowseParams {
    pub search: Option<String>,
    pub category: Option<String>,
}

impl BrowseParams {
    /// The listing request these parameters make: `category` is a category slug.
    pub fn into_query(self) -> (q: BrowseQuery)
        ensures
            q.search == self.search,
            q.category_slug == self.category,
    {
        BrowseQuery { search: self.search, category_slug: self.category }
    }
}

/// The response to a successful registration or login.
#[derive(Debug, PartialEq, Eq)]
pub struct AuthSessionBody {
    pub token: SessionToken,
    pub user_id: UserId,
    pub email: Email,
}

impl From<AuthSession> for AuthSessionBody {
    fn from(session: AuthSession) -> (r: Self) {
        AuthSessionBody { token: session.token, user_id: session.user_id, email: session.email }
    }
}

impl vstd::std_specs::convert::FromSpecImpl<AuthSession> for AuthSessionBody {
    open spec fn obeys_from_spec() -> bool {
        true
    }

    open spec fn from_spec(session: AuthSession) -> Self {
        AuthSessionBody { token: session.token, user_id: session.user_id, email: session.email }
    }
}

} // verus!
