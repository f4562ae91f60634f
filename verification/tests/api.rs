use ecommerce::api::{bearer_token, current_user, ApiError, AuthSessionBody, BrowseParams, FieldValue};
use ecommerce::catalog::ProductId;
use ecommerce::errors::{CartError, CheckoutError, LoginError, RegisterError, RepoError};
use ecommerce::order::OrderId;
use ecommerce::user::{Email, PasswordHash, SessionToken, User, UserId, UtcTimestamp};
use ecommerce::workflows::auth::AuthSession;

fn user() -> User {
    User {
        id: UserId::try_new("u-1").unwrap(),
        email: Email::try_new("alice@example.com").unwrap(),
        password_hash: PasswordHash::try_new("00:00").unwrap(),
        created_at: UtcTimestamp { secs: 0, nanos: 0 },
    }
}

#[test]
fn every_failure_has_its_status_and_tag() {
    let cases: Vec<(ApiError, u16, &str)> = vec![
        (ApiError::DecodeError("bad".to_owned()), 400, "HttpApiDecodeError"),
        (ApiError::Unauthorized, 401, "Unauthorized"),
        (ApiError::InvalidCredentials, 401, "InvalidCredentials"),
        (ApiError::EmailTaken { email: Email::try_new("a@b.co").unwrap() }, 409, "EmailTaken"),
        (ApiError::ProductNotFound { product_id: ProductId::try_new("p").unwrap() }, 404, "ProductNotFound"),
        (ApiError::OrderNotFound { order_id: OrderId::try_new("o").unwrap() }, 404, "OrderNotFound"),
        (ApiError::CartEmpty, 409, "CartEmpty"),
        (
            ApiError::InsufficientStock { product_id: ProductId::try_new("p").unwrap(), requested: 5, available: 3 },
            409,
            "InsufficientStock",
        ),
        (ApiError::Internal(RepoError::Unavailable("db down".to_owned())), 500, "InternalServerError"),
    ];
    for (error, status, tag) in cases {
        let parts = error.parts();
        assert_eq!(parts.status, status);
        assert_eq!(parts.tag, tag);
    }
}

#[test]
fn insufficient_stock_carries_its_numbers() {
    let parts = ApiError::InsufficientStock {
        product_id: ProductId::try_new("p-headphones").unwrap(),
        requested: 50,
        available: 3,
    }
    .parts();
    assert_eq!(
        parts.fields,
        vec![
            ("productId", FieldValue::Text("p-headphones".to_owned())),
            ("requested", FieldValue::Count(50)),
            ("available", FieldValue::Count(3)),
        ]
    );
}

#[test]
fn internal_failures_carry_no_fields() {
    let parts = ApiError::Internal(RepoError::Corrupt("users.email: secret".to_owned())).parts();
    assert!(parts.fields.is_empty());
    assert!(ApiError::Unauthorized.parts().fields.is_empty());
}

#[test]
fn workflow_errors_map_to_api_errors() {
    assert_eq!(ApiError::from(LoginError::InvalidCredentials), ApiError::InvalidCredentials);
    assert_eq!(
        ApiError::from(RegisterError::EmailTaken { email: Email::try_new("a@b.co").unwrap() }),
        ApiError::EmailTaken { email: Email::try_new("a@b.co").unwrap() }
    );
    assert_eq!(
        ApiError::from(CartError::ProductNotFound { product_id: ProductId::try_new("p").unwrap() }),
        ApiError::ProductNotFound { product_id: ProductId::try_new("p").unwrap() }
    );
    assert_eq!(ApiError::from(CheckoutError::CartEmpty), ApiError::CartEmpty);
    assert_eq!(
        ApiError::from(CheckoutError::Repo(RepoError::Corrupt("x".to_owned()))),
        ApiError::Internal(RepoError::Corrupt("x".to_owned()))
    );
}

#[test]
fn a_bearer_header_yields_its_token() {
    let token = bearer_token(Some("Bearer abc-123")).expect("valid");
    assert_eq!(token.as_ref(), "abc-123");
    let trimmed = bearer_token(Some("Bearer   spaced  ")).expect("valid after trimming");
    assert_eq!(trimmed.as_ref(), "spaced");
}

#[test]
fn missing_and_malformed_tokens_are_unauthorized() {
    assert_eq!(bearer_token(None), Err(ApiError::Unauthorized));
    assert_eq!(bearer_token(Some("Basic abc")), Err(ApiError::Unauthorized));
    assert_eq!(bearer_token(Some("Bearer")), Err(ApiError::Unauthorized));
    assert_eq!(bearer_token(Some("Bearer    ")), Err(ApiError::Unauthorized));
    assert_eq!(bearer_token(Some(&format!("Bearer {}", "t".repeat(129)))), Err(ApiError::Unauthorized));
}

#[test]
fn an_unknown_session_is_unauthorized() {
    assert_eq!(current_user(None), Err(ApiError::Unauthorized));
    let current = current_user(Some(user())).expect("known");
    assert_eq!(current.user_id.as_ref(), "u-1");
    assert_eq!(current.email.as_ref(), "alice@example.com");
}

#[test]
fn browse_params_name_a_category_slug() {
    let query = BrowseParams { search: Some("lap".to_owned()), category: Some("laptops".to_owned()) }.into_query();
    assert_eq!(query.search.as_deref(), Some("lap"));
    assert_eq!(query.category_slug.as_deref(), Some("laptops"));
}

#[test]
fn a_session_body_copies_the_session() {
    let body = AuthSessionBody::from(AuthSession {
        token: SessionToken::try_new("t-1").unwrap(),
        user_id: UserId::try_new("u-1").unwrap(),
        email: Email::try_new("a@b.co").unwrap(),
    });
    assert_eq!(body.token.as_ref(), "t-1");
    assert_eq!(body.user_id.as_ref(), "u-1");
    assert_eq!(body.email.as_ref(), "a@b.co");
}
