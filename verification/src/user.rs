//! Users, credentials, and sessions.
use vstd::prelude::*;

use crate::catalog::result_view;
use crate::text::{
    ascii_lower, is_ascii_text, lowercases_as_ascii, check_len, chars_of, has_ws, is_whitespace, is_ws, sanitize_checked, spec_check_len,
    spec_text_error_message, spec_to_lowercase, spec_trim, text_error_message,
    CaseMap, TextError,
};

verus! {

/// A point in time, in seconds and nanoseconds since the Unix epoch, UTC.
#[derive(Debug, Clone, Copy, PartialEq, Eq, PartialOrd, Ord, Hash, Structural)]
pub struct UtcTimestamp {
    pub secs: i64,
    pub nanos: u32,
}

/// A user identifier: trimmed, non-empty, at most 64 characters.
#[derive(Debug, PartialEq, Eq, PartialOrd, Ord, Hash)]
pub struct UserId(String);

/// A session token: trimmed, non-empty, at most 128 characters.
#[derive(Debug, PartialEq, Eq, PartialOrd, Ord, Hash)]
pub struct SessionToken(String);

/// A syntactically plausible, normalised (trimmed, lower-cased) email address.
#[derive(Debug, PartialEq, Eq, PartialOrd, Ord, Hash)]
pub struct Email(String);

/// A stored password hash: non-empty, at most 512 characters, kept verbatim.
#[derive(Debug, PartialEq, Eq)]
pub struct PasswordHash(String);

/// A plaintext password of at least 8 characters, on its way to being hashed.
/// It has no `Debug`: `redacted` is the only rendering it offers.
#[derive(PartialEq, Eq)]
pub struct Password(String);

/// The password was shorter than 8 characters.
#[derive(Debug, Clone, Copy, PartialEq, Eq, Structural)]
pub struct PasswordTooShort;

impl View for UserId {
    type V = Seq<char>;

    closed spec fn view(&self) -> Seq<char> {
        self.0@
    }
}

impl View for SessionToken {
    type V = Seq<char>;

    closed spec fn view(&self) -> Seq<char> {
        self.0@
    }
}

impl View for Email {
    type V = Seq<char>;

    closed spec fn view(&self) -> Seq<char> {
        self.0@
    }
}

impl View for PasswordHash {
    type V = Seq<char>;

    closed spec fn view(&self) -> Seq<char> {
        self.0@
    }
}

impl View for Password {
    type V = Seq<char>;

    closed spec fn view(&self) -> Seq<char> {
        self.0@
    }
}

impl UserId {
    pub fn try_new(raw: &str) -> (r: Result<Self, TextError>)
        ensures
            result_view(r) == crate::catalog::spec_validated(raw@, CaseMap::Keep, 64),
    {
        match sanitize_checked(raw, CaseMap::Keep, 64) {
            Ok(v) => Ok(UserId(v)),
            Err(e) => Err(e),
        }
    }

    pub fn as_ref(&self) -> (s: &str)
        ensures
            s@ == self@,
    {
        self.0.as_str()
    }

    pub fn into_inner(self) -> (s: String)
        ensures
            s@ == self@,
    {
        self.0
    }

    pub fn same_as(&self, other: &UserId) -> (r: bool)
        ensures
            r == (self@ == other@),
    {
        crate::text::same_text(&self.0, &other.0)
    }

    pub fn error_message(e: TextError) -> (s: String)
        ensures
            s@ == spec_text_error_message("UserId"@, 64, e),
    {
        text_error_message("UserId", 64, e)
    }
}

impl Clone for UserId {
    fn clone(&self) -> (r: Self)
        ensures
            r == *self,
    {
        UserId(self.0.clone())
    }
}

impl SessionToken {
    pub fn try_new(raw: &str) -> (r: Result<Self, TextError>)
        ensures
            result_view(r) == crate::catalog::spec_validated(raw@, CaseMap::Keep, 128),
    {
        match sanitize_checked(raw, CaseMap::Keep, 128) {
            Ok(v) => Ok(SessionToken(v)),
            Err(e) => Err(e),
        }
    }

    pub fn as_ref(&self) -> (s: &str)
        ensures
            s@ == self@,
    {
        self.0.as_str()
    }

    pub fn into_inner(self) -> (s: String)
        ensures
            s@ == self@,
    {
        self.0
    }

    pub fn error_message(e: TextError) -> (s: String)
        ensures
            s@ == spec_text_error_message("SessionToken"@, 128, e),
    {
        text_error_message("SessionToken", 128, e)
    }
}

impl Clone for SessionToken {
    fn clone(&self) -> (r: Self)
        ensures
            r == *self,
    {
        SessionToken(self.0.clone())
    }
}

impl PasswordHash {
    /// No sanitising: the text is kept exactly as given.
    pub fn try_new(raw: &str) -> (r: Result<Self, TextError>)
        ensures
            match r {
                Ok(h) => h@ == raw@ && spec_check_len(raw@, 512) is None,
                Err(e) => spec_check_len(raw@, 512) == Some(e),
            },
    {
        let value = crate::text::string_of(raw);
        match check_len(&value, 512) {
            Some(e) => Err(e),
            None => Ok(PasswordHash(value)),
        }
    }

    pub fn as_ref(&self) -> (s: &str)
        ensures
            s@ == self@,
    {
        self.0.as_str()
    }

    pub fn into_inner(self) -> (s: String)
        ensures
            s@ == self@,
    {
        self.0
    }

    pub fn error_message(e: TextError) -> (s: String)
        ensures
            s@ == spec_text_error_message("PasswordHash"@, 512, e),
    {
        text_error_message("PasswordHash", 512, e)
    }
}

impl Clone for PasswordHash {
    fn clone(&self) -> (r: Self)
        ensures
            r == *self,
    {
        PasswordHash(self.0.clone())
    }
}

// ---------------------------------------------------------------------------
// Email
// ---------------------------------------------------------------------------

/// `s` splits at `k` into a non-empty local part and a domain: `k` holds the only `@`.
pub open spec fn splits_at(s: Seq<char>, k: int) -> bool {
    &&& 0 < k < s.len() - 1
    &&& s[k] == '@'
    &&& forall|j: int| 0 <= j < s.len() && j != k ==> #[trigger] s[j] != '@'
}

/// The domain after the `@` at `k` contains a dot, but neither starts nor ends with one.
pub open spec fn domain_ok(s: Seq<char>, k: int) -> bool {
    &&& exists|j: int| k < j < s.len() && #[trigger] s[j] == '.'
    &&& s[k + 1] != '.'
    &&& s[s.len() - 1] != '.'
}

/// Deliberately permissive: exactly one `@` with text on both sides, a dotted domain
/// that neither starts nor ends with a dot, and no whitespace anywhere.
pub open spec fn plausible_email(s: Seq<char>) -> bool {
    &&& exists|k: int| splits_at(s, k) && domain_ok(s, k)
    &&& !has_ws(s)
}

/// The normalised form of an address: trimmed, then lower-cased.
pub open spec fn spec_normalize_email(raw: Seq<char>) -> Seq<char> {
    spec_to_lowercase(spec_trim(raw))
}

/// What `Email::try_new` returns for `raw`: the predicate is checked before the length.
pub open spec fn spec_email(raw: Seq<char>) -> Result<Seq<char>, TextError> {
    let v = spec_normalize_email(raw);
    if !plausible_email(v) {
        Err(TextError::PredicateViolated)
    } else if v.len() > 254 {
        Err(TextError::LenCharMaxViolated)
    } else {
        Ok(v)
    }
}

/// The plausibility check on an already-normalised address.
pub fn is_plausible_email(candidate: &str) -> (b: bool)
    ensures
        b == plausible_email(candidate@),
{
    let v = chars_of(candidate);
    let n = v.len();
    let mut first_at: Option<usize> = None;
    let mut second_at = false;
    let mut ws = false;
    let mut i: usize = 0;
    while i < n
        invariant
            n == v@.len(),
            i <= n,
            match first_at {
                None => forall|j: int| 0 <= j < i ==> #[trigger] v@[j] != '@',
                Some(p) => p < i && v@[p as int] == '@' && (forall|j: int|
                    0 <= j < p ==> #[trigger] v@[j] != '@') && (second_at <==> exists|j: int|
                    p < j < i && #[trigger] v@[j] == '@'),
            },
            first_at is None ==> !second_at,
            ws <==> exists|j: int| 0 <= j < i && is_ws(#[trigger] v@[j]),
        decreases n - i,
    {
        let c = v[i];
        if c == '@' {
            match first_at {
                None => {
                    first_at = Some(i);
                },
                Some(_) => {
                    second_at = true;
                },
            }
        }
        if is_whitespace(c) {
            ws = true;
        }
        i = i + 1;
    }
    let k = match first_at {
        None => {
            proof {
                assert(forall|k: int| !splits_at(v@, k)) by {
                    assert forall|k: int| splits_at(v@, k) implies false by {
                        assert(v@[k] == '@');
                    }
                }
            }
            return false;
        },
        Some(p) => p,
    };
    if second_at || ws || k == 0 || k >= n - 1 {
        proof {
            if second_at {
                let j = choose|j: int| k < j < n && #[trigger] v@[j] == '@';
                assert forall|q: int| splits_at(v@, q) implies false by {
                    if q == k {
                        assert(v@[j] == '@');
                    } else {
                        assert(v@[k as int] == '@');
                    }
                }
            } else if !ws {
                assert forall|q: int| splits_at(v@, q) implies false by {
                    if q != k {
                        assert(v@[k as int] == '@');
                    }
                }
            }
        }
        return false;
    }
    proof {
        assert(splits_at(v@, k as int)) by {
            assert forall|j: int| 0 <= j < n && j != k implies #[trigger] v@[j] != '@' by {
                if j > k {
                    if v@[j] == '@' {
                        assert(second_at);
                    }
                }
            }
        }
        assert forall|q: int| splits_at(v@, q) implies q == k by {
            if q != k {
                assert(v@[k as int] == '@');
            }
        }
    }
    // The domain is v[k + 1 .. n]: it needs a dot, and must not start or end with one.
    let mut dot = false;
    let mut j: usize = k + 1;
    while j < n
        invariant
            k + 1 <= j <= n == v@.len(),
            dot <==> exists|m: int| k < m < j && #[trigger] v@[m] == '.',
        decreases n - j,
    {
        if v[j] == '.' {
            dot = true;
        }
        j = j + 1;
    }
    dot && v[k + 1] != '.' && v[n - 1] != '.'
}

impl Email {
    /// Sanitise (trim, lower-case), then check plausibility and length.
    pub fn try_new(raw: &str) -> (r: Result<Self, TextError>)
        ensures
            result_view(r) == spec_email(raw@),
            crate::text::lowercases_as_ascii(spec_trim(raw@)),
    {
        let trimmed = crate::text::trim(raw);
        let value = crate::text::to_lowercase(trimmed.as_str());
        if !is_plausible_email(value.as_str()) {
            return Err(TextError::PredicateViolated);
        }
        if value.as_str().unicode_len() > 254 {
            return Err(TextError::LenCharMaxViolated);
        }
        Ok(Email(value))
    }

    pub fn as_ref(&self) -> (s: &str)
        ensures
            s@ == self@,
    {
        self.0.as_str()
    }

    pub fn into_inner(self) -> (s: String)
        ensures
            s@ == self@,
    {
        self.0
    }

    pub fn error_message(e: TextError) -> (s: String)
        ensures
            s@ == spec_text_error_message("Email"@, 254, e),
    {
        text_error_message("Email", 254, e)
    }
}

impl Clone for Email {
    fn clone(&self) -> (r: Self)
        ensures
            r == *self,
    {
        Email(self.0.clone())
    }
}

/// The documented shape of an address, clause by clause: one `@` at `k` with text
/// on both sides, a `.` somewhere after it, no `.` right after the `@` or at the
/// end, and no whitespace anywhere. Nothing else about its characters matters.
pub open spec fn documented_address_at(s: Seq<char>, k: int) -> bool {
    &&& 0 < k
    &&& k + 1 < s.len()
    &&& s[k] == '@'
    &&& forall|j: int| 0 <= j < s.len() && j != k ==> #[trigger] s[j] != '@'
    &&& exists|d: int| k < d < s.len() && #[trigger] s[d] == '.'
    &&& s[k + 1] != '.'
    &&& s[s.len() - 1] != '.'
    &&& forall|j: int| 0 <= j < s.len() ==> !is_ws(#[trigger] s[j])
}

/// Law: an address is plausible exactly when it has the documented shape, whatever
/// other characters (digits, `-`, `+`, `_`, ...) it holds.
pub proof fn law_plausible_is_the_documented_shape(s: Seq<char>)
    ensures
        plausible_email(s) <==> exists|k: int| documented_address_at(s, k),
{
    if plausible_email(s) {
        let k = choose|k: int| splits_at(s, k) && domain_ok(s, k);
        assert(documented_address_at(s, k));
    }
    if exists|k: int| documented_address_at(s, k) {
        let k = choose|k: int| documented_address_at(s, k);
        assert(splits_at(s, k) && domain_ok(s, k));
        assert(!has_ws(s));
    }
}

/// Law: an address of the documented shape that is already trimmed, lower-case
/// ASCII and at most 254 characters long is accepted as it is.
pub proof fn law_documented_addresses_are_accepted(s: Seq<char>, k: int)
    requires
        documented_address_at(s, k),
        s.len() <= 254,
        is_ascii_text(s),
        ascii_lower(s) == s,
        lowercases_as_ascii(s),
    ensures
        spec_email(s) == Ok::<Seq<char>, TextError>(s),
{
    law_plausible_is_the_documented_shape(s);
    assert(!has_ws(s));
    crate::text::lemma_trim_without_ws(s);
}

proof fn lemma_ascii_lower_keeps_ascii(s: Seq<char>)
    requires
        is_ascii_text(s),
    ensures
        is_ascii_text(ascii_lower(s)),
        ascii_lower(ascii_lower(s)) == ascii_lower(s),
{
    assert(ascii_lower(ascii_lower(s)) =~= ascii_lower(s));
}

/// Law: normalising an accepted ASCII address again changes nothing. The premise
/// about lower-casing is what `Email::try_new` establishes for the text it
/// lower-cases.
pub proof fn law_email_normalisation_is_idempotent(raw: Seq<char>)
    requires
        spec_email(raw) is Ok,
        is_ascii_text(spec_trim(raw)),
        lowercases_as_ascii(spec_trim(raw)),
        lowercases_as_ascii(spec_trim(spec_normalize_email(raw))),
    ensures
        spec_email(spec_normalize_email(raw)) == spec_email(raw),
{
    let v = spec_normalize_email(raw);
    lemma_ascii_lower_keeps_ascii(spec_trim(raw));
    crate::text::lemma_trim_without_ws(v);
}

/// Law: ASCII addresses that differ only in case and surrounding whitespace are one
/// address: they normalise alike, so they are accepted or refused alike, as the
/// same `Email`. The premises about lower-casing are what `Email::try_new`
/// establishes for each.
pub proof fn law_case_and_space_variants_are_one_email(a: Seq<char>, b: Seq<char>)
    requires
        is_ascii_text(spec_trim(a)),
        is_ascii_text(spec_trim(b)),
        ascii_lower(spec_trim(a)) == ascii_lower(spec_trim(b)),
        lowercases_as_ascii(spec_trim(a)),
        lowercases_as_ascii(spec_trim(b)),
    ensures
        spec_normalize_email(a) == spec_normalize_email(b),
        spec_email(a) == spec_email(b),
{
}

// ---------------------------------------------------------------------------
// Password
// ---------------------------------------------------------------------------

impl Password {
    /// At least 8 characters, counted as Unicode scalar values.
    pub fn try_new(raw: String) -> (r: Result<Self, PasswordTooShort>)
        ensures
            match r {
                Ok(p) => raw@.len() >= 8 && p@ == raw@,
                Err(_) => raw@.len() < 8,
            },
    {
        if raw.as_str().unicode_len() < 8 {
            return Err(PasswordTooShort);
        }
        Ok(Password(raw))
    }

    /// The single, deliberately awkward way to read the secret.
    pub fn expose(&self) -> (s: &str)
        ensures
            s@ == self@,
    {
        self.0.as_str()
    }

    /// The only rendering of a password: its contents never appear.
    pub fn redacted(&self) -> (s: String)
        ensures
            s@ == "Password(<redacted>)"@,
    {
        crate::text::string_of("Password(<redacted>)")
    }
}

impl Clone for Password {
    fn clone(&self) -> (r: Self)
        ensures
            r == *self,
    {
        Password(self.0.clone())
    }
}

impl TryFrom<String> for Password {
    type Error = PasswordTooShort;

    fn try_from(raw: String) -> (r: Result<Self, PasswordTooShort>)
        ensures
            match r {
                Ok(p) => raw@.len() >= 8 && p@ == raw@,
                Err(_) => raw@.len() < 8,
            },
    {
        if raw.as_str().unicode_len() < 8 {
            return Err(PasswordTooShort);
        }
        Ok(Password(raw))
    }
}

impl vstd::std_specs::convert::TryFromSpecImpl<String> for Password {
    open spec fn obeys_try_from_spec() -> bool {
        true
    }

    closed spec fn try_from_spec(v: String) -> Result<Self, PasswordTooShort> {
        if v@.len() < 8 {
            Err(PasswordTooShort)
        } else {
            Ok(Password(v))
        }
    }
}

impl PasswordTooShort {
    pub fn message(&self) -> (s: String)
        ensures
            s@ == "password must be at least 8 characters"@,
    {
        crate::text::string_of("password must be at least 8 characters")
    }
}

/// The mathematical view of a user.
pub struct UserView {
    pub id: Seq<char>,
    pub email: Seq<char>,
    pub password_hash: Seq<char>,
    pub created_at: UtcTimestamp,
}

impl View for User {
    type V = UserView;

    open spec fn view(&self) -> UserView {
        UserView {
            id: self.id@,
            email: self.email@,
            password_hash: self.password_hash@,
            created_at: self.created_at,
        }
    }
}

/// A registered user.
#[derive(Debug, PartialEq, Eq)]
pub struct User {
    pub id: UserId,
    pub email: Email,
    pub password_hash: PasswordHash,
    pub created_at: UtcTimestamp,
}

impl Clone for User {
    fn clone(&self) -> (r: Self)
        ensures
            r == *self,
    {
        User {
            id: self.id.clone(),
            email: self.email.clone(),
            password_hash: self.password_hash.clone(),
            created_at: self.created_at,
        }
    }
}

} // verus!
