//! Password hashing with scrypt: the stored form is `hex(salt):hex(derived key)`.
use vstd::prelude::*;
use vstd::arithmetic::power2::pow2;
use vstd::string::*;
use vstd::utf8::encode_utf8;
use rand::RngCore;
use subtle::ConstantTimeEq;

use crate::errors::RepoError;
use crate::text::{
    chars_of, push_char, push_str, spec_text_error_message, string_from_chars, string_of, TextError,
};
use crate::ports::PasswordHasher;
use crate::user::{Password, PasswordHash};

verus! {

// ---------------------------------------------------------------------------
// Hex encoding
// ---------------------------------------------------------------------------

/// The lower-case hex digit for a value below sixteen.
pub open spec fn spec_hex_digit(n: nat) -> char {
    if n < 10 {
        crate::text::spec_digit_char(n)
    } else if n == 10 {
        'a'
    } else if n == 11 {
        'b'
    } else if n == 12 {
        'c'
    } else if n == 13 {
        'd'
    } else if n == 14 {
        'e'
    } else {
        'f'
    }
}

/// Two lower-case hex digits per byte, most significant nibble first.
pub open spec fn spec_hex(bytes: Seq<u8>) -> Seq<char>
    decreases bytes.len(),
{
    if bytes.len() == 0 {
        Seq::empty()
    } else {
        spec_hex(bytes.drop_last()) + seq![
            spec_hex_digit((bytes.last() / 16) as nat),
            spec_hex_digit((bytes.last() % 16) as nat),
        ]
    }
}

/// The value of a hex digit, in either case.
pub open spec fn spec_hex_value(c: char) -> Option<u8> {
    if '0' <= c <= '9' {
        Some((c as u32 - '0' as u32) as u8)
    } else if 'a' <= c <= 'f' {
        Some((c as u32 - 'a' as u32 + 10) as u8)
    } else if 'A' <= c <= 'F' {
        Some((c as u32 - 'A' as u32 + 10) as u8)
    } else {
        None
    }
}

/// What `u8::from_str_radix(pair, 16)` gives for a two-character pair:
/// an optional leading `+` followed by hex digits.
pub open spec fn spec_pair_value(c0: char, c1: char) -> Option<u8> {
    if c0 == '+' {
        spec_hex_value(c1)
    } else {
        match (spec_hex_value(c0), spec_hex_value(c1)) {
            (Some(a), Some(b)) => Some((a * 16 + b) as u8),
            _ => None,
        }
    }
}

/// Decodes an even-length sequence of pairs, left to right.
pub open spec fn spec_unhex_pairs(s: Seq<char>) -> Option<Seq<u8>>
    decreases s.len(),
{
    if s.len() < 2 {
        Some(Seq::empty())
    } else {
        match spec_unhex_pairs(s.subrange(0, s.len() - 2)) {
            None => None,
            Some(prefix) => match spec_pair_value(s[s.len() - 2], s[s.len() - 1]) {
                None => None,
                Some(b) => Some(prefix.push(b)),
            },
        }
    }
}

/// Every character is ASCII.
pub open spec fn all_ascii(s: Seq<char>) -> bool {
    forall|i: int| 0 <= i < s.len() ==> (#[trigger] s[i]) as u32 <= 127
}

/// Hex decoding: text with a non-ASCII character or an odd length decodes to nothing;
/// otherwise every pair must decode.
pub open spec fn spec_unhex(s: Seq<char>) -> Option<Seq<u8>> {
    if !all_ascii(s) || s.len() % 2 != 0 {
        None
    } else {
        spec_unhex_pairs(s)
    }
}

fn hex_digit(n: u8) -> (c: char)
    requires
        n < 16,
    ensures
        c == spec_hex_digit(n as nat),
{
    if n < 10 {
        crate::text::digit_char(n)
    } else if n == 10 {
        'a'
    } else if n == 11 {
        'b'
    } else if n == 12 {
        'c'
    } else if n == 13 {
        'd'
    } else if n == 14 {
        'e'
    } else {
        'f'
    }
}

/// Lower-case hex encoding of bytes.
pub fn hex(bytes: &[u8]) -> (s: String)
    ensures
        s@ == spec_hex(bytes@),
{
    let mut out = String::new();
    let mut i: usize = 0;
    while i < bytes.len()
        invariant
            i <= bytes@.len(),
            out@ == spec_hex(bytes@.subrange(0, i as int)),
        decreases bytes.len() - i,
    {
        let b = bytes[i];
        push_char(&mut out, hex_digit(b / 16));
        push_char(&mut out, hex_digit(b % 16));
        proof {
            assert(bytes@.subrange(0, i + 1).drop_last() =~= bytes@.subrange(0, i as int));
        }
        i = i + 1;
    }
    proof {
        assert(bytes@.subrange(0, bytes@.len() as int) =~= bytes@);
    }
    out
}

fn hex_value(c: char) -> (r: Option<u8>)
    ensures
        r == spec_hex_value(c),
{
    if '0' <= c && c <= '9' {
        Some((c as u32 - '0' as u32) as u8)
    } else if 'a' <= c && c <= 'f' {
        Some((c as u32 - 'a' as u32 + 10) as u8)
    } else if 'A' <= c && c <= 'F' {
        Some((c as u32 - 'A' as u32 + 10) as u8)
    } else {
        None
    }
}

fn pair_value(c0: char, c1: char) -> (r: Option<u8>)
    ensures
        r == spec_pair_value(c0, c1),
{
    if c0 == '+' {
        hex_value(c1)
    } else {
        match (hex_value(c0), hex_value(c1)) {
            (Some(a), Some(b)) => Some(a * 16 + b),
            _ => None,
        }
    }
}

/// Hex decoding; one bad pair fails the whole decode.
pub fn unhex(text: &str) -> (r: Option<Vec<u8>>)
    ensures
        match r {
            Some(v) => spec_unhex(text@) == Some(v@),
            None => spec_unhex(text@) is None,
        },
{
    let v = chars_of(text);
    let n = v.len();
    let mut k: usize = 0;
    while k < n
        invariant
            k <= n == v@.len(),
            v@ == text@,
            forall|i: int| 0 <= i < k ==> (#[trigger] v@[i]) as u32 <= 127,
        decreases n - k,
    {
        if v[k] as u32 > 127 {
            proof {
                assert(!all_ascii(v@)) by {
                    assert((v@[k as int]) as u32 > 127);
                }
                assert(v@ == text@);
                assert(!all_ascii(text@));
                assert(spec_unhex(text@) is None);
            }
            return None;
        }
        k = k + 1;
    }
    proof {
        assert(all_ascii(v@));
    }
    if n % 2 != 0 {
        return None;
    }
    let mut out: Vec<u8> = Vec::new();
    let mut i: usize = 0;
    while i < n
        invariant
            i <= n == v@.len(),
            v@ == text@,
            n % 2 == 0,
            i % 2 == 0,
            spec_unhex_pairs(v@.subrange(0, i as int)) == Some(out@),
        decreases n - i,
    {
        proof {
            assert(v@.subrange(0, i + 2).subrange(0, i as int) =~= v@.subrange(0, i as int));
        }
        match pair_value(v[i], v[i + 1]) {
            Some(b) => {
                let ghost before = out@;
                out.push(b);
                proof {
                    let t = v@.subrange(0, i + 2);
                    assert(t[t.len() - 2] == v@[i as int]);
                    assert(t[t.len() - 1] == v@[i + 1]);
                    assert(spec_unhex_pairs(t) == Some(before.push(b)));
                }
            },
            None => {
                proof {
                    let t = v@.subrange(0, i + 2);
                    assert(t[t.len() - 2] == v@[i as int]);
                    assert(t[t.len() - 1] == v@[i + 1]);
                    assert(spec_unhex_pairs(t) is None);
                    lemma_unhex_pairs_none_propagates(v@, i + 2);
                }
                return None;
            },
        }
        i = i + 2;
    }
    proof {
        assert(v@.subrange(0, n as int) =~= v@);
    }
    Some(out)
}

proof fn lemma_unhex_pairs_none_propagates(s: Seq<char>, k: int)
    requires
        2 <= k <= s.len(),
        k % 2 == 0,
        s.len() % 2 == 0,
        spec_unhex_pairs(s.subrange(0, k)) is None,
    ensures
        spec_unhex_pairs(s) is None,
    decreases s.len() - k,
{
    if k < s.len() {
        assert(s.subrange(0, k + 2).subrange(0, k) =~= s.subrange(0, k));
        lemma_unhex_pairs_none_propagates(s, k + 2);
    } else {
        assert(s.subrange(0, k) =~= s);
    }
}

proof fn lemma_hex_shape(bytes: Seq<u8>)
    ensures
        spec_hex(bytes).len() == 2 * bytes.len(),
        all_ascii(spec_hex(bytes)),
        forall|i: int| 0 <= i < spec_hex(bytes).len() ==> #[trigger] spec_hex(bytes)[i] != ':',
    decreases bytes.len(),
{
    if bytes.len() > 0 {
        lemma_hex_shape(bytes.drop_last());
        let h = spec_hex(bytes);
        let p = spec_hex(bytes.drop_last());
        assert forall|i: int| 0 <= i < h.len() implies (#[trigger] h[i]) as u32 <= 127 && h[i]
            != ':' by {
            if i < p.len() {
                assert(h[i] == p[i]);
            }
        }
    }
}

/// Law: decoding an encoding gives the bytes back.
pub proof fn law_unhex_inverts_hex(bytes: Seq<u8>)
    ensures
        spec_unhex(spec_hex(bytes)) == Some(bytes),
{
    lemma_hex_shape(bytes);
    lemma_unhex_pairs_hex(bytes);
}

proof fn lemma_unhex_pairs_hex(bytes: Seq<u8>)
    ensures
        spec_unhex_pairs(spec_hex(bytes)) == Some(bytes),
    decreases bytes.len(),
{
    if bytes.len() > 0 {
        lemma_unhex_pairs_hex(bytes.drop_last());
        lemma_hex_shape(bytes.drop_last());
        let h = spec_hex(bytes);
        let p = spec_hex(bytes.drop_last());
        assert(h.subrange(0, h.len() - 2) =~= p);
        let b = bytes.last();
        assert(spec_pair_value(h[h.len() - 2], h[h.len() - 1]) == Some(b)) by {
            assert(h[h.len() - 2] == spec_hex_digit((b / 16) as nat));
            assert(h[h.len() - 1] == spec_hex_digit((b % 16) as nat));
            assert(b / 16 < 16);
        }
        assert(bytes.drop_last().push(b) =~= bytes);
    } else {
        assert(spec_hex(bytes) =~= Seq::<char>::empty());
    }
}

// ---------------------------------------------------------------------------
// scrypt
// ---------------------------------------------------------------------------

/// The parameter conditions under which `scrypt::Params::new` succeeds.
pub open spec fn scrypt_params_ok(log_n: u8, r: u32, p: u32, len: usize) -> bool {
    &&& r > 0
    &&& p > 0
    &&& log_n < usize::BITS
    &&& 10 <= len <= 64
    &&& r * 128 <= usize::MAX
    &&& r * 128 * pow2(log_n as nat) <= usize::MAX
    &&& r * 128 * p <= usize::MAX
    &&& log_n < r * 16
    &&& r * p < 0x4000_0000
}

/// The length of a derived key, in bytes.
pub const KEY_LEN: usize = 32;

/// The length of a salt, in bytes.
pub const SALT_LEN: usize = 16;

/// Names the key of `key_len` bytes that `scrypt::scrypt` derives from a password
/// and a salt with the cost parameters `log_n`, `r` and `p`.
pub uninterp spec fn spec_scrypt(password: Seq<u8>, salt: Seq<u8>, log_n: u8, r: u32, p: u32, key_len: usize) -> Seq<u8>;

/// Calls `scrypt::Params::new`; true exactly when the parameters are accepted.
#[verifier::external_body]
fn scrypt_params_accepted(log_n: u8, r: u32, p: u32, len: usize) -> (b: bool)
    ensures
        b == scrypt_params_ok(log_n, r, p, len),
{
    scrypt::Params::new(log_n, r, p, len).is_ok()
}

/// Reads `scrypt::Params::recommended()`: log_n 17, r 8, p 1, key length 32.
#[verifier::external_body]
fn scrypt_recommended() -> (v: (u8, u32, u32, usize))
    ensures
        v == (17u8, 8u32, 1u32, 32usize),
{
    let params = scrypt::Params::recommended();
    (params.log_n(), params.r(), params.p(), scrypt::Params::RECOMMENDED_LEN)
}

/// Calls `scrypt::scrypt` into an output buffer of `key_len` bytes, with parameters
/// built by `scrypt::Params::new`. With accepted parameters and a buffer of 1 to
/// (2^32 - 1) * 32 bytes neither call fails; the error text is what the crate would
/// report.
#[verifier::external_body]
fn scrypt_derive(password: &[u8], salt: &[u8], log_n: u8, r: u32, p: u32, len: usize, key_len: usize) -> (res: Result<Vec<u8>, String>)
    requires
        scrypt_params_ok(log_n, r, p, len),
        0 < key_len,
        key_len / 32 <= 0xffff_ffff,
    ensures
        res is Ok,
        res is Ok ==> res->Ok_0@ == spec_scrypt(password@, salt@, log_n, r, p, key_len),
        res is Ok ==> res->Ok_0@.len() == key_len,
{
    let params = scrypt::Params::new(log_n, r, p, len).map_err(|e| e.to_string())?;
    let mut output = vec![0u8; key_len];
    scrypt::scrypt(password, salt, &params, &mut output).map_err(|e| e.to_string())?;
    Ok(output)
}

/// `n` bytes from `rand::rng()` (the thread-local generator, seeded by the OS).
#[verifier::external_body]
fn random_bytes(n: usize) -> (bytes: Vec<u8>)
    ensures
        bytes@.len() == n,
{
    let mut bytes = vec![0u8; n];
    rand::rng().fill_bytes(&mut bytes);
    bytes
}

/// Calls `subtle::ConstantTimeEq::ct_eq` on two byte slices: true exactly when they
/// have the same length and the same bytes.
#[verifier::external_body]
fn constant_time_eq(a: &[u8], b: &[u8]) -> (eq: bool)
    ensures
        eq == (a@ == b@),
{
    bool::from(a.ct_eq(b))
}

// ---------------------------------------------------------------------------
// The hasher
// ---------------------------------------------------------------------------

/// scrypt with interactive-grade parameters.
#[derive(Debug, Clone, Copy)]
pub struct ScryptHasher {
    log_n: u8,
    r: u32,
    p: u32,
    len: usize,
}

/// The stored form of a hash: `hex(salt):hex(derived key)`.
pub open spec fn spec_hash_text(salt: Seq<u8>, key: Seq<u8>) -> Seq<char> {
    spec_hex(salt) + seq![':'] + spec_hex(key)
}

/// `k` is the position of the first `:` in `s`.
pub open spec fn is_first_colon(s: Seq<char>, k: int) -> bool {
    &&& 0 <= k < s.len()
    &&& s[k] == ':'
    &&& forall|j: int| 0 <= j < k ==> s[j] != ':'
}

/// The index of the first `:`, if there is one.
pub open spec fn first_colon(s: Seq<char>) -> Option<int> {
    if exists|k: int| is_first_colon(s, k) {
        Some(choose|k: int| is_first_colon(s, k))
    } else {
        None
    }
}

/// The outcome of checking a password against stored text, with the given cost
/// parameters: split at the first `:`, decode both halves, compare the derived key.
pub open spec fn spec_verify_text(password: Seq<u8>, stored: Seq<char>, log_n: u8, r: u32, p: u32) -> Result<bool, Seq<char>> {
    match first_colon(stored) {
        None => Err("stored hash is malformed"@),
        Some(k) => match (spec_unhex(stored.subrange(0, k)), spec_unhex(stored.subrange(k + 1, stored.len() as int))) {
            (Some(salt), Some(expected)) => Ok(spec_scrypt(password, salt, log_n, r, p, KEY_LEN) == expected),
            _ => Err("stored hash is not valid hex"@),
        },
    }
}

/// A stored text without a colon has no first colon; one with a colon has exactly
/// the first one.
proof fn lemma_first_colon(s: Seq<char>, k: int)
    requires
        is_first_colon(s, k),
    ensures
        first_colon(s) == Some(k),
{
    let c = choose|j: int| is_first_colon(s, j);
    assert(is_first_colon(s, c));
    if c < k {
        assert(s[c] != ':');
    } else if c > k {
        assert(s[k] != ':');
    }
}

/// Law: a password checks out against the text its own hash was stored as, whatever
/// the salt.
pub proof fn law_hash_then_verify(password: Seq<u8>, salt: Seq<u8>, log_n: u8, r: u32, p: u32)
    ensures
        spec_verify_text(
            password,
            spec_hash_text(salt, spec_scrypt(password, salt, log_n, r, p, KEY_LEN)),
            log_n,
            r,
            p,
        ) == Ok::<bool, Seq<char>>(true),
{
    let key = spec_scrypt(password, salt, log_n, r, p, KEY_LEN);
    let t = spec_hash_text(salt, key);
    let k = spec_hex(salt).len() as int;
    lemma_hex_shape(salt);
    lemma_hex_shape(key);
    assert(t[k] == ':');
    assert forall|j: int| 0 <= j < k implies t[j] != ':' by {
        assert(t[j] == spec_hex(salt)[j]);
    }
    lemma_first_colon(t, k);
    assert(t.subrange(0, k) =~= spec_hex(salt));
    assert(t.subrange(k + 1, t.len() as int) =~= spec_hex(key));
    law_unhex_inverts_hex(salt);
    law_unhex_inverts_hex(key);
}

/// Law: whatever salt a hash was made with, the hasher that made it accepts the
/// same password against it: a registration's stored hash lets that password log in.
pub proof fn law_a_stored_hash_accepts_its_password(hasher: ScryptHasher, password: Seq<u8>, stored: Seq<char>)
    requires
        exists|salt: Seq<u8>| #[trigger] spec_hash_text(salt, hasher.derive(password, salt)) == stored,
    ensures
        hasher.check(password, stored) == Ok::<bool, Seq<char>>(true),
{
    let salt = choose|salt: Seq<u8>| #[trigger] spec_hash_text(salt, hasher.derive(password, salt)) == stored;
    law_hash_then_verify(password, salt, hasher.params().0, hasher.params().1, hasher.params().2);
}

impl ScryptHasher {
    #[verifier::type_invariant]
    spec fn params_ok(self) -> bool {
        scrypt_params_ok(self.log_n, self.r, self.p, self.len)
    }

    /// The cost parameters and key length, as `(log_n, r, p, len)`.
    pub closed spec fn params(self) -> (u8, u32, u32, usize) {
        (self.log_n, self.r, self.p, self.len)
    }

    /// The key this hasher derives from a password and a salt.
    pub open spec fn derive(self, password: Seq<u8>, salt: Seq<u8>) -> Seq<u8> {
        spec_scrypt(password, salt, self.params().0, self.params().1, self.params().2, KEY_LEN)
    }

    /// The outcome of checking a password against stored text with this hasher.
    pub open spec fn check(self, password: Seq<u8>, stored: Seq<char>) -> Result<bool, Seq<char>> {
        spec_verify_text(password, stored, self.params().0, self.params().1, self.params().2)
    }

    /// Hashes a password with the given salt: `hex(salt):hex(scrypt(password, salt))`.
    /// A salt so long that the text would exceed what a stored hash may hold is refused.
    pub fn hash_with_salt(&self, password: &Password, salt: &[u8]) -> (res: Result<PasswordHash, RepoError>)
        ensures
            salt@.len() <= 223 ==> (res matches Ok(h) && h@ == spec_hash_text(
                salt@,
                self.derive(encode_utf8(password@), salt@),
            )),
            salt@.len() <= 223 ==> self.derive(encode_utf8(password@), salt@).len() == 32,
            res matches Ok(h) ==> h@.len() == 2 * salt@.len() + 65,
            salt@.len() > 223 ==> (res matches Err(RepoError::Corrupt(m)) && m@ == "hash encoding: "@
                + spec_text_error_message("PasswordHash"@, 512, TextError::LenCharMaxViolated)),
    {
        proof {
            use_type_invariant(self);
        }
        let pw = password.expose().as_bytes();
        let derived = match scrypt_derive(pw, salt, self.log_n, self.r, self.p, self.len, KEY_LEN) {
            Ok(d) => d,
            Err(e) => {
                let mut m = string_of("scrypt misconfigured: ");
                push_str(&mut m, &e);
                return Err(RepoError::Corrupt(m));
            },
        };
        let mut text = hex(salt);
        push_char(&mut text, ':');
        push_str(&mut text, &hex(derived.as_slice()));
        proof {
            lemma_hex_shape(salt@);
            lemma_hex_shape(derived@);
            assert(text@ =~= spec_hash_text(salt@, derived@));
        }
        match PasswordHash::try_new(text.as_str()) {
            Ok(h) => Ok(h),
            Err(e) => {
                let mut m = string_of("hash encoding: ");
                push_str(&mut m, &PasswordHash::error_message(e));
                Err(RepoError::Corrupt(m))
            },
        }
    }
}

impl PasswordHasher for ScryptHasher {
    /// Hashes a password with a fresh random 16-byte salt.
    fn hash(&self, password: &Password) -> (res: Result<PasswordHash, RepoError>)
        ensures
            res matches Ok(h) && exists|salt: Seq<u8>|
                salt.len() == 16 && self.derive(encode_utf8(password@), salt).len() == 32
                    && #[trigger] spec_hash_text(salt, self.derive(encode_utf8(password@), salt))
                    == h@,
            res matches Ok(h) && h@.len() == 97,
    {
        let salt = random_bytes(SALT_LEN);
        let res = self.hash_with_salt(password, salt.as_slice());
        proof {
            if res is Ok {
                assert(spec_hash_text(salt@, self.derive(encode_utf8(password@), salt@)) == res->Ok_0@);
            }
        }
        res
    }

    /// Checks a password against a stored hash in constant time. Text that does not
    /// split at a `:` into two hex halves is corrupt data, not a wrong password.
    fn verify(&self, password: &Password, stored: &PasswordHash) -> (res: Result<bool, RepoError>)
        ensures
            match self.check(encode_utf8(password@), stored@) {
                Ok(b) => res == Ok::<bool, RepoError>(b),
                Err(m) => res matches Err(RepoError::Corrupt(s)) && s@ == m,
            },
    {
        proof {
            use_type_invariant(self);
        }
        let text = stored.as_ref();
        let v = chars_of(text);
        let n = v.len();
        let mut k: usize = 0;
        while k < n && v[k] != ':'
            invariant
                k <= n == v@.len(),
                forall|j: int| 0 <= j < k ==> v@[j] != ':',
            decreases n - k,
        {
            k = k + 1;
        }
        if k == n {
            proof {
                if exists|c: int| is_first_colon(v@, c) {
                    let c = choose|c: int| is_first_colon(v@, c);
                    assert(v@[c] != ':');
                }
            }
            return Err(RepoError::Corrupt(string_of("stored hash is malformed")));
        }
        proof {
            lemma_first_colon(v@, k as int);
        }
        let salt_text = string_from_chars(v.as_slice(), 0, k);
        let expected_text = string_from_chars(v.as_slice(), k + 1, n);
        let salt = unhex(salt_text.as_str());
        let expected = unhex(expected_text.as_str());
        match (salt, expected) {
            (Some(salt), Some(expected)) => {
                let pw = password.expose().as_bytes();
                let derived = match scrypt_derive(pw, salt.as_slice(), self.log_n, self.r, self.p, self.len, KEY_LEN) {
                    Ok(d) => d,
                    Err(e) => {
                        let mut m = string_of("scrypt misconfigured: ");
                        push_str(&mut m, &e);
                        return Err(RepoError::Corrupt(m));
                    },
                };
                Ok(constant_time_eq(derived.as_slice(), expected.as_slice()))
            },
            _ => Err(RepoError::Corrupt(string_of("stored hash is not valid hex"))),
        }
    }
}

impl Default for ScryptHasher {
    /// log_n = 14 (about 16 MiB), r = 8, p = 1, a 32-byte key; the recommended
    /// parameters if those were ever refused.
    fn default() -> (h: Self)
        ensures
            h.params() == (14u8, 8u32, 1u32, 32usize),
    {
        proof {
            vstd::arithmetic::power2::lemma2_to64();
        }
        if scrypt_params_accepted(14, 8, 1, 32) {
            ScryptHasher { log_n: 14, r: 8, p: 1, len: 32 }
        } else {
            let (log_n, r, p, len) = scrypt_recommended();
            ScryptHasher { log_n, r, p, len }
        }
    }
}

} // verus!
