//! Text primitives shared by every validated string type: whitespace, trimming,
//! case mapping, decimal rendering, and the checks behind `not_empty` and
//! `len_char_max`.
use vstd::prelude::*;
use vstd::string::*;

verus! {

/// The Unicode `White_Space` property, which `char::is_whitespace` and `str::trim` use.
pub open spec fn is_ws(c: char) -> bool {
    ||| '\u{9}' <= c <= '\u{d}'
    ||| c == ' '
    ||| c == '\u{85}'
    ||| c == '\u{a0}'
    ||| c == '\u{1680}'
    ||| '\u{2000}' <= c <= '\u{200a}'
    ||| c == '\u{2028}'
    ||| c == '\u{2029}'
    ||| c == '\u{202f}'
    ||| c == '\u{205f}'
    ||| c == '\u{3000}'
}

pub fn is_whitespace(c: char) -> (b: bool)
    ensures
        b == is_ws(c),
{
    ('\u{9}' <= c && c <= '\u{d}') || c == ' ' || c == '\u{85}' || c == '\u{a0}' || c
        == '\u{1680}' || ('\u{2000}' <= c && c <= '\u{200a}') || c == '\u{2028}' || c
        == '\u{2029}' || c == '\u{202f}' || c == '\u{205f}' || c == '\u{3000}'
}

/// Number of whitespace characters at the start of `s`.
pub open spec fn leading_ws(s: Seq<char>) -> nat
    decreases s.len(),
{
    if s.len() > 0 && is_ws(s[0]) {
        1 + leading_ws(s.drop_first())
    } else {
        0
    }
}

/// Number of whitespace characters at the end of `s`.
pub open spec fn trailing_ws(s: Seq<char>) -> nat
    decreases s.len(),
{
    if s.len() > 0 && is_ws(s.last()) {
        1 + trailing_ws(s.drop_last())
    } else {
        0
    }
}

/// `s` without its leading and trailing whitespace.
pub open spec fn spec_trim(s: Seq<char>) -> Seq<char> {
    if leading_ws(s) == s.len() {
        Seq::empty()
    } else {
        s.subrange(leading_ws(s) as int, s.len() - trailing_ws(s))
    }
}

/// Whether any character of `s` is whitespace.
pub open spec fn has_ws(s: Seq<char>) -> bool {
    exists|i: int| 0 <= i < s.len() && is_ws(#[trigger] s[i])
}

proof fn lemma_leading_ws(s: Seq<char>, i: int)
    requires
        0 <= i <= s.len(),
        forall|j: int| 0 <= j < i ==> is_ws(#[trigger] s[j]),
        i == s.len() || !is_ws(s[i]),
    ensures
        leading_ws(s) == i,
    decreases i,
{
    if i > 0 {
        lemma_leading_ws(s.drop_first(), i - 1);
    }
}

proof fn lemma_trailing_ws(s: Seq<char>, k: int)
    requires
        0 <= k <= s.len(),
        forall|j: int| s.len() - k <= j < s.len() ==> is_ws(#[trigger] s[j]),
        k == s.len() || !is_ws(s[s.len() - 1 - k]),
    ensures
        trailing_ws(s) == k,
    decreases k,
{
    if k > 0 {
        let t = s.drop_last();
        assert forall|j: int| t.len() - (k - 1) <= j < t.len() implies is_ws(#[trigger] t[j]) by {
            assert(t[j] == s[j]);
        }
        if k - 1 < t.len() {
            assert(t[t.len() - 1 - (k - 1)] == s[s.len() - 1 - k]);
        }
        lemma_trailing_ws(t, k - 1);
    }
}

/// A string without whitespace is its own trim.
pub proof fn lemma_trim_without_ws(s: Seq<char>)
    requires
        !has_ws(s),
    ensures
        spec_trim(s) == s,
{
    lemma_leading_ws(s, 0);
    if s.len() > 0 {
        lemma_trailing_ws(s, 0);
        assert(s.subrange(0, s.len() as int) =~= s);
    }
}

/// The characters of a string slice, in order.
pub(crate) fn chars_of(s: &str) -> (v: Vec<char>)
    ensures
        v@ == s@,
{
    broadcast use vstd::string::axiom_spec_iter;

    let mut v: Vec<char> = Vec::new();
    for c in it: s.chars()
        invariant
            it.seq() == s@,
            v@ == it.seq().take(it.index() as int),
    {
        proof {
            assert(it.seq().take(it.index() + 1) =~= it.seq().take(it.index() as int).push(c));
        }
        v.push(c);
    }
    proof {
        assert(s@.take(s@.len() as int) =~= s@);
    }
    v
}

/// Appends one character to a string.
#[verifier::external_body]
pub(crate) fn push_char(s: &mut String, c: char)
    ensures
        final(s)@ == old(s)@.push(c),
{
    s.push(c)
}

/// Appends a string to another.
pub(crate) fn push_str(s: &mut String, t: &String)
    ensures
        final(s)@ == old(s)@ + t@,
{
    s.append(t.as_str());
}

/// An owned copy of a string slice.
pub(crate) fn string_of(s: &str) -> (r: String)
    ensures
        r@ == s@,
{
    String::from_str(s)
}

/// The string made of the characters `v[from..to]`.
pub(crate) fn string_from_chars(v: &[char], from: usize, to: usize) -> (s: String)
    requires
        from <= to <= v@.len(),
    ensures
        s@ == v@.subrange(from as int, to as int),
{
    let mut s = String::new();
    let mut i = from;
    while i < to
        invariant
            from <= i <= to <= v@.len(),
            s@ == v@.subrange(from as int, i as int),
        decreases to - i,
    {
        push_char(&mut s, v[i]);
        proof {
            assert(v@.subrange(from as int, i + 1) =~= v@.subrange(from as int, i as int).push(
                v@[i as int],
            ));
        }
        i = i + 1;
    }
    s
}

/// `str::trim`: the slice without leading and trailing whitespace.
pub fn trim(s: &str) -> (r: String)
    ensures
        r@ == spec_trim(s@),
{
    let v = chars_of(s);
    let n = v.len();
    let mut a: usize = 0;
    while a < n && is_whitespace(v[a])
        invariant
            a <= n == v@.len(),
            forall|j: int| 0 <= j < a ==> is_ws(#[trigger] v@[j]),
        decreases n - a,
    {
        a = a + 1;
    }
    proof {
        lemma_leading_ws(v@, a as int);
    }
    if a == n {
        return String::new();
    }
    let mut k: usize = 0;
    while k < n - a && is_whitespace(v[n - 1 - k])
        invariant
            a < n == v@.len(),
            k <= n - a,
            forall|j: int| n - k <= j < n ==> is_ws(#[trigger] v@[j]),
        decreases n - a - k,
    {
        k = k + 1;
    }
    proof {
        if k == n - a {
            assert(is_ws(v@[a as int]));
            assert(false);
        }
        lemma_trailing_ws(v@, k as int);
    }
    string_from_chars(&v, a, n - k)
}

/// Names the result of `str::to_lowercase` (the Unicode lowercase mapping).
pub uninterp spec fn spec_to_lowercase(s: Seq<char>) -> Seq<char>;

/// Names the result of `str::to_uppercase` (the Unicode uppercase mapping).
pub uninterp spec fn spec_to_uppercase(s: Seq<char>) -> Seq<char>;

/// Every character is ASCII.
pub open spec fn is_ascii_text(s: Seq<char>) -> bool {
    forall|i: int| 0 <= i < s.len() ==> (#[trigger] s[i]) as u32 <= 127
}

/// The lowercase of an ASCII character: `A`-`Z` become `a`-`z`, the rest stay.
pub open spec fn ascii_lower_char(c: char) -> char {
    if 'A' <= c <= 'Z' {
        ((c as u32) + 32) as char
    } else {
        c
    }
}

/// Lower-casing character by character, as it goes on ASCII text.
pub open spec fn ascii_lower(s: Seq<char>) -> Seq<char> {
    s.map_values(|c: char| ascii_lower_char(c))
}

/// On ASCII text, the Unicode lowercase mapping is the ASCII one.
pub open spec fn lowercases_as_ascii(s: Seq<char>) -> bool {
    is_ascii_text(s) ==> spec_to_lowercase(s) == ascii_lower(s)
}

/// Calls `str::to_lowercase`, the Unicode lowercase mapping. Its result is named;
/// on ASCII text it is the ASCII mapping (Unicode lower-cases `A`-`Z` to `a`-`z` and
/// gives no other ASCII character a lowercase form).
#[verifier::external_body]
pub(crate) fn to_lowercase(s: &str) -> (r: String)
    ensures
        r@ == spec_to_lowercase(s@),
        is_ascii_text(s@) ==> r@ == ascii_lower(s@),
{
    s.to_lowercase()
}

/// Calls `str::to_uppercase`; its result is named, not described.
#[verifier::external_body]
pub(crate) fn to_uppercase(s: &str) -> (r: String)
    ensures
        r@ == spec_to_uppercase(s@),
{
    s.to_uppercase()
}

/// Why a piece of text was refused by a validated string type.
#[derive(Debug, Clone, Copy, PartialEq, Eq, Structural)]
pub enum TextError {
    /// The sanitized text was empty.
    NotEmptyViolated,
    /// The sanitized text had more characters than the type allows.
    LenCharMaxViolated,
    /// The sanitized text failed the type's own predicate.
    PredicateViolated,
}

/// The `not_empty` then `len_char_max` checks, in that order.
pub open spec fn spec_check_len(v: Seq<char>, max: nat) -> Option<TextError> {
    if v.len() == 0 {
        Some(TextError::NotEmptyViolated)
    } else if v.len() > max {
        Some(TextError::LenCharMaxViolated)
    } else {
        None
    }
}

pub fn check_len(v: &String, max: usize) -> (r: Option<TextError>)
    ensures
        r == spec_check_len(v@, max as nat),
{
    let n = v.as_str().unicode_len();
    if n == 0 {
        Some(TextError::NotEmptyViolated)
    } else if n > max {
        Some(TextError::LenCharMaxViolated)
    } else {
        None
    }
}

/// The message a validated type gives for a refusal, e.g. `ProductId is empty.`
pub open spec fn spec_text_error_message(kind_name: Seq<char>, max: nat, e: TextError) -> Seq<
    char,
> {
    match e {
        TextError::NotEmptyViolated => kind_name + " is empty."@,
        TextError::LenCharMaxViolated => kind_name + " is too long: the maximum valid length is "@
            + spec_int_decimal(max as int) + (if max == 1 {
            " character."@
        } else {
            " characters."@
        }),
        TextError::PredicateViolated => kind_name + " failed the predicate test."@,
    }
}

pub fn text_error_message(kind_name: &str, max: usize, e: TextError) -> (s: String)
    requires
        max <= i64::MAX,
    ensures
        s@ == spec_text_error_message(kind_name@, max as nat, e),
{
    let mut s = string_of(kind_name);
    match e {
        TextError::NotEmptyViolated => {
            push_str(&mut s, &string_of(" is empty."));
        },
        TextError::LenCharMaxViolated => {
            push_str(&mut s, &string_of(" is too long: the maximum valid length is "));
            push_str(&mut s, &int_to_decimal(max as i64));
            if max == 1 {
                push_str(&mut s, &string_of(" character."));
            } else {
                push_str(&mut s, &string_of(" characters."));
            }
        },
        TextError::PredicateViolated => {
            push_str(&mut s, &string_of(" failed the predicate test."));
        },
    }
    s
}

/// The ASCII digit for a value below ten.
pub open spec fn spec_digit_char(d: nat) -> char {
    if d == 0 {
        '0'
    } else if d == 1 {
        '1'
    } else if d == 2 {
        '2'
    } else if d == 3 {
        '3'
    } else if d == 4 {
        '4'
    } else if d == 5 {
        '5'
    } else if d == 6 {
        '6'
    } else if d == 7 {
        '7'
    } else if d == 8 {
        '8'
    } else {
        '9'
    }
}

pub fn digit_char(d: u8) -> (c: char)
    requires
        d < 10,
    ensures
        c == spec_digit_char(d as nat),
{
    if d == 0 {
        '0'
    } else if d == 1 {
        '1'
    } else if d == 2 {
        '2'
    } else if d == 3 {
        '3'
    } else if d == 4 {
        '4'
    } else if d == 5 {
        '5'
    } else if d == 6 {
        '6'
    } else if d == 7 {
        '7'
    } else if d == 8 {
        '8'
    } else {
        '9'
    }
}

/// The decimal digits of a natural number, most significant first.
pub open spec fn spec_nat_decimal(n: nat) -> Seq<char>
    decreases n,
{
    if n < 10 {
        seq![spec_digit_char(n)]
    } else {
        spec_nat_decimal(n / 10) + seq![spec_digit_char(n % 10)]
    }
}

/// The decimal rendering of an integer, with a leading `-` when negative.
pub open spec fn spec_int_decimal(x: int) -> Seq<char> {
    if x < 0 {
        seq!['-'] + spec_nat_decimal((-x) as nat)
    } else {
        spec_nat_decimal(x as nat)
    }
}

/// Renders an integer in decimal, as `to_string` does.
pub fn int_to_decimal(x: i64) -> (s: String)
    ensures
        s@ == spec_int_decimal(x as int),
{
    let mut m: u64 = if x < 0 {
        (0i128 - x as i128) as u64
    } else {
        x as u64
    };
    let ghost orig: nat = m as nat;
    let mut digits: Vec<char> = Vec::new();
    while m >= 10
        invariant
            spec_nat_decimal(orig) == spec_nat_decimal(m as nat) + digits@,
        decreases m,
    {
        let d = (m % 10) as u8;
        digits.insert(0, digit_char(d));
        proof {
            assert(spec_nat_decimal(m as nat) == spec_nat_decimal((m / 10) as nat) + seq![
                spec_digit_char((m % 10) as nat),
            ]);
            assert(spec_nat_decimal(orig) =~= spec_nat_decimal((m / 10) as nat) + digits@);
        }
        m = m / 10;
    }
    let mut s = String::new();
    if x < 0 {
        push_char(&mut s, '-');
    }
    push_char(&mut s, digit_char(m as u8));
    let ghost prefix = s@;
    let mut i: usize = 0;
    while i < digits.len()
        invariant
            i <= digits@.len(),
            s@ == prefix + digits@.subrange(0, i as int),
        decreases digits.len() - i,
    {
        push_char(&mut s, digits[i]);
        proof {
            assert(digits@.subrange(0, i + 1) =~= digits@.subrange(0, i as int).push(
                digits@[i as int],
            ));
        }
        i = i + 1;
    }
    proof {
        assert(digits@.subrange(0, digits@.len() as int) =~= digits@);
        assert(spec_nat_decimal(m as nat) == seq![spec_digit_char(m as nat)]);
        if x < 0 {
            assert(s@ =~= seq!['-'] + spec_nat_decimal(orig));
        } else {
            assert(s@ =~= spec_nat_decimal(orig));
        }
    }
    s
}

} // verus!

verus! {

/// The case mapping a validated string type applies after trimming.
#[derive(Debug, Clone, Copy, PartialEq, Eq, Structural)]
pub enum CaseMap {
    Keep,
    Lower,
    Upper,
}

/// Trim, then map case: the sanitizers of the validated string types.
pub open spec fn spec_sanitize(raw: Seq<char>, case: CaseMap) -> Seq<char> {
    match case {
        CaseMap::Keep => spec_trim(raw),
        CaseMap::Lower => spec_to_lowercase(spec_trim(raw)),
        CaseMap::Upper => spec_to_uppercase(spec_trim(raw)),
    }
}

/// Sanitizes `raw` and applies the `not_empty` and `len_char_max` checks.
pub fn sanitize_checked(raw: &str, case: CaseMap, max: usize) -> (r: Result<String, TextError>)
    ensures
        match r {
            Ok(v) => v@ == spec_sanitize(raw@, case) && spec_check_len(v@, max as nat) is None,
            Err(e) => spec_check_len(spec_sanitize(raw@, case), max as nat) == Some(e),
        },
{
    let trimmed = trim(raw);
    let value = match case {
        CaseMap::Keep => trimmed,
        CaseMap::Lower => to_lowercase(trimmed.as_str()),
        CaseMap::Upper => to_uppercase(trimmed.as_str()),
    };
    match check_len(&value, max) {
        Some(e) => Err(e),
        None => Ok(value),
    }
}

/// Whether two strings hold the same characters.
pub fn same_text(a: &String, b: &String) -> (r: bool)
    ensures
        r == (a@ == b@),
{
    a.eq(b)
}

} // verus!
