//! The one place where fresh identifiers are drawn.
use vstd::prelude::*;

use crate::catalog::spec_validated;
use crate::ports::IdGen;
use crate::text::{has_ws, is_ws, lemma_trim_without_ws, CaseMap};

verus! {

/// Random (version 4) UUIDs in their hyphenated lower-case form.
#[derive(Debug, Clone, Copy, Default)]
pub struct UuidGen;

/// A lower-case hexadecimal digit.
pub open spec fn is_lower_hex(c: char) -> bool {
    ('0' <= c <= '9') || ('a' <= c <= 'f')
}

/// The hyphenated text of a version 4 UUID: 36 characters, hyphens at 8, 13, 18 and
/// 23, lower-case hex digits elsewhere, and the version digit `4` at 14.
pub open spec fn is_uuid_v4_text(s: Seq<char>) -> bool {
    &&& s.len() == 36
    &&& forall|i: int| 0 <= i < 36 ==> (#[trigger] s[i] == '-' <==> (i == 8 || i == 13 || i == 18 || i == 23))
    &&& forall|i: int| 0 <= i < 36 && i != 8 && i != 13 && i != 18 && i != 23 ==> is_lower_hex(#[trigger] s[i])
    &&& s[14] == '4'
}

/// Calls `uuid::Uuid::new_v4()` and renders it with `to_string`, whose `Display` is
/// the hyphenated lower-case form. The bits are random.
#[verifier::external_body]
fn new_v4_text() -> (s: String)
    ensures
        is_uuid_v4_text(s@),
{
    uuid::Uuid::new_v4().to_string()
}

impl IdGen for UuidGen {
    fn next(&self) -> (s: String)
        ensures
            is_uuid_v4_text(s@),
    {
        new_v4_text()
    }
}

/// Law: a generated identifier is accepted unchanged wherever an identifier of at
/// least 36 characters is: as a user id, an order id (64) and a session token (128).
pub proof fn law_generated_ids_are_valid(s: Seq<char>, max: nat)
    requires
        is_uuid_v4_text(s),
        36 <= max,
    ensures
        spec_validated(s, CaseMap::Keep, max) == Ok::<Seq<char>, crate::text::TextError>(s),
{
    assert forall|i: int| 0 <= i < s.len() implies !is_ws(#[trigger] s[i]) by {
        if s[i] != '-' {
            assert(is_lower_hex(s[i]));
        }
    }
    assert(!has_ws(s));
    lemma_trim_without_ws(s);
}

} // verus!
