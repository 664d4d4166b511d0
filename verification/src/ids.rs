//! Freshly generated identifiers.

use vstd::prelude::*;

verus! {

pub open spec fn is_lower_hex(c: char) -> bool {
    ('0' <= c && c <= '9') || ('a' <= c && c <= 'f')
}

/// The shape of an identifier: thirty-six characters in five groups of
/// lower-case hexadecimal digits, parted by hyphens.
pub open spec fn is_id_text(s: Seq<char>) -> bool {
    &&& s.len() == 36
    &&& forall|i: int|
        0 <= i < 36 ==> if i == 8 || i == 13 || i == 18 || i == 23 {
            s[i] == '-'
        } else {
            is_lower_hex(#[trigger] s[i])
        }
}

/// Calls `uuid::Uuid::new_v4` and formats the result with its `Display`
/// impl. The value is random; the contract states only the hyphenated
/// lower-case form in which `uuid` prints every identifier.
#[verifier::external_body]
pub(crate) fn new_id() -> (id: String)
    ensures
        is_id_text(id@),
{
    uuid::Uuid::new_v4().to_string()
}

} // verus!
