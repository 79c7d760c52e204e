//! Fresh identifiers for new records, stations and viewer sessions.
use vstd::prelude::*;

verus! {

/// A lower-case hexadecimal digit.
pub open spec fn is_lower_hex(c: char) -> bool {
    ('0' <= c && c <= '9') || ('a' <= c && c <= 'f')
}

/// The hyphenated lower-case form of a UUID: 36 characters, hyphens at
/// positions 8, 13, 18 and 23 and lower-case hexadecimal digits elsewhere.
pub open spec fn uuid_shaped(s: Seq<char>) -> bool {
    &&& s.len() == 36
    &&& forall|i: int|
        0 <= i < 36 ==> (if i == 8 || i == 13 || i == 18 || i == 23 {
            #[trigger] s[i] == '-'
        } else {
            is_lower_hex(s[i])
        })
}

/// A fresh random UUID in its hyphenated form. Calls `uuid::Uuid::new_v4`
/// and formats it with `Display`, which writes the lower-case hyphenated
/// form; which UUID comes back is left open.
#[verifier::external_body]
pub(crate) fn new_uuid() -> (r: String)
    ensures
        uuid_shaped(r@),
{
    uuid::Uuid::new_v4().to_string()
}

} // verus!
