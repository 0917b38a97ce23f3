//! Identifiers that nobody else has.

use vstd::prelude::*;

use crate::text::is_hex;

verus! {

/// The form in which a random UUID is written: groups of 8, 4, 4, 4 and 12
/// hexadecimal digits with hyphens between them. The first digit of the third
/// group says that it is random, that of the fourth group which layout it has.
pub open spec fn is_uuid(s: Seq<char>) -> bool {
    &&& s.len() == 36
    &&& forall|i: int|
        0 <= i < 36 ==> if i == 8 || i == 13 || i == 18 || i == 23 {
            #[trigger] s[i] == '-'
        } else {
            is_hex(s[i])
        }
    &&& s[14] == '4'
    &&& s[19] == '8' || s[19] == '9' || s[19] == 'a' || s[19] == 'b'
}

/// Calls `uuid::Uuid::new_v4` and writes the UUID in its hyphenated form. The
/// claim: the text has the form of a random UUID. Which one it is rests on
/// chance.
#[verifier::external_body]
pub(crate) fn new_uuid() -> (r: String)
    ensures
        is_uuid(r@),
{
    uuid::Uuid::new_v4().to_string()
}

/// A fresh identifier for a device or a session.
pub fn fresh_id() -> (r: String)
    ensures
        is_uuid(r@),
{
    new_uuid()
}

} // verus!
