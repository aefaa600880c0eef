//! Fresh identifiers for requests.

use vstd::prelude::*;
use crate::text::is_digit;

verus! {

/// The bytes of a printed UUID: lower-case hexadecimal digits and `-`.
pub open spec fn is_id_byte(b: u8) -> bool {
    is_digit(b) || (97 <= b <= 102) || b == 45
}

pub open spec fn is_id_text(s: Seq<u8>) -> bool {
    &&& s.len() == 36
    &&& forall|i: int| 0 <= i < s.len() ==> is_id_byte(#[trigger] s[i])
}

/// Calls `uuid::Uuid::new_v4` and prints the result. Trusted: the text has the
/// hyphenated form, 36 bytes of lower-case hexadecimal digits and `-`. Which UUID it
/// is depends on the system's random source, so nothing more is claimed; where that
/// source gives no bytes at all, `uuid` panics.
#[verifier::external_body]
fn uuid_v4() -> (r: Vec<u8>)
    ensures
        is_id_text(r@),
{
    uuid::Uuid::new_v4().to_string().into_bytes()
}

/// A fresh identifier for a request: a random UUID in its hyphenated form.
pub fn create_unique_id() -> (r: Vec<u8>)
    ensures
        is_id_text(r@),
{
    uuid_v4()
}

} // verus!
