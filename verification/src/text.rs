//! The one bridge from verified byte buffers to `String` values.

use vstd::prelude::*;

verus! {

/// Relies on `String::from_utf8`: ASCII bytes are valid UTF-8 and decode to
/// one identical character per byte.
#[verifier::external_body]
pub fn ascii_to_string(v: Vec<u8>) -> (r: String)
    requires
        forall|i: int| 0 <= i < v@.len() ==> v@[i] < 128,
    ensures
        r@.len() == v@.len(),
        forall|i: int| 0 <= i < v@.len() ==> r@[i] == v@[i] as char,
{
    match String::from_utf8(v) {
        Ok(s) => s,
        Err(_) => String::new(),
    }
}

} // verus!
