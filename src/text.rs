//! Well-formedness of text payloads.

use vstd::prelude::*;

verus! {

/// Whether the bytes are well-formed UTF-8.
pub uninterp spec fn utf8_valid(b: Seq<u8>) -> bool;

/// Relies on `std::str::from_utf8`, which accepts exactly the well-formed
/// UTF-8 sequences, the empty one among them.
#[verifier::external_body]
pub(crate) fn is_utf8(b: &Vec<u8>) -> (r: bool)
    ensures
        r == utf8_valid(b@),
        b@.len() == 0 ==> r,
{
    std::str::from_utf8(b.as_slice()).is_ok()
}

} // verus!
