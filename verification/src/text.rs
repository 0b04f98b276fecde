//! Decoding raw bytes as UTF-8 text.

use vstd::prelude::*;

verus! {

use vstd::utf8::{valid_utf8, decode_utf8};

/// Relies on std's `String::from_utf8`: it returns `Ok` exactly on input that
/// is a valid UTF-8 encoding, and then yields the characters that the bytes
/// encode.
#[verifier::external_body]
pub(crate) fn utf8_to_string(bytes: &[u8]) -> (r: Option<String>)
    ensures
        r is Some <==> valid_utf8(bytes@),
        r matches Some(s) ==> s@ == decode_utf8(bytes@),
{
    String::from_utf8(bytes.to_vec()).ok()
}

} // verus!
