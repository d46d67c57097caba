//! Trusted wrappers around the standard base64 alphabet with padding, used
//! for request and response bodies on the wire.

use vstd::prelude::*;
use base64::Engine;

verus! {

/// What base64 encoding of a byte string returns; a function of the bytes
/// alone.
pub uninterp spec fn b64_encoding_of(b: Seq<u8>) -> Seq<char>;

/// What base64 decoding of a string returns: `None` for invalid input,
/// otherwise the decoded bytes; a function of the string alone.
pub uninterp spec fn b64_decoding_of(s: Seq<char>) -> Option<Seq<u8>>;

/// Relies on `base64::engine::general_purpose::STANDARD.encode`: the
/// padded standard-alphabet rendering of the bytes.
#[verifier::external_body]
pub fn b64_encode(data: &Vec<u8>) -> (r: String)
    ensures
        r@ == b64_encoding_of(data@),
{
    base64::engine::general_purpose::STANDARD.encode(data)
}

/// Relies on `base64::engine::general_purpose::STANDARD.decode`: accepts
/// exactly the padded standard-alphabet renderings and inverts the
/// encoding.
#[verifier::external_body]
pub fn b64_decode(s: &str) -> (r: Result<Vec<u8>, String>)
    ensures
        match r {
            Ok(b) => b64_decoding_of(s@) == Some(b@),
            Err(_) => b64_decoding_of(s@) is None,
        },
{
    match base64::engine::general_purpose::STANDARD.decode(s) {
        Ok(b) => Ok(b),
        Err(e) => Err(e.to_string()),
    }
}

} // verus!
