//! The transport encoding of inline image payloads.
//!
//! The remote service carries image bytes as standard base64 text. Encoding
//! and decoding are done by the `base64` crate behind trusted wrappers; the
//! round-trip guarantee is stated once there and proved through to the
//! public functions.

use vstd::prelude::*;
use crate::error::ImagoError;

verus! {

pub uninterp spec fn spec_b64_encode(bytes: Seq<u8>) -> Seq<char>;

pub uninterp spec fn spec_b64_decode(s: Seq<char>) -> Option<Seq<u8>>;

/// Relies on base64's standard engine (`Engine::encode` with the `STANDARD`
/// padded alphabet): the result depends on the bytes alone, and decoding it
/// with the same engine gives the bytes back.
#[verifier::external_body]
fn engine_encode(bytes: &Vec<u8>) -> (r: String)
    ensures
        r@ == spec_b64_encode(bytes@),
        spec_b64_decode(r@) == Some(bytes@),
{
    base64::Engine::encode(&base64::engine::general_purpose::STANDARD, bytes)
}

/// Relies on base64's standard engine (`Engine::decode` with the `STANDARD`
/// padded alphabet): the outcome depends on the characters alone, and the
/// call fails exactly on input that is not well-formed base64.
#[verifier::external_body]
fn engine_decode(s: &str) -> (r: Result<Vec<u8>, String>)
    ensures
        match r {
            Ok(v) => spec_b64_decode(s@) == Some(v@),
            Err(_) => spec_b64_decode(s@) is None,
        },
{
    match base64::Engine::decode(&base64::engine::general_purpose::STANDARD, s) {
        Ok(v) => Ok(v),
        Err(e) => Err(e.to_string()),
    }
}

/// Encode bytes into the transport encoding.
pub fn encode_payload(bytes: &Vec<u8>) -> (r: String)
    ensures
        r@ == spec_b64_encode(bytes@),
        spec_b64_decode(r@) == Some(bytes@),
{
    engine_encode(bytes)
}

/// Decode an inline payload from the transport encoding; a malformed payload
/// is reported as a decoding error.
pub fn decode_inline_payload(data: &str) -> (r: Result<Vec<u8>, ImagoError>)
    ensures
        match r {
            Ok(v) => spec_b64_decode(data@) == Some(v@),
            Err(e) => spec_b64_decode(data@) is None && e matches ImagoError::Base64Error(_),
        },
{
    match engine_decode(data) {
        Ok(v) => Ok(v),
        Err(m) => Err(ImagoError::Base64Error(m)),
    }
}

/// Law: decoding an encoded payload returns the original bytes exactly, for
/// every byte sequence.
pub fn transport_round_trip(bytes: &Vec<u8>) -> (r: Vec<u8>)
    ensures
        r@ == bytes@,
{
    let encoded = encode_payload(bytes);
    match decode_inline_payload(encoded.as_str()) {
        Ok(v) => v,
        Err(_) => {
            proof {
                assert(false);
            }
            Vec::new()
        },
    }
}

} // verus!
