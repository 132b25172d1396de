//! Base64 text, specified exactly and computed by the base64 crate.
//!
//! The job feed carries the raw transaction payload as base64 text, and the
//! submission message carries the packed nonce the same way.  The encoding is
//! pinned down byte for byte by [`b64_encoded`]; the two trusted wrappers are
//! held to that spec.

use base64::Engine;
use vstd::prelude::*;
use vstd::string::StringSliceAdditionalSpecFns;

verus! {

/// The standard-alphabet character (as an ASCII byte) for a 6-bit value.
pub open spec fn b64_char_of(v: int) -> u8
    recommends
        0 <= v < 64,
{
    if v < 26 {
        (0x41 + v) as u8  // 'A'..='Z'
    } else if v < 52 {
        (0x61 + v - 26) as u8  // 'a'..='z'
    } else if v < 62 {
        (0x30 + v - 52) as u8  // '0'..='9'
    } else if v == 62 {
        0x2b  // '+'
    } else {
        0x2f  // '/'
    }
}

/// The canonical padded base64 encoding of `bytes` with the standard
/// alphabet: three bytes become four characters, a final group of one or two
/// bytes is padded with `=`.
pub open spec fn b64_encoded(bytes: Seq<u8>) -> Seq<u8>
    decreases bytes.len(),
{
    if bytes.len() == 0 {
        Seq::empty()
    } else if bytes.len() == 1 {
        let b0 = bytes[0];
        seq![b64_char_of((b0 >> 2) as int), b64_char_of(((b0 & 0x3) << 4) as int), 0x3d, 0x3d]
    } else if bytes.len() == 2 {
        let b0 = bytes[0];
        let b1 = bytes[1];
        seq![
            b64_char_of((b0 >> 2) as int),
            b64_char_of((((b0 & 0x3) << 4) | (b1 >> 4)) as int),
            b64_char_of(((b1 & 0xf) << 2) as int),
            0x3d,
        ]
    } else {
        let b0 = bytes[0];
        let b1 = bytes[1];
        let b2 = bytes[2];
        seq![
            b64_char_of((b0 >> 2) as int),
            b64_char_of((((b0 & 0x3) << 4) | (b1 >> 4)) as int),
            b64_char_of((((b1 & 0xf) << 2) | (b2 >> 6)) as int),
            b64_char_of((b2 & 0x3f) as int),
        ] + b64_encoded(bytes.skip(3))
    }
}

/// Relies on `base64::Engine::encode` with the `STANDARD` engine: the
/// standard alphabet with canonical `=` padding, an ASCII string that is a
/// pure function of the input bytes, here returned as its bytes.
#[verifier::external_body]
pub(crate) fn b64_encode(data: &[u8]) -> (r: Vec<u8>)
    ensures
        r@ == b64_encoded(data@),
{
    base64::engine::general_purpose::STANDARD.encode(data).into_bytes()
}

/// Relies on `base64::Engine::decode` with the `STANDARD` engine: it
/// succeeds exactly on canonical padded base64 (the engine is configured to
/// reject foreign symbols, non-canonical padding and nonzero trailing bits),
/// and then returns the bytes that encode to the input.
#[verifier::external_body]
pub(crate) fn b64_decode(s: &str) -> (r: Option<Vec<u8>>)
    ensures
        r matches Some(v) ==> s.spec_bytes() == b64_encoded(v@),
        (exists|v: Seq<u8>| s.spec_bytes() == b64_encoded(v)) ==> r is Some,
{
    match base64::engine::general_purpose::STANDARD.decode(s.as_bytes()) {
        Ok(v) => Some(v),
        Err(_) => None,
    }
}

} // verus!
