//! Base64 framing of signaling payloads.
//!
//! The base64 transform itself is done by the `base64` crate behind trusted
//! wrappers; everything layered on it is verified against the named results
//! `b64_of` and `b64_decode_of`.
use vstd::prelude::*;

use vstd::string::StrSliceExecFns;
use vstd::string::StringSliceAdditionalSpecFns;
use vstd::utf8::{decode_utf8, encode_utf8, valid_utf8};

verus! {

/// The bytes `base64::encode` produces for the given input: the standard
/// alphabet, with padding.
pub uninterp spec fn b64_of(b: Seq<u8>) -> Seq<u8>;

/// What `base64::decode` yields for the given input, if anything.
pub uninterp spec fn b64_decode_of(b: Seq<u8>) -> Option<Seq<u8>>;

/// Why a payload could not be decoded into text.
#[derive(Clone, Copy, PartialEq, Eq, Structural, Debug)]
pub enum CodecError {
    /// The payload is not base64.
    Base64,
    /// The decoded bytes are not UTF-8 text.
    Utf8,
}

/// Relies on `base64::encode`: standard alphabet with padding, a pure
/// function of the input bytes; the result is ASCII text, so its bytes are
/// valid UTF-8.
#[verifier::external_body]
pub(crate) fn b64_encode(b: &Vec<u8>) -> (r: Vec<u8>)
    ensures
        r@ == b64_of(b@),
        valid_utf8(r@),
{
    base64::encode(b).into_bytes()
}

/// Relies on `base64::decode`: a pure function of the input bytes that
/// inverts `base64::encode`.
#[verifier::external_body]
pub(crate) fn b64_decode(b: &Vec<u8>) -> (r: Option<Vec<u8>>)
    ensures
        r is Some <==> b64_decode_of(b@) is Some,
        r matches Some(v) ==> b64_decode_of(b@) == Some(v@),
        r matches Some(v) ==> forall|p: Seq<u8>| b@ == b64_of(p) ==> v@ == p,
        (exists|p: Seq<u8>| b@ == b64_of(p)) ==> r is Some,
{
    match base64::decode(b) {
        Ok(v) => Some(v),
        Err(_) => None,
    }
}

/// Relies on `String::from_utf8`: succeeds exactly on valid UTF-8 and wraps
/// the given bytes unchanged.
#[verifier::external_body]
pub(crate) fn utf8_to_string(b: Vec<u8>) -> (r: Option<String>)
    ensures
        r is Some <==> valid_utf8(b@),
        r matches Some(s) ==> s@ == decode_utf8(b@) && encode_utf8(s@) == b@,
{
    match String::from_utf8(b) {
        Ok(s) => Some(s),
        Err(_) => None,
    }
}

/// Encodes text as base64, as answers are framed for the signaling channel.
pub fn encode(b: &str) -> (r: String)
    ensures
        encode_utf8(r@) == b64_of(b.spec_bytes()),
{
    let bytes = b.as_bytes_vec();
    let enc = b64_encode(&bytes);
    match utf8_to_string(enc) {
        Some(s) => s,
        None => vstd::pervasive::unreached(),
    }
}

/// Decodes base64 text back into the text it frames.
pub fn decode(s: &str) -> (r: Result<String, CodecError>)
    ensures
        b64_decode_of(s.spec_bytes()) is None <==> r == Err::<String, CodecError>(
            CodecError::Base64,
        ),
        b64_decode_of(s.spec_bytes()) matches Some(p) ==> {
            &&& (valid_utf8(p) <==> r is Ok)
            &&& (r matches Ok(t) ==> encode_utf8(t@) == p && t@ == decode_utf8(p))
            &&& (!valid_utf8(p) ==> r == Err::<String, CodecError>(CodecError::Utf8))
        },
        forall|p: Seq<u8>| s.spec_bytes() == b64_of(p) && valid_utf8(p) ==> r is Ok,
{
    let bytes = s.as_bytes_vec();
    match b64_decode(&bytes) {
        None => Err(CodecError::Base64),
        Some(v) => match utf8_to_string(v) {
            None => Err(CodecError::Utf8),
            Some(t) => Ok(t),
        },
    }
}

} // verus!
