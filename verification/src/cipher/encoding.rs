//! Base64 text for the binary fields that are persisted or typed in: nonces
//! and symmetric keys. The standard alphabet with padding is part of the wire
//! format.
//!
//! The two functions of the `base64` crate get a name each here, since the
//! encoding takes pages to state; what is built on them is verified against
//! the names.

use base64::engine::general_purpose::STANDARD;
use base64::Engine;
use vstd::prelude::*;

verus! {

/// Longest input [`base64_encode`] is stated for.
pub const ENCODE_LIMIT: usize = 65535;

/// The text that `base64::engine::general_purpose::STANDARD.encode` returns.
pub uninterp spec fn base64_encoded(bytes: Seq<u8>) -> Seq<char>;

/// The bytes that `base64::engine::general_purpose::STANDARD.decode` returns,
/// or `None` where it rejects the text.
pub uninterp spec fn base64_decoded(text: Seq<char>) -> Option<Seq<u8>>;

/// `base64::DecodeError`, which says why a text is not base64.
#[verifier::external_type_specification]
#[verifier::external_body]
pub struct ExDecodeError(base64::DecodeError);

/// `Engine::encode` of the standard engine. The crate decodes what it
/// encodes, so the result decodes to `bytes` again. The call panics only where
/// the output length overflows `usize`, which `requires` excludes.
#[verifier::external_body]
pub(crate) fn base64_encode(bytes: &[u8]) -> (text: String)
    requires
        bytes@.len() <= ENCODE_LIMIT,
    ensures
        text@ == base64_encoded(bytes@),
        base64_decoded(text@) == Some(bytes@),
{
    STANDARD.encode(bytes)
}

/// `Engine::decode` of the standard engine.
#[verifier::external_body]
pub(crate) fn base64_decode(text: &str) -> (r: Result<Vec<u8>, base64::DecodeError>)
    ensures
        r matches Ok(bytes) ==> base64_decoded(text@) == Some(bytes@),
        r is Err ==> base64_decoded(text@) is None,
{
    STANDARD.decode(text)
}

/// Encodes a binary field as base64 text. Fields longer than
/// [`ENCODE_LIMIT`] bytes are not encoded.
pub fn encode(bytes: &[u8]) -> (text: Option<String>)
    ensures
        text is Some <==> bytes@.len() <= ENCODE_LIMIT,
        text matches Some(t) ==> t@ == base64_encoded(bytes@) && base64_decoded(t@) == Some(
            bytes@,
        ),
{
    if bytes.len() <= ENCODE_LIMIT {
        Some(base64_encode(bytes))
    } else {
        None
    }
}

/// Decodes base64 text into the bytes it stands for, if it is base64.
pub fn decode(text: &str) -> (bytes: Option<Vec<u8>>)
    ensures
        bytes is Some <==> base64_decoded(text@) is Some,
        bytes matches Some(b) ==> base64_decoded(text@) == Some(b@),
{
    match base64_decode(text) {
        Ok(bytes) => Some(bytes),
        Err(_) => None,
    }
}

} // verus!
