//! Fresh randomness from the operating system.
//!
//! What comes back differs from call to call, so nothing here has a name: each
//! function states only what holds of every outcome.

use argon2::password_hash::SaltString;
use chacha20poly1305::aead::OsRng;
use chacha20poly1305::{AeadCore, KeyInit, XChaCha20Poly1305};
use vstd::prelude::*;
use vstd::utf8::is_ascii_chars;

verus! {

/// `XChaCha20Poly1305::generate_nonce` with the OS generator: 24 random bytes.
#[verifier::external_body]
pub(crate) fn fresh_nonce() -> (nonce: Vec<u8>)
    ensures
        nonce@.len() == 24,
{
    XChaCha20Poly1305::generate_nonce(&mut OsRng).to_vec()
}

/// `XChaCha20Poly1305::generate_key` with the OS generator: 32 random bytes.
#[verifier::external_body]
pub(crate) fn fresh_key() -> (key: Vec<u8>)
    ensures
        key@.len() == 32,
{
    XChaCha20Poly1305::generate_key(&mut OsRng).to_vec()
}

/// `SaltString::generate` with the OS generator: 16 random bytes as 22
/// characters of unpadded base64, all of them ASCII.
#[verifier::external_body]
pub(crate) fn fresh_salt() -> (salt: String)
    ensures
        salt@.len() == 22,
        is_ascii_chars(salt@),
{
    SaltString::generate(&mut OsRng).as_str().to_owned()
}

} // verus!
