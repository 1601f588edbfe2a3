//! Key material in memory.
//!
//! A passphrase or an encoded key lives in a [`SecretString`], which
//! overwrites its text with zeros when it is dropped, on every path. Derived
//! key bytes live in a fixed buffer that is wiped by hand as soon as the
//! cipher has been keyed.

use vstd::prelude::*;
use zeroize::{Zeroize, Zeroizing};

verus! {

/// A `zeroize::Zeroizing<String>`: text that is zeroed on drop.
#[verifier::external_body]
pub struct SecretString {
    inner: Zeroizing<String>,
}

/// The text a secret holds.
pub uninterp spec fn secret_text(secret: SecretString) -> Seq<char>;

/// `Zeroizing::new`: takes the text over as it is.
#[verifier::external_body]
fn secret_wrap(text: String) -> (secret: SecretString)
    ensures
        secret_text(secret) == text@,
{
    SecretString { inner: Zeroizing::new(text) }
}

/// `Deref` of `Zeroizing<String>`, then `String::as_str`: the text as it is.
#[verifier::external_body]
fn secret_expose(secret: &SecretString) -> (text: &str)
    ensures
        text@ == secret_text(*secret),
{
    secret.inner.as_str()
}

/// `Clone` of `Zeroizing<String>`: a second secret with the same text.
#[verifier::external_body]
fn secret_copy(secret: &SecretString) -> (copy: SecretString)
    ensures
        secret_text(copy) == secret_text(*secret),
{
    SecretString { inner: secret.inner.clone() }
}

/// `Zeroize::zeroize` on a byte array: every byte becomes zero.
#[verifier::external_body]
pub(crate) fn wipe(buffer: &mut [u8; 32])
    ensures
        forall|i: int| 0 <= i < 32 ==> final(buffer)@[i] == 0u8,
{
    buffer.zeroize();
}

/// `Zeroize::zeroize` on a byte vector: every byte is overwritten with zero
/// and the vector is emptied.
#[verifier::external_body]
pub(crate) fn wipe_bytes(buffer: &mut Vec<u8>)
    ensures
        final(buffer)@.len() == 0,
{
    buffer.zeroize();
}

impl View for SecretString {
    type V = Seq<char>;

    open spec fn view(&self) -> Seq<char> {
        secret_text(*self)
    }
}

/// The text of a secret that may be absent.
pub open spec fn key_text(key: Option<SecretString>) -> Option<Seq<char>> {
    match key {
        Some(secret) => Some(secret@),
        None => None,
    }
}

impl SecretString {
    /// Takes `text` over as a secret.
    pub fn new(text: String) -> (secret: SecretString)
        ensures
            secret@ == text@,
    {
        secret_wrap(text)
    }

    /// The secret text, for handing to a cipher.
    pub fn as_str(&self) -> (text: &str)
        ensures
            text@ == self@,
    {
        secret_expose(self)
    }

    /// A second secret with the same text, zeroed on drop like the first.
    pub fn duplicate(&self) -> (copy: SecretString)
        ensures
            copy@ == self@,
    {
        secret_copy(self)
    }
}

} // verus!
