//! Version 1 of the passphrase backend: Argon2id turns the passphrase and a
//! fresh random salt into the 32-byte key of the stream. The metadata is the
//! salt and the nonce prefix.
//!
//! A wrong passphrase is not detected by comparing anything: it derives
//! another key, under which the first chunk fails to authenticate.

use crate::cipher::aead::{StreamOpener, StreamSealer, KEY_LEN, NONCE_PREFIX_LEN, TAG_LEN};
use crate::cipher::encoding::{
    base64_decode, base64_decoded, base64_encode, base64_encoded,
};
use crate::cipher::kdf::{derive_key, derived_key, kdf_accepts};
use crate::cipher::random::{fresh_nonce, fresh_salt};
use crate::cipher::secret::wipe;
use crate::cipher::stream::{
    bytes_outcome, interior_chunks, open_outcome, opened_stream, sealed_stream,
};
use crate::error::{CipherError, EnvioError, MetadataError};
use vstd::prelude::*;
use vstd::slice::slice_subrange;
use vstd::utf8::{encode_utf8, is_ascii_chars_encode_utf8};

verus! {

/// The public parameters of one encryption: the salt of the derivation and the
/// 19-byte nonce prefix as base64 text.
#[derive(Debug)]
pub struct MetadataV1 {
    pub salt: String,
    pub nonce: String,
}

/// What a [`MetadataV1`] holds.
pub struct MetadataV1View {
    pub salt: Seq<char>,
    pub nonce: Seq<char>,
}

impl View for MetadataV1 {
    type V = MetadataV1View;

    open spec fn view(&self) -> MetadataV1View {
        MetadataV1View { salt: self.salt@, nonce: self.nonce@ }
    }
}

impl Clone for MetadataV1 {
    fn clone(&self) -> (copy: Self)
        ensures
            copy@ == self@,
    {
        MetadataV1 { salt: self.salt.clone(), nonce: self.nonce.clone() }
    }
}

impl Default for MetadataV1 {
    fn default() -> (metadata: Self)
        ensures
            metadata@ == (MetadataV1View { salt: Seq::empty(), nonce: Seq::empty() }),
    {
        MetadataV1 { salt: String::new(), nonce: String::new() }
    }
}

/// The key that a passphrase and a salt derive: both enter the derivation as
/// their UTF-8 bytes.
pub open spec fn key_of(passphrase: Seq<char>, salt: Seq<char>) -> Seq<u8> {
    derived_key(encode_utf8(passphrase), encode_utf8(salt))
}

/// Whether the derivation accepts a passphrase and a salt.
pub open spec fn derivable(passphrase: Seq<char>, salt: Seq<char>) -> bool {
    kdf_accepts(encode_utf8(passphrase).len(), encode_utf8(salt).len())
}

/// Why [`encrypt`] fails, if it does: a passphrase too long for the
/// derivation first, the length of the payload next.
pub open spec fn encrypt_error(passphrase: Seq<char>, data_len: nat) -> Option<EnvioError> {
    if encode_utf8(passphrase).len() > 0xFFFF_FFFF {
        Some(EnvioError::Cipher(CipherError::KeyDerivation))
    } else if interior_chunks(data_len) > u32::MAX {
        Some(EnvioError::Cipher(CipherError::PayloadTooLong))
    } else {
        None
    }
}

/// What holds of every successful [`encrypt`]: the derivation accepts the
/// passphrase and the metadata's salt, the metadata's nonce is the base64 text
/// of a 19-byte prefix, `sealed` is the ciphertext of `data` under the derived
/// key and that prefix, 16 bytes longer than `data` for every chunk, and it
/// opens to `data` again.
pub open spec fn encrypted(
    passphrase: Seq<char>,
    data: Seq<u8>,
    sealed: Seq<u8>,
    metadata: MetadataV1View,
) -> bool {
    &&& derivable(passphrase, metadata.salt)
    &&& key_of(passphrase, metadata.salt).len() == KEY_LEN
    &&& base64_decoded(metadata.nonce) matches Some(prefix)
    &&& prefix.len() == NONCE_PREFIX_LEN
    &&& metadata.nonce == base64_encoded(prefix)
    &&& sealed == sealed_stream(key_of(passphrase, metadata.salt), prefix, data)
    &&& sealed.len() == data.len() + TAG_LEN * (interior_chunks(data.len()) + 1)
    &&& opened_stream(key_of(passphrase, metadata.salt), prefix, sealed) == Some(data)
}

/// The part of a drawn nonce that the stream uses: its first 19 bytes.
pub open spec fn nonce_prefix(nonce: Seq<u8>) -> Seq<u8> {
    nonce.subrange(0, NONCE_PREFIX_LEN as int)
}

/// The metadata of an encryption that drew `salt` and `nonce`: the salt as it
/// is, and the base64 text of the nonce's prefix. It depends on nothing but
/// the two draws.
pub open spec fn drawn_metadata(salt: Seq<char>, nonce: Seq<u8>) -> MetadataV1View {
    MetadataV1View { salt, nonce: base64_encoded(nonce_prefix(nonce)) }
}

/// What holds of every successful [`encrypt_with`]: the metadata is that of
/// the drawn salt and nonce and its nonce decodes to the nonce's prefix again,
/// `sealed` is the ciphertext of `data` under the derived key and that prefix,
/// and all of [`encrypted`] holds.
pub open spec fn encrypted_with(
    passphrase: Seq<char>,
    data: Seq<u8>,
    salt: Seq<char>,
    nonce: Seq<u8>,
    sealed: Seq<u8>,
    metadata: MetadataV1View,
) -> bool {
    &&& metadata == drawn_metadata(salt, nonce)
    &&& base64_decoded(metadata.nonce) == Some(nonce_prefix(nonce))
    &&& sealed == sealed_stream(key_of(passphrase, salt), nonce_prefix(nonce), data)
    &&& encrypted(passphrase, data, sealed, metadata)
}

/// Why [`encrypt_with`] fails, if it does: a passphrase or a salt that the
/// derivation refuses first, then a drawn nonce of fewer than 19 bytes, then
/// the length of the payload.
pub open spec fn encrypt_with_error(
    passphrase: Seq<char>,
    salt: Seq<char>,
    nonce_len: nat,
    data_len: nat,
) -> Option<EnvioError> {
    if !derivable(passphrase, salt) {
        Some(EnvioError::Cipher(CipherError::KeyDerivation))
    } else if nonce_len < NONCE_PREFIX_LEN {
        Some(EnvioError::Metadata(MetadataError::Malformed))
    } else if interior_chunks(data_len) > u32::MAX {
        Some(EnvioError::Cipher(CipherError::PayloadTooLong))
    } else {
        None
    }
}

/// What [`decrypt`] returns: a derivation failure where the passphrase or the
/// salt is refused, a metadata error where the nonce is not base64 for 19
/// bytes, an authentication failure where any chunk fails, else the plaintext.
pub open spec fn decrypted(
    passphrase: Seq<char>,
    metadata: MetadataV1View,
    sealed: Seq<u8>,
) -> Result<Seq<u8>, EnvioError> {
    if !derivable(passphrase, metadata.salt) {
        Err(EnvioError::Cipher(CipherError::KeyDerivation))
    } else {
        match base64_decoded(metadata.nonce) {
            None => Err(EnvioError::Metadata(MetadataError::Malformed)),
            Some(prefix) => open_outcome(key_of(passphrase, metadata.salt), prefix, sealed),
        }
    }
}

/// Encrypts `data` under the key that `key` and `salt` derive, with the nonce
/// that was drawn for it.
///
/// This is all of [`encrypt`] but the two draws. The metadata is made of the
/// salt and the nonce alone: neither the passphrase, nor the derived key, nor
/// the payload has any part in it. The ciphertext is fixed by the derived key,
/// the nonce's first 19 bytes and the payload. The derived key is wiped as
/// soon as the stream is keyed, and on failure too. Fails exactly where the
/// derivation refuses the passphrase or the salt, on a nonce of fewer than 19
/// bytes, or on a payload of more than `u32::MAX` full chunks.
pub fn encrypt_with(key: &str, data: &[u8], salt: &str, nonce: &[u8]) -> (r: Result<
    (Vec<u8>, MetadataV1),
    EnvioError,
>)
    ensures
        match r {
            Ok((sealed, metadata)) => {
                &&& encrypt_with_error(key@, salt@, nonce@.len(), data@.len()) is None
                &&& encrypted_with(key@, data@, salt@, nonce@, sealed@, metadata@)
            },
            Err(e) => encrypt_with_error(key@, salt@, nonce@.len(), data@.len()) == Some(e),
        },
{
    let mut key_material = [0u8;32];
    match derive_key(key.as_bytes(), salt.as_bytes(), &mut key_material) {
        Ok(_) => {},
        Err(e) => {
            wipe(&mut key_material);
            return Err(e);
        },
    }
    if nonce.len() < NONCE_PREFIX_LEN {
        wipe(&mut key_material);
        return Err(EnvioError::Metadata(MetadataError::Malformed));
    }
    let prefix = slice_subrange(nonce, 0, NONCE_PREFIX_LEN);
    let keyed = StreamSealer::new(key_material.as_slice(), prefix);
    wipe(&mut key_material);
    let sealed = match keyed {
        Ok(sealer) => sealer.seal(data)?,
        Err(e) => {
            return Err(e);
        },
    };
    let metadata = MetadataV1 { salt: salt.to_owned(), nonce: base64_encode(prefix) };
    Ok((sealed, metadata))
}

/// Encrypts `data` under a key derived from `key` and a fresh random salt,
/// with a fresh random nonce.
///
/// Returns the ciphertext and the metadata that decryption needs. What is done
/// with the two draws is what [`encrypt_with`] does. Fails exactly on a
/// passphrase of more than 2^32 - 1 bytes, or on a payload of more than
/// `u32::MAX` full chunks.
pub fn encrypt(key: &str, data: &[u8]) -> (r: Result<(Vec<u8>, MetadataV1), EnvioError>)
    ensures
        match r {
            Ok((sealed, metadata)) => {
                &&& encrypt_error(key@, data@.len()) is None
                &&& encrypted(key@, data@, sealed@, metadata@)
            },
            Err(e) => encrypt_error(key@, data@.len()) == Some(e),
        },
{
    let salt = fresh_salt();
    let nonce = fresh_nonce();
    proof {
        is_ascii_chars_encode_utf8(salt@);
    }
    encrypt_with(key, data, salt.as_str(), nonce.as_slice())
}

/// Decrypts `sealed` under the key derived from `key` and the salt that
/// `metadata` holds, with the nonce that `metadata` holds. The derived key is
/// wiped as soon as the stream is keyed, and on failure too.
pub fn decrypt(key: &str, metadata: &MetadataV1, sealed: &[u8]) -> (r: Result<
    Vec<u8>,
    EnvioError,
>)
    ensures
        bytes_outcome(r) == decrypted(key@, metadata@, sealed@),
{
    let mut key_material = [0u8;32];
    match derive_key(key.as_bytes(), metadata.salt.as_str().as_bytes(), &mut key_material) {
        Ok(_) => {},
        Err(e) => {
            wipe(&mut key_material);
            return Err(e);
        },
    }
    let prefix = match base64_decode(metadata.nonce.as_str()) {
        Ok(prefix) => prefix,
        Err(_) => {
            wipe(&mut key_material);
            return Err(EnvioError::Metadata(MetadataError::Malformed));
        },
    };
    let keyed = StreamOpener::new(key_material.as_slice(), prefix.as_slice());
    wipe(&mut key_material);
    match keyed {
        Ok(opener) => opener.open(sealed),
        Err(e) => Err(e),
    }
}

/// Decrypting what [`encrypt`] produced, with the same passphrase and the
/// metadata it returned, gives the plaintext back.
pub proof fn lemma_decrypt_inverts_encrypt(
    passphrase: Seq<char>,
    data: Seq<u8>,
    sealed: Seq<u8>,
    metadata: MetadataV1View,
)
    requires
        encrypted(passphrase, data, sealed, metadata),
    ensures
        decrypted(passphrase, metadata, sealed) == Ok::<Seq<u8>, EnvioError>(data),
{
}

/// The metadata carries nothing of the passphrase, the derived key or the
/// payload: two encryptions that drew the same salt and nonce have the same
/// metadata, whatever was encrypted under whichever passphrase.
pub proof fn lemma_metadata_of_the_draws_alone(
    salt: Seq<char>,
    nonce: Seq<u8>,
    passphrase: Seq<char>,
    data: Seq<u8>,
    sealed: Seq<u8>,
    metadata: MetadataV1View,
    other_passphrase: Seq<char>,
    other_data: Seq<u8>,
    other_sealed: Seq<u8>,
    other_metadata: MetadataV1View,
)
    requires
        encrypted_with(passphrase, data, salt, nonce, sealed, metadata),
        encrypted_with(other_passphrase, other_data, salt, nonce, other_sealed, other_metadata),
    ensures
        metadata == other_metadata,
{
}

/// Fresh draws show: of two encryptions, those whose salts differ have
/// different salts in their metadata, those whose nonces differ in their first
/// 19 bytes have different nonces in their metadata, and the ciphertexts have
/// the same length where the payloads have.
pub proof fn lemma_distinct_draws_distinct_metadata(
    passphrase: Seq<char>,
    data: Seq<u8>,
    salt: Seq<char>,
    nonce: Seq<u8>,
    sealed: Seq<u8>,
    metadata: MetadataV1View,
    other_passphrase: Seq<char>,
    other_data: Seq<u8>,
    other_salt: Seq<char>,
    other_nonce: Seq<u8>,
    other_sealed: Seq<u8>,
    other_metadata: MetadataV1View,
)
    requires
        encrypted_with(passphrase, data, salt, nonce, sealed, metadata),
        encrypted_with(
            other_passphrase,
            other_data,
            other_salt,
            other_nonce,
            other_sealed,
            other_metadata,
        ),
    ensures
        salt != other_salt ==> metadata.salt != other_metadata.salt,
        nonce_prefix(nonce) != nonce_prefix(other_nonce) ==> metadata.nonce
            != other_metadata.nonce,
        data.len() == other_data.len() ==> sealed.len() == other_sealed.len(),
{
}

} // verus!
