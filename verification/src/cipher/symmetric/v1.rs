//! Version 1 of the symmetric backend: the caller's key, base64 text that
//! stands for exactly 32 bytes, keys the stream directly. The metadata is the
//! nonce prefix alone.

use crate::cipher::aead::{StreamOpener, StreamSealer, KEY_LEN, NONCE_PREFIX_LEN, TAG_LEN};
use crate::cipher::encoding::{
    base64_decode, base64_decoded, base64_encode, base64_encoded,
};
use crate::cipher::random::fresh_nonce;
use crate::cipher::secret::wipe_bytes;
use crate::cipher::stream::{
    bytes_outcome, interior_chunks, open_outcome, opened_stream, sealed_stream,
};
use crate::error::{CipherError, EnvioError, MetadataError};
use vstd::prelude::*;
use vstd::slice::slice_subrange;

verus! {

/// The public parameters of one encryption: the 19-byte nonce prefix as
/// base64 text.
#[derive(Debug)]
pub struct MetadataV1 {
    pub nonce: String,
}

/// What a [`MetadataV1`] holds.
pub struct MetadataV1View {
    pub nonce: Seq<char>,
}

impl View for MetadataV1 {
    type V = MetadataV1View;

    open spec fn view(&self) -> MetadataV1View {
        MetadataV1View { nonce: self.nonce@ }
    }
}

impl Clone for MetadataV1 {
    fn clone(&self) -> (copy: Self)
        ensures
            copy@ == self@,
    {
        MetadataV1 { nonce: self.nonce.clone() }
    }
}

impl Default for MetadataV1 {
    fn default() -> (metadata: Self)
        ensures
            metadata@.nonce == Seq::<char>::empty(),
    {
        MetadataV1 { nonce: String::new() }
    }
}

/// Why `key` cannot be used, if it cannot: it is not base64, or it stands for
/// a number of bytes other than 32.
pub open spec fn key_error(key: Seq<char>) -> Option<EnvioError> {
    match base64_decoded(key) {
        None => Some(EnvioError::Cipher(CipherError::InvalidKeyEncoding)),
        Some(bytes) => if bytes.len() != KEY_LEN {
            Some(EnvioError::Cipher(CipherError::InvalidKeyLength))
        } else {
            None
        },
    }
}

/// Why [`encrypt`] fails, if it does: the key is looked at first, the length
/// of the payload next.
pub open spec fn encrypt_error(key: Seq<char>, data_len: nat) -> Option<EnvioError> {
    match key_error(key) {
        Some(e) => Some(e),
        None => if interior_chunks(data_len) > u32::MAX {
            Some(EnvioError::Cipher(CipherError::PayloadTooLong))
        } else {
            None
        },
    }
}

/// What holds of every successful [`encrypt`]: the metadata's nonce is the
/// base64 text of a 19-byte prefix, `sealed` is the ciphertext of `data` under
/// the key's bytes and that prefix, 16 bytes longer than `data` for every
/// chunk, and it opens to `data` again.
pub open spec fn encrypted(
    key: Seq<char>,
    data: Seq<u8>,
    sealed: Seq<u8>,
    metadata: MetadataV1View,
) -> bool {
    &&& base64_decoded(key) matches Some(key_bytes)
    &&& key_bytes.len() == KEY_LEN
    &&& base64_decoded(metadata.nonce) matches Some(prefix)
    &&& prefix.len() == NONCE_PREFIX_LEN
    &&& metadata.nonce == base64_encoded(prefix)
    &&& sealed == sealed_stream(key_bytes, prefix, data)
    &&& sealed.len() == data.len() + TAG_LEN * (interior_chunks(data.len()) + 1)
    &&& opened_stream(key_bytes, prefix, sealed) == Some(data)
}

/// The part of a drawn nonce that the stream uses: its first 19 bytes.
pub open spec fn nonce_prefix(nonce: Seq<u8>) -> Seq<u8> {
    nonce.subrange(0, NONCE_PREFIX_LEN as int)
}

/// The metadata of an encryption that drew `nonce`: the base64 text of the
/// nonce's prefix. It depends on nothing but the draw.
pub open spec fn drawn_metadata(nonce: Seq<u8>) -> MetadataV1View {
    MetadataV1View { nonce: base64_encoded(nonce_prefix(nonce)) }
}

/// What holds of every successful [`encrypt_with`]: the metadata is that of
/// the drawn nonce and decodes to the nonce's prefix again, `sealed` is the
/// ciphertext of `data` under the key's bytes and that prefix, and all of
/// [`encrypted`] holds.
pub open spec fn encrypted_with(
    key: Seq<char>,
    data: Seq<u8>,
    nonce: Seq<u8>,
    sealed: Seq<u8>,
    metadata: MetadataV1View,
) -> bool {
    &&& metadata == drawn_metadata(nonce)
    &&& base64_decoded(metadata.nonce) == Some(nonce_prefix(nonce))
    &&& sealed == sealed_stream(base64_decoded(key)->Some_0, nonce_prefix(nonce), data)
    &&& encrypted(key, data, sealed, metadata)
}

/// Why [`encrypt_with`] fails, if it does: the key is looked at first, then
/// the drawn nonce, which must have 19 bytes at least, then the length of the
/// payload.
pub open spec fn encrypt_with_error(key: Seq<char>, nonce_len: nat, data_len: nat) -> Option<
    EnvioError,
> {
    match key_error(key) {
        Some(e) => Some(e),
        None => if nonce_len < NONCE_PREFIX_LEN {
            Some(EnvioError::Metadata(MetadataError::Malformed))
        } else if interior_chunks(data_len) > u32::MAX {
            Some(EnvioError::Cipher(CipherError::PayloadTooLong))
        } else {
            None
        },
    }
}

/// What [`decrypt`] returns: the key's error if it has one, a metadata error
/// where the nonce is not base64 for 19 bytes, an authentication failure where
/// any chunk fails, else the plaintext.
pub open spec fn decrypted(key: Seq<char>, metadata: MetadataV1View, sealed: Seq<u8>) -> Result<
    Seq<u8>,
    EnvioError,
> {
    match key_error(key) {
        Some(e) => Err(e),
        None => match base64_decoded(metadata.nonce) {
            None => Err(EnvioError::Metadata(MetadataError::Malformed)),
            Some(prefix) => open_outcome(base64_decoded(key)->Some_0, prefix, sealed),
        },
    }
}

/// Accepts decoded key bytes exactly when there are 32 of them.
pub fn check_key_length(key_bytes: &[u8]) -> (r: Result<(), EnvioError>)
    ensures
        r is Ok <==> key_bytes@.len() == KEY_LEN,
        r matches Err(e) ==> e == EnvioError::Cipher(CipherError::InvalidKeyLength),
{
    if key_bytes.len() != KEY_LEN {
        Err(EnvioError::Cipher(CipherError::InvalidKeyLength))
    } else {
        Ok(())
    }
}

/// Decodes a key and checks its length, before any cryptographic work. The
/// bytes of a key of the wrong length are wiped before the error is returned.
pub fn decode_key(key: &str) -> (r: Result<Vec<u8>, EnvioError>)
    ensures
        match key_error(key@) {
            Some(e) => r == Err::<Vec<u8>, EnvioError>(e),
            None => r matches Ok(bytes) && base64_decoded(key@) == Some(bytes@),
        },
{
    match base64_decode(key) {
        Err(_) => Err(EnvioError::Cipher(CipherError::InvalidKeyEncoding)),
        Ok(bytes) => {
            let mut bytes = bytes;
            match check_key_length(bytes.as_slice()) {
                Err(e) => {
                    wipe_bytes(&mut bytes);
                    Err(e)
                },
                Ok(_) => Ok(bytes),
            }
        },
    }
}

/// Encrypts `data` under the decoded key with the drawn nonce, and wipes the
/// key as soon as the stream is keyed.
fn encrypt_keyed(key_bytes: Vec<u8>, data: &[u8], nonce: &[u8]) -> (r: Result<
    (Vec<u8>, MetadataV1),
    EnvioError,
>)
    requires
        key_bytes@.len() == KEY_LEN,
    ensures
        match r {
            Ok((sealed, metadata)) => {
                &&& nonce@.len() >= NONCE_PREFIX_LEN
                &&& interior_chunks(data@.len()) <= u32::MAX
                &&& metadata@ == drawn_metadata(nonce@)
                &&& base64_decoded(metadata@.nonce) == Some(nonce_prefix(nonce@))
                &&& sealed@ == sealed_stream(key_bytes@, nonce_prefix(nonce@), data@)
                &&& sealed@.len() == data@.len() + TAG_LEN * (interior_chunks(data@.len()) + 1)
                &&& opened_stream(key_bytes@, nonce_prefix(nonce@), sealed@) == Some(data@)
            },
            Err(e) => if nonce@.len() < NONCE_PREFIX_LEN {
                e == EnvioError::Metadata(MetadataError::Malformed)
            } else {
                interior_chunks(data@.len()) > u32::MAX && e == EnvioError::Cipher(
                    CipherError::PayloadTooLong,
                )
            },
        },
{
    let mut key_bytes = key_bytes;
    if nonce.len() < NONCE_PREFIX_LEN {
        wipe_bytes(&mut key_bytes);
        return Err(EnvioError::Metadata(MetadataError::Malformed));
    }
    let prefix = slice_subrange(nonce, 0, NONCE_PREFIX_LEN);
    let keyed = StreamSealer::new(key_bytes.as_slice(), prefix);
    wipe_bytes(&mut key_bytes);
    let sealed = match keyed {
        Ok(sealer) => sealer.seal(data)?,
        Err(e) => {
            return Err(e);
        },
    };
    let metadata = MetadataV1 { nonce: base64_encode(prefix) };
    Ok((sealed, metadata))
}

/// Encrypts `data` under `key` with the nonce that was drawn for it.
///
/// This is all of [`encrypt`] but the draw. The metadata is made of the nonce
/// alone: neither the key nor the payload has any part in it. The ciphertext
/// is fixed by the key's bytes, the nonce's first 19 bytes and the payload.
/// Fails exactly on a key that is not base64 for 32 bytes, on a nonce of fewer
/// than 19 bytes, or on a payload of more than `u32::MAX` full chunks.
pub fn encrypt_with(key: &str, data: &[u8], nonce: &[u8]) -> (r: Result<
    (Vec<u8>, MetadataV1),
    EnvioError,
>)
    ensures
        match r {
            Ok((sealed, metadata)) => {
                &&& encrypt_with_error(key@, nonce@.len(), data@.len()) is None
                &&& encrypted_with(key@, data@, nonce@, sealed@, metadata@)
            },
            Err(e) => encrypt_with_error(key@, nonce@.len(), data@.len()) == Some(e),
        },
{
    let key_bytes = decode_key(key)?;
    encrypt_keyed(key_bytes, data, nonce)
}

/// Encrypts `data` under `key` with a fresh random nonce.
///
/// Returns the ciphertext and the metadata that decryption needs. The key is
/// judged before anything is drawn, and its decoded bytes are wiped as soon as
/// the stream is keyed. What is done with the draw is what [`encrypt_with`]
/// does. Fails exactly on a key that is not base64 for 32 bytes, or on a
/// payload of more than `u32::MAX` full chunks.
pub fn encrypt(key: &str, data: &[u8]) -> (r: Result<(Vec<u8>, MetadataV1), EnvioError>)
    ensures
        match r {
            Ok((sealed, metadata)) => {
                &&& encrypt_error(key@, data@.len()) is None
                &&& encrypted(key@, data@, sealed@, metadata@)
            },
            Err(e) => encrypt_error(key@, data@.len()) == Some(e),
        },
{
    let key_bytes = decode_key(key)?;
    let nonce = fresh_nonce();
    encrypt_keyed(key_bytes, data, nonce.as_slice())
}

/// Decrypts `sealed` under `key` and the nonce that `metadata` holds. The
/// decoded key is wiped as soon as the stream is keyed, and on failure too.
pub fn decrypt(key: &str, metadata: &MetadataV1, sealed: &[u8]) -> (r: Result<
    Vec<u8>,
    EnvioError,
>)
    ensures
        bytes_outcome(r) == decrypted(key@, metadata@, sealed@),
{
    let mut key_bytes = decode_key(key)?;
    let prefix = match base64_decode(metadata.nonce.as_str()) {
        Ok(prefix) => prefix,
        Err(_) => {
            wipe_bytes(&mut key_bytes);
            return Err(EnvioError::Metadata(MetadataError::Malformed));
        },
    };
    let keyed = StreamOpener::new(key_bytes.as_slice(), prefix.as_slice());
    wipe_bytes(&mut key_bytes);
    match keyed {
        Ok(opener) => opener.open(sealed),
        Err(e) => Err(e),
    }
}

/// Decrypting what [`encrypt`] produced, under the same key and with the
/// metadata it returned, gives the plaintext back.
pub proof fn lemma_decrypt_inverts_encrypt(
    key: Seq<char>,
    data: Seq<u8>,
    sealed: Seq<u8>,
    metadata: MetadataV1View,
)
    requires
        encrypted(key, data, sealed, metadata),
    ensures
        decrypted(key, metadata, sealed) == Ok::<Seq<u8>, EnvioError>(data),
{
}

/// A key that stands for 31 or 33 bytes, or for any number but 32, is
/// rejected by both directions with the same error, whatever the payload.
pub proof fn lemma_wrong_key_length_rejected(
    key: Seq<char>,
    metadata: MetadataV1View,
    data_len: nat,
    sealed: Seq<u8>,
)
    requires
        base64_decoded(key) matches Some(bytes) && bytes.len() != KEY_LEN,
    ensures
        encrypt_error(key, data_len) == Some(
            EnvioError::Cipher(CipherError::InvalidKeyLength),
        ),
        decrypted(key, metadata, sealed) == Err::<Seq<u8>, EnvioError>(
            EnvioError::Cipher(CipherError::InvalidKeyLength),
        ),
{
}

/// The metadata carries nothing of the key or of the payload: two encryptions
/// that drew the same nonce have the same metadata, whatever was encrypted
/// under whichever key.
pub proof fn lemma_metadata_of_the_draw_alone(
    nonce: Seq<u8>,
    key: Seq<char>,
    data: Seq<u8>,
    sealed: Seq<u8>,
    metadata: MetadataV1View,
    other_key: Seq<char>,
    other_data: Seq<u8>,
    other_sealed: Seq<u8>,
    other_metadata: MetadataV1View,
)
    requires
        encrypted_with(key, data, nonce, sealed, metadata),
        encrypted_with(other_key, other_data, nonce, other_sealed, other_metadata),
    ensures
        metadata == other_metadata,
{
}

/// A fresh nonce shows: two encryptions whose drawn nonces differ in their
/// first 19 bytes have different nonces in their metadata, and ciphertexts of
/// the same length where the payloads have the same length.
pub proof fn lemma_distinct_draws_distinct_metadata(
    key: Seq<char>,
    data: Seq<u8>,
    nonce: Seq<u8>,
    sealed: Seq<u8>,
    metadata: MetadataV1View,
    other_key: Seq<char>,
    other_data: Seq<u8>,
    other_nonce: Seq<u8>,
    other_sealed: Seq<u8>,
    other_metadata: MetadataV1View,
)
    requires
        encrypted_with(key, data, nonce, sealed, metadata),
        encrypted_with(other_key, other_data, other_nonce, other_sealed, other_metadata),
        nonce_prefix(nonce) != nonce_prefix(other_nonce),
    ensures
        metadata.nonce != other_metadata.nonce,
        data.len() == other_data.len() ==> sealed.len() == other_sealed.len(),
{
}

} // verus!
