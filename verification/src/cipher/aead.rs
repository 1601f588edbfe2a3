//! The boundary to the XChaCha20-Poly1305 STREAM objects.
//!
//! Nothing in this file is proved. It declares the two stateful stream objects
//! of the `aead` crate, gives names to what they hold and to what the
//! underlying AEAD computes, and states for each call what the `aead` and
//! `chacha20poly1305` sources show. Everything built on top is verified
//! against these statements.

use chacha20poly1305::aead::stream::{DecryptorBE32, EncryptorBE32};
use chacha20poly1305::{Key, KeyInit, XChaCha20Poly1305};
use vstd::prelude::*;

verus! {

/// Length of an XChaCha20-Poly1305 key in bytes.
pub const KEY_LEN: usize = 32;

/// Length of the per-stream nonce prefix in bytes. The remaining five bytes of
/// the 24-byte AEAD nonce are the segment counter and the final-segment flag.
pub const NONCE_PREFIX_LEN: usize = 19;

/// Length of the authentication tag appended to every sealed segment.
pub const TAG_LEN: usize = 16;

/// Largest segment the wrappers below are stated for.
pub const SEGMENT_LIMIT: usize = 65535;

/// `chacha20poly1305::XChaCha20Poly1305::encrypt` with empty associated data:
/// the ciphertext followed by its 16-byte tag.
pub uninterp spec fn aead_sealed(key: Seq<u8>, nonce: Seq<u8>, plaintext: Seq<u8>) -> Seq<u8>;

/// `chacha20poly1305::XChaCha20Poly1305::decrypt` with empty associated data:
/// the plaintext, or `None` where the tag does not verify.
pub uninterp spec fn aead_opened(key: Seq<u8>, nonce: Seq<u8>, sealed: Seq<u8>) -> Option<
    Seq<u8>,
>;

/// The four bytes of `position` in big-endian order.
pub open spec fn be32(position: nat) -> Seq<u8> {
    seq![
        ((position / 0x100_0000) % 0x100) as u8,
        ((position / 0x1_0000) % 0x100) as u8,
        ((position / 0x100) % 0x100) as u8,
        (position % 0x100) as u8,
    ]
}

/// The 24-byte AEAD nonce of one segment: the stream's prefix, then the
/// segment's position as a 32-bit big-endian counter, then one byte that is 1
/// for the final segment and 0 for every other.
pub open spec fn segment_nonce(prefix: Seq<u8>, position: nat, last: bool) -> Seq<u8> {
    prefix + be32(position) + seq![if last { 1u8 } else { 0u8 }]
}

/// `aead::Error`, the opaque failure of every AEAD operation.
#[verifier::external_type_specification]
#[verifier::external_body]
pub struct ExAeadError(chacha20poly1305::Error);

/// An `aead::stream::EncryptorBE32<XChaCha20Poly1305>`: a key, a nonce prefix
/// and the position of the next segment.
#[verifier::external_body]
pub struct StreamSealer {
    inner: EncryptorBE32<XChaCha20Poly1305>,
}

/// The key a sealer was made with.
pub uninterp spec fn sealer_key(sealer: StreamSealer) -> Seq<u8>;

/// The nonce prefix a sealer was made with.
pub uninterp spec fn sealer_prefix(sealer: StreamSealer) -> Seq<u8>;

/// The position of the segment a sealer seals next.
pub uninterp spec fn sealer_position(sealer: StreamSealer) -> u32;

/// An `aead::stream::DecryptorBE32<XChaCha20Poly1305>`: a key, a nonce prefix
/// and the position of the next segment.
#[verifier::external_body]
pub struct StreamOpener {
    inner: DecryptorBE32<XChaCha20Poly1305>,
}

/// The key an opener was made with.
pub uninterp spec fn opener_key(opener: StreamOpener) -> Seq<u8>;

/// The nonce prefix an opener was made with.
pub uninterp spec fn opener_prefix(opener: StreamOpener) -> Seq<u8>;

/// The position of the segment an opener opens next.
pub uninterp spec fn opener_position(opener: StreamOpener) -> u32;

/// `XChaCha20Poly1305::new` and `EncryptorBE32::from_aead`: a sealer over the
/// given key and prefix, positioned at segment 0. Both calls panic on a slice
/// of the wrong length, which `requires` excludes.
#[verifier::external_body]
pub(crate) fn sealer_new(key: &[u8], prefix: &[u8]) -> (sealer: StreamSealer)
    requires
        key@.len() == KEY_LEN,
        prefix@.len() == NONCE_PREFIX_LEN,
    ensures
        sealer_key(sealer) == key@,
        sealer_prefix(sealer) == prefix@,
        sealer_position(sealer) == 0,
{
    let aead = XChaCha20Poly1305::new(Key::from_slice(key));
    StreamSealer { inner: EncryptorBE32::from_aead(aead, prefix.into()) }
}

/// `EncryptorBE32::encrypt_next`: fails only when the counter has reached
/// `u32::MAX`; otherwise seals `segment` as a non-final segment under the
/// nonce of the current position and advances the position by one. The output
/// is 16 bytes longer than the input, and opening it under the same key and
/// nonce gives the input back.
#[verifier::external_body]
pub(crate) fn sealer_next(sealer: &mut StreamSealer, segment: &[u8]) -> (r: Result<
    Vec<u8>,
    chacha20poly1305::Error,
>)
    requires
        segment@.len() <= SEGMENT_LIMIT,
    ensures
        sealer_key(*final(sealer)) == sealer_key(*old(sealer)),
        sealer_prefix(*final(sealer)) == sealer_prefix(*old(sealer)),
        r is Ok <==> sealer_position(*old(sealer)) < u32::MAX,
        r is Ok ==> sealer_position(*final(sealer)) == sealer_position(*old(sealer)) + 1,
        r matches Ok(sealed) ==> sealed@ == aead_sealed(
            sealer_key(*old(sealer)),
            segment_nonce(
                sealer_prefix(*old(sealer)),
                sealer_position(*old(sealer)) as nat,
                false,
            ),
            segment@,
        ),
        r matches Ok(sealed) ==> sealed@.len() == segment@.len() + TAG_LEN,
        r matches Ok(sealed) ==> aead_opened(
            sealer_key(*old(sealer)),
            segment_nonce(
                sealer_prefix(*old(sealer)),
                sealer_position(*old(sealer)) as nat,
                false,
            ),
            sealed@,
        ) == Some(segment@),
{
    sealer.inner.encrypt_next(segment)
}

/// `EncryptorBE32::encrypt_last`: seals `segment` as the final segment under
/// the nonce of the current position. It cannot fail on a segment this small.
/// The output is 16 bytes longer than the input, and opening it under the same
/// key and nonce gives the input back.
#[verifier::external_body]
pub(crate) fn sealer_last(sealer: StreamSealer, segment: &[u8]) -> (r: Result<
    Vec<u8>,
    chacha20poly1305::Error,
>)
    requires
        segment@.len() <= SEGMENT_LIMIT,
    ensures
        r is Ok,
        r matches Ok(sealed) ==> sealed@ == aead_sealed(
            sealer_key(sealer),
            segment_nonce(sealer_prefix(sealer), sealer_position(sealer) as nat, true),
            segment@,
        ),
        r matches Ok(sealed) ==> sealed@.len() == segment@.len() + TAG_LEN,
        r matches Ok(sealed) ==> aead_opened(
            sealer_key(sealer),
            segment_nonce(sealer_prefix(sealer), sealer_position(sealer) as nat, true),
            sealed@,
        ) == Some(segment@),
{
    sealer.inner.encrypt_last(segment)
}

/// `XChaCha20Poly1305::new` and `DecryptorBE32::from_aead`: an opener over the
/// given key and prefix, positioned at segment 0. Both calls panic on a slice
/// of the wrong length, which `requires` excludes.
#[verifier::external_body]
pub(crate) fn opener_new(key: &[u8], prefix: &[u8]) -> (opener: StreamOpener)
    requires
        key@.len() == KEY_LEN,
        prefix@.len() == NONCE_PREFIX_LEN,
    ensures
        opener_key(opener) == key@,
        opener_prefix(opener) == prefix@,
        opener_position(opener) == 0,
{
    let aead = XChaCha20Poly1305::new(Key::from_slice(key));
    StreamOpener { inner: DecryptorBE32::from_aead(aead, prefix.into()) }
}

/// `DecryptorBE32::decrypt_next`: fails when the counter has reached
/// `u32::MAX` or the segment does not authenticate as a non-final segment
/// under the nonce of the current position; otherwise returns the plaintext,
/// 16 bytes shorter than the input, and advances the position by one.
#[verifier::external_body]
pub(crate) fn opener_next(opener: &mut StreamOpener, segment: &[u8]) -> (r: Result<
    Vec<u8>,
    chacha20poly1305::Error,
>)
    requires
        segment@.len() <= SEGMENT_LIMIT,
    ensures
        opener_key(*final(opener)) == opener_key(*old(opener)),
        opener_prefix(*final(opener)) == opener_prefix(*old(opener)),
        r is Ok ==> opener_position(*final(opener)) == opener_position(*old(opener)) + 1,
        r is Ok <==> opener_position(*old(opener)) < u32::MAX && aead_opened(
            opener_key(*old(opener)),
            segment_nonce(
                opener_prefix(*old(opener)),
                opener_position(*old(opener)) as nat,
                false,
            ),
            segment@,
        ) is Some,
        r matches Ok(plain) ==> aead_opened(
            opener_key(*old(opener)),
            segment_nonce(
                opener_prefix(*old(opener)),
                opener_position(*old(opener)) as nat,
                false,
            ),
            segment@,
        ) == Some(plain@),
        r matches Ok(plain) ==> plain@.len() + TAG_LEN == segment@.len(),
{
    opener.inner.decrypt_next(segment)
}

/// `DecryptorBE32::decrypt_last`: fails when the segment does not authenticate
/// as the final segment under the nonce of the current position; otherwise
/// returns the plaintext, 16 bytes shorter than the input.
#[verifier::external_body]
pub(crate) fn opener_last(opener: StreamOpener, segment: &[u8]) -> (r: Result<
    Vec<u8>,
    chacha20poly1305::Error,
>)
    requires
        segment@.len() <= SEGMENT_LIMIT,
    ensures
        r is Ok <==> aead_opened(
            opener_key(opener),
            segment_nonce(opener_prefix(opener), opener_position(opener) as nat, true),
            segment@,
        ) is Some,
        r matches Ok(plain) ==> aead_opened(
            opener_key(opener),
            segment_nonce(opener_prefix(opener), opener_position(opener) as nat, true),
            segment@,
        ) == Some(plain@),
        r matches Ok(plain) ==> plain@.len() + TAG_LEN == segment@.len(),
{
    opener.inner.decrypt_last(segment)
}

} // verus!
