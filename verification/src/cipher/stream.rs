//! The chunked authenticated-encryption stream shared by every backend.
//!
//! A payload is cut into chunks of exactly [`CHUNK_SIZE`] bytes followed by one
//! final chunk of 0 to [`CHUNK_SIZE`] bytes. Each chunk is sealed on its own,
//! under a nonce that holds its position and whether it is the final one, so
//! that truncating, reordering or splicing a ciphertext breaks authentication.
//! The ciphertext is the concatenation of the sealed chunks, each 16 bytes
//! longer than its plaintext.

use crate::cipher::aead::{
    aead_opened, aead_sealed, be32, opener_key, opener_last, opener_new, opener_next,
    opener_position, opener_prefix, sealer_key, sealer_last, sealer_new, sealer_next,
    sealer_position, sealer_prefix, segment_nonce, StreamOpener, StreamSealer, KEY_LEN,
    NONCE_PREFIX_LEN, TAG_LEN,
};
use crate::error::{CipherError, EnvioError, MetadataError};
use vstd::prelude::*;
use vstd::slice::slice_subrange;

verus! {

/// Plaintext bytes per chunk. Part of the wire format.
pub const CHUNK_SIZE: usize = 1024;

/// Ciphertext bytes per non-final chunk: a full chunk and its tag. Part of the
/// wire format.
pub const SEALED_CHUNK_SIZE: usize = 1040;

/// How many non-final chunks a payload of `len` bytes has.
pub open spec fn interior_chunks(len: nat) -> nat {
    if len <= CHUNK_SIZE {
        0
    } else {
        ((len - 1) / CHUNK_SIZE as int) as nat
    }
}

/// The ciphertext of `data` whose first chunk has position `position`.
pub open spec fn sealed_from(key: Seq<u8>, prefix: Seq<u8>, data: Seq<u8>, position: nat) -> Seq<
    u8,
>
    decreases data.len(),
{
    if data.len() <= CHUNK_SIZE {
        aead_sealed(key, segment_nonce(prefix, position, true), data)
    } else {
        aead_sealed(
            key,
            segment_nonce(prefix, position, false),
            data.subrange(0, CHUNK_SIZE as int),
        ) + sealed_from(
            key,
            prefix,
            data.subrange(CHUNK_SIZE as int, data.len() as int),
            position + 1,
        )
    }
}

/// `Some(tail)` becomes `Some(head + tail)`; `None` stays `None`.
pub open spec fn prepend(head: Seq<u8>, tail: Option<Seq<u8>>) -> Option<Seq<u8>> {
    match tail {
        Some(tail) => Some(head + tail),
        None => None,
    }
}

/// The plaintext of the ciphertext `sealed` whose first chunk has position
/// `position`, or `None` where any chunk fails to authenticate.
pub open spec fn opened_from(
    key: Seq<u8>,
    prefix: Seq<u8>,
    sealed: Seq<u8>,
    position: nat,
) -> Option<Seq<u8>>
    decreases sealed.len(),
{
    if sealed.len() <= SEALED_CHUNK_SIZE {
        aead_opened(key, segment_nonce(prefix, position, true), sealed)
    } else if position >= u32::MAX {
        None
    } else {
        match aead_opened(
            key,
            segment_nonce(prefix, position, false),
            sealed.subrange(0, SEALED_CHUNK_SIZE as int),
        ) {
            None => None,
            Some(head) => prepend(
                head,
                opened_from(
                    key,
                    prefix,
                    sealed.subrange(SEALED_CHUNK_SIZE as int, sealed.len() as int),
                    position + 1,
                ),
            ),
        }
    }
}

/// The ciphertext of a whole payload.
pub open spec fn sealed_stream(key: Seq<u8>, prefix: Seq<u8>, data: Seq<u8>) -> Seq<u8> {
    sealed_from(key, prefix, data, 0)
}

/// The plaintext of a whole ciphertext, or `None` where it fails to
/// authenticate.
pub open spec fn opened_stream(key: Seq<u8>, prefix: Seq<u8>, sealed: Seq<u8>) -> Option<
    Seq<u8>,
> {
    opened_from(key, prefix, sealed, 0)
}

/// Sealing `plaintext` under `nonce` adds 16 bytes, and opening the result
/// under the same key and nonce gives `plaintext` back.
pub open spec fn chunk_inverts(key: Seq<u8>, nonce: Seq<u8>, plaintext: Seq<u8>) -> bool {
    &&& aead_sealed(key, nonce, plaintext).len() == plaintext.len() + TAG_LEN
    &&& aead_opened(key, nonce, aead_sealed(key, nonce, plaintext)) == Some(plaintext)
}

/// [`chunk_inverts`] for every chunk of `data`, the first at `position`.
pub open spec fn chunks_invert(key: Seq<u8>, prefix: Seq<u8>, data: Seq<u8>, position: nat) -> bool
    decreases data.len(),
{
    if data.len() <= CHUNK_SIZE {
        chunk_inverts(key, segment_nonce(prefix, position, true), data)
    } else {
        &&& chunk_inverts(
            key,
            segment_nonce(prefix, position, false),
            data.subrange(0, CHUNK_SIZE as int),
        )
        &&& chunks_invert(
            key,
            prefix,
            data.subrange(CHUNK_SIZE as int, data.len() as int),
            position + 1,
        )
    }
}

/// A ciphertext is 16 bytes longer than its payload for every chunk.
pub proof fn lemma_sealed_len(key: Seq<u8>, prefix: Seq<u8>, data: Seq<u8>, position: nat)
    requires
        chunks_invert(key, prefix, data, position),
    ensures
        sealed_from(key, prefix, data, position).len() == data.len() + TAG_LEN * (interior_chunks(
            data.len(),
        ) + 1),
    decreases data.len(),
{
    if data.len() > CHUNK_SIZE {
        let rest = data.subrange(CHUNK_SIZE as int, data.len() as int);
        lemma_sealed_len(key, prefix, rest, position + 1);
        assert(interior_chunks(data.len()) == interior_chunks(rest.len()) + 1) by {
            if rest.len() > CHUNK_SIZE {
                assert((data.len() - 1) / 1024 == (rest.len() - 1) / 1024 + 1) by {
                    assert(data.len() - 1 == (rest.len() - 1) + 1024);
                }
            }
        }
    }
}

/// Opening inverts sealing: where every chunk of `data` inverts and the
/// positions fit the 32-bit counter, the ciphertext of `data` opens to `data`.
pub proof fn lemma_open_inverts_seal(key: Seq<u8>, prefix: Seq<u8>, data: Seq<u8>, position: nat)
    requires
        chunks_invert(key, prefix, data, position),
        position + interior_chunks(data.len()) <= u32::MAX,
    ensures
        opened_from(key, prefix, sealed_from(key, prefix, data, position), position) == Some(data),
    decreases data.len(),
{
    let sealed = sealed_from(key, prefix, data, position);
    if data.len() > CHUNK_SIZE {
        let head = data.subrange(0, CHUNK_SIZE as int);
        let rest = data.subrange(CHUNK_SIZE as int, data.len() as int);
        let sealed_head = aead_sealed(key, segment_nonce(prefix, position, false), head);
        let sealed_rest = sealed_from(key, prefix, rest, position + 1);
        lemma_sealed_len(key, prefix, rest, position + 1);
        assert(interior_chunks(data.len()) >= 1);
        assert(interior_chunks(data.len()) == interior_chunks(rest.len()) + 1) by {
            if rest.len() > CHUNK_SIZE {
                assert(data.len() - 1 == (rest.len() - 1) + 1024);
            }
        }
        lemma_open_inverts_seal(key, prefix, rest, position + 1);
        assert(sealed == sealed_head + sealed_rest);
        assert(sealed.subrange(0, SEALED_CHUNK_SIZE as int) == sealed_head);
        assert(sealed.subrange(SEALED_CHUNK_SIZE as int, sealed.len() as int) == sealed_rest);
        assert(head + rest == data);
    }
}

impl StreamSealer {
    /// A sealer at position 0. The key must be 32 bytes and the prefix 19.
    pub fn new(key: &[u8], prefix: &[u8]) -> (r: Result<StreamSealer, EnvioError>)
        ensures
            match r {
                Ok(sealer) => {
                    &&& key@.len() == KEY_LEN
                    &&& prefix@.len() == NONCE_PREFIX_LEN
                    &&& sealer_key(sealer) == key@
                    &&& sealer_prefix(sealer) == prefix@
                    &&& sealer_position(sealer) == 0
                },
                Err(e) => stream_setup_error(key@.len(), prefix@.len()) == Some(e),
            },
    {
        if key.len() != KEY_LEN {
            Err(EnvioError::Cipher(CipherError::InvalidKeyLength))
        } else if prefix.len() != NONCE_PREFIX_LEN {
            Err(EnvioError::Metadata(MetadataError::Malformed))
        } else {
            Ok(sealer_new(key, prefix))
        }
    }

    /// Seals `data` as the rest of this sealer's stream.
    ///
    /// Fails exactly when the chunk counter would pass `u32::MAX`. On success
    /// the result is the ciphertext that [`sealed_from`] defines, and it opens
    /// to `data` again under the same key, prefix and starting position.
    pub fn seal(self, data: &[u8]) -> (r: Result<Vec<u8>, EnvioError>)
        ensures
            match r {
                Ok(sealed) => {
                    &&& sealer_position(self) + interior_chunks(data@.len()) <= u32::MAX
                    &&& sealed@ == sealed_from(
                        sealer_key(self),
                        sealer_prefix(self),
                        data@,
                        sealer_position(self) as nat,
                    )
                    &&& opened_from(
                        sealer_key(self),
                        sealer_prefix(self),
                        sealed@,
                        sealer_position(self) as nat,
                    ) == Some(data@)
                    &&& sealed@.len() == data@.len() + TAG_LEN * (interior_chunks(data@.len())
                        + 1)
                },
                Err(e) => {
                    &&& sealer_position(self) + interior_chunks(data@.len()) > u32::MAX
                    &&& e == EnvioError::Cipher(CipherError::PayloadTooLong)
                },
            },
    {
        let ghost key = sealer_key(self);
        let ghost prefix = sealer_prefix(self);
        let ghost start = sealer_position(self) as nat;
        let mut sealer = self;
        let mut sealed: Vec<u8> = Vec::new();
        let mut offset: usize = 0;
        let total: usize = data.len();
        proof {
            assert(data@.subrange(0, total as int) == data@);
            assert(sealed@ + sealed_from(key, prefix, data@, start) == sealed_from(
                key,
                prefix,
                data@,
                start,
            ));
        }
        while total - offset > CHUNK_SIZE
            invariant
                total == data@.len(),
                offset <= total,
                key == sealer_key(self),
                prefix == sealer_prefix(self),
                start == sealer_position(self),
                sealer_key(sealer) == key,
                sealer_prefix(sealer) == prefix,
                start + interior_chunks(data@.len()) == sealer_position(sealer) + interior_chunks(
                    (total - offset) as nat,
                ),
                sealed_from(key, prefix, data@, start) == sealed@ + sealed_from(
                    key,
                    prefix,
                    data@.subrange(offset as int, total as int),
                    sealer_position(sealer) as nat,
                ),
                chunks_invert(
                    key,
                    prefix,
                    data@.subrange(offset as int, total as int),
                    sealer_position(sealer) as nat,
                ) ==> chunks_invert(key, prefix, data@, start),
            decreases total - offset,
        {
            let end: usize = offset + CHUNK_SIZE;
            let chunk = slice_subrange(data, offset, end);
            let ghost suffix = data@.subrange(offset as int, total as int);
            let ghost rest = data@.subrange(end as int, total as int);
            let ghost position = sealer_position(sealer) as nat;
            proof {
                assert(suffix.subrange(0, CHUNK_SIZE as int) == chunk@);
                assert(suffix.subrange(CHUNK_SIZE as int, suffix.len() as int) == rest);
                assert(interior_chunks(suffix.len()) == interior_chunks(rest.len()) + 1) by {
                    if rest.len() > CHUNK_SIZE {
                        assert(suffix.len() - 1 == (rest.len() - 1) + 1024);
                    }
                }
            }
            match sealer_next(&mut sealer, chunk) {
                Ok(mut piece) => {
                    proof {
                        let tail = sealed_from(key, prefix, rest, position + 1);
                        assert(sealed@ + (piece@ + tail) == (sealed@ + piece@) + tail);
                    }
                    sealed.append(&mut piece);
                },
                Err(_) => {
                    return Err(EnvioError::Cipher(CipherError::PayloadTooLong));
                },
            }
            offset = end;
        }
        let last = slice_subrange(data, offset, total);
        match sealer_last(sealer, last) {
            Ok(mut piece) => {
                sealed.append(&mut piece);
                proof {
                    lemma_sealed_len(key, prefix, data@, start);
                    lemma_open_inverts_seal(key, prefix, data@, start);
                }
                Ok(sealed)
            },
            Err(_) => Err(EnvioError::Cipher(CipherError::PayloadTooLong)),
        }
    }
}

impl StreamOpener {
    /// An opener at position 0. The key must be 32 bytes and the prefix 19.
    pub fn new(key: &[u8], prefix: &[u8]) -> (r: Result<StreamOpener, EnvioError>)
        ensures
            match r {
                Ok(opener) => {
                    &&& key@.len() == KEY_LEN
                    &&& prefix@.len() == NONCE_PREFIX_LEN
                    &&& opener_key(opener) == key@
                    &&& opener_prefix(opener) == prefix@
                    &&& opener_position(opener) == 0
                },
                Err(e) => stream_setup_error(key@.len(), prefix@.len()) == Some(e),
            },
    {
        if key.len() != KEY_LEN {
            Err(EnvioError::Cipher(CipherError::InvalidKeyLength))
        } else if prefix.len() != NONCE_PREFIX_LEN {
            Err(EnvioError::Metadata(MetadataError::Malformed))
        } else {
            Ok(opener_new(key, prefix))
        }
    }

    /// Opens `sealed` as the rest of this opener's stream.
    ///
    /// Returns the whole plaintext where every chunk authenticates, and an
    /// authentication failure otherwise: never a part of the plaintext.
    pub fn open(self, sealed: &[u8]) -> (r: Result<Vec<u8>, EnvioError>)
        ensures
            match opened_from(
                opener_key(self),
                opener_prefix(self),
                sealed@,
                opener_position(self) as nat,
            ) {
                Some(data) => r matches Ok(opened) && opened@ == data,
                None => r == Err::<Vec<u8>, EnvioError>(
                    EnvioError::Cipher(CipherError::Authentication),
                ),
            },
    {
        let ghost key = opener_key(self);
        let ghost prefix = opener_prefix(self);
        let ghost start = opener_position(self) as nat;
        let mut opener = self;
        let mut opened: Vec<u8> = Vec::new();
        let mut offset: usize = 0;
        let total: usize = sealed.len();
        proof {
            assert(sealed@.subrange(0, total as int) == sealed@);
            let whole = opened_from(key, prefix, sealed@, start);
            if let Some(data) = whole {
                assert(opened@ + data == data);
            }
        }
        while total - offset > SEALED_CHUNK_SIZE
            invariant
                total == sealed@.len(),
                offset <= total,
                key == opener_key(self),
                prefix == opener_prefix(self),
                start == opener_position(self),
                opener_key(opener) == key,
                opener_prefix(opener) == prefix,
                opened_from(key, prefix, sealed@, start) == prepend(
                    opened@,
                    opened_from(
                        key,
                        prefix,
                        sealed@.subrange(offset as int, total as int),
                        opener_position(opener) as nat,
                    ),
                ),
            decreases total - offset,
        {
            let end: usize = offset + SEALED_CHUNK_SIZE;
            let chunk = slice_subrange(sealed, offset, end);
            let ghost suffix = sealed@.subrange(offset as int, total as int);
            let ghost rest = sealed@.subrange(end as int, total as int);
            let ghost position = opener_position(opener) as nat;
            proof {
                assert(suffix.subrange(0, SEALED_CHUNK_SIZE as int) == chunk@);
                assert(suffix.subrange(SEALED_CHUNK_SIZE as int, suffix.len() as int) == rest);
            }
            match opener_next(&mut opener, chunk) {
                Ok(mut piece) => {
                    proof {
                        let tail = opened_from(key, prefix, rest, position + 1);
                        if let Some(t) = tail {
                            assert(opened@ + (piece@ + t) == (opened@ + piece@) + t);
                        }
                    }
                    opened.append(&mut piece);
                },
                Err(_) => {
                    return Err(EnvioError::Cipher(CipherError::Authentication));
                },
            }
            offset = end;
        }
        let last = slice_subrange(sealed, offset, total);
        match opener_last(opener, last) {
            Ok(mut piece) => {
                opened.append(&mut piece);
                Ok(opened)
            },
            Err(_) => Err(EnvioError::Cipher(CipherError::Authentication)),
        }
    }
}

/// Why a stream cannot be set up with a key of `key_len` bytes and a nonce
/// prefix of `prefix_len` bytes, if it cannot. The key is looked at first.
pub open spec fn stream_setup_error(key_len: nat, prefix_len: nat) -> Option<EnvioError> {
    if key_len != KEY_LEN {
        Some(EnvioError::Cipher(CipherError::InvalidKeyLength))
    } else if prefix_len != NONCE_PREFIX_LEN {
        Some(EnvioError::Metadata(MetadataError::Malformed))
    } else {
        None
    }
}

/// What [`seal`] returns: the setup error if there is one, a too-long payload
/// next, else the ciphertext.
pub open spec fn seal_outcome(key: Seq<u8>, prefix: Seq<u8>, data: Seq<u8>) -> Result<
    Seq<u8>,
    EnvioError,
> {
    match stream_setup_error(key.len(), prefix.len()) {
        Some(e) => Err(e),
        None => if interior_chunks(data.len()) > u32::MAX {
            Err(EnvioError::Cipher(CipherError::PayloadTooLong))
        } else {
            Ok(sealed_stream(key, prefix, data))
        },
    }
}

/// What [`open`] returns: the setup error if there is one, an authentication
/// failure where any chunk fails, else the plaintext.
pub open spec fn open_outcome(key: Seq<u8>, prefix: Seq<u8>, sealed: Seq<u8>) -> Result<
    Seq<u8>,
    EnvioError,
> {
    match stream_setup_error(key.len(), prefix.len()) {
        Some(e) => Err(e),
        None => match opened_stream(key, prefix, sealed) {
            Some(data) => Ok(data),
            None => Err(EnvioError::Cipher(CipherError::Authentication)),
        },
    }
}

/// The bytes of an `Ok`, the error of an `Err`.
pub open spec fn bytes_outcome(r: Result<Vec<u8>, EnvioError>) -> Result<Seq<u8>, EnvioError> {
    match r {
        Ok(bytes) => Ok(bytes@),
        Err(e) => Err(e),
    }
}

/// Seals a whole payload under a 32-byte key and a 19-byte nonce prefix.
///
/// A ciphertext that comes back opens to `data` again under the same key and
/// prefix.
pub fn seal(key: &[u8], prefix: &[u8], data: &[u8]) -> (r: Result<Vec<u8>, EnvioError>)
    ensures
        bytes_outcome(r) == seal_outcome(key@, prefix@, data@),
        r matches Ok(sealed) ==> open_outcome(key@, prefix@, sealed@) == Ok::<
            Seq<u8>,
            EnvioError,
        >(data@),
        r matches Ok(sealed) ==> sealed@.len() == data@.len() + TAG_LEN * (interior_chunks(
            data@.len(),
        ) + 1),
{
    match StreamSealer::new(key, prefix) {
        Ok(sealer) => sealer.seal(data),
        Err(e) => Err(e),
    }
}

/// Opens a whole ciphertext under a 32-byte key and a 19-byte nonce prefix.
pub fn open(key: &[u8], prefix: &[u8], sealed: &[u8]) -> (r: Result<Vec<u8>, EnvioError>)
    ensures
        bytes_outcome(r) == open_outcome(key@, prefix@, sealed@),
{
    match StreamOpener::new(key, prefix) {
        Ok(opener) => opener.open(sealed),
        Err(e) => Err(e),
    }
}

/// Opening what [`seal`] produced, under the same key and prefix, gives the
/// payload back, for every payload whose chunks the cipher inverts.
pub proof fn lemma_open_inverts_seal_outcome(key: Seq<u8>, prefix: Seq<u8>, data: Seq<u8>)
    requires
        chunks_invert(key, prefix, data, 0),
        seal_outcome(key, prefix, data) is Ok,
    ensures
        open_outcome(key, prefix, seal_outcome(key, prefix, data)->Ok_0) == Ok::<
            Seq<u8>,
            EnvioError,
        >(data),
{
    lemma_open_inverts_seal(key, prefix, data, 0);
}

/// No two chunks of a stream are sealed under the same nonce: the nonces of
/// two chunks agree only where the positions agree and both chunks are final
/// or both are not.
pub proof fn lemma_chunk_nonces_distinct(
    prefix: Seq<u8>,
    position: nat,
    last: bool,
    other_position: nat,
    other_last: bool,
)
    requires
        position <= u32::MAX,
        other_position <= u32::MAX,
        segment_nonce(prefix, position, last) == segment_nonce(prefix, other_position, other_last),
    ensures
        position == other_position,
        last == other_last,
{
    let a = segment_nonce(prefix, position, last);
    let b = segment_nonce(prefix, other_position, other_last);
    let n = prefix.len() as int;
    assert(a[n] == be32(position)[0] && b[n] == be32(other_position)[0]);
    assert(a[n + 1] == be32(position)[1] && b[n + 1] == be32(other_position)[1]);
    assert(a[n + 2] == be32(position)[2] && b[n + 2] == be32(other_position)[2]);
    assert(a[n + 3] == be32(position)[3] && b[n + 3] == be32(other_position)[3]);
    assert(a[n + 4] == (if last { 1u8 } else { 0u8 }));
    assert(b[n + 4] == (if other_last { 1u8 } else { 0u8 }));
    lemma_be32_value(position);
    lemma_be32_value(other_position);
}

/// The four bytes of [`be32`] give the position back.
proof fn lemma_be32_value(position: nat)
    requires
        position <= u32::MAX,
    ensures
        position == be32(position)[0] as int * 0x100_0000 + be32(position)[1] as int * 0x1_0000
            + be32(position)[2] as int * 0x100 + be32(position)[3] as int,
{
    let p = position as int;
    assert(p / 0x100_0000 < 0x100);
    assert(p == (p / 0x100_0000) * 0x100_0000 + ((p / 0x1_0000) % 0x100) * 0x1_0000 + ((p / 0x100)
        % 0x100) * 0x100 + p % 0x100) by {
        let q1 = p / 0x100;
        let q2 = q1 / 0x100;
        let q3 = q2 / 0x100;
        assert(q2 == p / 0x1_0000);
        assert(q3 == p / 0x100_0000);
        assert(p == q1 * 0x100 + p % 0x100);
        assert(q1 == q2 * 0x100 + q1 % 0x100);
        assert(q2 == q3 * 0x100 + q2 % 0x100);
    }
}

} // verus!
