//! The cipher subsystem: the backends, the stream they share, and the
//! boundary to the cryptographic crates.

pub mod aead;
pub mod encoding;
pub mod kdf;
pub mod passphrase;
pub mod random;
pub mod record;
pub mod secret;
pub mod stream;
pub mod symmetric;

use crate::env::{bytes_of, distinct_keys, parse_bytes, plain_entries, Entry, EnvMap};
use crate::error::{CipherError, EnvioError, UsageError};
use passphrase::{PassphraseView, PASSPHRASE};
use record::MetadataRecord;
use secret::{key_text, SecretString};
use symmetric::{SymmetricView, SYMMETRIC};
use vstd::prelude::*;

verus! {

/// Which backend a profile is encrypted with. The tag is persisted with the
/// profile and never changes afterwards.
#[derive(Clone, Copy, Debug, PartialEq, Eq, Structural)]
pub enum CipherKind {
    /// A key derived from a passphrase.
    PASSPHRASE,
    /// A raw symmetric key.
    SYMMETRIC,
}

/// The kind that a persisted tag names, if it names one.
pub open spec fn kind_of_tag(tag: Seq<char>) -> Option<CipherKind> {
    if tag == "passphrase"@ {
        Some(CipherKind::PASSPHRASE)
    } else if tag == "symmetric"@ {
        Some(CipherKind::SYMMETRIC)
    } else {
        None
    }
}

impl CipherKind {
    /// The tag under which the kind is persisted.
    pub open spec fn tag(self) -> Seq<char> {
        match self {
            CipherKind::PASSPHRASE => "passphrase"@,
            CipherKind::SYMMETRIC => "symmetric"@,
        }
    }

    /// The tag under which the kind is persisted.
    pub fn as_str(&self) -> (tag: &'static str)
        ensures
            tag@ == self.tag(),
    {
        match self {
            CipherKind::PASSPHRASE => "passphrase",
            CipherKind::SYMMETRIC => "symmetric",
        }
    }

    /// The kind that a persisted tag names. Any other tag is an unknown
    /// cipher kind.
    pub fn parse(tag: &str) -> (r: Result<CipherKind, EnvioError>)
        ensures
            match kind_of_tag(tag@) {
                Some(kind) => r == Ok::<CipherKind, EnvioError>(kind),
                None => r == Err::<CipherKind, EnvioError>(
                    EnvioError::Usage(UsageError::UnknownCipherKind),
                ),
            },
    {
        let tag = tag.to_owned();
        if tag == "passphrase".to_owned() {
            Ok(CipherKind::PASSPHRASE)
        } else if tag == "symmetric".to_owned() {
            Ok(CipherKind::SYMMETRIC)
        } else {
            Err(EnvioError::Usage(UsageError::UnknownCipherKind))
        }
    }

    /// Whether a profile of this kind cannot be decrypted without a secret
    /// from the caller.
    pub fn requires_key(&self) -> (b: bool)
        ensures
            b == self.needs_key(),
    {
        match self {
            CipherKind::PASSPHRASE => true,
            CipherKind::SYMMETRIC => true,
        }
    }

    /// Whether a profile of this kind cannot be decrypted without a secret
    /// from the caller.
    pub open spec fn needs_key(self) -> bool {
        match self {
            CipherKind::PASSPHRASE => true,
            CipherKind::SYMMETRIC => true,
        }
    }
}

/// Reading a kind's own tag gives the kind back.
pub proof fn lemma_kind_of_own_tag(kind: CipherKind)
    ensures
        kind_of_tag(kind.tag()) == Some(kind),
{
    reveal_strlit("passphrase");
    reveal_strlit("symmetric");
    assert("passphrase"@.len() != "symmetric"@.len());
}

/// The entries of an `Ok`, the error of an `Err`.
pub open spec fn envs_outcome(r: Result<EnvMap, EnvioError>) -> Result<Seq<Entry>, EnvioError> {
    match r {
        Ok(envs) => Ok(envs@),
        Err(e) => Err(e),
    }
}

/// The entries of a decrypted payload, or the error of a payload that is not
/// text.
pub open spec fn read_payload(payload: Result<Seq<u8>, EnvioError>) -> Result<
    Seq<Entry>,
    EnvioError,
> {
    match payload {
        Err(e) => Err(e),
        Ok(bytes) => match parse_bytes(bytes) {
            Some(entries) => Ok(entries),
            None => Err(EnvioError::Cipher(CipherError::InvalidPlaintext)),
        },
    }
}

/// The ciphertext of a profile as it is persisted.
#[derive(Debug, PartialEq, Eq)]
pub enum EncryptedContent {
    /// The raw bytes of the sealed stream.
    Bytes(Vec<u8>),
}

impl View for EncryptedContent {
    type V = Seq<u8>;

    open spec fn view(&self) -> Seq<u8> {
        match self {
            EncryptedContent::Bytes(bytes) => bytes@,
        }
    }
}

impl Clone for EncryptedContent {
    fn clone(&self) -> (copy: Self)
        ensures
            copy@ == self@,
    {
        match self {
            EncryptedContent::Bytes(bytes) => EncryptedContent::Bytes(bytes.clone()),
        }
    }
}

impl EncryptedContent {
    /// The bytes of the ciphertext.
    pub fn as_bytes(&self) -> (bytes: &Vec<u8>)
        ensures
            bytes@ == self@,
    {
        match self {
            EncryptedContent::Bytes(bytes) => bytes,
        }
    }
}

/// A cipher of any kind: the closed set of backends.
pub enum Cipher {
    Passphrase(PASSPHRASE),
    Symmetric(SYMMETRIC),
}

/// What a [`Cipher`] holds.
pub enum CipherView {
    Passphrase(PassphraseView),
    Symmetric(SymmetricView),
}

impl View for Cipher {
    type V = CipherView;

    open spec fn view(&self) -> CipherView {
        match self {
            Cipher::Passphrase(cipher) => CipherView::Passphrase(cipher@),
            Cipher::Symmetric(cipher) => CipherView::Symmetric(cipher@),
        }
    }
}

impl CipherView {
    /// The kind of the backend.
    pub open spec fn kind(self) -> CipherKind {
        match self {
            CipherView::Passphrase(_) => CipherKind::PASSPHRASE,
            CipherView::Symmetric(_) => CipherKind::SYMMETRIC,
        }
    }

    /// The secret the cipher holds, if it holds one.
    pub open spec fn key(self) -> Option<Seq<char>> {
        match self {
            CipherView::Passphrase(cipher) => cipher.key,
            CipherView::Symmetric(cipher) => cipher.key,
        }
    }

    /// The cipher with `key` as its secret.
    pub open spec fn with_key(self, key: Seq<char>) -> CipherView {
        match self {
            CipherView::Passphrase(cipher) => CipherView::Passphrase(
                PassphraseView { key: Some(key), metadata: cipher.metadata },
            ),
            CipherView::Symmetric(cipher) => CipherView::Symmetric(
                SymmetricView { key: Some(key), metadata: cipher.metadata },
            ),
        }
    }

    /// Whether two ciphers are of the same kind and hold the same metadata.
    pub open spec fn same_metadata(self, other: CipherView) -> bool {
        match (self, other) {
            (CipherView::Passphrase(a), CipherView::Passphrase(b)) => a.metadata == b.metadata,
            (CipherView::Symmetric(a), CipherView::Symmetric(b)) => a.metadata == b.metadata,
            _ => false,
        }
    }

    /// The record in which the cipher's metadata is persisted.
    pub open spec fn exported(self) -> Seq<(Seq<char>, Seq<char>)> {
        match self {
            CipherView::Passphrase(cipher) => passphrase::metadata::record_of(cipher.metadata),
            CipherView::Symmetric(cipher) => symmetric::metadata::record_of(cipher.metadata),
        }
    }

    /// The cipher after it has taken its metadata from a record, or why the
    /// record is refused.
    pub open spec fn imported(self, fields: Seq<(Seq<char>, Seq<char>)>) -> Result<
        CipherView,
        EnvioError,
    > {
        match self {
            CipherView::Passphrase(cipher) => match passphrase::metadata::read_record(fields) {
                Ok(metadata) => Ok(
                    CipherView::Passphrase(PassphraseView { key: cipher.key, metadata }),
                ),
                Err(e) => Err(e),
            },
            CipherView::Symmetric(cipher) => match symmetric::metadata::read_record(fields) {
                Ok(metadata) => Ok(
                    CipherView::Symmetric(SymmetricView { key: cipher.key, metadata }),
                ),
                Err(e) => Err(e),
            },
        }
    }

    /// Why encrypting a payload of `data_len` bytes fails, if it does.
    pub open spec fn encrypt_error(self, data_len: nat) -> Option<EnvioError> {
        match self {
            CipherView::Passphrase(cipher) => cipher.encrypt_error(data_len),
            CipherView::Symmetric(cipher) => cipher.encrypt_error(data_len),
        }
    }

    /// What holds after this cipher has encrypted `entries` into `sealed`.
    pub open spec fn encrypted(self, entries: Seq<Entry>, sealed: Seq<u8>) -> bool {
        match self {
            CipherView::Passphrase(cipher) => cipher.encrypted(entries, sealed),
            CipherView::Symmetric(cipher) => cipher.encrypted(entries, sealed),
        }
    }

    /// What decrypting `sealed` with this cipher returns.
    pub open spec fn decrypted(self, sealed: Seq<u8>) -> Result<Seq<Entry>, EnvioError> {
        match self {
            CipherView::Passphrase(cipher) => cipher.decrypted(sealed),
            CipherView::Symmetric(cipher) => cipher.decrypted(sealed),
        }
    }
}

/// The cipher that [`create_cipher`] builds: of the given kind, with the given
/// secret if there is one, and with the default metadata of its kind.
pub open spec fn new_cipher(kind: CipherKind, key: Option<Seq<char>>) -> CipherView {
    match kind {
        CipherKind::PASSPHRASE => CipherView::Passphrase(
            PassphraseView {
                key,
                metadata: passphrase::metadata::VersionedMetadataView::V1(
                    passphrase::v1::MetadataV1View { salt: Seq::empty(), nonce: Seq::empty() },
                ),
            },
        ),
        CipherKind::SYMMETRIC => CipherView::Symmetric(
            SymmetricView {
                key,
                metadata: symmetric::metadata::VersionedMetadataView::V1(
                    symmetric::v1::MetadataV1View { nonce: Seq::empty() },
                ),
            },
        ),
    }
}

/// Builds the backend of the given kind, keyed where a key is given.
pub fn create_cipher(kind: CipherKind, key: Option<SecretString>) -> (r: Result<
    Cipher,
    EnvioError,
>)
    ensures
        r matches Ok(cipher) && cipher@ == new_cipher(kind, key_text(key)),
{
    match kind {
        CipherKind::PASSPHRASE => match key {
            Some(key) => Ok(Cipher::Passphrase(PASSPHRASE::new(key))),
            None => Ok(Cipher::Passphrase(PASSPHRASE::unkeyed())),
        },
        CipherKind::SYMMETRIC => match key {
            Some(key) => Ok(Cipher::Symmetric(SYMMETRIC::new(key))),
            None => Ok(Cipher::Symmetric(SYMMETRIC::unkeyed())),
        },
    }
}

impl Clone for Cipher {
    fn clone(&self) -> (copy: Self)
        ensures
            copy@ == self@,
    {
        match self {
            Cipher::Passphrase(cipher) => Cipher::Passphrase(cipher.clone()),
            Cipher::Symmetric(cipher) => Cipher::Symmetric(cipher.clone()),
        }
    }
}

impl Cipher {
    /// The kind of the backend.
    pub fn kind(&self) -> (kind: CipherKind)
        ensures
            kind == self@.kind(),
    {
        match self {
            Cipher::Passphrase(cipher) => cipher.kind(),
            Cipher::Symmetric(cipher) => cipher.kind(),
        }
    }

    /// Installs the secret, in place of the one held if there is one.
    pub fn set_key(&mut self, key: SecretString)
        ensures
            final(self)@ == old(self)@.with_key(key@),
    {
        match self {
            Cipher::Passphrase(cipher) => cipher.set_key(key),
            Cipher::Symmetric(cipher) => cipher.set_key(key),
        }
    }

    /// Encrypts a map and keeps the metadata of the encryption. On failure
    /// the cipher is unchanged. What comes back decrypts to the same map
    /// again, provided that no key holds `=` or a newline and no value holds a
    /// newline.
    pub fn encrypt(&mut self, envs: &EnvMap) -> (r: Result<EncryptedContent, EnvioError>)
        ensures
            final(self)@.kind() == old(self)@.kind(),
            final(self)@.key() == old(self)@.key(),
            match r {
                Ok(content) => {
                    &&& old(self)@.encrypt_error(bytes_of(envs@).len()) is None
                    &&& final(self)@.encrypted(envs@, content@)
                    &&& plain_entries(envs@) ==> final(self)@.decrypted(content@) == Ok::<
                        Seq<Entry>,
                        EnvioError,
                    >(envs@)
                },
                Err(e) => {
                    &&& old(self)@.encrypt_error(bytes_of(envs@).len()) == Some(e)
                    &&& final(self)@ == old(self)@
                },
            },
    {
        match self {
            Cipher::Passphrase(cipher) => cipher.encrypt(envs),
            Cipher::Symmetric(cipher) => cipher.encrypt(envs),
        }
    }

    /// Decrypts a ciphertext and reads the map it stands for.
    pub fn decrypt(&self, content: &EncryptedContent) -> (r: Result<EnvMap, EnvioError>)
        ensures
            envs_outcome(r) == self@.decrypted(content@),
    {
        match self {
            Cipher::Passphrase(cipher) => cipher.decrypt(content),
            Cipher::Symmetric(cipher) => cipher.decrypt(content),
        }
    }

    /// The metadata as a record to persist beside the ciphertext. It never
    /// holds the secret.
    pub fn export_metadata(&self) -> (record: Option<MetadataRecord>)
        ensures
            record matches Some(fields) && fields@ == self@.exported(),
    {
        match self {
            Cipher::Passphrase(cipher) => cipher.export_metadata(),
            Cipher::Symmetric(cipher) => cipher.export_metadata(),
        }
    }

    /// Takes the metadata over from a persisted record. On failure the cipher
    /// is unchanged.
    pub fn import_metadata(&mut self, record: MetadataRecord) -> (r: Result<(), EnvioError>)
        ensures
            match old(self)@.imported(record@) {
                Ok(cipher) => r is Ok && final(self)@ == cipher,
                Err(e) => r == Err::<(), EnvioError>(e) && final(self)@ == old(self)@,
            },
    {
        match self {
            Cipher::Passphrase(cipher) => cipher.import_metadata(record),
            Cipher::Symmetric(cipher) => cipher.import_metadata(record),
        }
    }
}

/// Decryption inverts encryption, for every backend: what a cipher has
/// encrypted it decrypts to the same entries, provided that the entries have
/// distinct keys, no key holds `=` or a newline, and no value holds a newline.
pub proof fn lemma_decrypt_inverts_encrypt(cipher: CipherView, entries: Seq<Entry>, sealed: Seq<u8>)
    requires
        cipher.encrypted(entries, sealed),
        distinct_keys(entries),
        plain_entries(entries),
    ensures
        cipher.decrypted(sealed) == Ok::<Seq<Entry>, EnvioError>(entries),
{
    match cipher {
        CipherView::Passphrase(inner) => {
            passphrase::lemma_decrypt_inverts_encrypt(inner, entries, sealed);
        },
        CipherView::Symmetric(inner) => {
            symmetric::lemma_decrypt_inverts_encrypt(inner, entries, sealed);
        },
    }
}

/// The exported metadata is all that decryption needs beside the secret: a
/// new cipher of the same kind with the same secret, after it has imported
/// what the encrypting cipher exports, decrypts the ciphertext to the entries
/// that were encrypted.
pub proof fn lemma_exported_metadata_suffices(
    cipher: CipherView,
    entries: Seq<Entry>,
    sealed: Seq<u8>,
)
    requires
        cipher.encrypted(entries, sealed),
        distinct_keys(entries),
        plain_entries(entries),
    ensures
        new_cipher(cipher.kind(), cipher.key()).imported(cipher.exported()) == Ok::<
            CipherView,
            EnvioError,
        >(cipher),
        cipher.decrypted(sealed) == Ok::<Seq<Entry>, EnvioError>(entries),
{
    lemma_decrypt_inverts_encrypt(cipher, entries, sealed);
    match cipher {
        CipherView::Passphrase(inner) => {
            passphrase::metadata::lemma_read_inverts_record(inner.metadata);
        },
        CipherView::Symmetric(inner) => {
            symmetric::metadata::lemma_read_inverts_record(inner.metadata);
        },
    }
}

/// The persisted metadata never holds the secret: what a cipher exports is the
/// same whatever secret it holds, and whether it holds one at all.
pub proof fn lemma_export_ignores_key(cipher: CipherView, key: Seq<char>)
    ensures
        cipher.with_key(key).exported() == cipher.exported(),
        cipher.with_key(key).same_metadata(cipher),
{
}

/// Decryption fails closed: a cipher that holds no secret decrypts nothing,
/// whatever the ciphertext and whatever its metadata.
pub proof fn lemma_unkeyed_never_decrypts(cipher: CipherView, sealed: Seq<u8>)
    requires
        cipher.key() is None,
    ensures
        cipher.decrypted(sealed) == Err::<Seq<Entry>, EnvioError>(
            EnvioError::Usage(UsageError::MissingKey),
        ),
{
}

} // verus!
