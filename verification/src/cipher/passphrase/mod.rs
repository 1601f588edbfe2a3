//! The passphrase backend: a key derived from a human-memorable passphrase.

pub mod metadata;
pub mod v1;

use crate::cipher::record::MetadataRecord;
use crate::cipher::secret::{key_text, SecretString};
use crate::cipher::{envs_outcome, read_payload, CipherKind, EncryptedContent};
use crate::env::{bytes_of, distinct_keys, lemma_parse_inverts_text, plain_entries, Entry, EnvMap};
use crate::error::{EnvioError, UsageError};
use metadata::{read_record, record_of, VersionedMetadata, VersionedMetadataView};
use v1::MetadataV1View;
use vstd::prelude::*;

verus! {

/// A passphrase cipher: the passphrase, once it has one, and the metadata of
/// its last encryption or of the profile it is to decrypt.
#[allow(non_camel_case_types)]
pub struct PASSPHRASE {
    key: Option<SecretString>,
    metadata: VersionedMetadata,
}

/// What a [`PASSPHRASE`] holds.
pub struct PassphraseView {
    pub key: Option<Seq<char>>,
    pub metadata: VersionedMetadataView,
}

impl View for PASSPHRASE {
    type V = PassphraseView;

    closed spec fn view(&self) -> PassphraseView {
        PassphraseView { key: key_text(self.key), metadata: self.metadata@ }
    }
}

impl PassphraseView {
    /// Why encrypting a payload of `data_len` bytes fails, if it does. A
    /// cipher without a key never encrypts.
    pub open spec fn encrypt_error(self, data_len: nat) -> Option<EnvioError> {
        match self.key {
            None => Some(EnvioError::Usage(UsageError::MissingKey)),
            Some(key) => v1::encrypt_error(key, data_len),
        }
    }

    /// What holds after this cipher has encrypted `entries` into `sealed`.
    pub open spec fn encrypted(self, entries: Seq<Entry>, sealed: Seq<u8>) -> bool {
        match (self.key, self.metadata) {
            (Some(key), VersionedMetadataView::V1(metadata)) => v1::encrypted(
                key,
                bytes_of(entries),
                sealed,
                metadata,
            ),
            (None, _) => false,
        }
    }

    /// What decrypting `sealed` with this cipher returns. A cipher without a
    /// key never decrypts.
    pub open spec fn decrypted(self, sealed: Seq<u8>) -> Result<Seq<Entry>, EnvioError> {
        match (self.key, self.metadata) {
            (None, _) => Err(EnvioError::Usage(UsageError::MissingKey)),
            (Some(key), VersionedMetadataView::V1(metadata)) => read_payload(
                v1::decrypted(key, metadata, sealed),
            ),
        }
    }
}

impl Clone for PASSPHRASE {
    fn clone(&self) -> (copy: Self)
        ensures
            copy@ == self@,
    {
        let key = match &self.key {
            Some(key) => Some(key.duplicate()),
            None => None,
        };
        PASSPHRASE { key, metadata: self.metadata.clone() }
    }
}

impl PASSPHRASE {
    /// A cipher with the given passphrase and the default metadata.
    pub fn new(key: SecretString) -> (cipher: PASSPHRASE)
        ensures
            cipher@.key == Some(key@),
            cipher@.metadata == VersionedMetadataView::V1(
                MetadataV1View { salt: Seq::empty(), nonce: Seq::empty() },
            ),
    {
        PASSPHRASE { key: Some(key), metadata: VersionedMetadata::default() }
    }

    /// A cipher that has no passphrase yet, with the default metadata.
    pub fn unkeyed() -> (cipher: PASSPHRASE)
        ensures
            cipher@.key is None,
            cipher@.metadata == VersionedMetadataView::V1(
                MetadataV1View { salt: Seq::empty(), nonce: Seq::empty() },
            ),
    {
        PASSPHRASE { key: None, metadata: VersionedMetadata::default() }
    }

    /// Installs the passphrase, in place of the one held if there is one.
    pub fn set_key(&mut self, key: SecretString)
        ensures
            final(self)@.key == Some(key@),
            final(self)@.metadata == old(self)@.metadata,
    {
        self.key = Some(key);
    }

    /// The kind of this backend.
    pub fn kind(&self) -> (kind: CipherKind)
        ensures
            kind == CipherKind::PASSPHRASE,
    {
        CipherKind::PASSPHRASE
    }

    /// Encrypts a map under a key derived from the passphrase and a fresh
    /// salt, with a fresh nonce, and keeps the new metadata. On failure the
    /// cipher is unchanged. What comes back decrypts to the same map again,
    /// provided that no key holds `=` or a newline and no value holds a
    /// newline.
    pub fn encrypt(&mut self, envs: &EnvMap) -> (r: Result<EncryptedContent, EnvioError>)
        ensures
            final(self)@.key == old(self)@.key,
            match r {
                Ok(content) => {
                    &&& old(self)@.encrypt_error(bytes_of(envs@).len()) is None
                    &&& final(self)@.encrypted(envs@, content@)
                    &&& plain_entries(envs@) ==> final(self)@.decrypted(content@) == Ok::<
                        Seq<Entry>,
                        EnvioError,
                    >(envs@)
                },
                Err(e) => {
                    &&& old(self)@.encrypt_error(bytes_of(envs@).len()) == Some(e)
                    &&& final(self)@ == old(self)@
                },
            },
    {
        let outcome = match &self.key {
            None => {
                return Err(EnvioError::Usage(UsageError::MissingKey));
            },
            Some(key) => {
                let data = envs.as_bytes();
                v1::encrypt(key.as_str(), data.as_slice())
            },
        };
        match outcome {
            Ok((sealed, metadata)) => {
                self.metadata = VersionedMetadata::V1(metadata);
                proof {
                    if plain_entries(envs@) {
                        lemma_decrypt_inverts_encrypt(self@, envs@, sealed@);
                    }
                }
                Ok(EncryptedContent::Bytes(sealed))
            },
            Err(e) => Err(e),
        }
    }

    /// Decrypts a ciphertext under the passphrase and the metadata held, and
    /// reads the map it stands for. Without a passphrase nothing is decrypted.
    pub fn decrypt(&self, content: &EncryptedContent) -> (r: Result<EnvMap, EnvioError>)
        ensures
            envs_outcome(r) == self@.decrypted(content@),
    {
        let key = match &self.key {
            None => {
                return Err(EnvioError::Usage(UsageError::MissingKey));
            },
            Some(key) => key,
        };
        let sealed = content.as_bytes();
        let payload = match &self.metadata {
            VersionedMetadata::V1(metadata) => v1::decrypt(
                key.as_str(),
                metadata,
                sealed.as_slice(),
            ),
        };
        match payload {
            Ok(bytes) => EnvMap::from_bytes(bytes),
            Err(e) => Err(e),
        }
    }

    /// The metadata as a record to persist beside the ciphertext. It never
    /// holds the key.
    pub fn export_metadata(&self) -> (record: Option<MetadataRecord>)
        ensures
            record matches Some(fields) && fields@ == record_of(self@.metadata),
    {
        Some(self.metadata.to_record())
    }

    /// Takes the metadata over from a persisted record. On failure the cipher
    /// is unchanged.
    pub fn import_metadata(&mut self, record: MetadataRecord) -> (r: Result<(), EnvioError>)
        ensures
            final(self)@.key == old(self)@.key,
            match read_record(record@) {
                Ok(metadata) => r is Ok && final(self)@.metadata == metadata,
                Err(e) => r == Err::<(), EnvioError>(e) && final(self)@ == old(self)@,
            },
    {
        match VersionedMetadata::from_record(&record) {
            Ok(metadata) => {
                self.metadata = metadata;
                Ok(())
            },
            Err(e) => Err(e),
        }
    }
}

/// Decryption inverts encryption: what a cipher has encrypted, the same
/// cipher, or any cipher with the same passphrase and metadata, decrypts to the same
/// entries, provided that the entries have distinct keys, no key holds `=` or
/// a newline, and no value holds a newline.
pub proof fn lemma_decrypt_inverts_encrypt(
    cipher: PassphraseView,
    entries: Seq<Entry>,
    sealed: Seq<u8>,
)
    requires
        cipher.encrypted(entries, sealed),
        distinct_keys(entries),
        plain_entries(entries),
    ensures
        cipher.decrypted(sealed) == Ok::<Seq<Entry>, EnvioError>(entries),
{
    lemma_parse_inverts_text(entries);
}

} // verus!
