//! Profiles: the persisted unit and the decrypted one.

use crate::cipher::record::MetadataRecord;
use crate::cipher::{new_cipher, Cipher, CipherKind, CipherView, EncryptedContent};
use crate::env::{Entry, EnvMap};
use crate::error::EnvioError;
use std::path::PathBuf;
use vstd::prelude::*;

verus! {

/// `std::path::PathBuf`, carried through as it is.
#[verifier::external_type_specification]
#[verifier::external_body]
pub struct ExPathBuf(PathBuf);

/// `Clone` of `PathBuf`: the same path again.
pub assume_specification[ <PathBuf as Clone>::clone ](path: &PathBuf) -> (copy: PathBuf)
    ensures
        copy == *path,
;

/// The descriptive header of a profile. It is persisted in the clear and read
/// before anything can be decrypted.
#[derive(Debug, PartialEq, Eq)]
pub struct ProfileMetadata {
    /// The display name.
    pub name: String,
    /// Which backend encrypted the profile.
    pub cipher_kind: CipherKind,
    /// The backend's public parameters, if it has written any.
    pub cipher_metadata: Option<MetadataRecord>,
}

/// What a [`ProfileMetadata`] holds.
pub struct ProfileMetadataView {
    pub name: Seq<char>,
    pub cipher_kind: CipherKind,
    pub cipher_metadata: Option<Seq<(Seq<char>, Seq<char>)>>,
}

impl View for ProfileMetadata {
    type V = ProfileMetadataView;

    open spec fn view(&self) -> ProfileMetadataView {
        ProfileMetadataView {
            name: self.name@,
            cipher_kind: self.cipher_kind,
            cipher_metadata: match self.cipher_metadata {
                Some(record) => Some(record@),
                None => None,
            },
        }
    }
}

impl Clone for ProfileMetadata {
    fn clone(&self) -> (copy: Self)
        ensures
            copy@ == self@,
    {
        ProfileMetadata {
            name: self.name.clone(),
            cipher_kind: self.cipher_kind,
            cipher_metadata: match &self.cipher_metadata {
                Some(record) => Some(record.clone()),
                None => None,
            },
        }
    }
}

/// A profile as it is persisted: the header and the ciphertext.
#[derive(Debug, PartialEq, Eq)]
pub struct SerializedProfile {
    pub metadata: ProfileMetadata,
    pub content: EncryptedContent,
}

/// What a [`SerializedProfile`] holds.
pub struct SerializedProfileView {
    pub metadata: ProfileMetadataView,
    pub content: Seq<u8>,
}

impl View for SerializedProfile {
    type V = SerializedProfileView;

    open spec fn view(&self) -> SerializedProfileView {
        SerializedProfileView { metadata: self.metadata@, content: self.content@ }
    }
}

impl Clone for SerializedProfile {
    fn clone(&self) -> (copy: Self)
        ensures
            copy@ == self@,
    {
        SerializedProfile { metadata: self.metadata.clone(), content: self.content.clone() }
    }
}

/// A decrypted profile: the header, where it was read from, the variables,
/// and the cipher that decrypted them, which still holds the secret.
pub struct Profile {
    pub metadata: ProfileMetadata,
    pub file_path: PathBuf,
    pub envs: EnvMap,
    pub cipher: Cipher,
}

/// What a [`Profile`] holds.
pub struct ProfileView {
    pub metadata: ProfileMetadataView,
    pub file_path: PathBuf,
    pub envs: Seq<Entry>,
    pub cipher: CipherView,
}

impl View for Profile {
    type V = ProfileView;

    open spec fn view(&self) -> ProfileView {
        ProfileView {
            metadata: self.metadata@,
            file_path: self.file_path,
            envs: self.envs@,
            cipher: self.cipher@,
        }
    }
}

impl Clone for Profile {
    fn clone(&self) -> (copy: Self)
        ensures
            copy@ == self@,
    {
        Profile {
            metadata: self.metadata.clone(),
            file_path: self.file_path.clone(),
            envs: self.envs.clone(),
            cipher: self.cipher.clone(),
        }
    }
}

/// The view of an `Ok`, the error of an `Err`.
pub open spec fn profile_outcome(r: Result<Profile, EnvioError>) -> Result<
    ProfileView,
    EnvioError,
> {
    match r {
        Ok(profile) => Ok(profile@),
        Err(e) => Err(e),
    }
}

/// The cipher of a persisted profile before it has a secret: of the persisted
/// kind, with the persisted metadata where there is any. A record that the
/// backend refuses makes the profile unreadable.
pub open spec fn prepared_cipher(metadata: ProfileMetadataView) -> Result<CipherView, EnvioError> {
    let cipher = new_cipher(metadata.cipher_kind, None);
    match metadata.cipher_metadata {
        Some(fields) => cipher.imported(fields),
        None => Ok(cipher),
    }
}

/// The profile that a prepared cipher makes of a persisted one, once it has
/// been given `key` if there is one: the decrypted variables bundled with the
/// header, the path and the cipher, or the error of the decryption.
pub open spec fn assembled(
    serialized: SerializedProfileView,
    file_path: PathBuf,
    cipher: CipherView,
    key: Option<Seq<char>>,
) -> Result<ProfileView, EnvioError> {
    let cipher = match key {
        Some(key) => cipher.with_key(key),
        None => cipher,
    };
    match cipher.decrypted(serialized.content) {
        Ok(envs) => Ok(ProfileView { metadata: serialized.metadata, file_path, envs, cipher }),
        Err(e) => Err(e),
    }
}

/// Builds the cipher of a persisted profile, without a secret.
pub fn prepare_cipher(metadata: &ProfileMetadata) -> (r: Result<Cipher, EnvioError>)
    ensures
        match prepared_cipher(metadata@) {
            Ok(cipher) => r matches Ok(c) && c@ == cipher,
            Err(e) => r == Err::<Cipher, EnvioError>(e),
        },
{
    let mut cipher = match crate::cipher::create_cipher(metadata.cipher_kind, None) {
        Ok(cipher) => cipher,
        Err(e) => {
            return Err(e);
        },
    };
    match &metadata.cipher_metadata {
        Some(record) => {
            match cipher.import_metadata(record.clone()) {
                Ok(_) => Ok(cipher),
                Err(e) => Err(e),
            }
        },
        None => Ok(cipher),
    }
}

/// Decrypts a persisted profile with a prepared cipher, after giving the
/// cipher `key` if there is one. Nothing is returned of a profile that fails
/// to decrypt.
pub fn assemble_profile(
    serialized: SerializedProfile,
    file_path: PathBuf,
    cipher: Cipher,
    key: Option<crate::cipher::secret::SecretString>,
) -> (r: Result<Profile, EnvioError>)
    ensures
        profile_outcome(r) == assembled(
            serialized@,
            file_path,
            cipher@,
            crate::cipher::secret::key_text(key),
        ),
{
    let mut cipher = cipher;
    match key {
        Some(key) => {
            cipher.set_key(key);
        },
        None => {},
    }
    match cipher.decrypt(&serialized.content) {
        Ok(envs) => Ok(Profile { metadata: serialized.metadata, file_path, envs, cipher }),
        Err(e) => Err(e),
    }
}

} // verus!
