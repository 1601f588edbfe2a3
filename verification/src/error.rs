//! Error taxonomy of the library.
//!
//! Every fallible operation returns one of these values; nothing is signalled
//! by panicking. The variants carry no payload on purpose: a failure must never
//! echo key material or plaintext back to the caller.

use vstd::prelude::*;

verus! {

/// Failures of the cryptographic layer.
#[derive(Clone, Copy, Debug, PartialEq, Eq, Structural)]
pub enum CipherError {
    /// The key-derivation function rejected its parameters or inputs.
    KeyDerivation,
    /// The authentication tag of some chunk did not verify: wrong key, wrong
    /// passphrase, or a ciphertext that was corrupted, truncated or spliced.
    /// The causes are deliberately indistinguishable.
    Authentication,
    /// The key is not valid base64 text.
    InvalidKeyEncoding,
    /// The key decodes to a number of bytes other than 32.
    InvalidKeyLength,
    /// The payload has more chunks than the 32-bit chunk counter can number.
    PayloadTooLong,
    /// The authenticated plaintext is not UTF-8 text.
    InvalidPlaintext,
}

/// Failures while reading persisted cipher metadata.
#[derive(Clone, Copy, Debug, PartialEq, Eq, Structural)]
pub enum MetadataError {
    /// The version tag names a schema this build does not know.
    UnsupportedVersion,
    /// A required field is missing, or a field's value cannot be decoded.
    Malformed,
}

/// Failures caused by how the library was called.
#[derive(Clone, Copy, Debug, PartialEq, Eq, Structural)]
pub enum UsageError {
    /// A secret is needed and none was supplied: the profile's cipher needs
    /// one and no key provider was given, or a cipher was used before it was
    /// keyed.
    MissingKey,
    /// The persisted cipher kind tag names no known backend.
    UnknownCipherKind,
}

/// Any failure of the library.
#[derive(Clone, Copy, Debug, PartialEq, Eq, Structural)]
pub enum EnvioError {
    Cipher(CipherError),
    Metadata(MetadataError),
    Usage(UsageError),
}

impl EnvioError {
    /// A short human-readable description, free of any secret.
    pub fn message(&self) -> (text: &'static str)
        ensures
            text@ == self.message_text(),
    {
        match self {
            EnvioError::Cipher(CipherError::KeyDerivation) => "key derivation failed",
            EnvioError::Cipher(CipherError::Authentication) => "authentication failed",
            EnvioError::Cipher(CipherError::InvalidKeyEncoding) => "key is not valid base64",
            EnvioError::Cipher(CipherError::InvalidKeyLength) => {
                "Symmetric key must be exactly 32 bytes (base64 encoded)"
            },
            EnvioError::Cipher(CipherError::PayloadTooLong) => "payload has too many chunks",
            EnvioError::Cipher(CipherError::InvalidPlaintext) => "decrypted payload is not UTF-8",
            EnvioError::Metadata(MetadataError::UnsupportedVersion) => {
                "unsupported metadata version"
            },
            EnvioError::Metadata(MetadataError::Malformed) => "malformed cipher metadata",
            EnvioError::Usage(UsageError::MissingKey) => {
                "Key provider is required for profiles using encryption"
            },
            EnvioError::Usage(UsageError::UnknownCipherKind) => "unknown cipher kind",
        }
    }

    /// The text that [`EnvioError::message`] returns.
    pub open spec fn message_text(&self) -> Seq<char> {
        match self {
            EnvioError::Cipher(CipherError::KeyDerivation) => "key derivation failed"@,
            EnvioError::Cipher(CipherError::Authentication) => "authentication failed"@,
            EnvioError::Cipher(CipherError::InvalidKeyEncoding) => "key is not valid base64"@,
            EnvioError::Cipher(CipherError::InvalidKeyLength) => {
                "Symmetric key must be exactly 32 bytes (base64 encoded)"@
            },
            EnvioError::Cipher(CipherError::PayloadTooLong) => "payload has too many chunks"@,
            EnvioError::Cipher(CipherError::InvalidPlaintext) => "decrypted payload is not UTF-8"@,
            EnvioError::Metadata(MetadataError::UnsupportedVersion) => {
                "unsupported metadata version"@
            },
            EnvioError::Metadata(MetadataError::Malformed) => "malformed cipher metadata"@,
            EnvioError::Usage(UsageError::MissingKey) => {
                "Key provider is required for profiles using encryption"@
            },
            EnvioError::Usage(UsageError::UnknownCipherKind) => "unknown cipher kind"@,
        }
    }
}

/// Failures of the helpers that serve the command-line application.
#[derive(Debug, PartialEq, Eq)]
pub enum AppError {
    /// No profile of this name exists where it was looked for.
    ProfileDoesNotExist(String),
    /// The user's shell is one whose configuration file is not known.
    UnsupportedShell(String),
    /// Any other failure, described in words.
    Msg(String),
}

impl Clone for AppError {
    fn clone(&self) -> (copy: Self)
        ensures
            copy@ == self@,
    {
        match self {
            AppError::ProfileDoesNotExist(name) => AppError::ProfileDoesNotExist(name.clone()),
            AppError::UnsupportedShell(shell) => AppError::UnsupportedShell(shell.clone()),
            AppError::Msg(text) => AppError::Msg(text.clone()),
        }
    }
}

/// What an [`AppError`] holds.
pub enum AppErrorView {
    ProfileDoesNotExist(Seq<char>),
    UnsupportedShell(Seq<char>),
    Msg(Seq<char>),
}

impl View for AppError {
    type V = AppErrorView;

    open spec fn view(&self) -> AppErrorView {
        match self {
            AppError::ProfileDoesNotExist(name) => AppErrorView::ProfileDoesNotExist(name@),
            AppError::UnsupportedShell(shell) => AppErrorView::UnsupportedShell(shell@),
            AppError::Msg(text) => AppErrorView::Msg(text@),
        }
    }
}

} // verus!
