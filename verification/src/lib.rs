//! Encrypted-at-rest profiles of environment variables.
//!
//! A profile is a named set of variables that is stored encrypted and turned
//! back into variables on demand. The core is the cipher subsystem under
//! [`cipher`]: two backends over one chunked authenticated stream, with
//! versioned metadata beside the ciphertext.

pub mod cipher;
pub mod config;
pub mod env;
pub mod error;
pub mod profile;
pub mod text;
pub mod tui;
pub mod utils;
pub mod version;

pub use env::{Env, EnvMap};
pub use profile::{Profile, ProfileMetadata};

use cipher::secret::SecretString;
use error::{EnvioError, UsageError};
use profile::{
    assemble_profile, assembled, prepare_cipher, prepared_cipher, profile_outcome,
    SerializedProfile,
};
use std::path::PathBuf;
use vstd::prelude::*;

verus! {

/// Decrypts a persisted profile that was read from `file_path`.
///
/// The cipher is built for the persisted kind and takes the persisted
/// metadata; a record it refuses ends the call before anyone is asked for a
/// secret. A kind that needs a secret needs the key provider: without one the
/// call fails, and with one the provider is called once, with the profile's
/// header, and its secret keys the cipher. The variables come back only where
/// the whole ciphertext authenticates. The process environment is not
/// touched.
pub fn get_profile<F>(
    serialized: SerializedProfile,
    file_path: PathBuf,
    key_provider: Option<F>,
) -> (r: Result<Profile, EnvioError>) where F: FnOnce(&ProfileMetadata) -> SecretString
    requires
        key_provider matches Some(provider) ==> call_requires(provider, (&serialized.metadata,)),
    ensures
        match prepared_cipher(serialized@.metadata) {
            Err(e) => r == Err::<Profile, EnvioError>(e),
            Ok(cipher) => if !cipher.kind().needs_key() {
                profile_outcome(r) == assembled(serialized@, file_path, cipher, None)
            } else {
                match key_provider {
                    None => r == Err::<Profile, EnvioError>(
                        EnvioError::Usage(UsageError::MissingKey),
                    ),
                    Some(provider) => exists|key: SecretString|
                        call_ensures(provider, (&serialized.metadata,), key) && profile_outcome(
                            r,
                        ) == assembled(serialized@, file_path, cipher, Some(key@)),
                }
            },
        },
{
    let cipher = prepare_cipher(&serialized.metadata)?;
    if cipher.kind().requires_key() {
        let provider = match key_provider {
            Some(provider) => provider,
            None => {
                return Err(EnvioError::Usage(UsageError::MissingKey));
            },
        };
        let key = provider(&serialized.metadata);
        assemble_profile(serialized, file_path, cipher, Some(key))
    } else {
        assemble_profile(serialized, file_path, cipher, None)
    }
}

} // verus!


