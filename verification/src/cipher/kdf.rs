//! Passphrase-to-key derivation with Argon2id.
//!
//! The cost parameters are fixed per build and part of the format: a profile
//! written with one set cannot be read with another.

use crate::error::{CipherError, EnvioError};
use argon2::{Algorithm, Argon2, Params, Version};
use vstd::prelude::*;

verus! {

/// Memory cost in KiB.
pub const ARGON2_MEMORY: u32 = 65536;

/// Number of passes over the memory.
pub const ARGON2_ITERATIONS: u32 = 3;

/// Degree of parallelism.
pub const ARGON2_PARALLELISM: u32 = 4;

/// Length of the derived key in bytes.
pub const ARGON2_KEY_SIZE: usize = 32;

/// The 32 bytes that Argon2id, version 0x13, derives from a password and a
/// salt under the given costs, without secret or associated data.
pub uninterp spec fn argon2id_output(
    m_cost: u32,
    t_cost: u32,
    p_cost: u32,
    password: Seq<u8>,
    salt: Seq<u8>,
) -> Seq<u8>;

/// `argon2::Error`, which says why a derivation was refused.
#[verifier::external_type_specification]
#[verifier::external_body]
pub struct ExArgon2Error(argon2::Error);

/// The input lengths that Argon2 accepts: a password of at most 2^32 - 1
/// bytes and a salt of 8 to 2^32 - 1 bytes.
pub open spec fn kdf_accepts(password_len: nat, salt_len: nat) -> bool {
    &&& password_len <= 0xFFFF_FFFF
    &&& 8 <= salt_len <= 0xFFFF_FFFF
}

/// The costs that `argon2::Params::new` accepts, with the memory capped at
/// 1 GiB so that the working memory can be allocated.
pub open spec fn kdf_costs_valid(m_cost: u32, t_cost: u32, p_cost: u32) -> bool {
    &&& 1 <= p_cost <= 0xFF_FFFF
    &&& 8 * p_cost <= m_cost <= 0x10_0000
    &&& 1 <= t_cost
}

/// `argon2::Params::new` with a 32-byte output, then
/// `Argon2::hash_password_into` for Argon2id, version 0x13. With valid costs
/// the first cannot fail, and the second fails exactly on a password or salt
/// whose length Argon2 does not accept.
#[verifier::external_body]
pub(crate) fn argon2id_into(
    m_cost: u32,
    t_cost: u32,
    p_cost: u32,
    password: &[u8],
    salt: &[u8],
    out: &mut [u8; 32],
) -> (r: Result<(), argon2::Error>)
    requires
        kdf_costs_valid(m_cost, t_cost, p_cost),
    ensures
        r is Ok <==> kdf_accepts(password@.len(), salt@.len()),
        r is Ok ==> final(out)@ == argon2id_output(m_cost, t_cost, p_cost, password@, salt@),
{
    let params = Params::new(m_cost, t_cost, p_cost, Some(out.len()))?;
    Argon2::new(Algorithm::Argon2id, Version::V0x13, params).hash_password_into(
        password,
        salt,
        out,
    )
}

/// The key this build derives from a passphrase and a salt.
pub open spec fn derived_key(passphrase: Seq<u8>, salt: Seq<u8>) -> Seq<u8> {
    argon2id_output(ARGON2_MEMORY, ARGON2_ITERATIONS, ARGON2_PARALLELISM, passphrase, salt)
}

/// Derives the 32-byte key for `passphrase` and `salt` into `out`.
///
/// Fails exactly where the passphrase is longer than 2^32 - 1 bytes or the
/// salt is shorter than 8 bytes or longer than 2^32 - 1.
pub fn derive_key(passphrase: &[u8], salt: &[u8], out: &mut [u8; 32]) -> (r: Result<
    (),
    EnvioError,
>)
    ensures
        r is Ok <==> kdf_accepts(passphrase@.len(), salt@.len()),
        r is Ok ==> final(out)@ == derived_key(passphrase@, salt@),
        r matches Err(e) ==> e == EnvioError::Cipher(CipherError::KeyDerivation),
{
    match argon2id_into(
        ARGON2_MEMORY,
        ARGON2_ITERATIONS,
        ARGON2_PARALLELISM,
        passphrase,
        salt,
        out,
    ) {
        Ok(_) => Ok(()),
        Err(_) => Err(EnvioError::Cipher(CipherError::KeyDerivation)),
    }
}

} // verus!
