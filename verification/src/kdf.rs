//! Derivation of the store key from the companion secret and the salt.
//!
//! The parameters are fixed by the store format and deliberately expensive:
//! N = 2^14, r = 8, p = 1, and a key of 32 bytes.

use vstd::prelude::*;
use vstd::arithmetic::power2::{lemma2_to64, pow2};
use crate::error::StoreError;

verus! {

/// Base-2 logarithm of the cost factor N.
pub const SCRYPT_LOG_N: u8 = 14;

/// The block size r.
pub const SCRYPT_R: u32 = 8;

/// The parallelism p.
pub const SCRYPT_P: u32 = 1;

/// Length of a derived key, in bytes.
pub const KEY_SIZE: usize = 32;

/// The bytes that scrypt derives from a password and a salt under the cost
/// parameters `log_n`, `r`, `p`, for an output of `len` bytes.
pub uninterp spec fn scrypt_output(
    password: Seq<u8>,
    salt: Seq<u8>,
    log_n: u8,
    r: u32,
    p: u32,
    len: nat,
) -> Seq<u8>;

/// The parameter sets that scrypt accepts for an output of `len` bytes: both
/// `r` and `p` positive, N = 2^`log_n` representable and below 2^(16 r), the
/// working memory (128 r N and 128 r p bytes) addressable, r p below 2^30,
/// and a length between 10 and 64.
pub open spec fn scrypt_params_accepted(log_n: u8, r: u32, p: u32, len: nat) -> bool {
    &&& r > 0
    &&& p > 0
    &&& log_n < usize::BITS
    &&& 10 <= len <= 64
    &&& 128 * r * pow2(log_n as nat) <= usize::MAX
    &&& 128 * r * p <= usize::MAX
    &&& log_n < 16 * r
    &&& r * p < 0x4000_0000
}

/// The key of the store whose companion secret is `secret` and whose envelope
/// carries `salt`.
pub open spec fn derived_key(secret: Seq<u8>, salt: Seq<u8>) -> Seq<u8> {
    scrypt_output(secret, salt, SCRYPT_LOG_N, SCRYPT_R, SCRYPT_P, KEY_SIZE as nat)
}

/// Runs `scrypt::Params::new(log_n, r, p, 32)` and, where that accepts the
/// parameters, `scrypt::scrypt` into `output`.
///
/// Trusted: the parameters are accepted exactly as `scrypt_params_accepted`
/// says, which is the list of checks in `Params::new`; a 32-byte output is
/// never refused by `scrypt::scrypt`; and the bytes written depend only on the
/// arguments.
#[verifier::external_body]
fn scrypt_into(password: &[u8], salt: &[u8], log_n: u8, r: u32, p: u32, output: &mut [u8; 32]) -> (ok:
    bool)
    ensures
        ok <==> scrypt_params_accepted(log_n, r, p, 32),
        ok ==> final(output)@ == scrypt_output(password@, salt@, log_n, r, p, 32),
{
    match scrypt::Params::new(log_n, r, p, output.len()) {
        Ok(params) => scrypt::scrypt(password, salt, &params, output).is_ok(),
        Err(_) => false,
    }
}

/// The fixed parameters are accepted on every machine whose `usize` has at
/// least 32 bits.
pub proof fn lemma_fixed_params_accepted()
    ensures
        scrypt_params_accepted(SCRYPT_LOG_N, SCRYPT_R, SCRYPT_P, KEY_SIZE as nat),
{
    lemma2_to64();
}

/// Derives the 32-byte key of a store.
///
/// Always succeeds: `KeyDerivation` is reserved for a rejected parameter set,
/// and the fixed one is accepted.
pub fn derive_key(secret: &[u8], salt: &[u8]) -> (res: Result<[u8; 32], StoreError>)
    ensures
        res matches Ok(key) && key@ == derived_key(secret@, salt@),
{
    let mut key: [u8; 32] = [0u8; 32];
    proof {
        lemma_fixed_params_accepted();
    }
    if scrypt_into(secret, salt, SCRYPT_LOG_N, SCRYPT_R, SCRYPT_P, &mut key) {
        Ok(key)
    } else {
        Err(StoreError::KeyDerivation)
    }
}

/// Key derivation is deterministic: equal secrets and equal salts give equal
/// keys, each of 32 bytes.
pub proof fn lemma_derive_key_deterministic(
    secret_a: Seq<u8>,
    salt_a: Seq<u8>,
    secret_b: Seq<u8>,
    salt_b: Seq<u8>,
)
    requires
        secret_a == secret_b,
        salt_a == salt_b,
    ensures
        derived_key(secret_a, salt_a) == derived_key(secret_b, salt_b),
{
}

} // verus!
