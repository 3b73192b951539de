//! The reasons for which a secret cannot be retrieved.

use vstd::prelude::*;

verus! {

/// Why a retrieval failed. Every stage reports the first failure unchanged.
#[derive(Clone, Copy, Debug, PartialEq, Eq, Structural)]
pub enum StoreError {
    /// The base directory is not configured, or is the empty string.
    Configuration,
    /// One of the two files could not be read.
    Io,
    /// The envelope is too short, or a plaintext record has no `:`.
    MalformedStore,
    /// The authentication tag does not verify.
    Decryption,
    /// The plaintext is not UTF-8.
    Encoding,
    /// The store holds no record for the identifier.
    NotFound,
    /// The key derivation parameters were rejected.
    KeyDerivation,
}

} // verus!
