//! Authenticated decryption of the store's ciphertext.
//!
//! The cipher is AES-256-GCM with a 16-byte nonce, a 16-byte tag and no
//! associated data. The nonce length is part of the file format.

use vstd::prelude::*;
use crate::error::StoreError;

verus! {

#[verifier::external_type_specification]
#[verifier::external_body]
pub struct ExAeadError(aes_gcm::Error);

/// What AES-256-GCM with a 16-byte nonce returns for a ciphertext that ends
/// in its tag: the plaintext, or `None` where the tag does not verify.
pub uninterp spec fn aes256_gcm_open(key: Seq<u8>, nonce: Seq<u8>, tagged_ciphertext: Seq<u8>) -> Option<
    Seq<u8>,
>;

/// The plaintext that `key` and `nonce` recover from a ciphertext and its
/// detached tag, or `None` where the tag does not verify.
pub open spec fn opened(key: Seq<u8>, nonce: Seq<u8>, ciphertext: Seq<u8>, tag: Seq<u8>) -> Option<
    Seq<u8>,
> {
    aes256_gcm_open(key, nonce, ciphertext + tag)
}

/// Builds `AesGcm<Aes256, U16>` with `KeyInit::new` and calls `Aead::decrypt`
/// on it, without associated data.
///
/// Trusted: the outcome depends only on the three byte strings. Key and nonce
/// are converted to fixed-size arrays, which panics on any other length, hence
/// the two preconditions.
#[verifier::external_body]
fn aes256_gcm_decrypt(key: &[u8], nonce: &[u8], tagged_ciphertext: &[u8]) -> (res: Result<
    Vec<u8>,
    aes_gcm::Error,
>)
    requires
        key@.len() == 32,
        nonce@.len() == 16,
    ensures
        match res {
            Ok(plaintext) => aes256_gcm_open(key@, nonce@, tagged_ciphertext@) == Some(plaintext@),
            Err(_) => aes256_gcm_open(key@, nonce@, tagged_ciphertext@) is None,
        },
{
    let cipher: aes_gcm::AesGcm<aes_gcm::aes::Aes256, aes_gcm::aes::cipher::consts::U16> =
        aes_gcm::KeyInit::new(key.into());
    aes_gcm::aead::Aead::decrypt(&cipher, aes_gcm::Nonce::from_slice(nonce), tagged_ciphertext)
}

/// Verifies `tag` over `ciphertext` and returns the plaintext.
///
/// Fails with `Decryption` exactly when the tag does not verify under `key`
/// and `nonce`; no plaintext is returned in that case.
pub fn decrypt(ciphertext: &[u8], key: &[u8], nonce: &[u8], tag: &[u8]) -> (res: Result<
    Vec<u8>,
    StoreError,
>)
    requires
        key@.len() == 32,
        nonce@.len() == 16,
    ensures
        match res {
            Ok(plaintext) => opened(key@, nonce@, ciphertext@, tag@) == Some(plaintext@),
            Err(e) => e == StoreError::Decryption && opened(key@, nonce@, ciphertext@, tag@) is None,
        },
{
    let mut tagged_ciphertext: Vec<u8> = Vec::new();
    tagged_ciphertext.extend_from_slice(ciphertext);
    tagged_ciphertext.extend_from_slice(tag);
    assert(tagged_ciphertext@ =~= ciphertext@ + tag@);
    match aes256_gcm_decrypt(key, nonce, tagged_ciphertext.as_slice()) {
        Ok(plaintext) => Ok(plaintext),
        Err(_) => Err(StoreError::Decryption),
    }
}

} // verus!
