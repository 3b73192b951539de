//! The retrieval pipeline: envelope, key, plaintext, lookup.

use vstd::prelude::*;
use vstd::utf8::{decode_utf8, encode_utf8, encode_utf8_decode_utf8, encode_utf8_valid_utf8, valid_utf8};
use crate::cipher::{decrypt, opened};
use crate::envelope::{
    envelope_bytes, envelope_fields, is_envelope, lemma_fields_of_envelope_bytes,
    unpack_cipher_contents, NONCE_LENGTH, SALT_LENGTH, TAG_LENGTH, VERSION_LENGTH,
};
use crate::error::StoreError;
use crate::kdf::{derive_key, derived_key};
use crate::plaintext::decode_plaintext;
use crate::store_map::{lookup, lookup_pw};

verus! {

/// The text of the store in `bytes` under the companion secret `secret`, or
/// the first failure on the way to it: an envelope that is too short, a tag
/// that does not verify under the derived key, a plaintext that is not UTF-8.
pub open spec fn store_text(bytes: Seq<u8>, secret: Seq<u8>) -> Result<Seq<char>, StoreError> {
    if !is_envelope(bytes) {
        Err(StoreError::MalformedStore)
    } else {
        let fields = envelope_fields(bytes);
        match opened(
            derived_key(secret, fields.salt),
            fields.nonce,
            fields.ciphertext,
            fields.tag,
        ) {
            None => Err(StoreError::Decryption),
            Some(plaintext) => if valid_utf8(plaintext) {
                Ok(decode_utf8(plaintext))
            } else {
                Err(StoreError::Encoding)
            },
        }
    }
}

/// The secret that the store in `bytes` holds for `id`, or the first failure
/// on the way to it.
pub open spec fn stored_password(bytes: Seq<u8>, secret: Seq<u8>, id: Seq<char>) -> Result<
    Seq<char>,
    StoreError,
> {
    match store_text(bytes, secret) {
        Ok(text) => lookup(text, id),
        Err(e) => Err(e),
    }
}

/// Decrypts a store file with the key derived from the companion secret and
/// returns its text.
pub fn unpack_pw_store(pw_store_bytes: &[u8], secret: &[u8]) -> (res: Result<String, StoreError>)
    ensures
        match res {
            Ok(text) => store_text(pw_store_bytes@, secret@) == Ok::<Seq<char>, StoreError>(text@),
            Err(e) => store_text(pw_store_bytes@, secret@) == Err::<Seq<char>, StoreError>(e),
        },
{
    let (salt, nonce, tag, ciphertext) = match unpack_cipher_contents(pw_store_bytes) {
        Ok(fields) => fields,
        Err(e) => {
            return Err(e);
        },
    };
    let key = match derive_key(secret, salt) {
        Ok(key) => key,
        Err(e) => {
            return Err(e);
        },
    };
    let plaintext = match decrypt(ciphertext, key.as_slice(), nonce, tag) {
        Ok(plaintext) => plaintext,
        Err(e) => {
            return Err(e);
        },
    };
    decode_plaintext(plaintext)
}

/// Retrieves the secret stored for `pw_id`, given the contents of the store
/// file and of its companion secret file.
///
/// Nothing is cached: the key is derived anew on every call, and the text of
/// the store is dropped before the call returns.
pub fn password_from_store(pw_store_bytes: &[u8], secret: &[u8], pw_id: &str) -> (res: Result<
    String,
    StoreError,
>)
    ensures
        match res {
            Ok(password) => stored_password(pw_store_bytes@, secret@, pw_id@) == Ok::<
                Seq<char>,
                StoreError,
            >(password@),
            Err(e) => stored_password(pw_store_bytes@, secret@, pw_id@) == Err::<
                Seq<char>,
                StoreError,
            >(e),
        },
{
    let pw_store = match unpack_pw_store(pw_store_bytes, secret) {
        Ok(text) => text,
        Err(e) => {
            return Err(e);
        },
    };
    lookup_pw(pw_store.as_str(), pw_id)
}

/// A store shorter than its header is malformed, whatever the secret and
/// the identifier.
pub proof fn lemma_short_store_is_malformed(bytes: Seq<u8>, secret: Seq<u8>, id: Seq<char>)
    requires
        bytes.len() < 50,
    ensures
        store_text(bytes, secret) == Err::<Seq<char>, StoreError>(StoreError::MalformedStore),
        stored_password(bytes, secret, id) == Err::<Seq<char>, StoreError>(
            StoreError::MalformedStore,
        ),
{
}

/// Round trip: where the cipher opens `ciphertext` and `tag` to the UTF-8
/// encoding of `text` under the key derived from `secret` and `salt`, the
/// store made of these fields reads as `text`, and a lookup in the store is a
/// lookup in `text`.
pub proof fn lemma_store_text_of_sealed_text(
    version: Seq<u8>,
    salt: Seq<u8>,
    nonce: Seq<u8>,
    tag: Seq<u8>,
    ciphertext: Seq<u8>,
    secret: Seq<u8>,
    text: Seq<char>,
    id: Seq<char>,
)
    requires
        version.len() == VERSION_LENGTH,
        salt.len() == SALT_LENGTH,
        nonce.len() == NONCE_LENGTH,
        tag.len() == TAG_LENGTH,
        opened(derived_key(secret, salt), nonce, ciphertext, tag) == Some(encode_utf8(text)),
    ensures
        store_text(envelope_bytes(version, salt, nonce, tag, ciphertext), secret) == Ok::<
            Seq<char>,
            StoreError,
        >(text),
        stored_password(envelope_bytes(version, salt, nonce, tag, ciphertext), secret, id)
            == lookup(text, id),
{
    lemma_fields_of_envelope_bytes(version, salt, nonce, tag, ciphertext);
    encode_utf8_valid_utf8(text);
    encode_utf8_decode_utf8(text);
}

/// Fail closed: where the tag does not verify under the key derived from
/// `secret` and the salt of the envelope, nothing is returned but
/// `Decryption`.
pub proof fn lemma_unverified_store_is_rejected(bytes: Seq<u8>, secret: Seq<u8>, id: Seq<char>)
    requires
        is_envelope(bytes),
        opened(
            derived_key(secret, envelope_fields(bytes).salt),
            envelope_fields(bytes).nonce,
            envelope_fields(bytes).ciphertext,
            envelope_fields(bytes).tag,
        ) is None,
    ensures
        stored_password(bytes, secret, id) == Err::<Seq<char>, StoreError>(StoreError::Decryption),
{
}

} // verus!
