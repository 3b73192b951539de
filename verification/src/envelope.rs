//! The fixed byte layout of a store file.
//!
//! | bytes      | field      |
//! |------------|------------|
//! | `[0, 2)`   | version    |
//! | `[2, 18)`  | salt       |
//! | `[18, 34)` | nonce      |
//! | `[34, 50)` | tag        |
//! | `[50, ..)` | ciphertext |

use vstd::prelude::*;
use vstd::slice::slice_subrange;
use crate::error::StoreError;

verus! {

pub const VERSION_LENGTH: usize = 2;

pub const SALT_LENGTH: usize = 16;

pub const NONCE_LENGTH: usize = 16;

pub const TAG_LENGTH: usize = 16;

/// Length of everything that precedes the ciphertext.
pub const HEADER_LENGTH: usize = 50;

/// The four fields that the layout assigns to a byte sequence of at least
/// `HEADER_LENGTH` bytes.
pub struct EnvelopeFields {
    pub salt: Seq<u8>,
    pub nonce: Seq<u8>,
    pub tag: Seq<u8>,
    pub ciphertext: Seq<u8>,
}

/// Whether `bytes` is long enough to hold every fixed-width field.
pub open spec fn is_envelope(bytes: Seq<u8>) -> bool {
    bytes.len() >= HEADER_LENGTH
}

/// The fields of an envelope, by their offsets.
pub open spec fn envelope_fields(bytes: Seq<u8>) -> EnvelopeFields
    recommends
        is_envelope(bytes),
{
    EnvelopeFields {
        salt: bytes.subrange(2, 18),
        nonce: bytes.subrange(18, 34),
        tag: bytes.subrange(34, 50),
        ciphertext: bytes.subrange(50, bytes.len() as int),
    }
}

/// The envelope that stores the given fields, in the order of the layout.
pub open spec fn envelope_bytes(
    version: Seq<u8>,
    salt: Seq<u8>,
    nonce: Seq<u8>,
    tag: Seq<u8>,
    ciphertext: Seq<u8>,
) -> Seq<u8> {
    version + salt + nonce + tag + ciphertext
}

/// Slices an envelope into `(salt, nonce, tag, ciphertext)`.
///
/// Fails with `MalformedStore` exactly when the input is shorter than the
/// header; no byte is read before the length has been checked.
pub fn unpack_cipher_contents(pw_store_bytes: &[u8]) -> (res: Result<
    (&[u8], &[u8], &[u8], &[u8]),
    StoreError,
>)
    ensures
        match res {
            Ok((salt, nonce, tag, ciphertext)) => {
                &&& is_envelope(pw_store_bytes@)
                &&& salt@ == envelope_fields(pw_store_bytes@).salt
                &&& nonce@ == envelope_fields(pw_store_bytes@).nonce
                &&& tag@ == envelope_fields(pw_store_bytes@).tag
                &&& ciphertext@ == envelope_fields(pw_store_bytes@).ciphertext
            },
            Err(e) => e == StoreError::MalformedStore && !is_envelope(pw_store_bytes@),
        },
{
    let salt_start: usize = VERSION_LENGTH;
    let nonce_start: usize = VERSION_LENGTH + SALT_LENGTH;
    let tag_start: usize = nonce_start + NONCE_LENGTH;
    let ciphertext_start: usize = tag_start + TAG_LENGTH;
    if pw_store_bytes.len() < ciphertext_start {
        return Err(StoreError::MalformedStore);
    }
    Ok(
        (
            slice_subrange(pw_store_bytes, salt_start, nonce_start),
            slice_subrange(pw_store_bytes, nonce_start, tag_start),
            slice_subrange(pw_store_bytes, tag_start, ciphertext_start),
            slice_subrange(pw_store_bytes, ciphertext_start, pw_store_bytes.len()),
        ),
    )
}

/// Unpacking inverts packing: an envelope built from a 2-byte version and
/// 16-byte salt, nonce and tag yields those very fields, whatever the
/// ciphertext.
pub proof fn lemma_fields_of_envelope_bytes(
    version: Seq<u8>,
    salt: Seq<u8>,
    nonce: Seq<u8>,
    tag: Seq<u8>,
    ciphertext: Seq<u8>,
)
    requires
        version.len() == VERSION_LENGTH,
        salt.len() == SALT_LENGTH,
        nonce.len() == NONCE_LENGTH,
        tag.len() == TAG_LENGTH,
    ensures
        is_envelope(envelope_bytes(version, salt, nonce, tag, ciphertext)),
        envelope_fields(envelope_bytes(version, salt, nonce, tag, ciphertext)) == (EnvelopeFields {
            salt,
            nonce,
            tag,
            ciphertext,
        }),
{
    let bytes = envelope_bytes(version, salt, nonce, tag, ciphertext);
    assert(bytes.subrange(2, 18) =~= salt);
    assert(bytes.subrange(18, 34) =~= nonce);
    assert(bytes.subrange(34, 50) =~= tag);
    assert(bytes.subrange(50, bytes.len() as int) =~= ciphertext);
}

/// Every envelope is the packing of its own fields behind its first two
/// bytes, so the layout loses nothing.
pub proof fn lemma_envelope_bytes_of_fields(bytes: Seq<u8>)
    requires
        is_envelope(bytes),
    ensures
        envelope_bytes(
            bytes.subrange(0, 2),
            envelope_fields(bytes).salt,
            envelope_fields(bytes).nonce,
            envelope_fields(bytes).tag,
            envelope_fields(bytes).ciphertext,
        ) == bytes,
{
}

} // verus!
