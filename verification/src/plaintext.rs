//! Decoding of the decrypted bytes as UTF-8 text.

use vstd::prelude::*;
use vstd::utf8::{decode_utf8, encode_utf8, encode_utf8_decode_utf8, valid_utf8};
use crate::error::StoreError;

verus! {

#[verifier::external_type_specification]
#[verifier::external_body]
pub struct ExFromUtf8Error(std::string::FromUtf8Error);

/// Calls `String::from_utf8`.
///
/// Trusted: the bytes are accepted exactly when they are well-formed UTF-8,
/// and the string then consists of those very bytes.
#[verifier::external_body]
fn string_from_utf8(bytes: Vec<u8>) -> (res: Result<String, std::string::FromUtf8Error>)
    ensures
        res is Ok <==> valid_utf8(bytes@),
        res matches Ok(text) ==> encode_utf8(text@) == bytes@,
{
    String::from_utf8(bytes)
}

/// The text that a plaintext encodes.
///
/// Fails with `Encoding` exactly when the bytes are not well-formed UTF-8.
pub fn decode_plaintext(plaintext: Vec<u8>) -> (res: Result<String, StoreError>)
    ensures
        match res {
            Ok(text) => valid_utf8(plaintext@) && text@ == decode_utf8(plaintext@),
            Err(e) => e == StoreError::Encoding && !valid_utf8(plaintext@),
        },
{
    match string_from_utf8(plaintext) {
        Ok(text) => {
            proof {
                encode_utf8_decode_utf8(text@);
            }
            Ok(text)
        },
        Err(_) => Err(StoreError::Encoding),
    }
}

} // verus!
