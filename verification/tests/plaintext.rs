use password_store::plaintext::decode_plaintext;
use password_store::StoreError;

#[test]
fn ascii_plaintext_is_decoded() {
    assert_eq!(
        decode_plaintext(b"alice:s3cr3t bob:hunter2".to_vec()),
        Ok(String::from("alice:s3cr3t bob:hunter2"))
    );
}

#[test]
fn empty_plaintext_is_decoded() {
    assert_eq!(decode_plaintext(Vec::new()), Ok(String::new()));
}

#[test]
fn multibyte_plaintext_is_decoded() {
    let text = "k\u{e4}se:gr\u{fc}n \u{65e5}\u{672c}:\u{1f511}";
    assert_eq!(
        decode_plaintext(text.as_bytes().to_vec()),
        Ok(String::from(text))
    );
}

#[test]
fn invalid_utf8_is_an_encoding_error() {
    assert_eq!(decode_plaintext(vec![0xff]), Err(StoreError::Encoding));
    assert_eq!(
        decode_plaintext(vec![b'a', b':', 0xc3]),
        Err(StoreError::Encoding)
    );
    // An encoded surrogate and an overlong encoding.
    assert_eq!(
        decode_plaintext(vec![0xed, 0xa0, 0x80]),
        Err(StoreError::Encoding)
    );
    assert_eq!(decode_plaintext(vec![0xc0, 0xaf]), Err(StoreError::Encoding));
}
