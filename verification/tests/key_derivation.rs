use password_store::kdf::{derive_key, KEY_SIZE, SCRYPT_LOG_N, SCRYPT_P, SCRYPT_R};

#[test]
fn parameters_are_the_fixed_ones() {
    assert_eq!(SCRYPT_LOG_N, 14);
    assert_eq!(SCRYPT_R, 8);
    assert_eq!(SCRYPT_P, 1);
    assert_eq!(KEY_SIZE, 32);
}

#[test]
fn derives_the_published_vector() {
    // scrypt("pleaseletmein", "SodiumChloride", N = 16384, r = 8, p = 1):
    // the first 32 bytes of the published 64-byte output.
    let expected: [u8; 32] = [
        0x70, 0x23, 0xbd, 0xcb, 0x3a, 0xfd, 0x73, 0x48, 0x46, 0x1c, 0x06, 0xcd, 0x81, 0xfd, 0x38,
        0xeb, 0xfd, 0xa8, 0xfb, 0xba, 0x90, 0x4f, 0x8e, 0x3e, 0xa9, 0xb5, 0x43, 0xf6, 0x54, 0x5d,
        0xa1, 0xf2,
    ];
    let key = derive_key(b"pleaseletmein", b"SodiumChloride").unwrap();
    assert_eq!(key, expected);
}

#[test]
fn derivation_agrees_with_scrypt() {
    let secret = b"companion secret";
    let salt = [7u8; 16];
    let params = scrypt::Params::new(14, 8, 1, 32).unwrap();
    let mut expected = [0u8; 32];
    scrypt::scrypt(secret, &salt, &params, &mut expected).unwrap();
    assert_eq!(derive_key(secret, &salt), Ok(expected));
}

#[test]
fn derivation_is_deterministic() {
    let secret = b"some secret";
    let salt = [0x5au8; 16];
    let first = derive_key(secret, &salt).unwrap();
    let second = derive_key(secret, &salt).unwrap();
    assert_eq!(first, second);
    assert_eq!(first.len(), 32);
}

#[test]
fn another_salt_gives_another_key() {
    let secret = b"some secret";
    let mut salt = [0x5au8; 16];
    let first = derive_key(secret, &salt).unwrap();
    salt[15] ^= 1;
    let second = derive_key(secret, &salt).unwrap();
    assert_ne!(first, second);
}

#[test]
fn another_secret_gives_another_key() {
    let salt = [1u8; 16];
    assert_ne!(
        derive_key(b"secret a", &salt).unwrap(),
        derive_key(b"secret b", &salt).unwrap()
    );
}

#[test]
fn empty_secret_and_salt_are_accepted() {
    let key = derive_key(b"", b"").unwrap();
    assert_eq!(key.len(), 32);
    assert_ne!(key, [0u8; 32]);
}
