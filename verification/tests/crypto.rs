use vaelorium::crypto::{decrypt, encrypt, generate_salt, CryptoError, KeyMaterial, NONCE_LEN};

#[test]
fn key_derivation_is_deterministic() {
    let salt = generate_salt();
    let k1 = KeyMaterial::derive("correct horse battery staple", &salt).unwrap();
    let k2 = KeyMaterial::derive("correct horse battery staple", &salt).unwrap();
    assert_eq!(k1.as_bytes(), k2.as_bytes());
}

#[test]
fn different_passphrases_yield_different_keys() {
    let salt = generate_salt();
    let k1 = KeyMaterial::derive("passphrase one", &salt).unwrap();
    let k2 = KeyMaterial::derive("passphrase two", &salt).unwrap();
    assert_ne!(k1.as_bytes(), k2.as_bytes());
}

#[test]
fn different_salts_yield_different_keys() {
    let s1 = generate_salt();
    let s2 = generate_salt();
    assert_ne!(s1, s2);
    let k1 = KeyMaterial::derive("same passphrase", &s1).unwrap();
    let k2 = KeyMaterial::derive("same passphrase", &s2).unwrap();
    assert_ne!(k1.as_bytes(), k2.as_bytes());
}

#[test]
fn encrypt_decrypt_roundtrip() {
    let salt = generate_salt();
    let key = KeyMaterial::derive("test passphrase", &salt).unwrap();
    let plaintext = b"the quick brown fox jumps over the lazy dog";

    let blob = encrypt(&key, plaintext).unwrap();
    assert_ne!(&blob[NONCE_LEN..], plaintext);
    assert!(blob.len() > plaintext.len());

    let decrypted = decrypt(&key, &blob).unwrap();
    assert_eq!(decrypted, plaintext);
}

#[test]
fn wrong_passphrase_fails_decryption() {
    let salt = generate_salt();
    let k1 = KeyMaterial::derive("correct", &salt).unwrap();
    let k2 = KeyMaterial::derive("wrong", &salt).unwrap();
    let blob = encrypt(&k1, b"secret").unwrap();
    let result = decrypt(&k2, &blob);
    assert!(matches!(result, Err(CryptoError::Decrypt)));
}

#[test]
fn tampered_ciphertext_fails_decryption() {
    let salt = generate_salt();
    let key = KeyMaterial::derive("p", &salt).unwrap();
    let mut blob = encrypt(&key, b"secret").unwrap();
    blob[NONCE_LEN + 1] ^= 0x01;
    let result = decrypt(&key, &blob);
    assert!(matches!(result, Err(CryptoError::Decrypt)));
}

#[test]
fn malformed_short_blob_rejected() {
    let salt = generate_salt();
    let key = KeyMaterial::derive("p", &salt).unwrap();
    let result = decrypt(&key, b"short");
    assert!(matches!(result, Err(CryptoError::Malformed)));
}

#[test]
fn each_encryption_uses_fresh_nonce() {
    let salt = generate_salt();
    let key = KeyMaterial::derive("p", &salt).unwrap();
    let blob1 = encrypt(&key, b"same plaintext").unwrap();
    let blob2 = encrypt(&key, b"same plaintext").unwrap();
    assert_ne!(blob1, blob2);
    assert_eq!(decrypt(&key, &blob1).unwrap(), b"same plaintext");
    assert_eq!(decrypt(&key, &blob2).unwrap(), b"same plaintext");
}

#[test]
fn sealed_blob_layout() {
    let key = KeyMaterial::derive("p", &[3u8; 16]).unwrap();
    let blob = encrypt(&key, b"").unwrap();
    assert_eq!(blob.len(), NONCE_LEN + 16);
    assert_eq!(decrypt(&key, &blob).unwrap(), Vec::<u8>::new());
}

#[test]
fn short_salt_is_a_kdf_error() {
    let r = KeyMaterial::derive("p", &[1u8; 4]);
    assert!(matches!(r, Err(CryptoError::Kdf(_))));
}

#[test]
fn crypto_errors_describe_themselves() {
    assert_eq!(CryptoError::Encrypt.describe(), "encryption failed");
    assert_eq!(
        CryptoError::Decrypt.describe(),
        "decryption failed (wrong passphrase or tampered ciphertext)"
    );
    assert_eq!(CryptoError::Malformed.describe(), "ciphertext too short to contain a nonce");
    assert_eq!(CryptoError::Kdf("x".to_string()).describe(), "argon2 error: x");
}

#[test]
fn another_device_with_the_same_passphrase_opens_the_blob() {
    let salt = [9u8; 16];
    let laptop = KeyMaterial::derive("shared words", &salt).unwrap();
    let desktop = KeyMaterial::derive("shared words", &salt).unwrap();
    let blob = encrypt(&laptop, b"op bytes").unwrap();
    assert_eq!(decrypt(&desktop, &blob).unwrap(), b"op bytes".to_vec());
}
