use remus::{Encryptor, ProtocolError};

#[test]
fn test_encryption_roundtrip() {
    let key = Encryptor::generate_key();
    let encryptor = Encryptor::new(&key);
    let data = b"Hello, World!";

    let encrypted = encryptor.encrypt(data).unwrap();
    let decrypted = encryptor.decrypt(&encrypted).unwrap();

    assert_eq!(data.to_vec(), decrypted);
}

#[test]
fn test_encryption_tamper_detection() {
    let key = Encryptor::generate_key();
    let encryptor = Encryptor::new(&key);
    let encrypted = encryptor.encrypt(b"valid").unwrap();

    let mut tampered = encrypted.to_vec();
    tampered[12] ^= 1;

    assert!(encryptor.decrypt(&tampered).is_err());
}

#[test]
fn test_encryption_different_nonces() {
    let key = Encryptor::generate_key();
    let encryptor = Encryptor::new(&key);

    let data = b"Same data";
    let encrypted1 = encryptor.encrypt(data).unwrap();
    let encrypted2 = encryptor.encrypt(data).unwrap();

    assert_ne!(encrypted1, encrypted2);
}

#[test]
fn test_decryption_invalid_data() {
    let key = Encryptor::generate_key();
    let encryptor = Encryptor::new(&key);

    assert!(encryptor.decrypt(&[1, 2, 3]).is_err());
}

#[test]
fn test_key_generation() {
    let key1 = Encryptor::generate_key();
    let key2 = Encryptor::generate_key();

    assert_ne!(key1, key2);
    assert_eq!(key1.len(), 32);
}

#[test]
fn secret_message_with_corrupted_byte_fails() {
    let key = Encryptor::generate_key();
    let encryptor = Encryptor::new(&key);
    let mut blob = encryptor.encrypt(b"Secret message!").unwrap();
    blob[12] ^= 0x80;
    assert!(matches!(encryptor.decrypt(&blob), Err(ProtocolError::EncryptionError(_))));
}

#[test]
fn flipping_any_byte_fails() {
    let encryptor = Encryptor::new(&[7u8; 32]);
    let blob = encryptor.encrypt(b"some payload").unwrap();
    assert_eq!(blob.len(), 12 + 12 + 16);
    for i in 0..blob.len() {
        let mut t = blob.clone();
        t[i] ^= 0x01;
        assert!(encryptor.decrypt(&t).is_err(), "byte {}", i);
    }
}

#[test]
fn wrong_key_fails() {
    let blob = Encryptor::new(&[1u8; 32]).encrypt(b"x").unwrap();
    assert!(Encryptor::new(&[2u8; 32]).decrypt(&blob).is_err());
}

#[test]
fn ciphertext_differs_from_plaintext() {
    let encryptor = Encryptor::new(&[3u8; 32]);
    let blob = encryptor.encrypt(b"plain text here").unwrap();
    assert_ne!(blob[12..blob.len() - 16].to_vec(), b"plain text here".to_vec());
    assert_eq!(encryptor.decrypt(&blob).unwrap(), b"plain text here".to_vec());
}

#[test]
fn empty_plaintext_round_trips() {
    let encryptor = Encryptor::new(&[4u8; 32]);
    let blob = encryptor.encrypt(b"").unwrap();
    assert_eq!(blob.len(), 28);
    assert_eq!(encryptor.decrypt(&blob).unwrap(), Vec::<u8>::new());
}

#[test]
fn encrypt_with_nonce_prefixes_the_nonce() {
    let encryptor = Encryptor::new(&[5u8; 32]);
    let nonce = [1u8, 2, 3, 4, 5, 6, 7, 8, 9, 10, 11, 12];
    let a = encryptor.encrypt_with_nonce(&nonce, b"abc").unwrap();
    assert_eq!(a.len(), 12 + 3 + 16);
    assert_eq!(a[..12], nonce);
    assert_eq!(encryptor.decrypt(&a).unwrap(), b"abc".to_vec());
    let b = encryptor.encrypt_with_nonce(&nonce, b"abc").unwrap();
    assert_eq!(a, b);
    let c = encryptor.encrypt_with_nonce(&[0u8; 12], b"abc").unwrap();
    assert_ne!(a[12..], c[12..]);
}
