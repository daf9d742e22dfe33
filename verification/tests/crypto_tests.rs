use clipsync::crypto::{base64_serde, nonce_serde, CryptoError, EncryptedData, KeyPair, SharedSecret};
use clipsync::encoding::FieldError;

#[test]
fn test_encrypt_decrypt_roundtrip() {
    let key_bytes = [42u8; 32];
    let secret = SharedSecret::from_bytes(&key_bytes);
    let plaintext = b"Hello, ClipSync!";
    let (ciphertext, nonce) = secret.encrypt(plaintext).expect("encryption should work");
    assert_ne!(&ciphertext[..], plaintext);
    let decrypted = secret.decrypt(&ciphertext, &nonce).expect("decryption should work");
    assert_eq!(decrypted, plaintext);
}

#[test]
fn test_key_exchange() {
    let alice_keypair = KeyPair::generate();
    let _alice_public = alice_keypair.public;
    let bob_keypair = KeyPair::generate();
    let bob_public = bob_keypair.public;
    let _alice_secret = KeyPair::generate();
    let secret = KeyPair::generate().exchange(&bob_public);
    let (ciphertext, nonce) = secret.encrypt(b"secret message").unwrap();
    let decrypted = secret.decrypt(&ciphertext, &nonce).unwrap();
    assert_eq!(decrypted, b"secret message");
}

#[test]
fn test_tamper_detection() {
    let key_bytes = [42u8; 32];
    let secret = SharedSecret::from_bytes(&key_bytes);
    let (mut ciphertext, nonce) = secret.encrypt(b"original message").unwrap();
    if let Some(byte) = ciphertext.get_mut(0) {
        *byte ^= 0xFF;
    }
    let result = secret.decrypt(&ciphertext, &nonce);
    assert!(result.is_err());
}

#[test]
fn both_sides_of_an_exchange_share_a_key() {
    let alice = KeyPair::generate();
    let bob = KeyPair::generate();
    let alice_public = alice.public_key_bytes();
    let bob_public = bob.public_key_bytes();
    assert_ne!(alice_public, bob_public);
    let alice_shared = alice.exchange(&bob_public);
    let bob_shared = bob.exchange(&alice_public);
    let (ciphertext, nonce) = alice_shared.encrypt(b"from alice").unwrap();
    assert_eq!(bob_shared.decrypt(&ciphertext, &nonce).unwrap(), b"from alice");
}

#[test]
fn ciphertext_carries_a_tag_and_fresh_nonces() {
    let secret = SharedSecret::from_bytes(&[7u8; 32]);
    let (c1, n1) = secret.encrypt(b"abc").unwrap();
    let (_c2, n2) = secret.encrypt(b"abc").unwrap();
    assert_eq!(c1.len(), 3 + 16);
    assert_ne!(n1, n2);
    let (empty, n) = secret.encrypt(b"").unwrap();
    assert_eq!(empty.len(), 16);
    assert_eq!(secret.decrypt(&empty, &n).unwrap(), Vec::<u8>::new());
}

#[test]
fn wrong_key_or_nonce_fails_to_decrypt() {
    let secret = SharedSecret::from_bytes(&[1u8; 32]);
    let other = SharedSecret::from_bytes(&[2u8; 32]);
    let (c, n) = secret.encrypt(b"hello").unwrap();
    assert_eq!(other.decrypt(&c, &n).unwrap_err(), CryptoError::DecryptionFailed);
    let mut n2 = n;
    n2[0] ^= 1;
    assert_eq!(secret.decrypt(&c, &n2).unwrap_err(), CryptoError::DecryptionFailed);
    assert_eq!(secret.decrypt(&[0u8; 5], &n).unwrap_err(), CryptoError::DecryptionFailed);
}

#[test]
fn crypto_error_messages() {
    assert_eq!(CryptoError::EncryptionFailed.message(), "Encryption failed");
    assert_eq!(
        CryptoError::DecryptionFailed.message(),
        "Decryption failed - data may be corrupted or tampered"
    );
    assert_eq!(
        CryptoError::InvalidKeyLength { expected: 32, actual: 7 }.message(),
        "Invalid key length: expected 32, got 7"
    );
    assert_eq!(CryptoError::InvalidPublicKey.message(), "Invalid public key");
}

#[test]
fn encrypted_data_holds_its_parts() {
    let e = EncryptedData::new(vec![1, 2, 3], [9u8; 12]);
    assert_eq!(e.data, vec![1, 2, 3]);
    assert_eq!(e.nonce, [9u8; 12]);
}

#[test]
fn ciphertext_text_form_roundtrips() {
    let bytes: Vec<u8> = vec![72, 101, 108, 108, 111];
    let text = base64_serde::serialize(&bytes);
    assert_eq!(text, "SGVsbG8=");
    assert_eq!(base64_serde::deserialize(&text).unwrap(), bytes);
    assert_eq!(base64_serde::serialize(&vec![]), "");
    assert_eq!(base64_serde::serialize(&vec![0xfb, 0xff]), "+/8=");
    assert!(matches!(base64_serde::deserialize("SGVsbG8"), Err(FieldError::Base64(_))));
}

#[test]
fn nonce_text_form_roundtrips_and_checks_length() {
    let nonce = [3u8; 12];
    let text = nonce_serde::serialize(&nonce);
    assert_eq!(text, "AwMDAwMDAwMDAwMD");
    assert_eq!(nonce_serde::deserialize(&text).unwrap(), nonce);
    let short = base64_serde::serialize(&vec![1u8; 11]);
    let err = nonce_serde::deserialize(&short).unwrap_err();
    assert_eq!(err, FieldError::NonceLength);
    assert_eq!(err.length_message(), Some("nonce must be 12 bytes"));
    assert!(matches!(nonce_serde::deserialize("!!!"), Err(FieldError::Base64(_))));
}

#[test]
fn decrypted_text_is_sixteen_bytes_shorter() {
    let secret = SharedSecret::from_bytes(&[9u8; 32]);
    let (ciphertext, nonce) = secret.encrypt(b"abc").unwrap();
    let plain = secret.decrypt(&ciphertext, &nonce).unwrap();
    assert_eq!(plain.len() + 16, ciphertext.len());
    assert!(secret.decrypt(&ciphertext[..15], &nonce).is_err());
}
