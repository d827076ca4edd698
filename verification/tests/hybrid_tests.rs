use trustedge_core::asymmetric::KeyPair;
use trustedge_core::backends::universal::AsymmetricAlgorithm;
use trustedge_core::hybrid::{
    decrypt_symmetric, encrypt_symmetric, open_envelope, parse_envelope, seal_for_recipient,
    HybridEncryptionError, SymmetricKey, HYBRID_VERSION,
};

#[test]
fn test_symmetric_key_generation() {
    let key1 = SymmetricKey::generate();
    let key2 = SymmetricKey::generate();
    assert_ne!(key1, key2);
    assert_eq!(key1.as_bytes().len(), 32);
    assert_eq!(key2.as_bytes().len(), 32);
}

#[test]
fn test_symmetric_encryption_roundtrip() {
    let key = SymmetricKey::generate();
    let data = b"Hello, symmetric world!";
    let encrypted = encrypt_symmetric(data, &key).expect("Failed to encrypt data");
    let decrypted = decrypt_symmetric(&encrypted, &key).expect("Failed to decrypt data");
    assert_eq!(data, decrypted.as_slice());
}

#[test]
fn test_hybrid_encryption_rsa() {
    let keypair = KeyPair::generate(AsymmetricAlgorithm::Rsa2048).expect("Failed to generate RSA key pair");
    let data = b"Hello, hybrid world with RSA!";
    let envelope = seal_for_recipient(data, &keypair.public).expect("Failed to seal envelope");
    let decrypted = open_envelope(&envelope, &keypair.private).expect("Failed to open envelope");
    assert_eq!(data, decrypted.as_slice());
}

#[test]
fn test_envelope_structure() {
    let keypair = KeyPair::generate(AsymmetricAlgorithm::Rsa2048).expect("Failed to generate key pair");
    let data = b"Test data for envelope structure";
    let envelope_bytes = seal_for_recipient(data, &keypair.public).expect("Failed to seal envelope");
    let envelope = parse_envelope(&envelope_bytes).expect("Failed to parse envelope");
    assert_eq!(envelope.magic, *b"TRHY");
    assert_eq!(envelope.version, HYBRID_VERSION);
    assert_eq!(envelope.recipient_key_id, keypair.public.id());
    assert!(!envelope.encrypted_session_key.is_empty());
    assert!(!envelope.encrypted_payload.is_empty());
    assert_eq!(envelope.algorithm, trustedge_core::format::AeadAlgorithm::Aes256Gcm.id());
}

#[test]
fn test_invalid_envelope() {
    let invalid_data = b"This is not a valid envelope";
    let result = parse_envelope(invalid_data);
    assert!(result.is_err());
    match result {
        Err(HybridEncryptionError::InvalidEnvelope(_)) => {}
        _ => panic!("Expected InvalidEnvelope error"),
    }
}

#[test]
fn test_wrong_private_key() {
    let alice = KeyPair::generate(AsymmetricAlgorithm::Rsa2048).expect("Failed to generate Alice's key pair");
    let bob = KeyPair::generate(AsymmetricAlgorithm::Rsa2048).expect("Failed to generate Bob's key pair");
    let data = b"Secret message for Alice";
    let envelope = seal_for_recipient(data, &alice.public).expect("Failed to seal envelope");
    let result = open_envelope(&envelope, &bob.private);
    assert!(result.is_err());
}

#[test]
fn symmetric_decryption_with_other_key_fails() {
    let key = SymmetricKey::from_bytes([1u8; 32]);
    let other = SymmetricKey::from_bytes([2u8; 32]);
    let encrypted = encrypt_symmetric(b"payload", &key).unwrap();
    assert!(decrypt_symmetric(&encrypted, &other).is_err());
}
