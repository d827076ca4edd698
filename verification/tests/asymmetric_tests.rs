use trustedge_core::asymmetric::{
    decrypt_key_asymmetric, encrypt_key_asymmetric, key_exchange, KeyPair, PublicKey,
};
use trustedge_core::backends::universal::AsymmetricAlgorithm;

#[test]
fn test_ed25519_key_generation() {
    let keypair = KeyPair::generate(AsymmetricAlgorithm::Ed25519).expect("Failed to generate Ed25519 key pair");
    assert_eq!(keypair.public.algorithm, AsymmetricAlgorithm::Ed25519);
    assert_eq!(keypair.private.algorithm, AsymmetricAlgorithm::Ed25519);
    assert_eq!(keypair.public.key_bytes.len(), 32);
    assert_eq!(keypair.private.key_bytes.len(), 32);
}

#[test]
fn test_ecdsa_p256_key_generation() {
    let keypair =
        KeyPair::generate(AsymmetricAlgorithm::EcdsaP256).expect("Failed to generate ECDSA P-256 key pair");
    assert_eq!(keypair.public.algorithm, AsymmetricAlgorithm::EcdsaP256);
    assert_eq!(keypair.private.algorithm, AsymmetricAlgorithm::EcdsaP256);
    assert_eq!(keypair.private.key_bytes.len(), 32);
}

#[test]
fn test_rsa_key_generation() {
    let keypair = KeyPair::generate(AsymmetricAlgorithm::Rsa2048).expect("Failed to generate RSA-2048 key pair");
    assert_eq!(keypair.public.algorithm, AsymmetricAlgorithm::Rsa2048);
    assert_eq!(keypair.private.algorithm, AsymmetricAlgorithm::Rsa2048);
    assert!(keypair.public.key_bytes.len() > 200);
    assert!(keypair.private.key_bytes.len() > 1000);
}

#[test]
fn test_public_key_serialization() {
    let keypair = KeyPair::generate(AsymmetricAlgorithm::Ed25519).expect("Failed to generate key pair");
    let serialized = keypair.public.to_bytes().expect("Failed to serialize public key");
    let deserialized = PublicKey::from_bytes(&serialized).expect("Failed to deserialize public key");
    assert_eq!(keypair.public, deserialized);
}

#[test]
fn test_rsa_key_encryption() {
    let keypair = KeyPair::generate(AsymmetricAlgorithm::Rsa2048).expect("Failed to generate RSA key pair");
    let session_key = [42u8; 32];
    let encrypted =
        encrypt_key_asymmetric(&session_key, &keypair.public).expect("Failed to encrypt session key");
    let decrypted =
        decrypt_key_asymmetric(&encrypted, &keypair.private).expect("Failed to decrypt session key");
    assert_eq!(session_key, decrypted);
}

#[test]
fn test_ecdh_p256() {
    let alice = KeyPair::generate(AsymmetricAlgorithm::EcdsaP256).expect("Failed to generate Alice's key pair");
    let bob = KeyPair::generate(AsymmetricAlgorithm::EcdsaP256).expect("Failed to generate Bob's key pair");
    let alice_shared = key_exchange(&alice.private, &bob.public).expect("Alice's key exchange failed");
    let bob_shared = key_exchange(&bob.private, &alice.public).expect("Bob's key exchange failed");
    assert_eq!(alice_shared, bob_shared);
    assert!(!alice_shared.is_empty());
}

#[test]
fn key_ids_are_hex_of_hash_prefix() {
    let pk = PublicKey::new(AsymmetricAlgorithm::Ed25519, vec![0u8; 32]);
    let id = pk.id();
    assert_eq!(id.len(), 32);
    assert!(id.chars().all(|c| c.is_ascii_hexdigit()));
    let expected = hex::encode(&blake3::hash(&[0u8; 32]).as_bytes()[..16]);
    assert_eq!(id, expected);
}

#[test]
fn ed25519_keys_cannot_wrap_keys() {
    let keypair = KeyPair::generate(AsymmetricAlgorithm::Ed25519).unwrap();
    assert!(encrypt_key_asymmetric(&[1u8; 32], &keypair.public).is_err());
}

#[test]
fn generated_key_lengths_and_shared_secret_length() {
    let p = KeyPair::generate(AsymmetricAlgorithm::EcdsaP256).unwrap();
    assert_eq!(p.public.key_bytes.len(), 65);
    assert_eq!(p.public.key_bytes[0], 0x04);
    let q = KeyPair::generate(AsymmetricAlgorithm::EcdsaP256).unwrap();
    assert_eq!(key_exchange(&p.private, &q.public).unwrap().len(), 32);
}

#[test]
fn wrapped_key_is_as_long_as_the_modulus() {
    let keypair = KeyPair::generate(AsymmetricAlgorithm::Rsa2048).unwrap();
    let wrapped = encrypt_key_asymmetric(&[9u8; 32], &keypair.public).unwrap();
    assert_eq!(wrapped.len(), 256);
}
