use ed25519_dalek::SigningKey;
use rand::rngs::OsRng;
use trustedge_core::envelope::{Envelope, DEFAULT_CHUNK_SIZE};

fn keys() -> (SigningKey, SigningKey) {
    (SigningKey::generate(&mut OsRng), SigningKey::generate(&mut OsRng))
}

fn seal(payload: &[u8], signing: &SigningKey, beneficiary: &SigningKey) -> Envelope {
    Envelope::seal(payload, &signing.to_bytes(), &beneficiary.verifying_key().to_bytes())
        .expect("Failed to create envelope")
}

#[test]
fn test_envelope_creation() {
    let (signing_key, beneficiary_key) = keys();
    let payload = b"Hello, secure world!";
    let envelope = seal(payload, &signing_key, &beneficiary_key);
    assert_eq!(envelope.metadata().payload_size, payload.len() as u64);
    assert_eq!(envelope.metadata().chunk_count, 1);
    assert!(envelope.verify());
}

#[test]
fn test_envelope_verification() {
    let (signing_key, beneficiary_key) = keys();
    let envelope = seal(b"Test data for verification", &signing_key, &beneficiary_key);
    assert!(envelope.verify());
    assert_eq!(envelope.beneficiary(), beneficiary_key.verifying_key().to_bytes());
    assert_eq!(envelope.issuer(), signing_key.verifying_key().to_bytes());
}

#[test]
fn test_large_payload_chunking() {
    let (signing_key, beneficiary_key) = keys();
    let large_payload = vec![0u8; DEFAULT_CHUNK_SIZE * 3 + 1000];
    let envelope = seal(&large_payload, &signing_key, &beneficiary_key);
    assert_eq!(envelope.metadata().payload_size, large_payload.len() as u64);
    assert_eq!(envelope.metadata().chunk_count, 4);
    assert!(envelope.verify());
}

#[test]
fn test_envelope_seal_unseal_roundtrip() {
    let (signing_key, beneficiary_key) = keys();
    let original_payload = b"This is a test payload for seal/unseal roundtrip testing";
    let envelope = seal(original_payload, &signing_key, &beneficiary_key);
    assert!(envelope.verify());
    let unsealed_payload = envelope.unseal(&beneficiary_key.to_bytes()).expect("Failed to unseal envelope");
    assert_eq!(original_payload, unsealed_payload.as_slice());
}

#[test]
fn test_envelope_large_payload_roundtrip() {
    let (signing_key, beneficiary_key) = keys();
    let mut large_payload = Vec::new();
    for i in 0..100000 {
        large_payload.push((i % 256) as u8);
    }
    let envelope = seal(&large_payload, &signing_key, &beneficiary_key);
    assert!(envelope.verify());
    assert!(envelope.metadata().chunk_count > 1);
    let unsealed_payload =
        envelope.unseal(&beneficiary_key.to_bytes()).expect("Failed to unseal large envelope");
    assert_eq!(large_payload, unsealed_payload);
}

#[test]
fn test_envelope_wrong_key_fails() {
    let (signing_key, beneficiary_key) = keys();
    let wrong_key = SigningKey::generate(&mut OsRng);
    let envelope = seal(b"Secret message", &signing_key, &beneficiary_key);
    assert!(envelope.unseal(&beneficiary_key.to_bytes()).is_ok());
    assert!(envelope.unseal(&wrong_key.to_bytes()).is_err());
    assert!(envelope.unseal(&signing_key.to_bytes()).is_err());
}

#[test]
fn test_third_party_cannot_derive_key() {
    let (sender, recipient) = keys();
    let payload = b"confidential data";
    let envelope = seal(payload, &sender, &recipient);
    let attacker = SigningKey::generate(&mut OsRng);
    assert!(envelope.unseal(&attacker.to_bytes()).is_err(), "Third party should not be able to decrypt");
    let recovered = envelope.unseal(&recipient.to_bytes()).expect("Recipient should unseal");
    assert_eq!(recovered.as_slice(), payload);
}

#[test]
fn test_envelope_hash_consistency() {
    let (signing_key, beneficiary_key) = keys();
    let payload = b"Test payload for hash consistency";
    let envelope1 = seal(payload, &signing_key, &beneficiary_key);
    let envelope2 = seal(payload, &signing_key, &beneficiary_key);
    assert_ne!(envelope1.hash(), envelope2.hash());
    let hash1 = envelope1.hash();
    let hash2 = envelope1.hash();
    assert_eq!(hash1, hash2);
}

#[test]
fn empty_payload_seals_and_unseals() {
    let (signing_key, beneficiary_key) = keys();
    let envelope = seal(b"", &signing_key, &beneficiary_key);
    assert!(envelope.verify());
    assert_eq!(envelope.unseal(&beneficiary_key.to_bytes()).unwrap(), Vec::<u8>::new());
}

#[test]
fn seal_checked_refuses_beneficiary_bytes_that_are_no_key() {
    let (signing_key, beneficiary_key) = keys();
    let ok = Envelope::seal_checked(b"payload", &signing_key.to_bytes(), &beneficiary_key.verifying_key().to_bytes());
    let env = ok.expect("a valid key is accepted").expect("sealing succeeds");
    assert_eq!(env.unseal(&beneficiary_key.to_bytes()).unwrap(), b"payload");
    let not_a_point = (0u8..=255)
        .map(|i| {
            let mut b = [0u8; 32];
            b[0] = i;
            b
        })
        .find(|b| ed25519_dalek::VerifyingKey::from_bytes(b).is_err())
        .expect("some small y-coordinate is off the curve");
    assert!(Envelope::seal_checked(b"payload", &signing_key.to_bytes(), &not_a_point).is_none());
}

#[test]
fn seal_at_uses_the_given_time_and_salt() {
    let (signing_key, beneficiary_key) = keys();
    let payload = b"sealed at a fixed time";
    let env = Envelope::seal_at(
        payload,
        &signing_key.to_bytes(),
        &beneficiary_key.verifying_key().to_bytes(),
        Ok(1_700_000_000),
        [3u8; 32],
    )
    .unwrap();
    assert_eq!(env.metadata().created_at, 1_700_000_000);
    assert_eq!(env.metadata().payload_size, payload.len() as u64);
    assert!(env.verify());
    assert_eq!(env.unseal(&beneficiary_key.to_bytes()).unwrap(), payload.to_vec());
    let failed = Envelope::seal_at(
        payload,
        &signing_key.to_bytes(),
        &beneficiary_key.verifying_key().to_bytes(),
        Err("clock before epoch".to_string()),
        [3u8; 32],
    );
    assert_eq!(failed.unwrap_err(), "Failed to get current timestamp");
}
