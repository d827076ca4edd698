use trustedge_core::crypto::DeviceKeypair;
use trustedge_core::point_attestation::{format_v1, hash_bytes, PointAttestation, PointAttestationError};

fn gen_keypair() -> DeviceKeypair {
    DeviceKeypair::generate().expect("keypair")
}

fn create(subject: &[u8], evidence: &[u8], keypair: &DeviceKeypair) -> PointAttestation {
    PointAttestation::create(subject, "subject.bin", "binary", evidence, "evidence.json", "sbom", keypair)
        .expect("create")
}

#[test]
fn test_create_produces_signature() {
    let keypair = gen_keypair();
    let attest = create(b"subject content", b"evidence content", &keypair);
    assert!(attest.signature.is_some());
    let sig = attest.signature.as_ref().unwrap();
    assert!(sig.starts_with("ed25519:"), "sig should start with ed25519:");
}

#[test]
fn test_sign_verify_roundtrip() {
    let keypair = gen_keypair();
    let attest = create(b"hello world", b"sbom data", &keypair);
    let valid = attest.verify_signature(&keypair.public).expect("verify");
    assert!(valid, "signature should verify");
}

#[test]
fn test_verify_wrong_public_key() {
    let keypair = gen_keypair();
    let wrong_keypair = gen_keypair();
    let attest = create(b"hello world", b"sbom data", &keypair);
    let valid = attest.verify_signature(&wrong_keypair.public).expect("verify with wrong key");
    assert!(!valid, "wrong key should not verify");
}

#[test]
fn test_tamper_fails_verification() {
    let keypair = gen_keypair();
    let mut attest = create(b"original", b"evidence", &keypair);
    attest.subject.label = "tampered".to_string();
    let valid = attest.verify_signature(&keypair.public).expect("verify");
    assert!(!valid, "tampered attestation should fail verification");
}

#[test]
fn test_canonical_bytes_deterministic() {
    let keypair = gen_keypair();
    let attest = create(b"data", b"evidence", &keypair);
    let bytes1 = attest.canonical_bytes().expect("canonical 1");
    let bytes2 = attest.canonical_bytes().expect("canonical 2");
    assert_eq!(bytes1, bytes2, "canonical bytes must be deterministic");
}

#[test]
fn point_attestation_test_canonical_bytes_excludes_signature() {
    let keypair = gen_keypair();
    let attest = create(b"data", b"evidence", &keypair);
    let canonical = attest.canonical_bytes().expect("canonical");
    let canonical_str = std::str::from_utf8(&canonical).expect("utf8");
    let sig_val = attest.signature.as_ref().unwrap();
    assert!(!canonical_str.contains(sig_val.as_str()), "canonical bytes must not contain the signature value");
    let val: serde_json::Value = serde_json::from_str(canonical_str).expect("parse");
    assert!(val["signature"].is_null(), "signature must be null in canonical bytes");
}

#[test]
fn test_nonce_format() {
    let keypair = gen_keypair();
    let attest = create(b"data", b"evidence", &keypair);
    assert_eq!(attest.nonce.len(), 32, "nonce should be 32 hex chars (16 bytes)");
    assert!(attest.nonce.chars().all(|c| c.is_ascii_hexdigit()), "nonce should be hex");
}

#[test]
fn test_timestamp_format() {
    let keypair = gen_keypair();
    let attest = create(b"data", b"evidence", &keypair);
    assert!(attest.timestamp.ends_with('Z'), "timestamp should be UTC ISO 8601 ending in Z");
    assert!(attest.timestamp.contains('T'), "timestamp should contain T separator");
}

#[test]
fn test_hash_format() {
    let hash = hash_bytes(b"content");
    assert!(hash.starts_with("b3:"), "hash should start with b3:");
    assert_eq!(hash.len(), 3 + 64, "b3: prefix + 64 hex chars");
    assert_eq!(hash, format!("b3:{}", blake3::hash(b"content").to_hex()));
}

#[test]
fn test_format_field() {
    let keypair = gen_keypair();
    let attest = create(b"data", b"evidence", &keypair);
    assert_eq!(attest.format, format_v1());
    assert_eq!(attest.format, "te-point-attestation-v1");
}

#[test]
fn test_verify_file_hashes_correct_files_pass() {
    let keypair = gen_keypair();
    let attest = create(b"subject bytes", b"evidence bytes", &keypair);
    attest
        .verify_file_hashes(Some(b"subject bytes".as_slice()), Some(b"evidence bytes".as_slice()))
        .expect("file hashes should match");
}

#[test]
fn test_verify_file_hashes_wrong_file_fails() {
    let keypair = gen_keypair();
    let attest = create(b"subject bytes", b"evidence bytes", &keypair);
    let result = attest.verify_file_hashes(Some(b"completely different content".as_slice()), None);
    assert!(
        matches!(result, Err(PointAttestationError::HashMismatch { .. })),
        "wrong subject file should produce HashMismatch"
    );
}

#[test]
fn test_verify_file_hashes_only_subject() {
    let keypair = gen_keypair();
    let attest = create(b"subject only", b"evidence", &keypair);
    attest.verify_file_hashes(Some(b"subject only".as_slice()), None).expect("subject only check should pass");
}

#[test]
fn test_verify_file_hashes_only_evidence() {
    let keypair = gen_keypair();
    let attest = create(b"subject", b"evidence only", &keypair);
    attest.verify_file_hashes(None, Some(b"evidence only".as_slice())).expect("evidence only check should pass");
}

#[test]
fn test_missing_signature_error() {
    let keypair = gen_keypair();
    let mut attest = create(b"data", b"evidence", &keypair);
    attest.signature = None;
    let result = attest.verify_signature(&keypair.public);
    assert!(matches!(result, Err(PointAttestationError::MissingSignature)), "should get MissingSignature error");
}
