use base64::Engine as _;
use trustedge_core::crypto::{
    decrypt_segment, derive_chunk_key, encrypt_segment, format_nonce, generate_aad, generate_nonce24,
    is_encrypted_key_file, parse_nonce, sign_manifest, verify_manifest, DeviceKeypair,
};
use zeroize::Zeroize;
use p256::elliptic_curve::sec1::ToEncodedPoint as _;
use p256::ecdsa::signature::Signer as _;
use aes_gcm::aead::Aead as _;
use aes_gcm::KeyInit as _;

const B64: base64::engine::GeneralPurpose = base64::engine::general_purpose::STANDARD;

#[test]
fn test_device_keypair_generation() {
    let keypair = DeviceKeypair::generate().unwrap();
    assert!(keypair.public.starts_with("ed25519:"));
    let exported_secret = keypair.export_secret();
    assert!(exported_secret.starts_with("ed25519:"));
}

#[test]
fn test_device_keypair_import_export() {
    let keypair1 = DeviceKeypair::generate().unwrap();
    let exported_secret = keypair1.export_secret();
    let exported_public = keypair1.public.clone();
    let keypair2 = DeviceKeypair::import_secret(&exported_secret).unwrap();
    assert_eq!(keypair2.public, exported_public);
    let hex_secret = hex::encode(keypair1.secret_bytes());
    let keypair3 = DeviceKeypair::import_secret(&hex_secret).unwrap();
    assert_eq!(keypair3.public, exported_public);
}

#[test]
fn test_public_key_parsing() {
    let keypair = DeviceKeypair::generate().unwrap();
    let verifying_key = DeviceKeypair::from_public(&keypair.public).unwrap();
    assert_eq!(verifying_key.as_bytes().len(), 32);
}

#[test]
fn test_nonce_generation_and_formatting() {
    let nonce = generate_nonce24();
    assert_eq!(nonce.len(), 24);
    let formatted = format_nonce(&nonce);
    assert!(formatted.starts_with("xchacha20:"));
    let parsed = parse_nonce(&formatted).unwrap();
    assert_eq!(nonce, parsed);
}

#[test]
fn test_round_trip_sign_verify() {
    let keypair = DeviceKeypair::generate().unwrap();
    let test_data = b"test canonical bytes for signing";
    let signature = sign_manifest(&keypair, test_data).unwrap();
    assert!(signature.starts_with("ed25519:"));
    let is_valid = verify_manifest(&keypair.public, test_data, &signature).unwrap();
    assert!(is_valid);
    let wrong_data = b"wrong data";
    let is_valid_wrong = verify_manifest(&keypair.public, wrong_data, &signature).unwrap();
    assert!(!is_valid_wrong);
}

#[test]
fn test_aead_encrypt_decrypt_round_trip() {
    let mut key = [0u8; 32];
    rand::RngCore::fill_bytes(&mut rand::rngs::OsRng, &mut key);
    let nonce = generate_nonce24();
    let plaintext = b"test segment data for encryption";
    let aad = generate_aad("0.1.0", "cam.video", "TEST001", "2025-01-15T10:30:00Z");
    let ciphertext = encrypt_segment(&key, &nonce, plaintext, &aad).unwrap();
    assert_ne!(ciphertext, plaintext);
    let decrypted = decrypt_segment(&key, &nonce, &ciphertext, &aad).unwrap();
    assert_eq!(decrypted, plaintext);
    let wrong_aad = generate_aad("0.1.0", "cam.video", "WRONG", "2025-01-15T10:30:00Z");
    let result = decrypt_segment(&key, &nonce, &ciphertext, &wrong_aad);
    assert!(result.is_err());
}

#[test]
fn test_aad_generation() {
    let aad = generate_aad("0.1.0", "cam.video", "TEST001", "2025-01-15T10:30:00Z");
    let aad_str = String::from_utf8(aad).unwrap();
    assert!(aad_str.contains("0.1.0"));
    assert!(aad_str.contains("cam.video"));
    assert!(aad_str.contains("TEST001"));
    assert!(aad_str.contains("2025-01-15T10:30:00Z"));
}

#[test]
fn test_base64_encoding_decoding() {
    let test_data = b"Hello, World! This is a test.";
    let encoded = B64.encode(test_data);
    let decoded = B64.decode(&encoded).unwrap();
    assert_eq!(test_data.to_vec(), decoded);
}

#[test]
fn test_secret_zeroization() {
    let mut secret_bytes = [42u8; 32];
    {
        let _keypair = DeviceKeypair::generate().unwrap();
    }
    secret_bytes.zeroize();
    assert_eq!(secret_bytes, [0u8; 32]);
}

#[test]
fn test_derive_chunk_key_deterministic() {
    let input = [0xABu8; 32];
    let key1 = derive_chunk_key(&input);
    let key2 = derive_chunk_key(&input);
    assert_eq!(key1.as_slice(), key2.as_slice());
}

#[test]
fn test_derive_chunk_key_different_inputs() {
    let key_a = derive_chunk_key(&[0x01u8; 32]);
    let key_b = derive_chunk_key(&[0x02u8; 32]);
    assert_ne!(key_a.as_slice(), key_b.as_slice());
}

#[test]
fn test_secret_bytes_accessor() {
    let keypair = DeviceKeypair::generate().unwrap();
    let secret = keypair.secret_bytes();
    assert_eq!(secret.len(), 32);
    let exported = keypair.export_secret();
    let imported = DeviceKeypair::import_secret(&exported).unwrap();
    assert_eq!(keypair.secret_bytes(), imported.secret_bytes());
}

fn p256_pair() -> (p256::ecdsa::SigningKey, String) {
    let signing_key = p256::ecdsa::SigningKey::random(&mut rand::rngs::OsRng);
    let pub_bytes = signing_key.verifying_key().to_encoded_point(false);
    let pub_str = format!("ecdsa-p256:{}", B64.encode(pub_bytes.as_bytes()));
    (signing_key, pub_str)
}

#[test]
fn test_ecdsa_p256_sign_verify_round_trip() {
    let (signing_key, pub_str) = p256_pair();
    let canonical_bytes = b"test canonical bytes for p256 signing";
    let signature: p256::ecdsa::Signature = signing_key.sign(canonical_bytes);
    let sig_der = signature.to_der();
    let sig_str = format!("ecdsa-p256:{}", B64.encode(sig_der.as_bytes()));
    let result = verify_manifest(&pub_str, canonical_bytes, &sig_str).unwrap();
    assert!(result, "ECDSA P-256 signature should verify correctly");
}

#[test]
fn test_ecdsa_p256_wrong_data() {
    let (signing_key, pub_str) = p256_pair();
    let signature: p256::ecdsa::Signature = signing_key.sign(b"original data");
    let sig_str = format!("ecdsa-p256:{}", B64.encode(signature.to_der().as_bytes()));
    let result = verify_manifest(&pub_str, b"tampered data", &sig_str).unwrap();
    assert!(!result, "ECDSA P-256 signature with wrong data should return false");
}

#[test]
fn test_ed25519_still_works_after_dispatch() {
    let keypair = DeviceKeypair::generate().unwrap();
    let test_data = b"ed25519 regression test after p256 dispatch";
    let signature = sign_manifest(&keypair, test_data).unwrap();
    assert!(signature.starts_with("ed25519:"));
    let is_valid = verify_manifest(&keypair.public, test_data, &signature).unwrap();
    assert!(is_valid, "Ed25519 must still verify correctly after dispatch refactor");
}

#[test]
fn test_unknown_signature_prefix() {
    let keypair = DeviceKeypair::generate().unwrap();
    let result = verify_manifest(&keypair.public, b"some data", "rsa:AAAA");
    assert!(result.is_err(), "Unknown signature prefix should return Err");
    let err_msg = result.unwrap_err().message();
    assert!(
        err_msg.contains("Unsupported signature algorithm"),
        "Error message should mention 'Unsupported signature algorithm', got: {err_msg}"
    );
}

#[test]
fn test_encrypted_key_roundtrip() {
    let keypair = DeviceKeypair::generate().unwrap();
    let original_secret = *keypair.secret_bytes();
    let encrypted = keypair.export_secret_encrypted("test123").unwrap();
    let imported = DeviceKeypair::import_secret_encrypted(&encrypted, "test123").unwrap();
    assert_eq!(&original_secret, imported.secret_bytes());
    assert_eq!(keypair.public, imported.public);
}

#[test]
fn test_encrypted_key_wrong_passphrase() {
    let keypair = DeviceKeypair::generate().unwrap();
    let encrypted = keypair.export_secret_encrypted("correct-passphrase").unwrap();
    let result = DeviceKeypair::import_secret_encrypted(&encrypted, "wrong-passphrase");
    assert!(result.is_err(), "Wrong passphrase must return Err, not Ok with garbage data");
}

#[test]
fn test_encrypted_key_rejects_low_iterations() {
    let passphrase = "test";
    let low_iterations: u32 = 299_999;
    let salt = [1u8; 16];
    let nonce_bytes = [2u8; 12];
    let plaintext = [3u8; 32];
    let mut derived_key = [0u8; 32];
    pbkdf2::pbkdf2_hmac::<sha2::Sha256>(passphrase.as_bytes(), &salt, low_iterations, &mut derived_key);
    let cipher = aes_gcm::Aes256Gcm::new_from_slice(&derived_key).unwrap();
    let ciphertext = cipher.encrypt((&nonce_bytes).into(), plaintext.as_ref()).unwrap();
    let meta = format!(
        "{{\"iterations\":{},\"nonce\":\"{}\",\"salt\":\"{}\"}}",
        low_iterations,
        B64.encode(nonce_bytes),
        B64.encode(salt)
    );
    let mut file_data = format!("TRUSTEDGE-KEY-V1\n{}\n", meta).into_bytes();
    file_data.extend_from_slice(&ciphertext);
    let result = DeviceKeypair::import_secret_encrypted(&file_data, passphrase);
    assert!(result.is_err(), "Should reject key file with low iteration count");
    let err_msg = result.err().unwrap().message();
    assert!(
        err_msg.contains("299999") || err_msg.contains("minimum"),
        "Error should mention the iteration count or minimum: {err_msg}"
    );
}

#[test]
fn test_is_encrypted_key_file() {
    assert!(is_encrypted_key_file(b"TRUSTEDGE-KEY-V1\nsome data"));
    assert!(!is_encrypted_key_file(b"ed25519:AAAA"));
    assert!(!is_encrypted_key_file(b""));
    assert!(!is_encrypted_key_file(b"\x00\x01\x02\x03"));
}

#[test]
fn test_encrypted_key_format() {
    let keypair = DeviceKeypair::generate().unwrap();
    let encrypted = keypair.export_secret_encrypted("test-passphrase").unwrap();
    let first_newline = encrypted.iter().position(|&b| b == b'\n').unwrap();
    let header = std::str::from_utf8(&encrypted[..first_newline]).unwrap();
    assert_eq!(header, "TRUSTEDGE-KEY-V1");
    let rest = &encrypted[first_newline + 1..];
    let second_newline = rest.iter().position(|&b| b == b'\n').unwrap();
    let meta_str = std::str::from_utf8(&rest[..second_newline]).unwrap();
    let meta: serde_json::Value = serde_json::from_str(meta_str).unwrap();
    assert!(meta["salt"].is_string(), "metadata must have salt field");
    assert!(meta["nonce"].is_string(), "metadata must have nonce field");
    assert!(meta["iterations"].is_number(), "metadata must have iterations field");
    assert_eq!(meta["iterations"].as_u64().unwrap(), 600_000);
}
