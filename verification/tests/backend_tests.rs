use trustedge_core::backends::traits::BackendInfo;
use trustedge_core::backends::universal::{
    operation_type_supported, BackendCapabilities, CryptoOperation, CryptoResult, HashAlgorithm,
    KeyDerivationContext, SignatureAlgorithm, SymmetricAlgorithm, UniversalBackend,
};
use trustedge_core::backends::universal_keyring::UniversalKeyringBackend;
use trustedge_core::error::BackendError;
use sha2::Digest as _;

#[test]
fn test_key_derivation_context_builder() {
    let context = KeyDerivationContext::new(vec![1, 2, 3, 4])
        .with_additional_data(vec![5, 6, 7, 8])
        .with_iterations(50_000)
        .with_hash_algorithm(HashAlgorithm::Sha512);
    assert_eq!(context.salt, vec![1, 2, 3, 4]);
    assert_eq!(context.additional_data, vec![5, 6, 7, 8]);
    assert_eq!(context.iterations, Some(50_000));
    assert_eq!(context.hash_algorithm, Some(HashAlgorithm::Sha512));
}

#[test]
fn test_operation_type_supported() {
    let software_caps = BackendCapabilities::software_only();
    let hardware_caps = BackendCapabilities::hardware_security_module();
    let derive_op = CryptoOperation::DeriveKey { context: KeyDerivationContext::new(vec![1, 2, 3, 4]) };
    assert!(operation_type_supported(&software_caps, &derive_op));
    assert!(operation_type_supported(&hardware_caps, &derive_op));
    let sign_op = CryptoOperation::Sign { data: vec![1, 2, 3], algorithm: SignatureAlgorithm::Ed25519 };
    assert!(!operation_type_supported(&software_caps, &sign_op));
    assert!(operation_type_supported(&hardware_caps, &sign_op));
    let attest_op = CryptoOperation::Attest { challenge: vec![1, 2, 3] };
    assert!(!operation_type_supported(&software_caps, &attest_op));
    assert!(operation_type_supported(&hardware_caps, &attest_op));
}

#[test]
fn universal_test_backend_capabilities() {
    let software_caps = BackendCapabilities::software_only();
    assert!(!software_caps.hardware_backed);
    assert!(software_caps.supports_key_derivation);
    assert!(!software_caps.supports_key_generation);
    assert!(!software_caps.supports_attestation);
    let hardware_caps = BackendCapabilities::hardware_security_module();
    assert!(hardware_caps.hardware_backed);
    assert!(hardware_caps.supports_key_derivation);
    assert!(hardware_caps.supports_key_generation);
    assert!(hardware_caps.supports_attestation);
}

#[test]
fn test_universal_keyring_backend_creation() {
    let backend = UniversalKeyringBackend::new();
    assert!(backend.is_ok());
}

#[test]
fn universal_keyring_test_backend_capabilities() {
    let backend = UniversalKeyringBackend::new().unwrap();
    let capabilities = backend.get_capabilities();
    assert!(capabilities.supports_key_derivation);
    assert!(!capabilities.supports_key_generation);
    assert!(!capabilities.supports_attestation);
    assert!(!capabilities.hardware_backed);
    assert!(capabilities.hash_algorithms.contains(&HashAlgorithm::Sha256));
}

#[test]
fn test_supports_operation() {
    let backend = UniversalKeyringBackend::new().unwrap();
    let derive_op = CryptoOperation::DeriveKey { context: KeyDerivationContext::new(vec![1; 16]) };
    assert!(backend.supports_operation(&derive_op));
    let hash_op = CryptoOperation::Hash { data: vec![1, 2, 3], algorithm: HashAlgorithm::Sha256 };
    assert!(backend.supports_operation(&hash_op));
    let sign_op = CryptoOperation::Sign { data: vec![1, 2, 3], algorithm: SignatureAlgorithm::Ed25519 };
    assert!(!backend.supports_operation(&sign_op));
    let attest_op = CryptoOperation::Attest { challenge: vec![1, 2, 3] };
    assert!(!backend.supports_operation(&attest_op));
}

#[test]
fn test_hash_operation() {
    let mut backend = UniversalKeyringBackend::new().unwrap();
    let test_data = b"hello world";
    let result = backend.perform_operation(
        "test_key",
        CryptoOperation::Hash { data: test_data.to_vec(), algorithm: HashAlgorithm::Sha256 },
    );
    assert!(result.is_ok());
    if let Ok(CryptoResult::Hash(hash)) = result {
        assert_eq!(hash.len(), 32);
    } else {
        panic!("Expected CryptoResult::Hash");
    }
}

#[test]
fn test_key_derivation_operation() {
    let mut backend = UniversalKeyringBackend::new().unwrap();
    let context = KeyDerivationContext::new(vec![1; 16]).with_additional_data(vec![2, 3, 4]).with_iterations(1000);
    let result = backend.perform_operation("test_key", CryptoOperation::DeriveKey { context });
    match result {
        Ok(CryptoResult::DerivedKey(key)) => {
            assert_eq!(key.len(), 32);
        }
        Err(_) => {}
        _ => panic!("Unexpected result type"),
    }
}

#[test]
fn keyring_derivation_with_loaded_passphrase() {
    let mut backend = UniversalKeyringBackend::new().unwrap();
    backend.load_passphrase(Ok("correct horse".to_string()));
    let context = KeyDerivationContext::new(vec![1; 16]).with_additional_data(vec![2, 3, 4]).with_iterations(1000);
    let key = match backend.perform_operation("test_key", CryptoOperation::DeriveKey { context }) {
        Ok(CryptoResult::DerivedKey(k)) => k,
        other => panic!("unexpected {:?}", other),
    };
    let mut input = b"correct horse".to_vec();
    input.extend_from_slice(b"test_key");
    input.extend_from_slice(&[2, 3, 4]);
    let mut expected = [0u8; 32];
    pbkdf2::pbkdf2_hmac::<sha2::Sha256>(&input, &[1u8; 16], 1000, &mut expected);
    assert_eq!(key, expected);
}

#[test]
fn keyring_rejects_short_salt_and_missing_passphrase() {
    let mut backend = UniversalKeyringBackend::new().unwrap();
    let short = CryptoOperation::DeriveKey { context: KeyDerivationContext::new(vec![1; 8]) };
    match backend.perform_operation("k", short) {
        Err(BackendError::OperationFailed(m)) => {
            assert_eq!(m, "Key derivation failed: Salt must be exactly 16 bytes for keyring backend")
        }
        other => panic!("unexpected {:?}", other),
    }
    backend.load_passphrase(Err("no entry".to_string()));
    let ok_salt = CryptoOperation::DeriveKey { context: KeyDerivationContext::new(vec![1; 16]) };
    match backend.perform_operation("k", ok_salt) {
        Err(BackendError::OperationFailed(m)) => {
            assert_eq!(m, "Key derivation failed: Failed to get passphrase from keyring: no entry")
        }
        other => panic!("unexpected {:?}", other),
    }
}

#[test]
fn keyring_refuses_other_operations_with_their_debug_text() {
    let mut backend = UniversalKeyringBackend::new().unwrap();
    let sign = CryptoOperation::Sign { data: vec![1, 2, 3], algorithm: SignatureAlgorithm::Ed25519 };
    let expected = format!("Operation {:?} not supported by keyring backend", sign);
    match backend.perform_operation("k", sign) {
        Err(BackendError::UnsupportedOperation(m)) => assert_eq!(m, expected),
        other => panic!("unexpected {:?}", other),
    }
    let enc = CryptoOperation::Encrypt { plaintext: vec![1], algorithm: SymmetricAlgorithm::ChaCha20Poly1305 };
    match backend.perform_operation("k", enc) {
        Err(BackendError::UnsupportedOperation(m)) => {
            assert_eq!(m, "Symmetric algorithm ChaCha20Poly1305 not supported by keyring backend")
        }
        other => panic!("unexpected {:?}", other),
    }
    let info: BackendInfo = backend.backend_info();
    assert_eq!(info.name, "keyring");
}

#[test]
fn keyring_hash_values() {
    let mut backend = UniversalKeyringBackend::new().unwrap();
    for (alg, len) in [(HashAlgorithm::Sha256, 32), (HashAlgorithm::Sha384, 48), (HashAlgorithm::Sha512, 64)] {
        match backend.perform_operation("k", CryptoOperation::Hash { data: b"abc".to_vec(), algorithm: alg }) {
            Ok(CryptoResult::Hash(h)) => assert_eq!(h.len(), len),
            other => panic!("unexpected {:?}", other),
        }
    }
    match backend.perform_operation("k", CryptoOperation::Hash { data: b"abc".to_vec(), algorithm: HashAlgorithm::Sha256 }) {
        Ok(CryptoResult::Hash(h)) => assert_eq!(h, sha2::Sha256::digest(b"abc").to_vec()),
        other => panic!("unexpected {:?}", other),
    }
}

#[test]
fn keyring_stored_passphrase_is_read_back_and_used() {
    let mut backend = UniversalKeyringBackend::new().unwrap();
    assert_eq!(backend.get_passphrase().unwrap_err(), "no passphrase loaded");
    backend.store_passphrase("s3cret").unwrap();
    assert_eq!(backend.get_passphrase().unwrap(), "s3cret");
    let context = KeyDerivationContext::new(vec![7; 16]).with_iterations(1000);
    let key = match backend.perform_operation("id", CryptoOperation::DeriveKey { context }) {
        Ok(CryptoResult::DerivedKey(k)) => k,
        other => panic!("unexpected {:?}", other),
    };
    let mut expected = [0u8; 32];
    pbkdf2::pbkdf2_hmac::<sha2::Sha256>(b"s3cretid", &[7u8; 16], 1000, &mut expected);
    assert_eq!(key, expected);
    backend.load_passphrase(Err("locked".to_string()));
    assert_eq!(backend.get_passphrase().unwrap_err(), "locked");
}

#[test]
fn keyring_with_custom_service_and_user() {
    let backend = UniversalKeyringBackend::new_with_service("svc".to_string(), "bob".to_string()).unwrap();
    assert_eq!(backend.service_name().map(|s| s.as_str()), Some("svc"));
    assert_eq!(backend.username().map(|s| s.as_str()), Some("bob"));
    let default = UniversalKeyringBackend::new().unwrap();
    assert!(default.service_name().is_none());
    assert!(default.username().is_none());
}
