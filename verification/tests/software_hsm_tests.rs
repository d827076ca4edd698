use trustedge_core::backends::software_hsm::{SoftwareHsmBackend, SoftwareHsmConfig, StoredKey};
use trustedge_core::backends::universal::{
    AsymmetricAlgorithm, CryptoOperation, CryptoResult, HashAlgorithm, KeyDerivationContext, SignatureAlgorithm,
    SymmetricAlgorithm, UniversalBackend,
};

const NOW: u64 = 1_700_000_000;

fn config(dir: &str) -> SoftwareHsmConfig {
    SoftwareHsmConfig {
        key_store_path: dir.to_string(),
        default_passphrase: "test123".to_string(),
        metadata_file: format!("{}/metadata.json", dir),
    }
}

fn create_test_backend() -> SoftwareHsmBackend {
    SoftwareHsmBackend::with_config(config("/tmp/hsm-store")).unwrap()
}

#[test]
fn test_backend_creation_default_config() {
    let backend = SoftwareHsmBackend::with_config(config("/tmp/hsm-a")).unwrap();
    assert_eq!(backend.key_metadata().len(), 0);
}

#[test]
fn test_backend_creation_with_new() {
    let backend = SoftwareHsmBackend::new();
    assert!(backend.is_ok());
}

#[test]
fn default_config_values() {
    let c = SoftwareHsmConfig::default();
    assert_eq!(c.key_store_path, "./software_hsm_keys");
    assert_eq!(c.default_passphrase, "changeme123!");
    assert_eq!(c.metadata_file, "./software_hsm_keys/metadata.json");
}

#[test]
fn test_metadata_persistence() {
    let mut backend = SoftwareHsmBackend::with_config(config("/tmp/hsm-p")).unwrap();
    let files = backend
        .generate_key_pair("test_key", AsymmetricAlgorithm::Ed25519, Some("Test key".to_string()), NOW)
        .unwrap();
    assert_eq!(backend.key_metadata().len(), 1);
    let stored: Vec<StoredKey> = backend
        .key_metadata()
        .into_iter()
        .map(|m| StoredKey { metadata: m, private_key: files.private_key.clone(), public_key: files.public_key.clone() })
        .collect();
    let restored = SoftwareHsmBackend::restore(config("/tmp/hsm-p"), stored);
    let metadata = restored.key_metadata();
    assert_eq!(metadata.len(), 1);
    assert_eq!(metadata[0].key_id, "test_key");
    assert_eq!(metadata[0].description, "Test key");
    assert_eq!(metadata[0].algorithm, AsymmetricAlgorithm::Ed25519);
}

#[test]
fn test_ed25519_key_generation_and_signing() {
    let mut backend = create_test_backend();
    backend.generate_key_pair("test_ed25519", AsymmetricAlgorithm::Ed25519, None, NOW).unwrap();
    let test_data = b"Hello, Software HSM!";
    let signature = backend.sign_data("test_ed25519", test_data, SignatureAlgorithm::Ed25519, NOW).unwrap();
    let is_valid = backend.verify_signature("test_ed25519", test_data, &signature, SignatureAlgorithm::Ed25519).unwrap();
    assert!(is_valid);
    let mut invalid_signature = signature.clone();
    invalid_signature[0] ^= 0xFF;
    let is_invalid =
        backend.verify_signature("test_ed25519", test_data, &invalid_signature, SignatureAlgorithm::Ed25519).unwrap();
    assert!(!is_invalid);
}

#[test]
fn test_p256_key_generation_and_signing() {
    let mut backend = create_test_backend();
    backend
        .generate_key_pair("test_p256", AsymmetricAlgorithm::EcdsaP256, Some("P256 test key".to_string()), NOW)
        .unwrap();
    let test_data = b"Hello, P-256!";
    let signature = backend.sign_data("test_p256", test_data, SignatureAlgorithm::EcdsaP256, NOW).unwrap();
    let is_valid = backend.verify_signature("test_p256", test_data, &signature, SignatureAlgorithm::EcdsaP256).unwrap();
    assert!(is_valid);
    let mut invalid_signature = signature.clone();
    if !invalid_signature.is_empty() {
        let len = invalid_signature.len();
        invalid_signature[len - 1] ^= 0xFF;
    }
    let is_invalid =
        backend.verify_signature("test_p256", test_data, &invalid_signature, SignatureAlgorithm::EcdsaP256).unwrap();
    assert!(!is_invalid);
}

#[test]
fn test_unsupported_algorithm_generation() {
    let mut backend = create_test_backend();
    let result = backend.generate_key_pair("test_rsa", AsymmetricAlgorithm::Rsa2048, None, NOW);
    assert!(result.is_err());
    assert!(result.unwrap_err().contains("Unsupported algorithm"));
}

#[test]
fn test_duplicate_key_generation() {
    let mut backend = create_test_backend();
    backend.generate_key_pair("duplicate_key", AsymmetricAlgorithm::Ed25519, None, NOW).unwrap();
    backend
        .generate_key_pair("duplicate_key", AsymmetricAlgorithm::EcdsaP256, Some("Second key".to_string()), NOW)
        .unwrap();
    let metadata = backend.key_metadata();
    assert_eq!(metadata.len(), 1);
    assert_eq!(metadata[0].algorithm, AsymmetricAlgorithm::EcdsaP256);
    assert_eq!(metadata[0].description, "Second key");
}

#[test]
fn test_key_file_storage() {
    let mut backend = SoftwareHsmBackend::with_config(config("/tmp/hsm-files")).unwrap();
    let files = backend.generate_key_pair("file_test", AsymmetricAlgorithm::Ed25519, None, NOW).unwrap();
    assert_eq!(files.private_key_path, "/tmp/hsm-files/file_test_private.key");
    assert_eq!(files.public_key_path, "/tmp/hsm-files/file_test_public.key");
    assert_eq!(files.private_key.len(), 32);
    assert_eq!(files.public_key.len(), 32);
    let (p, q) = backend.key_file_paths("k");
    assert_eq!(p, "/tmp/hsm-files/k_private.key");
    assert_eq!(q, "/tmp/hsm-files/k_public.key");
}

#[test]
fn test_sign_with_nonexistent_key() {
    let mut backend = create_test_backend();
    let result = backend.sign_data("nonexistent", b"test", SignatureAlgorithm::Ed25519, NOW);
    assert!(result.is_err());
    assert!(result.unwrap_err().contains("Key not found"));
}

#[test]
fn test_verify_with_nonexistent_key() {
    let backend = create_test_backend();
    let result = backend.verify_signature("nonexistent", b"test", &[0; 64], SignatureAlgorithm::Ed25519);
    assert!(result.is_err());
    assert!(result.unwrap_err().contains("Key not found"));
}

#[test]
fn test_algorithm_mismatch_signing() {
    let mut backend = create_test_backend();
    backend.generate_key_pair("ed25519_key", AsymmetricAlgorithm::Ed25519, None, NOW).unwrap();
    let result = backend.sign_data("ed25519_key", b"test", SignatureAlgorithm::EcdsaP256, NOW);
    assert!(result.is_err());
    let msg = result.unwrap_err();
    assert!(msg.contains("Incompatible key algorithm"));
    assert_eq!(msg, "Incompatible key algorithm Ed25519 with signature algorithm EcdsaP256");
}

#[test]
fn test_algorithm_mismatch_verification() {
    let mut backend = create_test_backend();
    backend.generate_key_pair("p256_key", AsymmetricAlgorithm::EcdsaP256, None, NOW).unwrap();
    let result = backend.verify_signature("p256_key", b"test", &[0; 64], SignatureAlgorithm::Ed25519);
    assert!(result.is_err());
    assert!(result.unwrap_err().contains("Incompatible key algorithm"));
}

#[test]
fn test_multiple_signatures_same_key() {
    let mut backend = create_test_backend();
    backend.generate_key_pair("multi_sig", AsymmetricAlgorithm::Ed25519, None, NOW).unwrap();
    let (data1, data2, data3) = (b"First message", b"Second message", b"Third message");
    let sig1 = backend.sign_data("multi_sig", data1, SignatureAlgorithm::Ed25519, NOW).unwrap();
    let sig2 = backend.sign_data("multi_sig", data2, SignatureAlgorithm::Ed25519, NOW).unwrap();
    let sig3 = backend.sign_data("multi_sig", data3, SignatureAlgorithm::Ed25519, NOW).unwrap();
    assert_ne!(sig1, sig2);
    assert_ne!(sig2, sig3);
    assert_ne!(sig1, sig3);
    assert!(backend.verify_signature("multi_sig", data1, &sig1, SignatureAlgorithm::Ed25519).unwrap());
    assert!(backend.verify_signature("multi_sig", data2, &sig2, SignatureAlgorithm::Ed25519).unwrap());
    assert!(backend.verify_signature("multi_sig", data3, &sig3, SignatureAlgorithm::Ed25519).unwrap());
    assert!(!backend.verify_signature("multi_sig", data1, &sig2, SignatureAlgorithm::Ed25519).unwrap());
    assert!(!backend.verify_signature("multi_sig", data2, &sig3, SignatureAlgorithm::Ed25519).unwrap());
}

#[test]
fn test_signature_determinism_ed25519() {
    let mut backend = create_test_backend();
    backend.generate_key_pair("deterministic", AsymmetricAlgorithm::Ed25519, None, NOW).unwrap();
    let data = b"Deterministic test message";
    let sig1 = backend.sign_data("deterministic", data, SignatureAlgorithm::Ed25519, NOW).unwrap();
    let sig2 = backend.sign_data("deterministic", data, SignatureAlgorithm::Ed25519, NOW).unwrap();
    assert_eq!(sig1, sig2, "Ed25519 signatures should be deterministic");
}

#[test]
fn test_signature_randomness_p256() {
    let mut backend = create_test_backend();
    backend.generate_key_pair("random", AsymmetricAlgorithm::EcdsaP256, None, NOW).unwrap();
    let data = b"Random test message";
    let sig1 = backend.sign_data("random", data, SignatureAlgorithm::EcdsaP256, NOW).unwrap();
    let sig2 = backend.sign_data("random", data, SignatureAlgorithm::EcdsaP256, NOW).unwrap();
    assert!(backend.verify_signature("random", data, &sig1, SignatureAlgorithm::EcdsaP256).unwrap());
    assert!(backend.verify_signature("random", data, &sig2, SignatureAlgorithm::EcdsaP256).unwrap());
}

#[test]
fn test_universal_backend_interface() {
    let mut backend = create_test_backend();
    backend.generate_key_pair("test_universal", AsymmetricAlgorithm::Ed25519, None, NOW).unwrap();
    let test_data = b"Testing UniversalBackend interface";
    let sign_op = CryptoOperation::Sign { data: test_data.to_vec(), algorithm: SignatureAlgorithm::Ed25519 };
    match backend.perform_operation("test_universal", sign_op).unwrap() {
        CryptoResult::Signed(signature) => {
            let verify_op =
                CryptoOperation::Verify { data: test_data.to_vec(), signature, algorithm: SignatureAlgorithm::Ed25519 };
            match backend.perform_operation("test_universal", verify_op).unwrap() {
                CryptoResult::VerificationResult(is_valid) => assert!(is_valid),
                _ => panic!("Expected VerificationResult"),
            }
        }
        _ => panic!("Expected Signed result"),
    }
}

#[test]
fn test_universal_backend_get_public_key() {
    let mut backend = create_test_backend();
    backend.generate_key_pair("pubkey_test", AsymmetricAlgorithm::Ed25519, None, NOW).unwrap();
    match backend.perform_operation("pubkey_test", CryptoOperation::GetPublicKey).unwrap() {
        CryptoResult::PublicKey(public_key) => assert_eq!(public_key.len(), 32),
        _ => panic!("Expected PublicKey result"),
    }
}

#[test]
fn test_universal_backend_hash_operations() {
    let mut backend = create_test_backend();
    let test_data = b"Hash this data";
    match backend
        .perform_operation("", CryptoOperation::Hash { data: test_data.to_vec(), algorithm: HashAlgorithm::Sha256 })
        .unwrap()
    {
        CryptoResult::Hash(hash) => assert_eq!(hash.len(), 32),
        _ => panic!("Expected Hash result"),
    }
    match backend
        .perform_operation("", CryptoOperation::Hash { data: test_data.to_vec(), algorithm: HashAlgorithm::Sha512 })
        .unwrap()
    {
        CryptoResult::Hash(hash) => assert_eq!(hash.len(), 64),
        _ => panic!("Expected Hash result"),
    }
}

#[test]
fn test_universal_backend_unsupported_operations() {
    let mut backend = create_test_backend();
    let encrypt_op = CryptoOperation::Encrypt { plaintext: vec![1, 2, 3], algorithm: SymmetricAlgorithm::Aes256Gcm };
    assert!(backend.perform_operation("", encrypt_op).is_err());
    let derive_op = CryptoOperation::DeriveKey { context: KeyDerivationContext::new(vec![1, 2, 3, 4]) };
    assert!(backend.perform_operation("", derive_op).is_err());
    let attest_op = CryptoOperation::Attest { challenge: vec![1, 2, 3] };
    assert!(backend.perform_operation("", attest_op).is_err());
}

#[test]
fn software_hsm_test_backend_capabilities() {
    let backend = create_test_backend();
    let capabilities = backend.get_capabilities();
    assert!(!capabilities.hardware_backed);
    assert!(capabilities.supports_key_generation);
    assert!(!capabilities.supports_key_derivation);
    assert!(!capabilities.supports_attestation);
    assert!(capabilities.signature_algorithms.contains(&SignatureAlgorithm::Ed25519));
    assert!(capabilities.asymmetric_algorithms.contains(&AsymmetricAlgorithm::Ed25519));
    assert!(capabilities.signature_algorithms.contains(&SignatureAlgorithm::EcdsaP256));
    assert!(capabilities.asymmetric_algorithms.contains(&AsymmetricAlgorithm::EcdsaP256));
    assert_eq!(capabilities.max_key_size, Some(256));
}

#[test]
fn test_backend_info() {
    let backend = create_test_backend();
    let info = backend.backend_info();
    assert_eq!(info.name, "software_hsm");
    assert_eq!(info.version, "1.0.0");
    assert!(info.available);
    assert!(!info.description.is_empty());
}

#[test]
fn test_operation_support() {
    let backend = create_test_backend();
    assert!(backend.supports_operation(&CryptoOperation::Sign { data: vec![1, 2, 3], algorithm: SignatureAlgorithm::Ed25519 }));
    assert!(backend.supports_operation(&CryptoOperation::Verify {
        data: vec![1, 2, 3],
        signature: vec![0; 64],
        algorithm: SignatureAlgorithm::EcdsaP256
    }));
    assert!(backend.supports_operation(&CryptoOperation::GetPublicKey));
    assert!(backend.supports_operation(&CryptoOperation::GenerateKeyPair { algorithm: AsymmetricAlgorithm::Ed25519 }));
    assert!(backend.supports_operation(&CryptoOperation::Hash { data: vec![1, 2, 3], algorithm: HashAlgorithm::Sha256 }));
    assert!(!backend.supports_operation(&CryptoOperation::Encrypt {
        plaintext: vec![1, 2, 3],
        algorithm: SymmetricAlgorithm::Aes256Gcm
    }));
    assert!(!backend.supports_operation(&CryptoOperation::GenerateKeyPair { algorithm: AsymmetricAlgorithm::Rsa2048 }));
}

#[test]
fn test_list_keys() {
    let mut backend = create_test_backend();
    assert_eq!(backend.key_metadata().len(), 0);
    backend.generate_key_pair("key1", AsymmetricAlgorithm::Ed25519, Some("First key".to_string()), NOW).unwrap();
    backend.generate_key_pair("key2", AsymmetricAlgorithm::EcdsaP256, Some("Second key".to_string()), NOW).unwrap();
    let keys = backend.key_metadata();
    assert_eq!(keys.len(), 2);
    let mut descriptions: Vec<String> = keys.iter().map(|k| k.description.clone()).collect();
    descriptions.sort();
    assert_eq!(descriptions, vec!["First key", "Second key"]);
}

#[test]
fn test_key_usage_tracking() {
    let mut backend = create_test_backend();
    backend.generate_key_pair("usage_test", AsymmetricAlgorithm::Ed25519, None, NOW).unwrap();
    assert!(backend.key_metadata()[0].last_used.is_none());
    backend.sign_data("usage_test", b"test", SignatureAlgorithm::Ed25519, NOW + 1).unwrap();
    let first_usage = backend.key_metadata()[0].last_used.unwrap();
    assert_eq!(first_usage, NOW + 1);
    backend.sign_data("usage_test", b"test2", SignatureAlgorithm::Ed25519, NOW + 2).unwrap();
    let second_usage = backend.key_metadata()[0].last_used.unwrap();
    assert!(second_usage >= first_usage);
    assert_eq!(backend.key_metadata()[0].description, "Ed25519 key");
}

#[test]
fn test_invalid_signature_lengths() {
    let mut backend = create_test_backend();
    backend.generate_key_pair("length_test", AsymmetricAlgorithm::Ed25519, None, NOW).unwrap();
    let result = backend.verify_signature("length_test", b"test", &[0; 32], SignatureAlgorithm::Ed25519);
    assert!(result.unwrap_err().contains("Invalid Ed25519 signature length"));
    let result = backend.verify_signature("length_test", b"test", &[0; 128], SignatureAlgorithm::Ed25519);
    assert!(result.unwrap_err().contains("Invalid Ed25519 signature length"));
}

#[test]
fn test_corrupted_key_files() {
    let mut backend = create_test_backend();
    backend.generate_key_pair("corrupt_test", AsymmetricAlgorithm::Ed25519, None, NOW).unwrap();
    let metadata = backend.key_metadata().remove(0);
    let corrupted = SoftwareHsmBackend::restore(
        config("/tmp/hsm-store"),
        vec![StoredKey { metadata, private_key: vec![0; 16], public_key: vec![0; 32] }],
    );
    let mut corrupted = corrupted;
    let result = corrupted.sign_data("corrupt_test", b"test", SignatureAlgorithm::Ed25519, NOW);
    assert!(result.unwrap_err().contains("Invalid Ed25519 private key length"));
}

#[test]
fn test_large_data_signing() {
    let mut backend = create_test_backend();
    backend.generate_key_pair("large_data", AsymmetricAlgorithm::Ed25519, None, NOW).unwrap();
    let large_data = vec![0x42; 1024 * 1024];
    let signature = backend.sign_data("large_data", &large_data, SignatureAlgorithm::Ed25519, NOW).unwrap();
    assert!(backend.verify_signature("large_data", &large_data, &signature, SignatureAlgorithm::Ed25519).unwrap());
}

#[test]
fn test_empty_data_signing() {
    let mut backend = create_test_backend();
    backend.generate_key_pair("empty_data", AsymmetricAlgorithm::Ed25519, None, NOW).unwrap();
    let signature = backend.sign_data("empty_data", b"", SignatureAlgorithm::Ed25519, NOW).unwrap();
    assert!(backend.verify_signature("empty_data", b"", &signature, SignatureAlgorithm::Ed25519).unwrap());
}

#[test]
fn test_many_keys() {
    let mut backend = create_test_backend();
    for i in 0..100 {
        let key_id = format!("key_{}", i);
        let algorithm = if i % 2 == 0 { AsymmetricAlgorithm::Ed25519 } else { AsymmetricAlgorithm::EcdsaP256 };
        backend.generate_key_pair(&key_id, algorithm, Some(format!("Key number {}", i)), NOW).unwrap();
    }
    assert_eq!(backend.key_metadata().len(), 100);
    for i in 0..100 {
        let key_id = format!("key_{}", i);
        let algorithm = if i % 2 == 0 { SignatureAlgorithm::Ed25519 } else { SignatureAlgorithm::EcdsaP256 };
        let test_data = format!("Test data for key {}", i);
        let signature = backend.sign_data(&key_id, test_data.as_bytes(), algorithm, NOW).unwrap();
        assert!(backend.verify_signature(&key_id, test_data.as_bytes(), &signature, algorithm).unwrap());
    }
}

#[test]
fn test_concurrent_key_operations() {
    let mut backend = create_test_backend();
    backend.generate_key_pair("concurrent_test", AsymmetricAlgorithm::Ed25519, None, NOW).unwrap();
    for i in 0..10 {
        let data = format!("Message {}", i);
        let signature = backend.sign_data("concurrent_test", data.as_bytes(), SignatureAlgorithm::Ed25519, NOW).unwrap();
        assert!(backend.verify_signature("concurrent_test", data.as_bytes(), &signature, SignatureAlgorithm::Ed25519).unwrap());
    }
}

#[test]
fn test_p256_signature_variations() {
    let mut backend = create_test_backend();
    backend.generate_key_pair("p256_var", AsymmetricAlgorithm::EcdsaP256, None, NOW).unwrap();
    let test_data = b"P256 signature test";
    let mut signatures = Vec::new();
    for _ in 0..5 {
        let signature = backend.sign_data("p256_var", test_data, SignatureAlgorithm::EcdsaP256, NOW).unwrap();
        signatures.push(signature.clone());
        assert!(backend.verify_signature("p256_var", test_data, &signature, SignatureAlgorithm::EcdsaP256).unwrap());
    }
    assert_eq!(signatures.len(), 5);
}

#[test]
fn restore_keeps_the_last_key_of_an_identifier_and_public_keys_load() {
    let mut a = create_test_backend();
    let first = a.generate_key_pair("dup", AsymmetricAlgorithm::Ed25519, None, NOW).unwrap();
    let mut b = create_test_backend();
    let second = b.generate_key_pair("dup", AsymmetricAlgorithm::Ed25519, Some("later".to_string()), NOW + 1).unwrap();
    let meta_a = a.key_metadata().remove(0);
    let meta_b = b.key_metadata().remove(0);
    let restored = SoftwareHsmBackend::restore(
        config("/tmp/hsm-r"),
        vec![
            StoredKey { metadata: meta_a, private_key: first.private_key.clone(), public_key: first.public_key.clone() },
            StoredKey { metadata: meta_b, private_key: second.private_key.clone(), public_key: second.public_key.clone() },
        ],
    );
    let metadata = restored.key_metadata();
    assert_eq!(metadata.len(), 1);
    assert_eq!(metadata[0].description, "later");
    assert_eq!(metadata[0].created_at, NOW + 1);
    assert_eq!(restored.load_public_key("dup").unwrap(), second.public_key);
    assert_eq!(restored.load_public_key("nope").unwrap_err(), "Key not found: nope");
    assert_eq!(restored.config().key_store_path, "/tmp/hsm-r");
}

#[test]
fn generated_key_takes_default_description_and_keeps_others() {
    let mut backend = create_test_backend();
    backend.generate_key_pair("first", AsymmetricAlgorithm::Ed25519, Some("mine".to_string()), NOW).unwrap();
    backend.generate_key_pair("second", AsymmetricAlgorithm::EcdsaP256, None, NOW + 1).unwrap();
    let metadata = backend.key_metadata();
    assert_eq!(metadata.len(), 2);
    assert_eq!(metadata[0].key_id, "first");
    assert_eq!(metadata[0].description, "mine");
    assert_eq!(metadata[0].created_at, NOW);
    assert_eq!(metadata[1].key_id, "second");
    assert_eq!(metadata[1].description, "EcdsaP256 key");
    assert_eq!(metadata[1].created_at, NOW + 1);
    assert!(backend.generate_key_pair("third", AsymmetricAlgorithm::Rsa2048, None, NOW).is_err());
    assert_eq!(backend.key_metadata().len(), 2);
}

#[test]
fn private_key_files_are_protected_by_the_passphrase() {
    let mut backend = create_test_backend();
    let files = backend.generate_key_pair("protected", AsymmetricAlgorithm::Ed25519, None, NOW).unwrap();
    assert_eq!(files.private_key.len(), 32);
    let secret = backend.recover_private_key("protected", &files.private_key);
    assert_ne!(secret, files.private_key);
    let signer = ed25519_dalek::SigningKey::from_bytes(&secret.clone().try_into().unwrap());
    assert_eq!(signer.verifying_key().to_bytes().to_vec(), files.public_key);
    let mut file_key = [0u8; 32];
    pbkdf2::pbkdf2_hmac::<sha2::Sha256>(b"test123", b"trustedge-software-hsm", 600_000, &mut file_key);
    let mask = blake3::keyed_hash(&file_key, b"protected");
    let expected: Vec<u8> = secret.iter().zip(mask.as_bytes().iter()).map(|(a, b)| a ^ b).collect();
    assert_eq!(files.private_key, expected);
    assert_eq!(backend.protect_private_key("protected", &secret), files.private_key);
    let other = SoftwareHsmBackend::with_config(SoftwareHsmConfig {
        default_passphrase: "wrong".to_string(),
        ..config("/tmp/hsm-store")
    })
    .unwrap();
    assert_ne!(other.recover_private_key("protected", &files.private_key), secret);
}

#[test]
fn advertised_key_generation_is_performed() {
    let mut backend = create_test_backend();
    let op = CryptoOperation::GenerateKeyPair { algorithm: AsymmetricAlgorithm::Ed25519 };
    assert!(backend.supports_operation(&op));
    let public_key = match backend.perform_operation("made", op).unwrap() {
        CryptoResult::KeyPair { public_key, private_key_id } => {
            assert_eq!(private_key_id, "made");
            public_key
        }
        _ => panic!("Expected a key pair"),
    };
    assert_eq!(public_key.len(), 32);
    let metadata = backend.key_metadata();
    assert_eq!(metadata.len(), 1);
    assert_eq!(metadata[0].description, "Ed25519 key");
    let sig = backend.sign_data("made", b"data", SignatureAlgorithm::Ed25519, NOW).unwrap();
    assert!(backend.verify_signature("made", b"data", &sig, SignatureAlgorithm::Ed25519).unwrap());
    let rsa = CryptoOperation::GenerateKeyPair { algorithm: AsymmetricAlgorithm::Rsa2048 };
    assert!(!backend.supports_operation(&rsa));
    match backend.perform_operation("rsa", rsa) {
        Err(e) => assert!(format!("{:?}", e).contains("UnsupportedOperation")),
        Ok(_) => panic!("RSA generation should be refused"),
    }
    assert_eq!(backend.key_metadata().len(), 1);
}
