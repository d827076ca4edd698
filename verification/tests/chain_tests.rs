use base64::Engine as _;
use trustedge_core::chain::{blake3_hex_or_b64, chain_next, genesis, segment_hash, validate_chain, ChainSegment};
use trustedge_core::error::ChainError;

#[test]
fn test_genesis_computation() {
    let computed_genesis = genesis();
    let expected = blake3::hash(b"sealedge:genesis");
    assert_eq!(computed_genesis, *expected.as_bytes());
}

#[test]
fn test_segment_hash() {
    let ciphertext = b"fake_ciphertext_data";
    let hash = segment_hash(ciphertext);
    let expected = blake3::hash(ciphertext);
    assert_eq!(hash, *expected.as_bytes());
}

#[test]
fn test_chain_next() {
    let prev = [1u8; 32];
    let curr = [2u8; 32];
    let result = chain_next(&prev, &curr);
    let mut hasher = blake3::Hasher::new();
    hasher.update(&prev);
    hasher.update(&curr);
    let expected = hasher.finalize();
    assert_eq!(result, *expected.as_bytes());
}

#[test]
fn test_blake3_hex_or_b64() {
    let test_bytes = [0x01, 0x23, 0x45, 0x67];
    let result = blake3_hex_or_b64(&test_bytes);
    assert!(result.starts_with("b3:"));
    let b64_part = &result[3..];
    assert!(!b64_part.is_empty());
}

fn three_segments() -> ([u8; 32], [u8; 32], [u8; 32], [u8; 32], [u8; 32], [u8; 32]) {
    let hash1 = segment_hash(b"fake_segment_1_ciphertext");
    let hash2 = segment_hash(b"fake_segment_2_ciphertext");
    let hash3 = segment_hash(b"fake_segment_3_ciphertext");
    let genesis_hash = genesis();
    let continuity1 = chain_next(&genesis_hash, &hash1);
    let continuity2 = chain_next(&continuity1, &hash2);
    let continuity3 = chain_next(&continuity2, &hash3);
    (hash1, hash2, hash3, continuity1, continuity2, continuity3)
}

#[test]
fn test_happy_path_with_3_segments() {
    let (hash1, hash2, hash3, continuity1, continuity2, continuity3) = three_segments();
    let segments = vec![
        ChainSegment { index: 0, stored_hash: hash1, stored_continuity: continuity1 },
        ChainSegment { index: 1, stored_hash: hash2, stored_continuity: continuity2 },
        ChainSegment { index: 2, stored_hash: hash3, stored_continuity: continuity3 },
    ];
    assert!(validate_chain(&segments).is_ok());
}

#[test]
fn test_swapping_segments_fails_out_of_order() {
    let (hash1, hash2, _hash3, continuity1, continuity2, _c3) = three_segments();
    let segments = vec![
        ChainSegment { index: 0, stored_hash: hash2, stored_continuity: continuity2 },
        ChainSegment { index: 1, stored_hash: hash1, stored_continuity: continuity1 },
    ];
    let result = validate_chain(&segments);
    assert!(result.is_err());
    match result.unwrap_err() {
        ChainError::OutOfOrder { .. } => (),
        other => panic!("Expected OutOfOrder error, got {:?}", other),
    }
}

#[test]
fn test_removing_last_segment_fails_end_of_chain_truncated() {
    let (hash1, hash2, _hash3, continuity1, _continuity2, continuity3) = three_segments();
    let segments = vec![
        ChainSegment { index: 0, stored_hash: hash1, stored_continuity: continuity1 },
        ChainSegment { index: 1, stored_hash: hash2, stored_continuity: continuity3 },
    ];
    let result = validate_chain(&segments);
    assert!(result.is_err());
    match result.unwrap_err() {
        ChainError::OutOfOrder { .. } => (),
        other => panic!("Expected OutOfOrder error, got {:?}", other),
    }
}

#[test]
fn test_gap_in_segments() {
    let hash1 = segment_hash(b"fake_segment_1_ciphertext");
    let continuity1 = chain_next(&genesis(), &hash1);
    let segments = vec![
        ChainSegment { index: 0, stored_hash: hash1, stored_continuity: continuity1 },
        ChainSegment { index: 2, stored_hash: hash1, stored_continuity: continuity1 },
    ];
    let result = validate_chain(&segments);
    assert!(result.is_err());
    match result.unwrap_err() {
        ChainError::Gap(index) => assert_eq!(index, 1),
        other => panic!("Expected Gap error, got {:?}", other),
    }
}

#[test]
fn test_empty_segments() {
    assert!(validate_chain(&[]).is_ok());
}

#[test]
fn test_blake3_b64_format() {
    let test_data = [0x14, 0xfb, 0x9c, 0x03, 0xd9, 0x7e];
    let result = blake3_hex_or_b64(&test_data);
    assert!(result.starts_with("b3:"));
    let b64_part = &result[3..];
    let decoded = base64::engine::general_purpose::STANDARD.decode(b64_part).expect("valid base64");
    assert_eq!(decoded, test_data);
}

#[test]
fn test_old_genesis_seed_produces_distinct_hash() {
    let old = blake3::hash(b"trustedge:genesis");
    let new = blake3::hash(b"sealedge:genesis");
    assert_ne!(old.as_bytes(), new.as_bytes());
    assert_eq!(&genesis(), new.as_bytes());
}

#[test]
fn test_old_genesis_seed_rejected_cleanly() {
    let segment_hash_value = [0xEEu8; 32];
    let mut old_hasher = blake3::Hasher::new();
    old_hasher.update(b"trustedge:genesis");
    old_hasher.update(&segment_hash_value);
    let old_first = *old_hasher.finalize().as_bytes();
    let mut new_hasher = blake3::Hasher::new();
    new_hasher.update(b"sealedge:genesis");
    new_hasher.update(&segment_hash_value);
    let new_first = *new_hasher.finalize().as_bytes();
    assert_ne!(old_first, new_first);
}

#[test]
fn every_prefix_of_a_valid_chain_validates() {
    let (h1, h2, h3, c1, c2, c3) = three_segments();
    let segments = vec![
        ChainSegment { index: 0, stored_hash: h1, stored_continuity: c1 },
        ChainSegment { index: 1, stored_hash: h2, stored_continuity: c2 },
        ChainSegment { index: 2, stored_hash: h3, stored_continuity: c3 },
    ];
    for n in 0..=segments.len() {
        assert!(validate_chain(&segments[..n]).is_ok(), "prefix of length {} refused", n);
    }
}
