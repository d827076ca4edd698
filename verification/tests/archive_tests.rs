use trustedge_core::archive::{
    archive_dir_name, check_chunk_count, check_signature_consistency, chunk_file_name, parse_chunk_index,
};
use trustedge_core::error::ArchiveError;

#[test]
fn test_parse_chunk_index() {
    assert_eq!(parse_chunk_index("00000.bin").unwrap(), 0);
    assert_eq!(parse_chunk_index("00042.bin").unwrap(), 42);
    assert_eq!(parse_chunk_index("99999.bin").unwrap(), 99999);
    assert!(parse_chunk_index("0.bin").is_err());
    assert!(parse_chunk_index("chunk.bin").is_err());
    assert!(parse_chunk_index("00000.txt").is_err());
}

#[test]
fn test_archive_dir_name() {
    assert_eq!(archive_dir_name("test123"), "clip-test123.trst");
    assert_eq!(archive_dir_name("CAM-001"), "clip-CAM-001.trst");
}

#[test]
fn chunk_names_parse_back() {
    for i in [0usize, 1, 42, 99999] {
        assert_eq!(parse_chunk_index(&chunk_file_name(i)).unwrap(), i);
    }
    assert_eq!(chunk_file_name(7), "00007.bin");
}

#[test]
fn chunk_count_mismatch_is_a_schema_error() {
    assert!(check_chunk_count(3, 3).is_ok());
    match check_chunk_count(2, 3) {
        Err(ArchiveError::SchemaMismatch(msg)) => assert!(msg.contains("Chunk count mismatch")),
        other => panic!("unexpected {:?}", other),
    }
}

#[test]
fn detached_signature_must_match_embedded() {
    let embedded = Some("ed25519:test_signature".to_string());
    assert!(check_signature_consistency(&embedded, b"ed25519:test_signature").is_ok());
    match check_signature_consistency(&Some("ed25519:different_signature".to_string()), b"ed25519:test_signature") {
        Err(ArchiveError::SignatureMismatch) => {}
        other => panic!("unexpected {:?}", other),
    }
}
