use trustedge_core::manifest::{CamVideoManifest, SegmentInfo};

fn segment() -> SegmentInfo {
    SegmentInfo {
        chunk_file: "00000.bin".to_string(),
        blake3_hash: "abc123".to_string(),
        start_time: "2025-01-15T10:30:00Z".to_string(),
        duration_seconds: format!("{}", 2.0f64),
        continuity_hash: "def456".to_string(),
    }
}

fn filled() -> CamVideoManifest {
    let mut manifest = CamVideoManifest::new();
    manifest.device.id = "TEST001".to_string();
    manifest.device.public_key = "ed25519:test_key".to_string();
    manifest.capture.started_at = "2025-01-15T10:30:00Z".to_string();
    manifest.capture.ended_at = "2025-01-15T10:30:02Z".to_string();
    manifest.segments.push(segment());
    manifest
}

#[test]
fn test_manifest_creation() {
    let manifest = CamVideoManifest::new();
    assert_eq!(manifest.trst_version, "0.1.0");
    assert_eq!(manifest.profile, "cam.video");
    assert_eq!(manifest.device.model, "TrustEdgeRefCam");
    assert_eq!(manifest.capture.fps.parse::<f64>().unwrap(), 30.0);
}

#[test]
fn manifest_test_canonical_bytes_excludes_signature() {
    let mut manifest = filled();
    let bytes_without_sig = manifest.to_canonical_bytes().unwrap();
    let json_str_without_sig = String::from_utf8(bytes_without_sig.clone()).unwrap();
    assert!(!json_str_without_sig.contains("signature"));
    manifest.set_signature("test_signature".to_string());
    let bytes_with_sig = manifest.to_canonical_bytes().unwrap();
    assert_eq!(bytes_without_sig, bytes_with_sig);
}

#[test]
fn test_key_ordering() {
    let manifest = filled();
    let json_str = String::from_utf8(manifest.to_canonical_bytes().unwrap()).unwrap();
    let trst_pos = json_str.find("\"trst_version\"").unwrap();
    let profile_pos = json_str.find("\"profile\"").unwrap();
    let device_pos = json_str.find("\"device\"").unwrap();
    let capture_pos = json_str.find("\"capture\"").unwrap();
    let chunk_pos = json_str.find("\"chunk\"").unwrap();
    let segments_pos = json_str.find("\"segments\"").unwrap();
    let claims_pos = json_str.find("\"claims\"").unwrap();
    assert!(trst_pos < profile_pos);
    assert!(profile_pos < device_pos);
    assert!(device_pos < capture_pos);
    assert!(capture_pos < chunk_pos);
    assert!(chunk_pos < segments_pos);
    assert!(segments_pos < claims_pos);
}

#[test]
fn test_decimal_precision() {
    let mut manifest = filled();
    manifest.capture.fps = format!("{}", 29.97f64);
    let json_str = String::from_utf8(manifest.to_canonical_bytes().unwrap()).unwrap();
    assert!(json_str.contains("29.97"));
}

#[test]
fn test_validation() {
    let mut manifest = CamVideoManifest::new();
    assert!(manifest.validate().is_err());
    manifest.device.id = "TEST001".to_string();
    manifest.device.public_key = "ed25519:test_key".to_string();
    manifest.capture.started_at = "2025-01-15T10:30:00Z".to_string();
    manifest.capture.ended_at = "2025-01-15T10:30:02Z".to_string();
    manifest.segments.push(segment());
    assert!(manifest.validate().is_ok());
}

#[test]
fn test_stable_canonicalization() {
    let manifest = filled();
    let bytes1 = manifest.to_canonical_bytes().unwrap();
    let bytes2 = manifest.to_canonical_bytes().unwrap();
    let bytes3 = manifest.to_canonical_bytes().unwrap();
    assert_eq!(bytes1, bytes2);
    assert_eq!(bytes2, bytes3);
}

#[test]
fn canonical_json_exact_text() {
    let mut manifest = filled();
    manifest.claims.push("location:unknown".to_string());
    manifest.prev_archive_hash = Some("aa".to_string());
    let json_str = String::from_utf8(manifest.to_canonical_bytes().unwrap()).unwrap();
    let expected = [
        "{\"trst_version\":\"0.1.0\",\"profile\":\"cam.video\",",
        "\"device\":{\"id\":\"TEST001\",\"model\":\"TrustEdgeRefCam\",\"firmware_version\":\"1.0.0\",\"public_key\":\"ed25519:test_key\"},",
        "\"capture\":{\"started_at\":\"2025-01-15T10:30:00Z\",\"ended_at\":\"2025-01-15T10:30:02Z\",\"timezone\":\"UTC\",\"fps\":30,\"resolution\":\"1920x1080\",\"codec\":\"raw\"},",
        "\"chunk\":{\"size_bytes\":1048576,\"duration_seconds\":2},",
        "\"segments\":[{\"chunk_file\":\"00000.bin\",\"blake3_hash\":\"abc123\",\"start_time\":\"2025-01-15T10:30:00Z\",\"duration_seconds\":2,\"continuity_hash\":\"def456\"}],",
        "\"claims\":[\"location:unknown\"],\"prev_archive_hash\":\"aa\"}",
    ]
    .concat();
    assert_eq!(json_str, expected);
    // the text is valid JSON
    let _: serde_json::Value = serde_json::from_str(&json_str).unwrap();
}

#[test]
fn validation_names_the_faulty_segment() {
    let mut manifest = filled();
    let mut bad = segment();
    bad.blake3_hash = String::new();
    manifest.segments.push(bad);
    match manifest.validate() {
        Err(trustedge_core::error::ManifestError::InvalidField(m)) => {
            assert_eq!(m, "segment[1].blake3_hash cannot be empty")
        }
        other => panic!("unexpected {:?}", other),
    }
    let mut wrong_profile = filled();
    wrong_profile.profile = "cam.audio".to_string();
    match wrong_profile.validate() {
        Err(trustedge_core::error::ManifestError::InvalidField(m)) => {
            assert_eq!(m, "profile must be 'cam.video'")
        }
        other => panic!("unexpected {:?}", other),
    }
}
