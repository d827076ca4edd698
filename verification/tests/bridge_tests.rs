use trustedge_core::asymmetric::KeyPair;
use trustedge_core::backends::universal::AsymmetricAlgorithm;
use trustedge_core::envelope_v2_bridge::{detect_envelope_format, EnvelopeFormat, UnifiedEnvelope};
use trustedge_core::hybrid::seal_for_recipient;

#[test]
fn test_format_detection() {
    let alice = KeyPair::generate(AsymmetricAlgorithm::Rsa2048).expect("Failed to generate key");
    let data = b"Test data";
    let envelope = seal_for_recipient(data, &alice.public).expect("Failed to seal envelope");
    let format = detect_envelope_format(&envelope).expect("Failed to detect format");
    assert_eq!(format, EnvelopeFormat::CoreHybrid);
}

#[test]
fn test_unified_envelope() {
    let alice = KeyPair::generate(AsymmetricAlgorithm::Rsa2048).expect("Failed to generate key");
    let data = b"Test data for unified envelope";
    let envelope = UnifiedEnvelope::seal_auto(data, &alice.public).expect("Failed to seal envelope");
    let decrypted = UnifiedEnvelope::open_auto(&envelope, &alice.private).expect("Failed to open envelope");
    assert_eq!(data, decrypted.as_slice());
}

#[test]
fn test_envelope_inspection() {
    let alice = KeyPair::generate(AsymmetricAlgorithm::Rsa2048).expect("Failed to generate key");
    let data = b"Test data for inspection";
    let envelope = seal_for_recipient(data, &alice.public).expect("Failed to seal envelope");
    let info = UnifiedEnvelope::inspect(&envelope).expect("Failed to inspect envelope");
    assert_eq!(info.format, EnvelopeFormat::CoreHybrid);
    assert_eq!(info.recipient_id, Some(alice.public.id()));
    assert_eq!(info.algorithm, "RSA + AES-256-GCM");
    assert!(info.size > data.len());
}

#[test]
fn unknown_bytes_are_not_an_envelope() {
    assert!(detect_envelope_format(b"xx").is_err());
}

#[test]
fn open_auto_refuses_short_first_and_x25519_formats() {
    let alice = KeyPair::generate(AsymmetricAlgorithm::Rsa2048).unwrap();
    let err = |b: &[u8]| format!("{:?}", UnifiedEnvelope::open_auto(b, &alice.private).unwrap_err());
    assert!(err(b"TRH").contains("Envelope too short to determine format"));
    assert!(err(b"ABCDEFGH").contains("V1 envelope format not yet supported in unified API"));
    assert!(err(b"TRS2rest").contains("V2 Pubky envelope format requires trustedge-pubky integration"));
}
