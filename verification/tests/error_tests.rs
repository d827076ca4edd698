use trustedge_core::error::{
    ArchiveError, BackendError, ChainError, CryptoError, ManifestError, TransportError, TrustEdgeError,
};
use trustedge_core::point_attestation::PointAttestationError;

#[test]
fn top_level_error_messages() {
    let e = TrustEdgeError::Crypto(CryptoError::SignatureVerificationFailed);
    assert_eq!(e.message(), "Cryptographic operation failed");
    let e = TrustEdgeError::Backend(BackendError::KeyNotFound("k".to_string()));
    assert_eq!(e.message(), "Backend operation failed");
    let e = TrustEdgeError::Chain(ChainError::EndOfChainTruncated);
    assert_eq!(e.message(), "Chain validation error");
    let e = TrustEdgeError::Io("disk full".to_string());
    assert_eq!(e.message(), "IO error: disk full");
    let e = TrustEdgeError::Json("expected value".to_string());
    assert_eq!(e.message(), "JSON serialization error: expected value");
}

#[test]
fn io_and_json_variants_show_their_text() {
    assert_eq!(ArchiveError::Io("gone".to_string()).message(), "IO error: gone");
    assert_eq!(ArchiveError::Json("bad".to_string()).message(), "JSON error: bad");
    assert_eq!(ManifestError::Serialization("bad".to_string()).message(), "Serialization error: bad");
    assert_eq!(TransportError::Io("reset".to_string()).message(), "IO error: reset");
}

#[test]
fn attestation_error_messages() {
    let e = PointAttestationError::HashMismatch {
        artifact: "subject".to_string(),
        expected: "b3:aa".to_string(),
        actual: "b3:bb".to_string(),
    };
    assert_eq!(e.message(), "Hash mismatch for subject: expected b3:aa, actual b3:bb");
    assert_eq!(
        PointAttestationError::MissingSignature.message(),
        "Attestation has no signature \u{2014} sign before verifying"
    );
    assert_eq!(PointAttestationError::Io("nope".to_string()).message(), "IO error: nope");
    let c = PointAttestationError::Crypto(CryptoError::SignatureVerificationFailed);
    assert_eq!(c.message(), "Cryptographic error: Signature verification failed");
}
