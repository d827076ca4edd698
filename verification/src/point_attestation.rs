//! Point attestations: a signed JSON document binding two artifacts (a
//! subject such as a binary and evidence such as its SBOM) by their BLAKE3
//! hashes, with a random nonce and a timestamp.  The signature covers the
//! document's canonical JSON, in which the signature itself is `null`.

use crate::crypto::{
    ed25519_text, error_is, manifest_verdict, sign_manifest, verify_manifest, CryptoFault, DeviceKeypair,
};
use crate::error::{crypto_error_text, CryptoError};
use crate::primitives::{
    blake3_hash, blake3_of, ed25519_signature_of, hex_encode, json_string, json_string_of, random_bytes,
    utc_timestamp_millis,
};
use crate::text::{concat_str, hex_text, str_eq};
use vstd::prelude::*;
use vstd::utf8::encode_utf8;

verus! {

/// Number of random nonce bytes.
pub const NONCE_BYTES: usize = 16;

/// Errors of point attestations.
#[derive(Debug)]
pub enum PointAttestationError {
    /// An I/O error, held as its display text.
    Io(String),
    /// The JSON layer's error, held as its display text.
    Json(String),
    Crypto(CryptoError),
    HashMismatch { artifact: String, expected: String, actual: String },
    MissingSignature,
}

/// Display text of a [`PointAttestationError`].
pub open spec fn attestation_error_text(e: PointAttestationError) -> Seq<char> {
    match e {
        PointAttestationError::Io(m) => "IO error: "@ + m@,
        PointAttestationError::Json(m) => "JSON serialization error: "@ + m@,
        PointAttestationError::Crypto(c) => "Cryptographic error: "@ + crypto_error_text(c),
        PointAttestationError::HashMismatch { artifact, expected, actual } => "Hash mismatch for "@ + artifact@
            + ": expected "@ + expected@ + ", actual "@ + actual@,
        PointAttestationError::MissingSignature => "Attestation has no signature \u{2014} sign before verifying"@,
    }
}

impl PointAttestationError {
    /// The error's display text.
    pub fn message(&self) -> (r: String)
        ensures
            r@ == attestation_error_text(*self),
    {
        match self {
            PointAttestationError::Io(m) => concat_str("IO error: ", m.as_str()),
            PointAttestationError::Json(m) => concat_str("JSON serialization error: ", m.as_str()),
            PointAttestationError::Crypto(c) => {
                let inner = c.message();
                concat_str("Cryptographic error: ", inner.as_str())
            },
            PointAttestationError::HashMismatch { artifact, expected, actual } => {
                let mut r = concat_str("Hash mismatch for ", artifact.as_str());
                r.append(": expected ");
                r.append(expected.as_str());
                r.append(", actual ");
                r.append(actual.as_str());
                r
            },
            PointAttestationError::MissingSignature => String::from_str(
                "Attestation has no signature \u{2014} sign before verifying",
            ),
        }
    }
}

/// An artifact: its `b3:` hash, file name and label.
#[derive(Debug, Clone)]
pub struct ArtifactRef {
    pub hash: String,
    pub filename: String,
    pub label: String,
}

/// A point-in-time attestation binding two artifacts.
#[derive(Debug, Clone)]
pub struct PointAttestation {
    pub format: String,
    pub sealedge_version: String,
    pub timestamp: String,
    pub nonce: String,
    pub subject: ArtifactRef,
    pub evidence: ArtifactRef,
    pub public_key: String,
    pub signature: Option<String>,
}

/// The format identifier `te-point-attestation-v1`.
pub fn format_v1() -> (r: String)
    ensures
        r@ == "te-point-attestation-v1"@,
{
    String::from_str("te-point-attestation-v1")
}

/// The library version recorded in attestations.
pub fn crate_version() -> (r: String)
    ensures
        r@ == "0.1.0"@,
{
    String::from_str("0.1.0")
}

/// `b3:` and the lower-case hex of the BLAKE3 hash of `bytes`.
pub open spec fn b3_text(bytes: Seq<u8>) -> Seq<char> {
    "b3:"@ + hex_text(blake3_of(bytes))
}

/// The `b3:` hash text of file contents.
pub fn hash_bytes(bytes: &[u8]) -> (r: String)
    ensures
        r@ == b3_text(bytes@),
{
    let h = blake3_hash(bytes);
    let hx = hex_encode(h.as_slice());
    concat_str("b3:", hx.as_str())
}

/// JSON of an artifact reference, members in declaration order.
pub open spec fn artifact_json(a: ArtifactRef) -> Seq<char> {
    "{\"hash\":"@ + json_string_of(a.hash@) + ",\"filename\":"@ + json_string_of(a.filename@)
        + ",\"label\":"@ + json_string_of(a.label@) + "}"@
}

/// The canonical JSON of an attestation: compact, members in declaration
/// order, the signature `null`.
pub open spec fn canonical_json(p: PointAttestation) -> Seq<char> {
    "{\"format\":"@ + json_string_of(p.format@) + ",\"sealedge_version\":"@ + json_string_of(
        p.sealedge_version@,
    ) + ",\"timestamp\":"@ + json_string_of(p.timestamp@) + ",\"nonce\":"@ + json_string_of(
        p.nonce@,
    ) + ",\"subject\":"@ + artifact_json(p.subject) + ",\"evidence\":"@ + artifact_json(
        p.evidence,
    ) + ",\"public_key\":"@ + json_string_of(p.public_key@) + ",\"signature\":null}"@
}

fn append_artifact(out: &mut String, a: &ArtifactRef)
    ensures
        final(out)@ == old(out)@ + artifact_json(*a),
{
    out.append("{\"hash\":");
    out.append(json_string(a.hash.as_str()).as_str());
    out.append(",\"filename\":");
    out.append(json_string(a.filename.as_str()).as_str());
    out.append(",\"label\":");
    out.append(json_string(a.label.as_str()).as_str());
    out.append("}");
}

/// What verifying an attestation's signature against a public text gives.
pub open spec fn attestation_verdict(p: PointAttestation, device_public: Seq<char>) -> Option<
    Result<bool, CryptoFault>,
> {
    match p.signature {
        None => None,
        Some(sig) => Some(
            manifest_verdict(
                encode_utf8(device_public),
                encode_utf8(canonical_json(p)),
                encode_utf8(sig@),
            ),
        ),
    }
}

/// Why file contents do not match an attestation's hashes, if they do not:
/// the file name, the recorded hash and the actual one.
pub open spec fn hash_mismatch(
    p: PointAttestation,
    subject: Option<Seq<u8>>,
    evidence: Option<Seq<u8>>,
) -> Option<(Seq<char>, Seq<char>, Seq<char>)> {
    match subject {
        Some(b) if b3_text(b) != p.subject.hash@ => Some(
            (p.subject.filename@, p.subject.hash@, b3_text(b)),
        ),
        _ => match evidence {
            Some(b) if b3_text(b) != p.evidence.hash@ => Some(
                (p.evidence.filename@, p.evidence.hash@, b3_text(b)),
            ),
            _ => None,
        },
    }
}

/// The hash check passes exactly when every artifact given hashes to the
/// `b3:` hash recorded for it; when it fails, it names an artifact that was
/// given, with its recorded hash and the different hash of what was given.
pub proof fn law_hash_check_covers_each_artifact(
    p: PointAttestation,
    subject: Option<Seq<u8>>,
    evidence: Option<Seq<u8>>,
)
    ensures
        hash_mismatch(p, subject, evidence) is None <==> (subject matches Some(s) ==> b3_text(s)
            == p.subject.hash@) && (evidence matches Some(e) ==> b3_text(e) == p.evidence.hash@),
        hash_mismatch(p, subject, evidence) matches Some((a, x, y)) ==> x != y && ((subject matches Some(s)
            && a == p.subject.filename@ && x == p.subject.hash@ && y == b3_text(s)) || (evidence matches Some(e)
            && a == p.evidence.filename@ && x == p.evidence.hash@ && y == b3_text(e))),
{
}

/// The artifacts an attestation records the hashes of pass its hash check:
/// in particular those it was created from.
pub proof fn law_attested_artifacts_match(p: PointAttestation, subject: Seq<u8>, evidence: Seq<u8>)
    requires
        p.subject.hash@ == b3_text(subject),
        p.evidence.hash@ == b3_text(evidence),
    ensures
        hash_mismatch(p, Some(subject), Some(evidence)) is None,
{
}

impl PointAttestation {
    /// Creates and signs an attestation of two artifacts, given their
    /// contents, file names and labels, with a fresh nonce (the hexadecimal
    /// text of 16 random bytes) and the current time (RFC 3339, UTC).  The
    /// signature is `ed25519:` and the signature of the canonical JSON, and
    /// it verifies under the keypair's public text.
    pub fn create(
        subject: &[u8],
        subject_filename: &str,
        subject_label: &str,
        evidence: &[u8],
        evidence_filename: &str,
        evidence_label: &str,
        keypair: &DeviceKeypair,
    ) -> (r: Result<PointAttestation, PointAttestationError>)
        requires
            keypair.well_formed(),
        ensures
            r matches Ok(p) && {
                &&& p.format@ == "te-point-attestation-v1"@
                &&& p.subject.hash@ == b3_text(subject@)
                &&& p.subject.filename@ == subject_filename@
                &&& p.subject.label@ == subject_label@
                &&& p.evidence.hash@ == b3_text(evidence@)
                &&& p.evidence.filename@ == evidence_filename@
                &&& p.evidence.label@ == evidence_label@
                &&& p.public_key@ == keypair.public@
                &&& p.nonce@.len() == 32
                &&& exists|b: Seq<u8>| b.len() == 16 && #[trigger] hex_text(b) == p.nonce@
                &&& p.timestamp@.len() > 0 && p.timestamp@.last() == 'Z' && p.timestamp@.contains('T')
                &&& p.signature matches Some(s) && s@ == ed25519_text(
                    ed25519_signature_of(keypair.secret_key(), encode_utf8(canonical_json(p))),
                )
                &&& attestation_verdict(p, keypair.public@) == Some(Ok::<bool, CryptoFault>(true))
            },
    {
        let subject_hash = hash_bytes(subject);
        let evidence_hash = hash_bytes(evidence);
        let nonce_bytes: [u8; 16] = random_bytes::<16>();
        let nonce = hex_encode(nonce_bytes.as_slice());
        proof {
            crate::text::lemma_hex_text_len(nonce_bytes@);
        }
        let timestamp = utc_timestamp_millis();
        let mut attestation = PointAttestation {
            format: format_v1(),
            sealedge_version: crate_version(),
            timestamp,
            nonce,
            subject: ArtifactRef {
                hash: subject_hash,
                filename: String::from_str(subject_filename),
                label: String::from_str(subject_label),
            },
            evidence: ArtifactRef {
                hash: evidence_hash,
                filename: String::from_str(evidence_filename),
                label: String::from_str(evidence_label),
            },
            public_key: keypair.public.clone(),
            signature: None,
        };
        let canonical = match attestation.canonical_bytes() {
            Ok(c) => c,
            Err(e) => {
                return Err(e);
            },
        };
        let sig = match sign_manifest(keypair, canonical.as_slice()) {
            Ok(s) => s,
            Err(e) => {
                return Err(PointAttestationError::Crypto(e));
            },
        };
        let ghost unsigned = attestation;
        attestation.signature = Some(sig);
        assert(canonical_json(attestation) == canonical_json(unsigned));
        Ok(attestation)
    }

    /// The canonical JSON bytes; see [`canonical_json`].
    pub fn canonical_bytes(&self) -> (r: Result<Vec<u8>, PointAttestationError>)
        ensures
            r matches Ok(v) && v@ == encode_utf8(canonical_json(*self)),
    {
        let mut s = String::from_str("{\"format\":");
        s.append(json_string(self.format.as_str()).as_str());
        s.append(",\"sealedge_version\":");
        s.append(json_string(self.sealedge_version.as_str()).as_str());
        s.append(",\"timestamp\":");
        s.append(json_string(self.timestamp.as_str()).as_str());
        s.append(",\"nonce\":");
        s.append(json_string(self.nonce.as_str()).as_str());
        s.append(",\"subject\":");
        append_artifact(&mut s, &self.subject);
        s.append(",\"evidence\":");
        append_artifact(&mut s, &self.evidence);
        s.append(",\"public_key\":");
        s.append(json_string(self.public_key.as_str()).as_str());
        s.append(",\"signature\":null}");
        let b = s.as_str().as_bytes();
        Ok(crate::codec::slice_to_vec(b, 0, b.len()))
    }

    /// Verifies the signature over the canonical bytes against a public
    /// text; a missing signature is an error.
    pub fn verify_signature(&self, device_public: &str) -> (r: Result<bool, PointAttestationError>)
        ensures
            match attestation_verdict(*self, device_public@) {
                None => r matches Err(PointAttestationError::MissingSignature),
                Some(Ok(v)) => r == Ok::<bool, PointAttestationError>(v),
                Some(Err(f)) => r matches Err(PointAttestationError::Crypto(e)) && error_is(e, f),
            },
    {
        let sig = match &self.signature {
            Some(s) => s,
            None => {
                return Err(PointAttestationError::MissingSignature);
            },
        };
        let canonical = match self.canonical_bytes() {
            Ok(c) => c,
            Err(e) => {
                return Err(e);
            },
        };
        match verify_manifest(device_public, canonical.as_slice(), sig.as_str()) {
            Ok(v) => Ok(v),
            Err(e) => Err(PointAttestationError::Crypto(e)),
        }
    }

    /// Checks the contents of the artifacts that are given against the
    /// recorded hashes, subject first.
    pub fn verify_file_hashes(&self, subject: Option<&[u8]>, evidence: Option<&[u8]>) -> (r: Result<
        (),
        PointAttestationError,
    >)
        ensures
            match hash_mismatch(
                *self,
                match subject {
                    Some(b) => Some(b@),
                    None => None,
                },
                match evidence {
                    Some(b) => Some(b@),
                    None => None,
                },
            ) {
                None => r is Ok,
                Some((artifact, expected, actual)) => r matches Err(
                    PointAttestationError::HashMismatch { artifact: a, expected: x, actual: y },
                ) && a@ == artifact && x@ == expected && y@ == actual,
            },
            r is Ok <==> (subject matches Some(s) ==> b3_text(s@) == self.subject.hash@) && (evidence matches Some(
                e,
            ) ==> b3_text(e@) == self.evidence.hash@),
    {
        if let Some(b) = subject {
            let actual = hash_bytes(b);
            if !str_eq(actual.as_str(), self.subject.hash.as_str()) {
                return Err(
                    PointAttestationError::HashMismatch {
                        artifact: self.subject.filename.clone(),
                        expected: self.subject.hash.clone(),
                        actual,
                    },
                );
            }
        }
        if let Some(b) = evidence {
            let actual = hash_bytes(b);
            if !str_eq(actual.as_str(), self.evidence.hash.as_str()) {
                return Err(
                    PointAttestationError::HashMismatch {
                        artifact: self.evidence.filename.clone(),
                        expected: self.evidence.hash.clone(),
                        actual,
                    },
                );
            }
        }
        Ok(())
    }
}

} // verus!
