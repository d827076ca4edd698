//! One entry point for the envelope formats: detection by magic, sealing
//! and opening through the hybrid format, and inspection without opening.

use crate::asymmetric::{key_identifier, key_wrap_fault, PrivateKey, PublicKey};
use crate::hybrid::{
    addressed_to, aes_gcm_limit, asym_fault_text, decode_envelope, envelope_fields, envelope_record, hybrid_error_is, hybrid_magic,
    law_envelope_roundtrip, open_envelope, open_outcome, seal_for_recipient, sealed_envelope, session_key_shape,
    EnvelopeView, HybridEncryptionError, HybridFault,
};
use vstd::prelude::*;

verus! {

/// Envelope formats.
#[derive(Debug, Clone, Copy, PartialEq, Eq, Structural)]
pub enum EnvelopeFormat {
    /// The first, symmetric-only format (no magic).
    V1,
    /// The hybrid format (RSA and AES), magic `TRHY`.
    CoreHybrid,
    /// The X25519 format, magic `TRS2`.
    V2Pubky,
}

/// The magic `TRS2`.
pub open spec fn v2_magic() -> Seq<u8> {
    seq![84u8, 82u8, 83u8, 50u8]
}

/// The format of envelope bytes by their first four bytes; `None` when there
/// are fewer than four.
pub open spec fn format_of(b: Seq<u8>) -> Option<EnvelopeFormat> {
    if b.len() < 4 {
        None
    } else if b.subrange(0, 4) == hybrid_magic() {
        Some(EnvelopeFormat::CoreHybrid)
    } else if b.subrange(0, 4) == v2_magic() {
        Some(EnvelopeFormat::V2Pubky)
    } else {
        Some(EnvelopeFormat::V1)
    }
}

/// Detects an envelope's format from its magic; bytes without a known magic
/// are taken for the first, symmetric-only format.
pub fn detect_envelope_format(envelope_bytes: &[u8]) -> (r: Result<EnvelopeFormat, String>)
    ensures
        match format_of(envelope_bytes@) {
            Some(f) => r == Ok::<EnvelopeFormat, String>(f),
            None => r matches Err(m) && m@ == "Envelope too short to determine format"@,
        },
{
    if envelope_bytes.len() < 4 {
        return Err(String::from_str("Envelope too short to determine format"));
    }
    let b0 = envelope_bytes[0];
    let b1 = envelope_bytes[1];
    let b2 = envelope_bytes[2];
    let b3 = envelope_bytes[3];
    let ghost head = envelope_bytes@.subrange(0, 4);
    assert(head[0] == b0 && head[1] == b1 && head[2] == b2 && head[3] == b3);
    if b0 == 84u8 && b1 == 82u8 && b2 == 72u8 && b3 == 89u8 {
        assert(head =~= hybrid_magic());
        Ok(EnvelopeFormat::CoreHybrid)
    } else if b0 == 84u8 && b1 == 82u8 && b2 == 83u8 && b3 == 50u8 {
        assert(head =~= v2_magic());
        Ok(EnvelopeFormat::V2Pubky)
    } else {
        assert(head != hybrid_magic() && head != v2_magic()) by {
            if head == hybrid_magic() {
                assert(head[2] == 72u8);
            }
            if head == v2_magic() {
                assert(head[3] == 50u8);
            }
        }
        Ok(EnvelopeFormat::V1)
    }
}

/// A sealed hybrid envelope is detected as such.
pub proof fn law_sealed_envelope_detected(id: Seq<char>, wrapped: Seq<u8>, ct: Seq<u8>, nonce: Seq<u8>)
    ensures
        format_of(sealed_envelope(id, wrapped, ct, nonce)) == Some(EnvelopeFormat::CoreHybrid),
{
    let b = sealed_envelope(id, wrapped, ct, nonce);
    assert(b.subrange(0, 4) =~= hybrid_magic());
}

/// What opening an envelope of any format gives.
pub open spec fn open_auto_outcome(
    b: Seq<u8>,
    alg: crate::backends::universal::AsymmetricAlgorithm,
    private_der: Seq<u8>,
) -> Result<Seq<u8>, HybridFault> {
    match format_of(b) {
        None => Err(HybridFault::Invalid("Envelope too short to determine format"@)),
        Some(EnvelopeFormat::CoreHybrid) => open_outcome(b, alg, private_der),
        Some(EnvelopeFormat::V1) => Err(
            HybridFault::Invalid("V1 envelope format not yet supported in unified API"@),
        ),
        Some(EnvelopeFormat::V2Pubky) => Err(
            HybridFault::Invalid("V2 Pubky envelope format requires trustedge-pubky integration"@),
        ),
    }
}

/// What [`UnifiedEnvelope::seal_auto`] seals for a public key (a hybrid
/// envelope that opens for the key's pair), [`UnifiedEnvelope::open_auto`]
/// opens with any private key of that pair, giving the sealed data back.
pub proof fn law_unified_seal_opens(
    alg: crate::backends::universal::AsymmetricAlgorithm,
    public_der: Seq<u8>,
    private_der: Seq<u8>,
    env: Seq<u8>,
    data: Seq<u8>,
)
    requires
        format_of(env) == Some(EnvelopeFormat::CoreHybrid),
        crate::hybrid::opens_for_recipient(alg, public_der, env, data),
        crate::asymmetric::keys_match(alg, private_der, public_der),
    ensures
        open_auto_outcome(env, alg, private_der) == Ok::<Seq<u8>, HybridFault>(data),
{
}

/// Bytes too short to carry a magic, or of the first or the X25519 format,
/// are refused by [`UnifiedEnvelope::open_auto`] as invalid envelopes,
/// whatever the key.
pub proof fn law_unified_refuses_other_formats(
    b: Seq<u8>,
    alg: crate::backends::universal::AsymmetricAlgorithm,
    private_der: Seq<u8>,
)
    requires
        format_of(b) != Some(EnvelopeFormat::CoreHybrid),
    ensures
        open_auto_outcome(b, alg, private_der) matches Err(HybridFault::Invalid(_)),
{
}

/// Information about an envelope, read without opening it.
#[derive(Debug, Clone)]
pub struct EnvelopeInfo {
    pub format: EnvelopeFormat,
    pub recipient_id: Option<String>,
    pub size: usize,
    pub algorithm: String,
}

/// Envelope operations over all formats.
pub struct UnifiedEnvelope;

impl UnifiedEnvelope {
    /// Seals with the hybrid format; see [`seal_for_recipient`].
    pub fn seal_auto(data: &[u8], recipient_public_key: &PublicKey) -> (r: Result<
        Vec<u8>,
        HybridEncryptionError,
    >)
        ensures
            r matches Ok(env) ==> format_of(env@) == Some(EnvelopeFormat::CoreHybrid)
                && crate::hybrid::opens_for_recipient(
                recipient_public_key.algorithm,
                recipient_public_key.key_bytes@,
                env@,
                data@,
            ) && addressed_to(env@, key_identifier(recipient_public_key.key_id, recipient_public_key.key_bytes@))
                && env@.len() > data@.len() + 16,
            if data@.len() > aes_gcm_limit() {
                r matches Err(e) && hybrid_error_is(
                    e,
                    HybridFault::Encryption("AES-GCM encryption failed: aead::Error"@),
                )
            } else {
                match key_wrap_fault(
                    recipient_public_key.algorithm,
                    recipient_public_key.key_bytes@,
                    session_key_shape(),
                ) {
                    Some(f) => r matches Err(e) && hybrid_error_is(
                        e,
                        HybridFault::Encryption("Key encryption failed: "@ + asym_fault_text(f)),
                    ),
                    None => r is Ok,
                }
            },
    {
        let r = seal_for_recipient(data, recipient_public_key);
        proof {
            if r is Ok {
                let env = r->Ok_0@;
                let id = key_identifier(recipient_public_key.key_id, recipient_public_key.key_bytes@);
                assert(addressed_to(env, id));
                let (w, c, n) = choose|w: Seq<u8>, c: Seq<u8>, n: Seq<u8>|
                    #![trigger sealed_envelope(id, w, c, n)]
                    env == sealed_envelope(id, w, c, n);
                law_sealed_envelope_detected(id, w, c, n);
            }
        }
        r
    }

    /// Opens an envelope of any format; only the hybrid format opens.
    pub fn open_auto(envelope_bytes: &[u8], private_key: &PrivateKey) -> (r: Result<
        Vec<u8>,
        HybridEncryptionError,
    >)
        ensures
            match open_auto_outcome(envelope_bytes@, private_key.algorithm, private_key.key_bytes@) {
                Ok(p) => r matches Ok(v) && v@ == p,
                Err(f) => r matches Err(e) && hybrid_error_is(e, f),
            },
    {
        let format = match detect_envelope_format(envelope_bytes) {
            Ok(f) => f,
            Err(m) => {
                return Err(HybridEncryptionError::InvalidEnvelope(m));
            },
        };
        match format {
            EnvelopeFormat::CoreHybrid => open_envelope(envelope_bytes, private_key),
            EnvelopeFormat::V1 => Err(
                HybridEncryptionError::InvalidEnvelope(
                    String::from_str("V1 envelope format not yet supported in unified API"),
                ),
            ),
            EnvelopeFormat::V2Pubky => Err(
                HybridEncryptionError::InvalidEnvelope(
                    String::from_str("V2 Pubky envelope format requires trustedge-pubky integration"),
                ),
            ),
        }
    }

    /// Describes an envelope without opening it.  A hybrid envelope must
    /// parse; its recipient id is reported.
    pub fn inspect(envelope_bytes: &[u8]) -> (r: Result<EnvelopeInfo, String>)
        ensures
            match format_of(envelope_bytes@) {
                None => r matches Err(m) && m@ == "Envelope too short to determine format"@,
                Some(EnvelopeFormat::CoreHybrid) => match envelope_fields(envelope_bytes@) {
                    None => r matches Err(m) && m@
                        == "Failed to parse core hybrid envelope: malformed envelope"@,
                    Some(e) => r matches Ok(info) && info.format == EnvelopeFormat::CoreHybrid
                        && (info.recipient_id matches Some(id) && id@ == e.2) && info.size
                        == envelope_bytes@.len() && info.algorithm@ == "RSA + AES-256-GCM"@,
                },
                Some(EnvelopeFormat::V1) => r matches Ok(info) && info.format == EnvelopeFormat::V1
                    && info.recipient_id is None && info.size == envelope_bytes@.len()
                    && info.algorithm@ == "AES-256-GCM (symmetric)"@,
                Some(EnvelopeFormat::V2Pubky) => r matches Ok(info) && info.format
                    == EnvelopeFormat::V2Pubky && info.recipient_id is None && info.size
                    == envelope_bytes@.len() && info.algorithm@ == "X25519 ECDH + AES-256-GCM"@,
            },
    {
        let format = match detect_envelope_format(envelope_bytes) {
            Ok(f) => f,
            Err(m) => {
                return Err(m);
            },
        };
        match format {
            EnvelopeFormat::CoreHybrid => UnifiedEnvelope::inspect_core_hybrid(envelope_bytes),
            EnvelopeFormat::V1 => Ok(
                EnvelopeInfo {
                    format,
                    recipient_id: None,
                    size: envelope_bytes.len(),
                    algorithm: String::from_str("AES-256-GCM (symmetric)"),
                },
            ),
            EnvelopeFormat::V2Pubky => Ok(UnifiedEnvelope::inspect_v2_pubky(envelope_bytes)),
        }
    }

    fn inspect_core_hybrid(envelope_bytes: &[u8]) -> (r: Result<EnvelopeInfo, String>)
        ensures
            match envelope_fields(envelope_bytes@) {
                None => r matches Err(m) && m@ == "Failed to parse core hybrid envelope: malformed envelope"@,
                Some(e) => r matches Ok(info) && info.format == EnvelopeFormat::CoreHybrid
                    && (info.recipient_id matches Some(id) && id@ == e.2) && info.size
                    == envelope_bytes@.len() && info.algorithm@ == "RSA + AES-256-GCM"@,
            },
    {
        match decode_envelope(envelope_bytes) {
            Some(e) => Ok(
                EnvelopeInfo {
                    format: EnvelopeFormat::CoreHybrid,
                    recipient_id: Some(e.recipient_key_id),
                    size: envelope_bytes.len(),
                    algorithm: String::from_str("RSA + AES-256-GCM"),
                },
            ),
            None => Err(String::from_str("Failed to parse core hybrid envelope: malformed envelope")),
        }
    }

    fn inspect_v2_pubky(envelope_bytes: &[u8]) -> (info: EnvelopeInfo)
        ensures
            info.format == EnvelopeFormat::V2Pubky,
            info.recipient_id is None,
            info.size == envelope_bytes@.len(),
            info.algorithm@ == "X25519 ECDH + AES-256-GCM"@,
    {
        EnvelopeInfo {
            format: EnvelopeFormat::V2Pubky,
            recipient_id: None,
            size: envelope_bytes.len(),
            algorithm: String::from_str("X25519 ECDH + AES-256-GCM"),
        }
    }
}

} // verus!
