//! Error types of the library.

use crate::backends::universal::AsymmetricAlgorithm;
use crate::text::{concat_str, decimal, push_decimal};
use vstd::prelude::*;

verus! {

/// Errors related to cryptographic operations.
#[derive(Debug, Clone, PartialEq, Eq)]
pub enum CryptoError {
    InvalidKeyFormat(String),
    InvalidSignatureFormat(String),
    EncryptionFailed(String),
    DecryptionFailed(String),
    SignatureVerificationFailed,
    KeyGenerationFailed(String),
    InvalidNonceFormat(String),
}

/// Errors related to continuity chain validation.
#[derive(Debug, Clone, PartialEq, Eq)]
pub enum ChainError {
    Gap(usize),
    OutOfOrder { expected: String, found: String },
    EndOfChainTruncated,
}

/// Errors related to asymmetric cryptography operations.
#[derive(Debug, Clone, PartialEq, Eq)]
pub enum AsymmetricError {
    UnsupportedAlgorithm(AsymmetricAlgorithm),
    InvalidKeyFormat(String),
    KeyExchangeFailed(String),
    BackendError(String),
}

/// Errors related to manifest processing.
#[derive(Debug, Clone, PartialEq, Eq)]
pub enum ManifestError {
    /// The JSON layer's error, held as its display text.
    Serialization(String),
    InvalidField(String),
}

/// Errors related to archive operations.
#[derive(Debug, Clone, PartialEq, Eq)]
pub enum ArchiveError {
    /// An I/O error, held as its display text.
    Io(String),
    Manifest(ManifestError),
    /// The JSON layer's error, held as its display text.
    Json(String),
    SchemaMismatch(String),
    MissingChunk(String),
    InvalidChunkIndex { expected: usize, found: usize },
    SignatureMismatch,
    Chain(ChainError),
    ValidationFailed(String),
}

/// Errors related to backend operations.
#[derive(Debug, Clone, PartialEq, Eq)]
pub enum BackendError {
    UnsupportedOperation(String),
    KeyNotFound(String),
    InitializationFailed(String),
    HardwareError(String),
    OperationFailed(String),
}

/// Errors related to transport layer operations.
#[derive(Debug, Clone, PartialEq, Eq)]
pub enum TransportError {
    ConnectionFailed(String),
    SendFailed(String),
    ReceiveFailed(String),
    ProtocolError(String),
    Timeout(String),
    /// An I/O error, held as its display text.
    Io(String),
}

fn prefixed(prefix: &str, m: &String) -> (r: String)
    ensures
        r@ == prefix@ + m@,
{
    concat_str(prefix, m.as_str())
}

/// Display text of a [`CryptoError`].
pub open spec fn crypto_error_text(e: CryptoError) -> Seq<char> {
    match e {
        CryptoError::InvalidKeyFormat(m) => "Invalid key format: "@ + m@,
        CryptoError::InvalidSignatureFormat(m) => "Invalid signature format: "@ + m@,
        CryptoError::EncryptionFailed(m) => "Encryption failed: "@ + m@,
        CryptoError::DecryptionFailed(m) => "Decryption failed: "@ + m@,
        CryptoError::SignatureVerificationFailed => "Signature verification failed"@,
        CryptoError::KeyGenerationFailed(m) => "Key generation failed: "@ + m@,
        CryptoError::InvalidNonceFormat(m) => "Invalid nonce format: "@ + m@,
    }
}

impl CryptoError {
    /// The error's display text.
    pub fn message(&self) -> (r: String)
        ensures
            r@ == crypto_error_text(*self),
    {
        match self {
            CryptoError::InvalidKeyFormat(m) => prefixed("Invalid key format: ", m),
            CryptoError::InvalidSignatureFormat(m) => prefixed("Invalid signature format: ", m),
            CryptoError::EncryptionFailed(m) => prefixed("Encryption failed: ", m),
            CryptoError::DecryptionFailed(m) => prefixed("Decryption failed: ", m),
            CryptoError::SignatureVerificationFailed => String::from_str("Signature verification failed"),
            CryptoError::KeyGenerationFailed(m) => prefixed("Key generation failed: ", m),
            CryptoError::InvalidNonceFormat(m) => prefixed("Invalid nonce format: ", m),
        }
    }
}

/// Display text of a [`ChainError`].
pub open spec fn chain_error_text(e: ChainError) -> Seq<char> {
    match e {
        ChainError::Gap(i) => "Gap in chain at segment index "@ + decimal(i as nat),
        ChainError::OutOfOrder { expected, found } => "Segments out of order: expected continuity hash "@
            + expected@ + ", found "@ + found@,
        ChainError::EndOfChainTruncated => "End of chain truncated"@,
    }
}

impl ChainError {
    /// The error's display text.
    pub fn message(&self) -> (r: String)
        ensures
            r@ == chain_error_text(*self),
    {
        match self {
            ChainError::Gap(i) => {
                let mut r = String::from_str("Gap in chain at segment index ");
                push_decimal(&mut r, *i as u64);
                r
            },
            ChainError::OutOfOrder { expected, found } => {
                let mut r = prefixed("Segments out of order: expected continuity hash ", expected);
                r.append(", found ");
                r.append(found.as_str());
                r
            },
            ChainError::EndOfChainTruncated => String::from_str("End of chain truncated"),
        }
    }
}

/// The name an algorithm is shown by.
pub open spec fn algorithm_name(a: AsymmetricAlgorithm) -> Seq<char> {
    match a {
        AsymmetricAlgorithm::Ed25519 => "Ed25519"@,
        AsymmetricAlgorithm::EcdsaP256 => "EcdsaP256"@,
        AsymmetricAlgorithm::Rsa2048 => "Rsa2048"@,
        AsymmetricAlgorithm::Rsa4096 => "Rsa4096"@,
    }
}

/// Display text of an [`AsymmetricError`].
pub open spec fn asymmetric_error_text(e: AsymmetricError) -> Seq<char> {
    match e {
        AsymmetricError::UnsupportedAlgorithm(a) => "Unsupported algorithm: "@ + algorithm_name(a),
        AsymmetricError::InvalidKeyFormat(m) => "Invalid key format: "@ + m@,
        AsymmetricError::KeyExchangeFailed(m) => "Key exchange failed: "@ + m@,
        AsymmetricError::BackendError(m) => "Backend error: "@ + m@,
    }
}

impl AsymmetricError {
    /// The error's display text.
    pub fn message(&self) -> (r: String)
        ensures
            r@ == asymmetric_error_text(*self),
    {
        match self {
            AsymmetricError::UnsupportedAlgorithm(a) => {
                let name = match a {
                    AsymmetricAlgorithm::Ed25519 => "Ed25519",
                    AsymmetricAlgorithm::EcdsaP256 => "EcdsaP256",
                    AsymmetricAlgorithm::Rsa2048 => "Rsa2048",
                    AsymmetricAlgorithm::Rsa4096 => "Rsa4096",
                };
                concat_str("Unsupported algorithm: ", name)
            },
            AsymmetricError::InvalidKeyFormat(m) => prefixed("Invalid key format: ", m),
            AsymmetricError::KeyExchangeFailed(m) => prefixed("Key exchange failed: ", m),
            AsymmetricError::BackendError(m) => prefixed("Backend error: ", m),
        }
    }
}

/// Display text of a [`ManifestError`].
pub open spec fn manifest_error_text(e: ManifestError) -> Seq<char> {
    match e {
        ManifestError::Serialization(m) => "Serialization error: "@ + m@,
        ManifestError::InvalidField(m) => "Invalid field value: "@ + m@,
    }
}

impl ManifestError {
    /// The error's display text.
    pub fn message(&self) -> (r: String)
        ensures
            r@ == manifest_error_text(*self),
    {
        match self {
            ManifestError::Serialization(m) => prefixed("Serialization error: ", m),
            ManifestError::InvalidField(m) => prefixed("Invalid field value: ", m),
        }
    }
}

/// Display text of an [`ArchiveError`].
pub open spec fn archive_error_text(e: ArchiveError) -> Seq<char> {
    match e {
        ArchiveError::Io(m) => "IO error: "@ + m@,
        ArchiveError::Manifest(m) => "Manifest error: "@ + manifest_error_text(m),
        ArchiveError::Json(m) => "JSON error: "@ + m@,
        ArchiveError::SchemaMismatch(m) => "Schema mismatch: "@ + m@,
        ArchiveError::MissingChunk(m) => "Missing chunk file: "@ + m@,
        ArchiveError::InvalidChunkIndex { expected, found } => "Invalid chunk index: expected "@
            + decimal(expected as nat) + ", found "@ + decimal(found as nat),
        ArchiveError::SignatureMismatch => "Signature mismatch: manifest.signature does not match signatures/manifest.sig"@,
        ArchiveError::Chain(c) => "Continuity chain error: "@ + chain_error_text(c),
        ArchiveError::ValidationFailed(m) => "Archive validation failed: "@ + m@,
    }
}

impl ArchiveError {
    /// The error's display text.
    pub fn message(&self) -> (r: String)
        ensures
            r@ == archive_error_text(*self),
    {
        match self {
            ArchiveError::Io(m) => prefixed("IO error: ", m),
            ArchiveError::Manifest(m) => {
                let inner = m.message();
                prefixed("Manifest error: ", &inner)
            },
            ArchiveError::Json(m) => prefixed("JSON error: ", m),
            ArchiveError::SchemaMismatch(m) => prefixed("Schema mismatch: ", m),
            ArchiveError::MissingChunk(m) => prefixed("Missing chunk file: ", m),
            ArchiveError::InvalidChunkIndex { expected, found } => {
                let mut r = String::from_str("Invalid chunk index: expected ");
                push_decimal(&mut r, *expected as u64);
                r.append(", found ");
                push_decimal(&mut r, *found as u64);
                r
            },
            ArchiveError::SignatureMismatch => String::from_str(
                "Signature mismatch: manifest.signature does not match signatures/manifest.sig",
            ),
            ArchiveError::Chain(c) => {
                let inner = c.message();
                prefixed("Continuity chain error: ", &inner)
            },
            ArchiveError::ValidationFailed(m) => prefixed("Archive validation failed: ", m),
        }
    }
}

/// The kinds of [`BackendError`].
#[derive(Debug, Clone, Copy, PartialEq, Eq, Structural)]
pub enum BackendFault {
    UnsupportedOperation,
    KeyNotFound,
    InitializationFailed,
    HardwareError,
    OperationFailed,
}

/// `e` is the backend error of kind `kind` carrying the text `m`.
pub open spec fn backend_error_is(e: BackendError, kind: BackendFault, m: Seq<char>) -> bool {
    match e {
        BackendError::UnsupportedOperation(s) => kind == BackendFault::UnsupportedOperation && s@ == m,
        BackendError::KeyNotFound(s) => kind == BackendFault::KeyNotFound && s@ == m,
        BackendError::InitializationFailed(s) => kind == BackendFault::InitializationFailed && s@ == m,
        BackendError::HardwareError(s) => kind == BackendFault::HardwareError && s@ == m,
        BackendError::OperationFailed(s) => kind == BackendFault::OperationFailed && s@ == m,
    }
}

/// Display text of a [`BackendError`].
pub open spec fn backend_error_text(e: BackendError) -> Seq<char> {
    match e {
        BackendError::UnsupportedOperation(m) => "Backend operation not supported: "@ + m@,
        BackendError::KeyNotFound(m) => "Key not found: "@ + m@,
        BackendError::InitializationFailed(m) => "Backend initialization failed: "@ + m@,
        BackendError::HardwareError(m) => "Hardware backend error: "@ + m@,
        BackendError::OperationFailed(m) => "Backend operation failed: "@ + m@,
    }
}

impl BackendError {
    /// The error's display text.
    pub fn message(&self) -> (r: String)
        ensures
            r@ == backend_error_text(*self),
    {
        match self {
            BackendError::UnsupportedOperation(m) => prefixed("Backend operation not supported: ", m),
            BackendError::KeyNotFound(m) => prefixed("Key not found: ", m),
            BackendError::InitializationFailed(m) => prefixed("Backend initialization failed: ", m),
            BackendError::HardwareError(m) => prefixed("Hardware backend error: ", m),
            BackendError::OperationFailed(m) => prefixed("Backend operation failed: ", m),
        }
    }
}

/// Display text of a [`TransportError`].
pub open spec fn transport_error_text(e: TransportError) -> Seq<char> {
    match e {
        TransportError::ConnectionFailed(m) => "Connection failed: "@ + m@,
        TransportError::SendFailed(m) => "Send failed: "@ + m@,
        TransportError::ReceiveFailed(m) => "Receive failed: "@ + m@,
        TransportError::ProtocolError(m) => "Protocol error: "@ + m@,
        TransportError::Timeout(m) => "Operation timed out: "@ + m@,
        TransportError::Io(m) => "IO error: "@ + m@,
    }
}

impl TransportError {
    /// The error's display text.
    pub fn message(&self) -> (r: String)
        ensures
            r@ == transport_error_text(*self),
    {
        match self {
            TransportError::ConnectionFailed(m) => prefixed("Connection failed: ", m),
            TransportError::SendFailed(m) => prefixed("Send failed: ", m),
            TransportError::ReceiveFailed(m) => prefixed("Receive failed: ", m),
            TransportError::ProtocolError(m) => prefixed("Protocol error: ", m),
            TransportError::Timeout(m) => prefixed("Operation timed out: ", m),
            TransportError::Io(m) => prefixed("IO error: ", m),
        }
    }
}

/// The library's top-level error: one of the layer errors, or an I/O or
/// JSON error held as its display text.
#[derive(Debug, Clone, PartialEq, Eq)]
pub enum TrustEdgeError {
    Crypto(CryptoError),
    Backend(BackendError),
    Transport(TransportError),
    Archive(ArchiveError),
    Manifest(ManifestError),
    Chain(ChainError),
    Asymmetric(AsymmetricError),
    Io(String),
    Json(String),
}

/// Display text of a [`TrustEdgeError`]: the layer errors show a fixed
/// line, I/O and JSON errors their own text.
pub open spec fn trustedge_error_text(e: TrustEdgeError) -> Seq<char> {
    match e {
        TrustEdgeError::Crypto(_) => "Cryptographic operation failed"@,
        TrustEdgeError::Backend(_) => "Backend operation failed"@,
        TrustEdgeError::Transport(_) => "Transport layer error"@,
        TrustEdgeError::Archive(_) => "Archive operation failed"@,
        TrustEdgeError::Manifest(_) => "Manifest processing error"@,
        TrustEdgeError::Chain(_) => "Chain validation error"@,
        TrustEdgeError::Asymmetric(_) => "Asymmetric crypto error"@,
        TrustEdgeError::Io(m) => "IO error: "@ + m@,
        TrustEdgeError::Json(m) => "JSON serialization error: "@ + m@,
    }
}

impl TrustEdgeError {
    /// The error's display text.
    pub fn message(&self) -> (r: String)
        ensures
            r@ == trustedge_error_text(*self),
    {
        match self {
            TrustEdgeError::Crypto(_) => String::from_str("Cryptographic operation failed"),
            TrustEdgeError::Backend(_) => String::from_str("Backend operation failed"),
            TrustEdgeError::Transport(_) => String::from_str("Transport layer error"),
            TrustEdgeError::Archive(_) => String::from_str("Archive operation failed"),
            TrustEdgeError::Manifest(_) => String::from_str("Manifest processing error"),
            TrustEdgeError::Chain(_) => String::from_str("Chain validation error"),
            TrustEdgeError::Asymmetric(_) => String::from_str("Asymmetric crypto error"),
            TrustEdgeError::Io(m) => prefixed("IO error: ", m),
            TrustEdgeError::Json(m) => prefixed("JSON serialization error: ", m),
        }
    }
}

} // verus!
