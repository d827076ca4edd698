//! Core library of TrustEdge: binary file formats, continuity chains,
//! key material handling, hybrid envelopes and backend capability logic.

pub mod archive;
pub mod auth;
pub mod asymmetric;
pub mod backends;
pub mod chain;
pub mod chunk_manifest;
pub mod client;
pub mod codec;
pub mod crypto;
pub mod envelope;
pub mod envelope_v2_bridge;
pub mod error;
pub mod format;
pub mod hybrid;
pub mod manifest;
pub mod network_chunk;
pub mod point_attestation;
pub mod primitives;
pub mod server;
pub mod text;
pub mod transport;

pub use archive::archive_dir_name;
pub use asymmetric::{decrypt_key_asymmetric, encrypt_key_asymmetric, key_exchange, KeyPair, PrivateKey, PublicKey};
pub use auth::{
    AuthChallenge, AuthMessage, AuthMessageType, ClientAuthResponse, ServerAuthConfirm, ServerCertificate,
    SessionInfo, SessionManager, SESSION_ID_SIZE,
};
pub use backends::traits::{BackendInfo, KeyBackend, KeyContext, KeyMetadata};
pub use backends::universal::{
    AsymmetricAlgorithm, BackendCapabilities, CryptoOperation, CryptoResult, HashAlgorithm, KeyDerivationContext,
    SignatureAlgorithm, SymmetricAlgorithm, UniversalBackend,
};
pub use backends::universal_keyring::UniversalKeyringBackend;
pub use chain::{blake3_hex_or_b64, chain_next, genesis, segment_hash, validate_chain, ChainSegment};
pub use chunk_manifest::{DataType, Manifest};
pub use crypto::{
    decrypt_segment, encrypt_segment, format_nonce, generate_aad, generate_nonce24, parse_nonce, sign_manifest,
    verify_manifest, DeviceKeypair,
};
pub use envelope::{Envelope, EnvelopeMetadata};
pub use envelope_v2_bridge::{detect_envelope_format, EnvelopeFormat, EnvelopeInfo, UnifiedEnvelope};
pub use error::{
    ArchiveError, AsymmetricError, BackendError, ChainError, CryptoError, ManifestError, TransportError,
    TrustEdgeError,
};
pub use format::{build_aad, FileHeader, SignedManifest, NONCE_LEN, VERSION};
pub use hybrid::{open_envelope, seal_for_recipient, HybridEncryptionError, SymmetricKey};
pub use manifest::{CamVideoManifest, CaptureInfo, ChunkInfo, DeviceInfo, SegmentInfo};
pub use network_chunk::NetworkChunk;
pub use transport::{TransportConfig, TransportFactory};
