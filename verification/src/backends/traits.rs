//! Key backend trait definitions.

use crate::error::BackendError;
use vstd::prelude::*;

verus! {

/// Core trait that all key management backends implement.
pub trait KeyBackend {
    /// Derives a key from the backend for a key id and context.
    fn derive_key(&self, key_id: &[u8; 16], context: &KeyContext) -> Result<[u8; 32], BackendError>;

    /// Stores a key in the backend (if supported).
    fn store_key(&self, key_id: &[u8; 16], key_data: &[u8; 32]) -> Result<(), BackendError>;

    /// Rotates a key from an old id to a new id (if supported).
    fn rotate_key(&self, old_id: &[u8; 16], new_id: &[u8; 16]) -> Result<(), BackendError>;

    /// Lists available keys with metadata (if supported).
    fn list_keys(&self) -> Result<Vec<KeyMetadata>, BackendError>;

    /// Backend-specific information.
    fn backend_info(&self) -> BackendInfo;

    /// Whether this backend stores keys; read-only by default.
    fn supports_storage(&self) -> (r: bool)
        default_ensures
            !r,
    {
        false
    }

    /// Whether this backend rotates keys; no rotation by default.
    fn supports_rotation(&self) -> (r: bool)
        default_ensures
            !r,
    {
        false
    }
}

/// Context information for key derivation.
#[derive(Debug, Clone)]
pub struct KeyContext {
    /// Salt for key derivation (backend-specific interpretation).
    pub salt: Vec<u8>,
    /// Additional context data (device id, session information, ...).
    pub additional_data: Vec<u8>,
    /// Iteration count for PBKDF2-like backends.
    pub iterations: Option<u32>,
}

impl KeyContext {
    /// A context with the given salt, no additional data and 100 000 iterations.
    pub fn new(salt: Vec<u8>) -> (r: KeyContext)
        ensures
            r.salt == salt,
            r.additional_data@ == Seq::<u8>::empty(),
            r.iterations == Some(100_000u32),
    {
        KeyContext { salt, additional_data: Vec::new(), iterations: Some(100_000) }
    }

    pub fn with_additional_data(self, data: Vec<u8>) -> (r: KeyContext)
        ensures
            r.salt == self.salt,
            r.additional_data == data,
            r.iterations == self.iterations,
    {
        let mut s = self;
        s.additional_data = data;
        s
    }

    pub fn with_iterations(self, iterations: u32) -> (r: KeyContext)
        ensures
            r.salt == self.salt,
            r.additional_data == self.additional_data,
            r.iterations == Some(iterations),
    {
        let mut s = self;
        s.iterations = Some(iterations);
        s
    }
}

/// Metadata about a stored key.
#[derive(Debug, Clone)]
pub struct KeyMetadata {
    pub key_id: [u8; 16],
    pub description: String,
    /// Creation time (Unix seconds).
    pub created_at: u64,
    /// Last use (Unix seconds).
    pub last_used: Option<u64>,
    pub backend_data: Vec<u8>,
}

/// Information about a key backend.
#[derive(Debug, Clone)]
pub struct BackendInfo {
    pub name: &'static str,
    pub description: &'static str,
    pub version: &'static str,
    /// Whether the backend is available on this system.
    pub available: bool,
    pub config_requirements: Vec<&'static str>,
}

/// The description of the keyring backend.
pub open spec fn keyring_info(r: BackendInfo) -> bool {
    &&& r.name@ == "keyring"@
    &&& r.description@ == "OS keyring with PBKDF2 key derivation"@
    &&& r.version@ == "1.0.0"@
    &&& r.available
    &&& r.config_requirements@.len() == 2
    &&& r.config_requirements@[0]@ == "passphrase"@
    &&& r.config_requirements@[1]@ == "salt"@
}

impl BackendInfo {
    /// The OS keyring backend: always available, needs a passphrase and salt.
    pub fn keyring() -> (r: BackendInfo)
        ensures
            keyring_info(r),
    {
        BackendInfo {
            name: "keyring",
            description: "OS keyring with PBKDF2 key derivation",
            version: "1.0.0",
            available: true,
            config_requirements: vec!["passphrase", "salt"],
        }
    }

    /// A TPM 2.0 backend; not detected on this system.
    pub fn tpm() -> (r: BackendInfo)
        ensures
            r.name@ == "tpm"@,
            r.description@ == "TPM 2.0 hardware security module"@,
            r.version@ == "1.0.0"@,
            !r.available,
            r.config_requirements@.len() == 2,
            r.config_requirements@[0]@ == "device_path"@,
            r.config_requirements@[1]@ == "key_handle"@,
    {
        BackendInfo {
            name: "tpm",
            description: "TPM 2.0 hardware security module",
            version: "1.0.0",
            available: false,
            config_requirements: vec!["device_path", "key_handle"],
        }
    }

    /// A PKCS#11 hardware security module; not detected on this system.
    pub fn hsm() -> (r: BackendInfo)
        ensures
            r.name@ == "hsm"@,
            r.description@ == "Hardware Security Module (PKCS#11)"@,
            r.version@ == "1.0.0"@,
            !r.available,
            r.config_requirements@.len() == 3,
            r.config_requirements@[0]@ == "pkcs11_lib"@,
            r.config_requirements@[1]@ == "slot_id"@,
            r.config_requirements@[2]@ == "pin"@,
    {
        BackendInfo {
            name: "hsm",
            description: "Hardware Security Module (PKCS#11)",
            version: "1.0.0",
            available: false,
            config_requirements: vec!["pkcs11_lib", "slot_id", "pin"],
        }
    }
}

} // verus!
