//! Universal backend trait: capability-based cryptographic backends.
//!
//! Backends implement a single `perform_operation` method and advertise
//! what they can do through `supports_operation` and their capabilities.

use crate::backends::traits::{BackendInfo, KeyMetadata};
use crate::error::BackendError;
use vstd::prelude::*;

verus! {

/// Symmetric algorithms supported by backends.
#[derive(Debug, Clone, Copy, PartialEq, Eq, Structural)]
pub enum SymmetricAlgorithm {
    Aes256Gcm,
    ChaCha20Poly1305,
}

/// Asymmetric key algorithms.
#[derive(Debug, Clone, Copy, PartialEq, Eq, Structural)]
pub enum AsymmetricAlgorithm {
    Ed25519,
    EcdsaP256,
    Rsa2048,
    Rsa4096,
}

/// Signature algorithms supported by backends.
#[derive(Debug, Clone, Copy, PartialEq, Eq, Structural)]
pub enum SignatureAlgorithm {
    Ed25519,
    EcdsaP256,
    RsaPkcs1v15,
    RsaPss,
}

/// Hash algorithms supported by backends.
#[derive(Debug, Clone, Copy, PartialEq, Eq, Structural)]
pub enum HashAlgorithm {
    Sha256,
    Sha384,
    Sha512,
    Blake2b,
}

/// Key derivation context for backends that derive keys.
#[derive(Debug, Clone)]
pub struct KeyDerivationContext {
    pub salt: Vec<u8>,
    pub additional_data: Vec<u8>,
    /// Iteration count for PBKDF2-like backends.
    pub iterations: Option<u32>,
    /// Hash algorithm to use for derivation.
    pub hash_algorithm: Option<HashAlgorithm>,
}

impl KeyDerivationContext {
    /// A context with the given salt, no additional data, 100 000 iterations
    /// and SHA-256.
    pub fn new(salt: Vec<u8>) -> (r: KeyDerivationContext)
        ensures
            r.salt == salt,
            r.additional_data@ == Seq::<u8>::empty(),
            r.iterations == Some(100_000u32),
            r.hash_algorithm == Some(HashAlgorithm::Sha256),
    {
        KeyDerivationContext {
            salt,
            additional_data: Vec::new(),
            iterations: Some(100_000),
            hash_algorithm: Some(HashAlgorithm::Sha256),
        }
    }

    pub fn with_additional_data(self, data: Vec<u8>) -> (r: KeyDerivationContext)
        ensures
            r.salt == self.salt,
            r.additional_data == data,
            r.iterations == self.iterations,
            r.hash_algorithm == self.hash_algorithm,
    {
        let mut s = self;
        s.additional_data = data;
        s
    }

    pub fn with_iterations(self, iterations: u32) -> (r: KeyDerivationContext)
        ensures
            r.salt == self.salt,
            r.additional_data == self.additional_data,
            r.iterations == Some(iterations),
            r.hash_algorithm == self.hash_algorithm,
    {
        let mut s = self;
        s.iterations = Some(iterations);
        s
    }

    pub fn with_hash_algorithm(self, algorithm: HashAlgorithm) -> (r: KeyDerivationContext)
        ensures
            r.salt == self.salt,
            r.additional_data == self.additional_data,
            r.iterations == self.iterations,
            r.hash_algorithm == Some(algorithm),
    {
        let mut s = self;
        s.hash_algorithm = Some(algorithm);
        s
    }
}

/// Operations that cryptographic backends can be asked to perform.
#[derive(Debug, Clone)]
pub enum CryptoOperation {
    Encrypt { plaintext: Vec<u8>, algorithm: SymmetricAlgorithm },
    Decrypt { ciphertext: Vec<u8>, algorithm: SymmetricAlgorithm },
    Sign { data: Vec<u8>, algorithm: SignatureAlgorithm },
    Verify { data: Vec<u8>, signature: Vec<u8>, algorithm: SignatureAlgorithm },
    DeriveKey { context: KeyDerivationContext },
    GenerateKeyPair { algorithm: AsymmetricAlgorithm },
    GetPublicKey,
    KeyExchange { peer_public_key: Vec<u8>, algorithm: AsymmetricAlgorithm },
    Attest { challenge: Vec<u8> },
    Hash { data: Vec<u8>, algorithm: HashAlgorithm },
}

/// Results of cryptographic operations.
#[derive(Debug)]
pub enum CryptoResult {
    Encrypted(Vec<u8>),
    Decrypted(Vec<u8>),
    Signed(Vec<u8>),
    VerificationResult(bool),
    DerivedKey([u8; 32]),
    KeyPair { public_key: Vec<u8>, private_key_id: String },
    PublicKey(Vec<u8>),
    SharedSecret(Vec<u8>),
    AttestationProof(Vec<u8>),
    Hash(Vec<u8>),
}

/// What a backend can do.
#[derive(Debug, Clone)]
pub struct BackendCapabilities {
    pub symmetric_algorithms: Vec<SymmetricAlgorithm>,
    pub asymmetric_algorithms: Vec<AsymmetricAlgorithm>,
    pub signature_algorithms: Vec<SignatureAlgorithm>,
    pub hash_algorithms: Vec<HashAlgorithm>,
    /// Whether keys are stored in hardware.
    pub hardware_backed: bool,
    pub supports_key_derivation: bool,
    pub supports_key_generation: bool,
    pub supports_attestation: bool,
    /// Largest key size supported, in bits.
    pub max_key_size: Option<u32>,
}

impl BackendCapabilities {
    /// Capabilities of a software-only backend: AES-256-GCM, SHA-256 and
    /// SHA-512, key derivation; no asymmetric operations.
    pub fn software_only() -> (r: BackendCapabilities)
        ensures
            r.symmetric_algorithms@ == seq![SymmetricAlgorithm::Aes256Gcm],
            r.asymmetric_algorithms@ == Seq::<AsymmetricAlgorithm>::empty(),
            r.signature_algorithms@ == Seq::<SignatureAlgorithm>::empty(),
            r.hash_algorithms@ == seq![HashAlgorithm::Sha256, HashAlgorithm::Sha512],
            !r.hardware_backed,
            r.supports_key_derivation,
            !r.supports_key_generation,
            !r.supports_attestation,
            r.max_key_size is None,
    {
        let r = BackendCapabilities {
            symmetric_algorithms: vec![SymmetricAlgorithm::Aes256Gcm],
            asymmetric_algorithms: Vec::new(),
            signature_algorithms: Vec::new(),
            hash_algorithms: vec![HashAlgorithm::Sha256, HashAlgorithm::Sha512],
            hardware_backed: false,
            supports_key_derivation: true,
            supports_key_generation: false,
            supports_attestation: false,
            max_key_size: None,
        };
        assert(r.symmetric_algorithms@ =~= seq![SymmetricAlgorithm::Aes256Gcm]);
        assert(r.hash_algorithms@ =~= seq![HashAlgorithm::Sha256, HashAlgorithm::Sha512]);
        r
    }

    /// Capabilities typical of a hardware security module.
    pub fn hardware_security_module() -> (r: BackendCapabilities)
        ensures
            r.symmetric_algorithms@ == seq![SymmetricAlgorithm::Aes256Gcm],
            r.asymmetric_algorithms@ == seq![
                AsymmetricAlgorithm::Ed25519,
                AsymmetricAlgorithm::EcdsaP256,
                AsymmetricAlgorithm::Rsa2048,
            ],
            r.signature_algorithms@ == seq![
                SignatureAlgorithm::Ed25519,
                SignatureAlgorithm::EcdsaP256,
                SignatureAlgorithm::RsaPkcs1v15,
            ],
            r.hash_algorithms@ == seq![
                HashAlgorithm::Sha256,
                HashAlgorithm::Sha384,
                HashAlgorithm::Sha512,
            ],
            r.hardware_backed,
            r.supports_key_derivation,
            r.supports_key_generation,
            r.supports_attestation,
            r.max_key_size == Some(4096u32),
    {
        let r = BackendCapabilities {
            symmetric_algorithms: vec![SymmetricAlgorithm::Aes256Gcm],
            asymmetric_algorithms: vec![
                AsymmetricAlgorithm::Ed25519,
                AsymmetricAlgorithm::EcdsaP256,
                AsymmetricAlgorithm::Rsa2048,
            ],
            signature_algorithms: vec![
                SignatureAlgorithm::Ed25519,
                SignatureAlgorithm::EcdsaP256,
                SignatureAlgorithm::RsaPkcs1v15,
            ],
            hash_algorithms: vec![HashAlgorithm::Sha256, HashAlgorithm::Sha384, HashAlgorithm::Sha512],
            hardware_backed: true,
            supports_key_derivation: true,
            supports_key_generation: true,
            supports_attestation: true,
            max_key_size: Some(4096),
        };
        assert(r.symmetric_algorithms@ =~= seq![SymmetricAlgorithm::Aes256Gcm]);
        assert(r.asymmetric_algorithms@ =~= seq![
            AsymmetricAlgorithm::Ed25519,
            AsymmetricAlgorithm::EcdsaP256,
            AsymmetricAlgorithm::Rsa2048,
        ]);
        assert(r.signature_algorithms@ =~= seq![
            SignatureAlgorithm::Ed25519,
            SignatureAlgorithm::EcdsaP256,
            SignatureAlgorithm::RsaPkcs1v15,
        ]);
        assert(r.hash_algorithms@ =~= seq![
            HashAlgorithm::Sha256,
            HashAlgorithm::Sha384,
            HashAlgorithm::Sha512,
        ]);
        r
    }
}

/// Universal backend trait for cryptographic operations.
pub trait UniversalBackend {
    /// Performs a cryptographic operation with the specified key.  It takes
    /// the backend mutably because an operation such as key generation
    /// records what it made.
    fn perform_operation(&mut self, key_id: &str, operation: CryptoOperation) -> Result<
        CryptoResult,
        BackendError,
    >;

    /// Whether this backend supports an operation.
    fn supports_operation(&self, operation: &CryptoOperation) -> bool;

    /// The capabilities of this backend.
    fn get_capabilities(&self) -> BackendCapabilities;

    /// Backend information (name, version, ...).
    fn backend_info(&self) -> BackendInfo;

    /// Available keys; none by default.
    fn list_keys(&self) -> (r: Result<Vec<KeyMetadata>, BackendError>)
        default_ensures
            r matches Ok(v) && v@.len() == 0,
    {
        Ok(Vec::new())
    }
}

fn contains_symmetric(v: &Vec<SymmetricAlgorithm>, a: SymmetricAlgorithm) -> (r: bool)
    ensures
        r == v@.contains(a),
{
    let mut i: usize = 0;
    while i < v.len()
        invariant
            i <= v@.len(),
            forall|j: int| 0 <= j < i ==> v@[j] != a,
        decreases v@.len() - i,
    {
        if v[i] == a {
            assert(v@[i as int] == a);
            return true;
        }
        i = i + 1;
    }
    false
}

fn contains_asymmetric(v: &Vec<AsymmetricAlgorithm>, a: AsymmetricAlgorithm) -> (r: bool)
    ensures
        r == v@.contains(a),
{
    let mut i: usize = 0;
    while i < v.len()
        invariant
            i <= v@.len(),
            forall|j: int| 0 <= j < i ==> v@[j] != a,
        decreases v@.len() - i,
    {
        if v[i] == a {
            assert(v@[i as int] == a);
            return true;
        }
        i = i + 1;
    }
    false
}

fn contains_signature(v: &Vec<SignatureAlgorithm>, a: SignatureAlgorithm) -> (r: bool)
    ensures
        r == v@.contains(a),
{
    let mut i: usize = 0;
    while i < v.len()
        invariant
            i <= v@.len(),
            forall|j: int| 0 <= j < i ==> v@[j] != a,
        decreases v@.len() - i,
    {
        if v[i] == a {
            assert(v@[i as int] == a);
            return true;
        }
        i = i + 1;
    }
    false
}

fn contains_hash(v: &Vec<HashAlgorithm>, a: HashAlgorithm) -> (r: bool)
    ensures
        r == v@.contains(a),
{
    let mut i: usize = 0;
    while i < v.len()
        invariant
            i <= v@.len(),
            forall|j: int| 0 <= j < i ==> v@[j] != a,
        decreases v@.len() - i,
    {
        if v[i] == a {
            assert(v@[i as int] == a);
            return true;
        }
        i = i + 1;
    }
    false
}

/// Whether capabilities allow an operation's type.
pub open spec fn spec_operation_type_supported(
    caps: BackendCapabilities,
    operation: CryptoOperation,
) -> bool {
    match operation {
        CryptoOperation::Encrypt { algorithm, .. } => caps.symmetric_algorithms@.contains(algorithm),
        CryptoOperation::Decrypt { algorithm, .. } => caps.symmetric_algorithms@.contains(algorithm),
        CryptoOperation::Sign { algorithm, .. } => caps.signature_algorithms@.contains(algorithm),
        CryptoOperation::Verify { algorithm, .. } => caps.signature_algorithms@.contains(algorithm),
        CryptoOperation::DeriveKey { .. } => caps.supports_key_derivation,
        CryptoOperation::GenerateKeyPair { algorithm } => caps.supports_key_generation
            && caps.asymmetric_algorithms@.contains(algorithm),
        CryptoOperation::GetPublicKey => caps.supports_key_generation,
        CryptoOperation::KeyExchange { algorithm, .. } => caps.asymmetric_algorithms@.contains(
            algorithm,
        ),
        CryptoOperation::Attest { .. } => caps.supports_attestation,
        CryptoOperation::Hash { algorithm, .. } => caps.hash_algorithms@.contains(algorithm),
    }
}

/// Whether a backend with the given capabilities can, in principle, perform
/// an operation of the given type.
pub fn operation_type_supported(capabilities: &BackendCapabilities, operation: &CryptoOperation) -> (r:
    bool)
    ensures
        r == spec_operation_type_supported(*capabilities, *operation),
{
    match operation {
        CryptoOperation::Encrypt { algorithm, .. } => contains_symmetric(
            &capabilities.symmetric_algorithms,
            *algorithm,
        ),
        CryptoOperation::Decrypt { algorithm, .. } => contains_symmetric(
            &capabilities.symmetric_algorithms,
            *algorithm,
        ),
        CryptoOperation::Sign { algorithm, .. } => contains_signature(
            &capabilities.signature_algorithms,
            *algorithm,
        ),
        CryptoOperation::Verify { algorithm, .. } => contains_signature(
            &capabilities.signature_algorithms,
            *algorithm,
        ),
        CryptoOperation::DeriveKey { .. } => capabilities.supports_key_derivation,
        CryptoOperation::GenerateKeyPair { algorithm } => capabilities.supports_key_generation
            && contains_asymmetric(&capabilities.asymmetric_algorithms, *algorithm),
        CryptoOperation::GetPublicKey => capabilities.supports_key_generation,
        CryptoOperation::KeyExchange { algorithm, .. } => contains_asymmetric(
            &capabilities.asymmetric_algorithms,
            *algorithm,
        ),
        CryptoOperation::Attest { .. } => capabilities.supports_attestation,
        CryptoOperation::Hash { algorithm, .. } => contains_hash(
            &capabilities.hash_algorithms,
            *algorithm,
        ),
    }
}

} // verus!
