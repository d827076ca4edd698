//! Universal backend over the OS keyring: key derivation from the stored
//! passphrase, and hashing.
//!
//! Reading and writing the OS keyring is the application's part: it reads
//! the stored passphrase (or the reason it could not) and hands it to the
//! backend with [`UniversalKeyringBackend::load_passphrase`].

use crate::backends::traits::{keyring_info, BackendInfo, KeyMetadata};
use crate::backends::universal::{
    AsymmetricAlgorithm, BackendCapabilities, CryptoOperation, CryptoResult, HashAlgorithm,
    KeyDerivationContext, SignatureAlgorithm, SymmetricAlgorithm, UniversalBackend,
};
use crate::codec::push_all;
use crate::error::{backend_error_is, BackendError, BackendFault};
use crate::primitives::{
    pbkdf2_sha256, pbkdf2_sha256_of, pbkdf2_sha384, pbkdf2_sha384_of, pbkdf2_sha512, pbkdf2_sha512_of,
    sha256_digest, sha256_of, sha384_digest, sha384_of, sha512_digest, sha512_of,
};
use crate::text::{concat_str, decimal, push_decimal};
use vstd::prelude::*;
use vstd::utf8::encode_utf8;

verus! {

/// The keyring backend seen through the universal interface.
pub struct UniversalKeyringBackend {
    service_name: Option<String>,
    username: Option<String>,
    passphrase: Option<Result<String, String>>,
}

// ---------------------------------------------------------------------------
// Debug texts of operations
// ---------------------------------------------------------------------------

pub open spec fn symmetric_name(a: SymmetricAlgorithm) -> Seq<char> {
    match a {
        SymmetricAlgorithm::Aes256Gcm => "Aes256Gcm"@,
        SymmetricAlgorithm::ChaCha20Poly1305 => "ChaCha20Poly1305"@,
    }
}

pub open spec fn asymmetric_name(a: AsymmetricAlgorithm) -> Seq<char> {
    match a {
        AsymmetricAlgorithm::Ed25519 => "Ed25519"@,
        AsymmetricAlgorithm::EcdsaP256 => "EcdsaP256"@,
        AsymmetricAlgorithm::Rsa2048 => "Rsa2048"@,
        AsymmetricAlgorithm::Rsa4096 => "Rsa4096"@,
    }
}

pub open spec fn signature_name(a: SignatureAlgorithm) -> Seq<char> {
    match a {
        SignatureAlgorithm::Ed25519 => "Ed25519"@,
        SignatureAlgorithm::EcdsaP256 => "EcdsaP256"@,
        SignatureAlgorithm::RsaPkcs1v15 => "RsaPkcs1v15"@,
        SignatureAlgorithm::RsaPss => "RsaPss"@,
    }
}

fn symmetric_name_str(a: SymmetricAlgorithm) -> (r: &'static str)
    ensures
        r@ == symmetric_name(a),
{
    match a {
        SymmetricAlgorithm::Aes256Gcm => "Aes256Gcm",
        SymmetricAlgorithm::ChaCha20Poly1305 => "ChaCha20Poly1305",
    }
}

pub(crate) fn asymmetric_name_str(a: AsymmetricAlgorithm) -> (r: &'static str)
    ensures
        r@ == asymmetric_name(a),
{
    match a {
        AsymmetricAlgorithm::Ed25519 => "Ed25519",
        AsymmetricAlgorithm::EcdsaP256 => "EcdsaP256",
        AsymmetricAlgorithm::Rsa2048 => "Rsa2048",
        AsymmetricAlgorithm::Rsa4096 => "Rsa4096",
    }
}

pub(crate) fn signature_name_str(a: SignatureAlgorithm) -> (r: &'static str)
    ensures
        r@ == signature_name(a),
{
    match a {
        SignatureAlgorithm::Ed25519 => "Ed25519",
        SignatureAlgorithm::EcdsaP256 => "EcdsaP256",
        SignatureAlgorithm::RsaPkcs1v15 => "RsaPkcs1v15",
        SignatureAlgorithm::RsaPss => "RsaPss",
    }
}

/// The bytes of a list as its debug text prints them: `[1, 2, 3]`.
pub open spec fn bytes_debug(b: Seq<u8>) -> Seq<char> {
    "["@ + bytes_items(b) + "]"@
}

/// The decimal values of bytes separated by `, `.
pub open spec fn bytes_items(b: Seq<u8>) -> Seq<char>
    decreases b.len(),
{
    if b.len() == 0 {
        Seq::empty()
    } else if b.len() == 1 {
        decimal(b[0] as nat)
    } else {
        bytes_items(b.drop_last()) + ", "@ + decimal(b.last() as nat)
    }
}

fn push_bytes_debug(out: &mut String, b: &[u8])
    ensures
        final(out)@ == old(out)@ + bytes_debug(b@),
{
    let ghost start = out@;
    out.append("[");
    let n = b.len();
    let mut i: usize = 0;
    while i < n
        invariant
            i <= n,
            n == b@.len(),
            out@ == start + "["@ + bytes_items(b@.take(i as int)),
        decreases n - i,
    {
        if i > 0 {
            out.append(", ");
        }
        push_decimal(out, b[i] as u64);
        proof {
            let t = b@.take(i + 1);
            assert(t.drop_last() =~= b@.take(i as int));
            assert(t.last() == b@[i as int]);
            if i == 0 {
                assert(b@.take(0) =~= Seq::<u8>::empty());
                assert(bytes_items(b@.take(0)) =~= Seq::<char>::empty());
            }
        }
        i = i + 1;
    }
    out.append("]");
    assert(b@.take(n as int) =~= b@);
}

/// The debug text of the operations this backend refuses outright.
pub open spec fn refused_operation_text(op: CryptoOperation) -> Seq<char> {
    match op {
        CryptoOperation::Sign { data, algorithm } => "Sign { data: "@ + bytes_debug(data@) + ", algorithm: "@
            + signature_name(algorithm) + " }"@,
        CryptoOperation::Verify { data, signature, algorithm } => "Verify { data: "@ + bytes_debug(data@)
            + ", signature: "@ + bytes_debug(signature@) + ", algorithm: "@ + signature_name(algorithm)
            + " }"@,
        CryptoOperation::GenerateKeyPair { algorithm } => "GenerateKeyPair { algorithm: "@ + asymmetric_name(
            algorithm,
        ) + " }"@,
        CryptoOperation::GetPublicKey => "GetPublicKey"@,
        CryptoOperation::KeyExchange { peer_public_key, algorithm } => "KeyExchange { peer_public_key: "@
            + bytes_debug(peer_public_key@) + ", algorithm: "@ + asymmetric_name(algorithm) + " }"@,
        CryptoOperation::Attest { challenge } => "Attest { challenge: "@ + bytes_debug(challenge@) + " }"@,
        _ => Seq::empty(),
    }
}

fn refused_operation_debug(op: &CryptoOperation) -> (r: String)
    ensures
        r@ == refused_operation_text(*op),
{
    let mut s = String::new();
    match op {
        CryptoOperation::Sign { data, algorithm } => {
            s.append("Sign { data: ");
            push_bytes_debug(&mut s, data.as_slice());
            s.append(", algorithm: ");
            s.append(signature_name_str(*algorithm));
            s.append(" }");
        },
        CryptoOperation::Verify { data, signature, algorithm } => {
            s.append("Verify { data: ");
            push_bytes_debug(&mut s, data.as_slice());
            s.append(", signature: ");
            push_bytes_debug(&mut s, signature.as_slice());
            s.append(", algorithm: ");
            s.append(signature_name_str(*algorithm));
            s.append(" }");
        },
        CryptoOperation::GenerateKeyPair { algorithm } => {
            s.append("GenerateKeyPair { algorithm: ");
            s.append(asymmetric_name_str(*algorithm));
            s.append(" }");
        },
        CryptoOperation::GetPublicKey => {
            s.append("GetPublicKey");
        },
        CryptoOperation::KeyExchange { peer_public_key, algorithm } => {
            s.append("KeyExchange { peer_public_key: ");
            push_bytes_debug(&mut s, peer_public_key.as_slice());
            s.append(", algorithm: ");
            s.append(asymmetric_name_str(*algorithm));
            s.append(" }");
        },
        CryptoOperation::Attest { challenge } => {
            s.append("Attest { challenge: ");
            push_bytes_debug(&mut s, challenge.as_slice());
            s.append(" }");
        },
        _ => {},
    }
    s
}

// ---------------------------------------------------------------------------
// Key derivation
// ---------------------------------------------------------------------------

/// The key derived for `key_id` from a passphrase under a context: PBKDF2
/// over `passphrase || key_id || additional data`, salted with the 16-byte
/// salt, with the context's iteration count (100 000 by default) and hash
/// (SHA-256 by default).
pub open spec fn derived_key(passphrase: Seq<char>, key_id: Seq<char>, ctx: KeyDerivationContext) -> Option<
    Seq<u8>,
> {
    let input = encode_utf8(passphrase) + encode_utf8(key_id) + ctx.additional_data@;
    let rounds = match ctx.iterations {
        Some(n) => n,
        None => 100_000u32,
    };
    match ctx.hash_algorithm {
        None => Some(pbkdf2_sha256_of(input, ctx.salt@, rounds)),
        Some(HashAlgorithm::Sha256) => Some(pbkdf2_sha256_of(input, ctx.salt@, rounds)),
        Some(HashAlgorithm::Sha384) => Some(pbkdf2_sha384_of(input, ctx.salt@, rounds)),
        Some(HashAlgorithm::Sha512) => Some(pbkdf2_sha512_of(input, ctx.salt@, rounds)),
        Some(HashAlgorithm::Blake2b) => None,
    }
}

/// Each hash the context names selects its own PBKDF2 pseudo-random
/// function: HMAC-SHA256 (also when none is named), HMAC-SHA384 or
/// HMAC-SHA512, over `passphrase || key_id || additional data` with the
/// context's salt and rounds (100 000 when none are named); BLAKE2b derives
/// nothing.
pub proof fn law_derivation_uses_named_hash(passphrase: Seq<char>, key_id: Seq<char>, ctx: KeyDerivationContext)
    ensures
        ({
            let input = encode_utf8(passphrase) + encode_utf8(key_id) + ctx.additional_data@;
            let rounds: u32 = if ctx.iterations is Some {
                ctx.iterations->0
            } else {
                100_000
            };
            &&& (ctx.hash_algorithm is None || ctx.hash_algorithm == Some(HashAlgorithm::Sha256)) ==> derived_key(
                passphrase,
                key_id,
                ctx,
            ) == Some(pbkdf2_sha256_of(input, ctx.salt@, rounds))
            &&& ctx.hash_algorithm == Some(HashAlgorithm::Sha384) ==> derived_key(passphrase, key_id, ctx) == Some(
                pbkdf2_sha384_of(input, ctx.salt@, rounds),
            )
            &&& ctx.hash_algorithm == Some(HashAlgorithm::Sha512) ==> derived_key(passphrase, key_id, ctx) == Some(
                pbkdf2_sha512_of(input, ctx.salt@, rounds),
            )
            &&& ctx.hash_algorithm == Some(HashAlgorithm::Blake2b) ==> derived_key(passphrase, key_id, ctx) is None
        }),
{
}

/// The outcome of a derivation from what reading the keyring gave.
pub open spec fn derivation_outcome(
    passphrase: Option<Result<Seq<char>, Seq<char>>>,
    key_id: Seq<char>,
    ctx: KeyDerivationContext,
) -> Result<Seq<u8>, Seq<char>> {
    if ctx.salt@.len() != 16 {
        Err("Salt must be exactly 16 bytes for keyring backend"@)
    } else {
        match passphrase {
            None => Err("Failed to get passphrase from keyring: no passphrase loaded"@),
            Some(Err(e)) => Err("Failed to get passphrase from keyring: "@ + e),
            Some(Ok(p)) => match derived_key(p, key_id, ctx) {
                Some(k) => Ok(k),
                None => Err("Hash algorithm Blake2b not supported for key derivation"@),
            },
        }
    }
}

/// What reading the keyring gave, by its characters.
pub open spec fn passphrase_view(p: Option<Result<String, String>>) -> Option<Result<Seq<char>, Seq<char>>> {
    match p {
        None => None,
        Some(Ok(s)) => Some(Ok(s@)),
        Some(Err(e)) => Some(Err(e@)),
    }
}

/// What the backend answers an operation with: a result, or the kind and
/// text of the error.
pub open spec fn keyring_operation_outcome(
    passphrase: Option<Result<Seq<char>, Seq<char>>>,
    key_id: Seq<char>,
    op: CryptoOperation,
) -> Result<KeyringResult, (BackendFault, Seq<char>)> {
    match op {
        CryptoOperation::DeriveKey { context } => match derivation_outcome(passphrase, key_id, context) {
            Ok(k) => Ok(KeyringResult::DerivedKey(k)),
            Err(e) => Err((BackendFault::OperationFailed, "Key derivation failed: "@ + e)),
        },
        CryptoOperation::Encrypt { algorithm, .. } => match algorithm {
            SymmetricAlgorithm::Aes256Gcm => Err(
                (
                    BackendFault::UnsupportedOperation,
                    "Encryption requires key derivation context. Use DeriveKey first, then use the raw key."@,
                ),
            ),
            _ => Err(
                (
                    BackendFault::UnsupportedOperation,
                    "Symmetric algorithm "@ + symmetric_name(algorithm) + " not supported by keyring backend"@,
                ),
            ),
        },
        CryptoOperation::Decrypt { algorithm, .. } => match algorithm {
            SymmetricAlgorithm::Aes256Gcm => Err(
                (
                    BackendFault::UnsupportedOperation,
                    "Decryption requires key derivation context. Use DeriveKey first, then use the raw key."@,
                ),
            ),
            _ => Err(
                (
                    BackendFault::UnsupportedOperation,
                    "Symmetric algorithm "@ + symmetric_name(algorithm) + " not supported by keyring backend"@,
                ),
            ),
        },
        CryptoOperation::Hash { data, algorithm } => match algorithm {
            HashAlgorithm::Sha256 => Ok(KeyringResult::Hash(sha256_of(data@))),
            HashAlgorithm::Sha384 => Ok(KeyringResult::Hash(sha384_of(data@))),
            HashAlgorithm::Sha512 => Ok(KeyringResult::Hash(sha512_of(data@))),
            HashAlgorithm::Blake2b => Err(
                (BackendFault::UnsupportedOperation, "Hash algorithm Blake2b not supported by keyring backend"@),
            ),
        },
        _ => Err(
            (
                BackendFault::UnsupportedOperation,
                "Operation "@ + refused_operation_text(op) + " not supported by keyring backend"@,
            ),
        ),
    }
}

/// The operations the keyring backend performs: key derivation, and the
/// SHA-2 hashes.
pub open spec fn keyring_supports(op: CryptoOperation) -> bool {
    match op {
        CryptoOperation::DeriveKey { .. } => true,
        CryptoOperation::Hash { algorithm, .. } => algorithm != HashAlgorithm::Blake2b,
        _ => false,
    }
}

/// The length in bytes of a SHA-2 digest (none for BLAKE2b, which is not
/// computed).
pub open spec fn sha2_digest_len(a: HashAlgorithm) -> nat {
    match a {
        HashAlgorithm::Sha256 => 32,
        HashAlgorithm::Sha384 => 48,
        HashAlgorithm::Sha512 => 64,
        HashAlgorithm::Blake2b => 0,
    }
}

/// The results the keyring backend produces.
pub enum KeyringResult {
    DerivedKey(Seq<u8>),
    Hash(Seq<u8>),
}

/// `r` is the result `k`.
pub open spec fn keyring_result_is(r: CryptoResult, k: KeyringResult) -> bool {
    match k {
        KeyringResult::DerivedKey(key) => r matches CryptoResult::DerivedKey(v) && v@ == key,
        KeyringResult::Hash(h) => r matches CryptoResult::Hash(v) && v@ == h,
    }
}

fn derive_with(passphrase: &str, key_id: &str, context: &KeyDerivationContext) -> (r: Option<[u8; 32]>)
    requires
        context.salt@.len() == 16,
    ensures
        match derived_key(passphrase@, key_id@, *context) {
            Some(k) => r matches Some(v) && v@ == k,
            None => r is None,
        },
{
    let mut input: Vec<u8> = Vec::new();
    push_all(&mut input, passphrase.as_bytes());
    push_all(&mut input, key_id.as_bytes());
    push_all(&mut input, context.additional_data.as_slice());
    let rounds: u32 = match context.iterations {
        Some(n) => n,
        None => 100_000,
    };
    match context.hash_algorithm {
        None => Some(pbkdf2_sha256(input.as_slice(), context.salt.as_slice(), rounds)),
        Some(HashAlgorithm::Sha256) => Some(pbkdf2_sha256(input.as_slice(), context.salt.as_slice(), rounds)),
        Some(HashAlgorithm::Sha384) => Some(pbkdf2_sha384(input.as_slice(), context.salt.as_slice(), rounds)),
        Some(HashAlgorithm::Sha512) => Some(pbkdf2_sha512(input.as_slice(), context.salt.as_slice(), rounds)),
        Some(HashAlgorithm::Blake2b) => None,
    }
}

impl UniversalKeyringBackend {
    /// The keyring's default service and user, with no passphrase read yet.
    pub fn new() -> (r: Result<UniversalKeyringBackend, String>)
        ensures
            r matches Ok(b) && b.service().is_none() && b.user().is_none() && b.passphrase() is None,
    {
        Ok(UniversalKeyringBackend { service_name: None, username: None, passphrase: None })
    }

    /// A custom keyring service and user, with no passphrase read yet.
    pub fn new_with_service(service_name: String, username: String) -> (r: Result<
        UniversalKeyringBackend,
        String,
    >)
        ensures
            r matches Ok(b) && b.service() == Some(service_name@) && b.user() == Some(username@)
                && b.passphrase() is None,
    {
        Ok(UniversalKeyringBackend { service_name: Some(service_name), username: Some(username), passphrase: None })
    }

    /// The keyring service, when not the default.
    pub closed spec fn service(&self) -> Option<Seq<char>> {
        match self.service_name {
            Some(s) => Some(s@),
            None => None,
        }
    }

    /// The keyring user, when not the default.
    pub closed spec fn user(&self) -> Option<Seq<char>> {
        match self.username {
            Some(s) => Some(s@),
            None => None,
        }
    }

    /// What reading the keyring gave, once read.
    pub closed spec fn passphrase(&self) -> Option<Result<Seq<char>, Seq<char>>> {
        passphrase_view(self.passphrase)
    }

    /// The keyring service to use (`None` for the keyring's default).
    pub fn service_name(&self) -> (r: Option<&String>)
        ensures
            match r {
                Some(s) => self.service() == Some(s@),
                None => self.service() is None,
            },
    {
        self.service_name.as_ref()
    }

    /// The keyring user to use (`None` for the keyring's default).
    pub fn username(&self) -> (r: Option<&String>)
        ensures
            match r {
                Some(s) => self.user() == Some(s@),
                None => self.user() is None,
            },
    {
        self.username.as_ref()
    }

    /// Records what reading the keyring's passphrase gave: the passphrase,
    /// or the reason it could not be read.
    pub fn load_passphrase(&mut self, read: Result<String, String>)
        ensures
            final(self).passphrase() == Some(
                match read {
                    Ok(s) => Ok::<Seq<char>, Seq<char>>(s@),
                    Err(e) => Err(e@),
                },
            ),
            final(self).service() == old(self).service(),
            final(self).user() == old(self).user(),
    {
        self.passphrase = Some(read);
    }

    /// Records a newly stored passphrase: later derivations use it.  The
    /// caller has written it to the system keyring.
    pub fn store_passphrase(&mut self, passphrase: &str) -> (r: Result<(), String>)
        ensures
            r is Ok,
            final(self).passphrase() == Some(Ok::<Seq<char>, Seq<char>>(passphrase@)),
            final(self).service() == old(self).service(),
            final(self).user() == old(self).user(),
    {
        self.passphrase = Some(Ok(passphrase.to_string()));
        Ok(())
    }

    /// The passphrase held for the keyring entry, or why there is none.
    pub fn get_passphrase(&self) -> (r: Result<String, String>)
        ensures
            match self.passphrase() {
                None => r matches Err(e) && e@ == "no passphrase loaded"@,
                Some(Err(m)) => r matches Err(e) && e@ == m,
                Some(Ok(p)) => r matches Ok(s) && s@ == p,
            },
    {
        match &self.passphrase {
            None => Err(String::from_str("no passphrase loaded")),
            Some(Err(e)) => Err(e.clone()),
            Some(Ok(p)) => Ok(p.clone()),
        }
    }

    /// Derives the key of `key_id` under a context; see
    /// [`derivation_outcome`].
    fn derive_key_internal(&self, key_id: &str, context: &KeyDerivationContext) -> (r: Result<[u8; 32], String>)
        ensures
            match derivation_outcome(self.passphrase(), key_id@, *context) {
                Ok(k) => r matches Ok(v) && v@ == k,
                Err(m) => r matches Err(e) && e@ == m,
            },
    {
        if context.salt.len() != 16 {
            return Err(String::from_str("Salt must be exactly 16 bytes for keyring backend"));
        }
        let passphrase = match &self.passphrase {
            None => {
                return Err(String::from_str("Failed to get passphrase from keyring: no passphrase loaded"));
            },
            Some(Err(e)) => {
                return Err(concat_str("Failed to get passphrase from keyring: ", e.as_str()));
            },
            Some(Ok(p)) => p,
        };
        match derive_with(passphrase.as_str(), key_id, context) {
            Some(k) => Ok(k),
            None => Err(String::from_str("Hash algorithm Blake2b not supported for key derivation")),
        }
    }

    /// Performs an operation; see [`keyring_operation_outcome`].
    pub fn perform(&self, key_id: &str, operation: CryptoOperation) -> (r: Result<CryptoResult, BackendError>)
        ensures
            match keyring_operation_outcome(self.passphrase(), key_id@, operation) {
                Ok(k) => r matches Ok(v) && keyring_result_is(v, k),
                Err((kind, m)) => r matches Err(e) && backend_error_is(e, kind, m),
            },
            match operation {
                CryptoOperation::Hash { algorithm, .. } => r matches Ok(CryptoResult::Hash(v)) ==> v@.len()
                    == sha2_digest_len(algorithm),
                _ => true,
            },
    {
        match operation {
            CryptoOperation::DeriveKey { context } => match self.derive_key_internal(key_id, &context) {
                Ok(k) => Ok(CryptoResult::DerivedKey(k)),
                Err(e) => Err(BackendError::OperationFailed(concat_str("Key derivation failed: ", e.as_str()))),
            },
            CryptoOperation::Encrypt { plaintext: _, algorithm } => match algorithm {
                SymmetricAlgorithm::Aes256Gcm => Err(
                    BackendError::UnsupportedOperation(
                        String::from_str(
                            "Encryption requires key derivation context. Use DeriveKey first, then use the raw key.",
                        ),
                    ),
                ),
                _ => {
                    let mut m = String::from_str("Symmetric algorithm ");
                    m.append(symmetric_name_str(algorithm));
                    m.append(" not supported by keyring backend");
                    Err(BackendError::UnsupportedOperation(m))
                },
            },
            CryptoOperation::Decrypt { ciphertext: _, algorithm } => match algorithm {
                SymmetricAlgorithm::Aes256Gcm => Err(
                    BackendError::UnsupportedOperation(
                        String::from_str(
                            "Decryption requires key derivation context. Use DeriveKey first, then use the raw key.",
                        ),
                    ),
                ),
                _ => {
                    let mut m = String::from_str("Symmetric algorithm ");
                    m.append(symmetric_name_str(algorithm));
                    m.append(" not supported by keyring backend");
                    Err(BackendError::UnsupportedOperation(m))
                },
            },
            CryptoOperation::Hash { data, algorithm } => match algorithm {
                HashAlgorithm::Sha256 => Ok(CryptoResult::Hash(sha256_digest(data.as_slice()))),
                HashAlgorithm::Sha384 => Ok(CryptoResult::Hash(sha384_digest(data.as_slice()))),
                HashAlgorithm::Sha512 => Ok(CryptoResult::Hash(sha512_digest(data.as_slice()))),
                HashAlgorithm::Blake2b => Err(
                    BackendError::UnsupportedOperation(
                        String::from_str("Hash algorithm Blake2b not supported by keyring backend"),
                    ),
                ),
            },
            _ => {
                let mut m = String::from_str("Operation ");
                m.append(refused_operation_debug(&operation).as_str());
                m.append(" not supported by keyring backend");
                Err(BackendError::UnsupportedOperation(m))
            },
        }
    }

    /// Whether the backend performs an operation: key derivation, and the
    /// SHA-2 hashes.
    pub fn supports(&self, operation: &CryptoOperation) -> (r: bool)
        ensures
            r == keyring_supports(*operation),
    {
        match operation {
            CryptoOperation::DeriveKey { .. } => true,
            CryptoOperation::Hash { algorithm, .. } => match algorithm {
                HashAlgorithm::Blake2b => false,
                _ => true,
            },
            _ => false,
        }
    }

    /// The backend's capabilities: SHA-2 hashes and key derivation, nothing
    /// else.
    pub fn capabilities(&self) -> (r: BackendCapabilities)
        ensures
            keyring_capabilities(r),
    {
        let r = BackendCapabilities {
            symmetric_algorithms: Vec::new(),
            asymmetric_algorithms: Vec::new(),
            signature_algorithms: Vec::new(),
            hash_algorithms: vec![HashAlgorithm::Sha256, HashAlgorithm::Sha384, HashAlgorithm::Sha512],
            hardware_backed: false,
            supports_key_derivation: true,
            supports_key_generation: false,
            supports_attestation: false,
            max_key_size: None,
        };
        assert(r.hash_algorithms@ =~= seq![HashAlgorithm::Sha256, HashAlgorithm::Sha384, HashAlgorithm::Sha512]);
        r
    }
}

/// The keyring backend's capabilities: key derivation and the SHA-2
/// hashes, nothing else.
pub open spec fn keyring_capabilities(r: BackendCapabilities) -> bool {
    &&& r.symmetric_algorithms@.len() == 0
    &&& r.asymmetric_algorithms@.len() == 0
    &&& r.signature_algorithms@.len() == 0
    &&& r.hash_algorithms@ == seq![HashAlgorithm::Sha256, HashAlgorithm::Sha384, HashAlgorithm::Sha512]
    &&& !r.hardware_backed
    &&& r.supports_key_derivation
    &&& !r.supports_key_generation
    &&& !r.supports_attestation
    &&& r.max_key_size is None
}

impl UniversalBackend for UniversalKeyringBackend {
    fn perform_operation(&mut self, key_id: &str, operation: CryptoOperation) -> (r: Result<CryptoResult, BackendError>)
        ensures
            match keyring_operation_outcome(old(self).passphrase(), key_id@, operation) {
                Ok(k) => r matches Ok(v) && keyring_result_is(v, k),
                Err((kind, m)) => r matches Err(e) && backend_error_is(e, kind, m),
            },
            match operation {
                CryptoOperation::Hash { algorithm, .. } => r matches Ok(CryptoResult::Hash(v)) ==> v@.len()
                    == sha2_digest_len(algorithm),
                _ => true,
            },
            *final(self) == *old(self),
    {
        self.perform(key_id, operation)
    }

    fn supports_operation(&self, operation: &CryptoOperation) -> (r: bool)
        ensures
            r == keyring_supports(*operation),
    {
        self.supports(operation)
    }

    fn get_capabilities(&self) -> (r: BackendCapabilities)
        ensures
            keyring_capabilities(r),
    {
        self.capabilities()
    }

    fn backend_info(&self) -> (r: BackendInfo)
        ensures
            keyring_info(r),
    {
        BackendInfo::keyring()
    }
}

} // verus!
