//! Software HSM: a software stand-in for a hardware security module, with
//! Ed25519 and ECDSA P-256 keys, signing, verification and hashing.
//!
//! The backend keeps each key's metadata, its private key and its public
//! key.  On disk a private key is protected under the configured
//! passphrase (see [`private_key_file`]).  Reading and writing the key files
//! and the metadata file is the application's part: it recovers each
//! private key with [`SoftwareHsmBackend::recover_private_key`], restores a
//! backend from what it read with [`SoftwareHsmBackend::restore`], and
//! writes what [`SoftwareHsmBackend::generate_key_pair`] returns.

use crate::backends::traits::{BackendInfo, KeyMetadata};
use crate::backends::universal::{
    AsymmetricAlgorithm, BackendCapabilities, CryptoOperation, CryptoResult, HashAlgorithm,
    SignatureAlgorithm, UniversalBackend,
};
use crate::backends::universal_keyring::{
    asymmetric_name, asymmetric_name_str, sha2_digest_len, signature_name, signature_name_str,
};
use crate::error::{backend_error_is, BackendError, BackendFault};
use crate::primitives::{
    ed25519_accepts, ed25519_key_check, ed25519_key_decodes, ed25519_key_error_of, ed25519_public_key,
    ed25519_public_of, ed25519_sign, ed25519_signature_of, ed25519_verify_checked, p256_accepts,
    p256_der_check, p256_der_error_of, p256_der_parses, p256_point_check, p256_point_encoded,
    p256_point_error_of, p256_point_is_key, p256_point_on_curve, p256_public_of, p256_public_sec1,
    p256_random_secret, p256_secret_check, p256_secret_error_of, p256_secret_valid, p256_sign,
    p256_verify_point, random_bytes, sha256_digest, sha256_of, sha384_digest, sha384_of, sha512_digest,
    sha512_of,
};
use crate::text::{bytes_equal, concat_str, str_eq};
use crate::primitives::{blake3_keyed_hash, blake3_keyed_of, pbkdf2_sha256, pbkdf2_sha256_of};
use vstd::prelude::*;
use vstd::utf8::encode_utf8;

verus! {

/// Where the software HSM keeps its keys.
#[derive(Debug, Clone)]
pub struct SoftwareHsmConfig {
    /// Directory of the key files.
    pub key_store_path: String,
    /// Default passphrase for key encryption.
    pub default_passphrase: String,
    /// File of the key metadata.
    pub metadata_file: String,
}

impl Default for SoftwareHsmConfig {
    fn default() -> (r: SoftwareHsmConfig)
        ensures
            r.key_store_path@ == "./software_hsm_keys"@,
            r.default_passphrase@ == "changeme123!"@,
            r.metadata_file@ == "./software_hsm_keys/metadata.json"@,
    {
        SoftwareHsmConfig {
            key_store_path: String::from_str("./software_hsm_keys"),
            default_passphrase: String::from_str("changeme123!"),
            metadata_file: String::from_str("./software_hsm_keys/metadata.json"),
        }
    }
}

/// What the software HSM records about a key.
#[derive(Debug, Clone)]
pub struct SoftwareHsmKeyMetadata {
    pub key_id: String,
    pub algorithm: AsymmetricAlgorithm,
    pub private_key_path: String,
    pub public_key_path: String,
    /// Creation time (Unix seconds).
    pub created_at: u64,
    /// Last use for signing (Unix seconds).
    pub last_used: Option<u64>,
    pub description: String,
}

/// A key held by the software HSM: its metadata, its private key and its
/// public key.
#[derive(Debug, Clone)]
pub struct StoredKey {
    pub metadata: SoftwareHsmKeyMetadata,
    pub private_key: Vec<u8>,
    pub public_key: Vec<u8>,
}

/// The files a new key pair is to be written to.
#[derive(Debug, Clone)]
pub struct GeneratedKeyFiles {
    pub private_key_path: String,
    pub private_key: Vec<u8>,
    pub public_key_path: String,
    pub public_key: Vec<u8>,
}

/// The software HSM backend.
pub struct SoftwareHsmBackend {
    config: SoftwareHsmConfig,
    keys: Vec<StoredKey>,
    /// The key file key of the configured passphrase.
    file_key: [u8; 32],
}

/// Two metadata records with the same contents.
pub open spec fn same_metadata(a: SoftwareHsmKeyMetadata, b: SoftwareHsmKeyMetadata) -> bool {
    &&& a.key_id@ == b.key_id@
    &&& a.algorithm == b.algorithm
    &&& a.private_key_path@ == b.private_key_path@
    &&& a.public_key_path@ == b.public_key_path@
    &&& a.created_at == b.created_at
    &&& a.last_used == b.last_used
    &&& a.description@ == b.description@
}

/// The keys held after storing each of `keys` in turn into `held`: a key
/// whose identifier is held replaces that entry, another is appended.
pub open spec fn stored_all(held: Seq<StoredKey>, keys: Seq<StoredKey>) -> Seq<StoredKey>
    decreases keys.len(),
{
    if keys.len() == 0 {
        held
    } else {
        let k = keys[0];
        let next = match key_position(held, k.metadata.key_id@) {
            Some(i) => held.update(i, k),
            None => held.push(k),
        };
        stored_all(next, keys.drop_first())
    }
}

/// Key identifiers are unique.
pub open spec fn unique_key_ids(keys: Seq<StoredKey>) -> bool {
    forall|i: int, j: int|
        0 <= i < j < keys.len() ==> (#[trigger] keys[i]).metadata.key_id@ != (#[trigger] keys[j]).metadata.key_id@
}

/// The key at `i` is the first with identifier `id`.
pub open spec fn first_with_id(keys: Seq<StoredKey>, id: Seq<char>, i: int) -> bool {
    &&& 0 <= i < keys.len()
    &&& keys[i].metadata.key_id@ == id
    &&& forall|j: int| 0 <= j < i ==> (#[trigger] keys[j]).metadata.key_id@ != id
}

/// The position of the (first) key `id`, if held.
pub open spec fn key_position(keys: Seq<StoredKey>, id: Seq<char>) -> Option<int> {
    if exists|i: int| #[trigger] first_with_id(keys, id, i) {
        Some(choose|i: int| #[trigger] first_with_id(keys, id, i))
    } else {
        None
    }
}

/// `base` joined with a relative or absolute `name`, as file paths join: an
/// absolute name replaces the base, and a separator is added when the base
/// lacks one.
pub open spec fn join_path(base: Seq<char>, name: Seq<char>) -> Seq<char> {
    if name.len() > 0 && name[0] == '/' {
        name
    } else if base.len() == 0 {
        name
    } else if base.last() == '/' {
        base + name
    } else {
        base + "/"@ + name
    }
}

fn join(base: &str, name: &str) -> (r: String)
    ensures
        r@ == join_path(base@, name@),
{
    let nb = name.unicode_len();
    if nb > 0 && name.get_char(0) == '/' {
        return String::from_str(name);
    }
    let bl = base.unicode_len();
    if bl == 0 {
        return String::from_str(name);
    }
    if base.get_char(bl - 1) == '/' {
        return concat_str(base, name);
    }
    let mut s = String::from_str(base);
    s.append("/");
    s.append(name);
    s
}

/// The text of a signature algorithm paired with a key algorithm that
/// cannot make it.
pub open spec fn incompatible_text(k: AsymmetricAlgorithm, s: SignatureAlgorithm) -> Seq<char> {
    "Incompatible key algorithm "@ + asymmetric_name(k) + " with signature algorithm "@ + signature_name(s)
}

fn incompatible(k: AsymmetricAlgorithm, s: SignatureAlgorithm) -> (r: String)
    ensures
        r@ == incompatible_text(k, s),
{
    let mut m = String::from_str("Incompatible key algorithm ");
    m.append(asymmetric_name_str(k));
    m.append(" with signature algorithm ");
    m.append(signature_name_str(s));
    m
}

/// What signing with a stored key gives: the signature, or the reason.
pub open spec fn sign_outcome(key: StoredKey, data: Seq<u8>, algorithm: SignatureAlgorithm) -> Result<
    Seq<u8>,
    Seq<char>,
> {
    match (key.metadata.algorithm, algorithm) {
        (AsymmetricAlgorithm::Ed25519, SignatureAlgorithm::Ed25519) => if key.private_key@.len() != 32 {
            Err("Invalid Ed25519 private key length"@)
        } else {
            Ok(ed25519_signature_of(key.private_key@, data))
        },
        (AsymmetricAlgorithm::EcdsaP256, SignatureAlgorithm::EcdsaP256) => if key.private_key@.len() != 32 {
            Err("Invalid P256 private key length"@)
        } else if !p256_secret_valid(key.private_key@) {
            Err("Failed to parse P256 private key: "@ + p256_secret_error_of(key.private_key@))
        } else {
            Ok(Seq::empty())
        },
        _ => Err(incompatible_text(key.metadata.algorithm, algorithm)),
    }
}

/// What verifying with a stored key gives: the verdict, or the reason it
/// could not be reached.
pub open spec fn verify_outcome(
    key: StoredKey,
    data: Seq<u8>,
    signature: Seq<u8>,
    algorithm: SignatureAlgorithm,
) -> Result<bool, Seq<char>> {
    let pk = key.public_key@;
    match (key.metadata.algorithm, algorithm) {
        (AsymmetricAlgorithm::Ed25519, SignatureAlgorithm::Ed25519) => if pk.len() != 32 {
            Err("Invalid Ed25519 public key length"@)
        } else if !ed25519_key_decodes(pk) {
            Err("Invalid Ed25519 public key: "@ + ed25519_key_error_of(pk))
        } else if signature.len() != 64 {
            Err("Invalid Ed25519 signature length"@)
        } else {
            Ok(ed25519_accepts(pk, data, signature))
        },
        (AsymmetricAlgorithm::EcdsaP256, SignatureAlgorithm::EcdsaP256) => if !p256_point_encoded(pk) {
            Err("Invalid P256 public key encoding: "@ + p256_point_error_of(pk))
        } else if !p256_point_on_curve(pk) {
            Err("Invalid P256 public key"@)
        } else if !p256_der_parses(signature) {
            Err("Failed to parse P256 signature: "@ + p256_der_error_of(signature))
        } else {
            Ok(p256_accepts(pk, data, signature))
        },
        _ => Err(incompatible_text(key.metadata.algorithm, algorithm)),
    }
}

/// The digest of `data`, for the SHA-2 hashes.
pub open spec fn hsm_hash(data: Seq<u8>, algorithm: HashAlgorithm) -> Option<Seq<u8>> {
    match algorithm {
        HashAlgorithm::Sha256 => Some(sha256_of(data)),
        HashAlgorithm::Sha384 => Some(sha384_of(data)),
        HashAlgorithm::Sha512 => Some(sha512_of(data)),
        HashAlgorithm::Blake2b => None,
    }
}

/// The operations the software HSM performs.
pub open spec fn hsm_supports(op: CryptoOperation) -> bool {
    match op {
        CryptoOperation::Sign { algorithm, .. } => algorithm == SignatureAlgorithm::Ed25519 || algorithm
            == SignatureAlgorithm::EcdsaP256,
        CryptoOperation::Verify { algorithm, .. } => algorithm == SignatureAlgorithm::Ed25519 || algorithm
            == SignatureAlgorithm::EcdsaP256,
        CryptoOperation::GetPublicKey => true,
        CryptoOperation::GenerateKeyPair { algorithm } => algorithm == AsymmetricAlgorithm::Ed25519
            || algorithm == AsymmetricAlgorithm::EcdsaP256,
        CryptoOperation::Hash { algorithm, .. } => algorithm != HashAlgorithm::Blake2b,
        _ => false,
    }
}

/// PBKDF2-HMAC-SHA256 rounds of the key that protects private key files.
pub const KEY_FILE_ROUNDS: u32 = 600_000;

/// The salt of the key file key: `trustedge-software-hsm`.
pub open spec fn key_file_salt() -> Seq<u8> {
    encode_utf8("trustedge-software-hsm"@)
}

/// The key that protects the private key files of a backend: PBKDF2-HMAC-
/// SHA256 of its passphrase ([`KEY_FILE_ROUNDS`] rounds, salt
/// [`key_file_salt`]).
pub open spec fn key_file_key(passphrase: Seq<char>) -> Seq<u8> {
    pbkdf2_sha256_of(encode_utf8(passphrase), key_file_salt(), KEY_FILE_ROUNDS)
}

/// The 32-byte mask of the private key file of `key_id` under a passphrase:
/// the BLAKE3 keyed hash of the identifier under the key file key.
pub open spec fn key_file_mask(passphrase: Seq<char>, key_id: Seq<char>) -> Seq<u8> {
    blake3_keyed_of(key_file_key(passphrase), encode_utf8(key_id))
}

/// Bytes combined by exclusive or with a 32-byte mask, repeated as needed.
pub open spec fn masked(data: Seq<u8>, mask: Seq<u8>) -> Seq<u8> {
    Seq::new(data.len(), |i: int| data[i] ^ mask[i % 32])
}

/// The contents of the private key file of `key_id`: the secret masked
/// under the passphrase, as long as the secret.
pub open spec fn private_key_file(passphrase: Seq<char>, key_id: Seq<char>, secret: Seq<u8>) -> Seq<u8> {
    masked(secret, key_file_mask(passphrase, key_id))
}

fn mask_bytes(data: &[u8], mask: &[u8; 32]) -> (r: Vec<u8>)
    ensures
        r@ == masked(data@, mask@),
{
    let mut out: Vec<u8> = Vec::new();
    let mut i: usize = 0;
    while i < data.len()
        invariant
            i <= data@.len(),
            out@.len() == i,
            forall|j: int| 0 <= j < i ==> out@[j] == data@[j] ^ mask@[j % 32],
        decreases data@.len() - i,
    {
        out.push(data[i] ^ mask[i % 32]);
        i = i + 1;
    }
    assert(out@ =~= masked(data@, mask@));
    out
}

fn derive_key_file_key(passphrase: &str) -> (r: [u8; 32])
    ensures
        r@ == key_file_key(passphrase@),
{
    let salt = "trustedge-software-hsm";
    pbkdf2_sha256(passphrase.as_bytes(), salt.as_bytes(), KEY_FILE_ROUNDS)
}

/// The private key file of a secret, recovered under the same passphrase
/// and identifier, gives the secret back.
pub proof fn law_private_key_file_recovers(passphrase: Seq<char>, key_id: Seq<char>, secret: Seq<u8>)
    ensures
        masked(private_key_file(passphrase, key_id, secret), key_file_mask(passphrase, key_id)) == secret,
        private_key_file(passphrase, key_id, secret).len() == secret.len(),
{
    let m = key_file_mask(passphrase, key_id);
    let f = private_key_file(passphrase, key_id, secret);
    assert forall|i: int| 0 <= i < secret.len() implies #[trigger] masked(f, m)[i] == secret[i] by {
        let a = secret[i];
        let b = m[i % 32];
        assert((a ^ b) ^ b == a) by (bit_vector);
    }
    assert(masked(f, m) =~= secret);
}

impl SoftwareHsmBackend {
    /// The configuration.
    pub closed spec fn spec_config(&self) -> SoftwareHsmConfig {
        self.config
    }

    /// The keys held, in the order they were added.
    pub closed spec fn spec_keys(&self) -> Seq<StoredKey> {
        self.keys@
    }

    /// Where the backend keeps its keys.
    pub fn config(&self) -> (r: &SoftwareHsmConfig)
        ensures
            *r == self.spec_config(),
    {
        &self.config
    }

    /// No two keys share an identifier.
    pub open spec fn well_formed(&self) -> bool {
        unique_key_ids(self.spec_keys())
    }

    /// Every backend is well formed (no two keys share an identifier) and
    /// holds the key file key of its passphrase.
    #[verifier::type_invariant]
    spec fn backend_invariant(self) -> bool {
        &&& unique_key_ids(self.keys@)
        &&& self.file_key@ == key_file_key(self.config.default_passphrase@)
    }

    /// Protects a private key of `key_id` for its file (see
    /// [`private_key_file`]) under the configured passphrase.
    pub fn protect_private_key(&self, key_id: &str, secret: &[u8]) -> (r: Vec<u8>)
        ensures
            r@ == private_key_file(self.spec_config().default_passphrase@, key_id@, secret@),
    {
        proof {
            use_type_invariant(self);
        }
        let mask = blake3_keyed_hash(&self.file_key, key_id.as_bytes());
        mask_bytes(secret, &mask)
    }

    /// Recovers a private key of `key_id` from its file under the
    /// configured passphrase: the mask applied once more.
    pub fn recover_private_key(&self, key_id: &str, file: &[u8]) -> (r: Vec<u8>)
        ensures
            r@ == masked(file@, key_file_mask(self.spec_config().default_passphrase@, key_id@)),
            forall|secret: Seq<u8>|
                file@ == private_key_file(self.spec_config().default_passphrase@, key_id@, secret) ==> r@
                    == secret,
    {
        proof {
            use_type_invariant(self);
        }
        let mask = blake3_keyed_hash(&self.file_key, key_id.as_bytes());
        let r = mask_bytes(file, &mask);
        proof {
            assert forall|secret: Seq<u8>|
                file@ == private_key_file(self.spec_config().default_passphrase@, key_id@, secret) implies r@
                == secret by {
                law_private_key_file_recovers(self.spec_config().default_passphrase@, key_id@, secret);
            }
        }
        r
    }

    /// A backend with the default configuration holding no keys yet.
    pub fn new() -> (r: Result<SoftwareHsmBackend, String>)
        ensures
            r matches Ok(b) && b.well_formed() && b.spec_keys().len() == 0 && b.spec_config().key_store_path@
                == "./software_hsm_keys"@ && b.spec_config().default_passphrase@ == "changeme123!"@
                && b.spec_config().metadata_file@ == "./software_hsm_keys/metadata.json"@,
    {
        SoftwareHsmBackend::with_config(SoftwareHsmConfig::default())
    }

    /// A backend with the given configuration holding no keys yet.
    pub fn with_config(config: SoftwareHsmConfig) -> (r: Result<SoftwareHsmBackend, String>)
        ensures
            r matches Ok(b) && b.well_formed() && b.spec_keys().len() == 0 && b.spec_config() == config,
    {
        let file_key = derive_key_file_key(config.default_passphrase.as_str());
        Ok(SoftwareHsmBackend { config, keys: Vec::new(), file_key })
    }

    /// A backend holding the keys read from its store, stored one after the
    /// other (see [`stored_all`]): a later key with the identifier of an
    /// earlier one replaces it.
    pub fn restore(config: SoftwareHsmConfig, keys: Vec<StoredKey>) -> (r: SoftwareHsmBackend)
        ensures
            r.well_formed(),
            r.spec_config() == config,
            r.spec_keys() == stored_all(Seq::empty(), keys@),
            forall|i: int| 0 <= i < keys@.len() ==> #[trigger] key_position(r.spec_keys(), keys@[i].metadata.key_id@) is Some,
    {
        let file_key = derive_key_file_key(config.default_passphrase.as_str());
        let mut b = SoftwareHsmBackend { config, keys: Vec::new(), file_key };
        let mut rest = keys;
        let ghost all = rest@;
        let ghost n = all.len();
        let ghost mut i: int = 0;
        assert(b.spec_keys() =~= Seq::<StoredKey>::empty());
        while rest.len() > 0
            invariant
                0 <= i <= n,
                n == all.len(),
                rest@ == all.subrange(i, n as int),
                b.well_formed(),
                b.spec_config() == config,
                stored_all(b.spec_keys(), rest@) == stored_all(Seq::empty(), all),
                forall|j: int| 0 <= j < i ==> #[trigger] key_position(b.spec_keys(), all[j].metadata.key_id@) is Some,
            decreases rest@.len(),
        {
            let ghost rest_before = rest@;
            let k = rest.remove(0);
            let ghost id = k.metadata.key_id@;
            let ghost before = b.spec_keys();
            b.store(k);
            proof {
                assert(all[i] == k);
                assert(rest@ =~= rest_before.drop_first());
                assert(stored_all(b.spec_keys(), rest@) == stored_all(before, rest_before));
                assert forall|j: int| 0 <= j <= i implies #[trigger] key_position(b.spec_keys(), all[j].metadata.key_id@) is Some by {
                    if j == i {
                        if let Some(p) = key_position(before, id) {
                            assert(b.spec_keys()[p].metadata.key_id@ == id);
                        } else {
                            assert(b.spec_keys()[before.len() as int].metadata.key_id@ == id);
                        }
                        lemma_position_after_store(b.spec_keys(), id);
                    } else {
                        let q = key_position(before, all[j].metadata.key_id@)->0;
                        assert(b.spec_keys()[q].metadata.key_id@ == all[j].metadata.key_id@);
                        lemma_position_after_store(b.spec_keys(), all[j].metadata.key_id@);
                    }
                }
                assert(rest@ =~= all.subrange(i + 1, n as int));
                i = i + 1;
            }
        }
        assert(rest@ =~= Seq::<StoredKey>::empty());
        b
    }

    fn find(&self, key_id: &str) -> (r: Option<usize>)
        ensures
            match r {
                Some(k) => k < self.spec_keys().len() && key_position(self.spec_keys(), key_id@) == Some(k as int)
                    && self.spec_keys()[k as int].metadata.key_id@ == key_id@,
                None => key_position(self.spec_keys(), key_id@) is None,
            },
    {
        let n = self.keys.len();
        let mut i: usize = 0;
        while i < n
            invariant
                i <= n,
                n == self.keys@.len(),
                forall|j: int| 0 <= j < i ==> (#[trigger] self.keys@[j]).metadata.key_id@ != key_id@,
            decreases n - i,
        {
            if str_eq(self.keys[i].metadata.key_id.as_str(), key_id) {
                proof {
                    let s = self.keys@;
                    assert(first_with_id(s, key_id@, i as int));
                    let p = choose|k: int| #[trigger] first_with_id(s, key_id@, k);
                    if p < i {
                        assert(s[p].metadata.key_id@ != key_id@);
                    } else if p > i {
                        assert(s[i as int].metadata.key_id@ != key_id@);
                    }
                }
                return Some(i);
            }
            i = i + 1;
        }
        proof {
            if exists|k: int| #[trigger] first_with_id(self.keys@, key_id@, k) {
                let p = choose|k: int| #[trigger] first_with_id(self.keys@, key_id@, k);
                assert(self.keys@[p].metadata.key_id@ != key_id@);
            }
        }
        None
    }

    /// Adds a key, replacing the one with the same identifier.
    fn store(&mut self, key: StoredKey)
        requires
            old(self).well_formed(),
        ensures
            final(self).well_formed(),
            final(self).spec_config() == old(self).spec_config(),
            match key_position(old(self).spec_keys(), key.metadata.key_id@) {
                Some(i) => final(self).spec_keys() == old(self).spec_keys().update(i, key),
                None => final(self).spec_keys() == old(self).spec_keys().push(key),
            },
    {
        let found = self.find(key.metadata.key_id.as_str());
        proof {
            use_type_invariant(&*self);
        }
        let mut keys: Vec<StoredKey> = Vec::new();
        std::mem::swap(&mut keys, &mut self.keys);
        let ghost before = keys@;
        match found {
            Some(i) => {
                keys.set(i, key);
                proof {
                    assert forall|a: int, b: int| 0 <= a < b < keys@.len() implies (#[trigger] keys@[a]).metadata.key_id@
                        != (#[trigger] keys@[b]).metadata.key_id@ by {
                        if a == i {
                            assert(before[i as int].metadata.key_id@ != before[b].metadata.key_id@);
                        } else if b == i {
                            assert(before[a].metadata.key_id@ != before[i as int].metadata.key_id@);
                        } else {
                            assert(before[a].metadata.key_id@ != before[b].metadata.key_id@);
                        }
                    }
                }
            },
            None => {
                proof {
                    if exists|i: int| 0 <= i < before.len() && (#[trigger] before[i]).metadata.key_id@ == key.metadata.key_id@ {
                        lemma_position_after_store(before, key.metadata.key_id@);
                    }
                }
                keys.push(key);
                proof {
                    assert forall|a: int, b: int| 0 <= a < b < keys@.len() implies (#[trigger] keys@[a]).metadata.key_id@
                        != (#[trigger] keys@[b]).metadata.key_id@ by {
                        if b == before.len() {
                            assert(before[a].metadata.key_id@ != keys@[b].metadata.key_id@);
                        } else {
                            assert(before[a].metadata.key_id@ != before[b].metadata.key_id@);
                        }
                    }
                }
            },
        }
        self.keys = keys;
    }

    /// The metadata of every key held, in the order they were added.
    pub fn key_metadata(&self) -> (r: Vec<SoftwareHsmKeyMetadata>)
        ensures
            r@.len() == self.spec_keys().len(),
            forall|i: int| 0 <= i < r@.len() ==> same_metadata(#[trigger] r@[i], self.spec_keys()[i].metadata),
    {
        let mut out: Vec<SoftwareHsmKeyMetadata> = Vec::new();
        let n = self.keys.len();
        let mut i: usize = 0;
        while i < n
            invariant
                i <= n,
                n == self.keys@.len(),
                out@.len() == i,
                forall|j: int| 0 <= j < i ==> same_metadata(#[trigger] out@[j], self.keys@[j].metadata),
            decreases n - i,
        {
            let m = &self.keys[i].metadata;
            out.push(
                SoftwareHsmKeyMetadata {
                    key_id: m.key_id.clone(),
                    algorithm: m.algorithm,
                    private_key_path: m.private_key_path.clone(),
                    public_key_path: m.public_key_path.clone(),
                    created_at: m.created_at,
                    last_used: m.last_used,
                    description: m.description.clone(),
                },
            );
            i = i + 1;
        }
        out
    }

    /// The paths of the two key files of `key_id`:
    /// `<store>/<key_id>_private.key` and `<store>/<key_id>_public.key`.
    pub fn key_file_paths(&self, key_id: &str) -> (r: (String, String))
        ensures
            r.0@ == join_path(self.spec_config().key_store_path@, key_id@ + "_private.key"@),
            r.1@ == join_path(self.spec_config().key_store_path@, key_id@ + "_public.key"@),
    {
        let private_name = concat_str(key_id, "_private.key");
        let public_name = concat_str(key_id, "_public.key");
        (
            join(self.config.key_store_path.as_str(), private_name.as_str()),
            join(self.config.key_store_path.as_str(), public_name.as_str()),
        )
    }

    /// Generates a key pair, records it under `key_id` (replacing a key of
    /// the same identifier in its place, else adding it last, and leaving
    /// every other key as it was) and returns the key files to write: the
    /// private key protected under the configured passphrase (see
    /// [`private_key_file`]) and the public key.  The description defaults
    /// to the algorithm's name and ` key`.  Only Ed25519 and ECDSA P-256 are
    /// supported.
    pub fn generate_key_pair(
        &mut self,
        key_id: &str,
        algorithm: AsymmetricAlgorithm,
        description: Option<String>,
        now: u64,
    ) -> (r: Result<GeneratedKeyFiles, String>)
        ensures
            final(self).well_formed(),
            final(self).spec_config() == old(self).spec_config(),
            match algorithm {
                AsymmetricAlgorithm::Ed25519 | AsymmetricAlgorithm::EcdsaP256 => r matches Ok(files) && {
                    let k = key_position(final(self).spec_keys(), key_id@);
                    &&& k is Some
                    &&& final(self).spec_keys()[k->0].metadata.algorithm == algorithm
                    &&& final(self).spec_keys()[k->0].metadata.created_at == now
                    &&& final(self).spec_keys()[k->0].metadata.last_used is None
                    &&& files.private_key@ == private_key_file(
                        old(self).spec_config().default_passphrase@,
                        key_id@,
                        final(self).spec_keys()[k->0].private_key@,
                    )
                    &&& final(self).spec_keys()[k->0].public_key@ == files.public_key@
                    &&& final(self).spec_keys()[k->0].private_key@.len() == 32
                    &&& files.private_key@.len() == 32
                    &&& (algorithm == AsymmetricAlgorithm::Ed25519 ==> files.public_key@ == ed25519_public_of(
                        final(self).spec_keys()[k->0].private_key@,
                    ))
                    &&& (algorithm == AsymmetricAlgorithm::EcdsaP256 ==> files.public_key@ == p256_public_of(
                        final(self).spec_keys()[k->0].private_key@,
                    ) && p256_secret_valid(final(self).spec_keys()[k->0].private_key@))
                    &&& files.private_key_path@ == join_path(
                        old(self).spec_config().key_store_path@,
                        key_id@ + "_private.key"@,
                    )
                    &&& files.public_key_path@ == join_path(
                        old(self).spec_config().key_store_path@,
                        key_id@ + "_public.key"@,
                    )
                    &&& final(self).spec_keys()[k->0].metadata.description@ == match description {
                        Some(d) => d@,
                        None => asymmetric_name(algorithm) + " key"@,
                    }
                    &&& final(self).spec_keys()[k->0].metadata.private_key_path@ == files.private_key_path@
                    &&& final(self).spec_keys()[k->0].metadata.public_key_path@ == files.public_key_path@
                    &&& match key_position(old(self).spec_keys(), key_id@) {
                        Some(i) => k == Some(i) && final(self).spec_keys().len() == old(self).spec_keys().len(),
                        None => k == Some(old(self).spec_keys().len() as int) && final(self).spec_keys().len()
                            == old(self).spec_keys().len() + 1,
                    }
                    &&& forall|j: int|
                        0 <= j < old(self).spec_keys().len() && j != k->0 ==> #[trigger] final(self).spec_keys()[j]
                            == old(self).spec_keys()[j]
                    &&& forall|j: int|
                        0 <= j < old(self).spec_keys().len() && old(self).spec_keys()[j].metadata.key_id@ != key_id@
                            ==> #[trigger] key_position(final(self).spec_keys(), old(self).spec_keys()[j].metadata.key_id@)
                            is Some
                },
                _ => r matches Err(e) && e@ == "Unsupported algorithm for Software HSM: "@ + asymmetric_name(
                    algorithm,
                ) + ". Use Ed25519 or EcdsaP256."@ && final(self).spec_keys() == old(self).spec_keys(),
            },
    {
        proof {
            use_type_invariant(&*self);
        }
        let (private_key_path, public_key_path) = self.key_file_paths(key_id);
        let (private_key, public_key): (Vec<u8>, Vec<u8>) = match algorithm {
            AsymmetricAlgorithm::Ed25519 => {
                let secret: [u8; 32] = random_bytes::<32>();
                let public = ed25519_public_key(&secret);
                let mut sv: Vec<u8> = Vec::new();
                crate::codec::push_all(&mut sv, secret.as_slice());
                let mut pv: Vec<u8> = Vec::new();
                crate::codec::push_all(&mut pv, public.as_slice());
                (sv, pv)
            },
            AsymmetricAlgorithm::EcdsaP256 => {
                let secret = p256_random_secret();
                let public = p256_public_sec1(secret.as_slice());
                let mut sv: Vec<u8> = Vec::new();
                crate::codec::push_all(&mut sv, secret.as_slice());
                (sv, public)
            },
            _ => {
                let mut m = String::from_str("Unsupported algorithm for Software HSM: ");
                m.append(asymmetric_name_str(algorithm));
                m.append(". Use Ed25519 or EcdsaP256.");
                return Err(m);
            },
        };
        let description = match description {
            Some(d) => d,
            None => concat_str(asymmetric_name_str(algorithm), " key"),
        };
        let metadata = SoftwareHsmKeyMetadata {
            key_id: String::from_str(key_id),
            algorithm,
            private_key_path: private_key_path.clone(),
            public_key_path: public_key_path.clone(),
            created_at: now,
            last_used: None,
            description,
        };
        let protected = self.protect_private_key(key_id, private_key.as_slice());
        proof {
            law_private_key_file_recovers(self.spec_config().default_passphrase@, key_id@, private_key@);
        }
        let files = GeneratedKeyFiles {
            private_key_path,
            private_key: protected,
            public_key_path,
            public_key: public_key.clone(),
        };
        let ghost before = self.keys@;
        self.store(StoredKey { metadata, private_key, public_key });
        proof {
            if let Some(p) = key_position(before, key_id@) {
                assert(self.keys@[p].metadata.key_id@ == key_id@);
            } else {
                assert(self.keys@[before.len() as int].metadata.key_id@ == key_id@);
            }
            lemma_position_after_store(self.keys@, key_id@);
            assert forall|j: int|
                0 <= j < before.len() && before[j].metadata.key_id@ != key_id@ implies #[trigger] key_position(
                self.keys@,
                before[j].metadata.key_id@,
            ) is Some by {
                assert(self.keys@[j] == before[j]);
                lemma_position_after_store(self.keys@, before[j].metadata.key_id@);
            }
        }
        Ok(files)
    }

    /// The public key file of `key_id`.
    pub fn load_public_key(&self, key_id: &str) -> (r: Result<Vec<u8>, String>)
        ensures
            match key_position(self.spec_keys(), key_id@) {
                Some(i) => r matches Ok(v) && v@ == self.spec_keys()[i].public_key@,
                None => r matches Err(e) && e@ == "Key not found: "@ + key_id@,
            },
    {
        match self.find(key_id) {
            Some(i) => Ok(self.keys[i].public_key.clone()),
            None => Err(concat_str("Key not found: ", key_id)),
        }
    }

    /// Signs `data` with the key `key_id` under a compatible algorithm and
    /// records the use at `now`; see [`sign_outcome`].  A P-256 signature
    /// is DER-encoded and verifies under the key's public point.
    pub fn sign_data(&mut self, key_id: &str, data: &[u8], algorithm: SignatureAlgorithm, now: u64) -> (r: Result<
        Vec<u8>,
        String,
    >)
        ensures
            final(self).well_formed(),
            final(self).spec_config() == old(self).spec_config(),
            final(self).spec_keys().len() == old(self).spec_keys().len(),
            match key_position(old(self).spec_keys(), key_id@) {
                None => r matches Err(e) && e@ == "Key not found: "@ + key_id@ && final(self).spec_keys()
                    == old(self).spec_keys(),
                Some(i) => {
                    let key = old(self).spec_keys()[i];
                    match sign_outcome(key, data@, algorithm) {
                        Err(m) => r matches Err(e) && e@ == m && final(self).spec_keys() == old(self).spec_keys(),
                        Ok(sig) => r matches Ok(v) && (algorithm == SignatureAlgorithm::Ed25519 ==> v@ == sig)
                            && (algorithm == SignatureAlgorithm::EcdsaP256 ==> p256_der_parses(v@) && p256_accepts(
                            p256_public_of(key.private_key@),
                            data@,
                            v@,
                        )) && final(self).spec_keys()[i].metadata.last_used == Some(now)
                            && final(self).spec_keys()[i].private_key == key.private_key
                            && final(self).spec_keys()[i].public_key == key.public_key
                            && final(self).spec_keys()[i].metadata.key_id@ == key_id@
                            && (forall|j: int| 0 <= j < old(self).spec_keys().len() && j != i
                            ==> final(self).spec_keys()[j] == old(self).spec_keys()[j]),
                    }
                },
            },
    {
        proof {
            use_type_invariant(&*self);
        }
        let i = match self.find(key_id) {
            Some(i) => i,
            None => {
                return Err(concat_str("Key not found: ", key_id));
            },
        };
        let sig = match self.signature_with(i, data, algorithm) {
            Ok(s) => s,
            Err(e) => {
                return Err(e);
            },
        };
        self.update_key_usage(i, now);
        Ok(sig)
    }

    /// Records `now` as the last use of the key at position `i`.
    fn update_key_usage(&mut self, i: usize, now: u64)
        requires
            old(self).well_formed(),
            i < old(self).spec_keys().len(),
        ensures
            final(self).well_formed(),
            final(self).spec_config() == old(self).spec_config(),
            final(self).spec_keys().len() == old(self).spec_keys().len(),
            forall|j: int| 0 <= j < old(self).spec_keys().len() && j != i ==> final(self).spec_keys()[j] == old(self).spec_keys()[j],
            final(self).spec_keys()[i as int].metadata.last_used == Some(now),
            final(self).spec_keys()[i as int].metadata.key_id@ == old(self).spec_keys()[i as int].metadata.key_id@,
            final(self).spec_keys()[i as int].private_key == old(self).spec_keys()[i as int].private_key,
            final(self).spec_keys()[i as int].public_key == old(self).spec_keys()[i as int].public_key,
    {
        proof {
            use_type_invariant(&*self);
        }
        let mut keys: Vec<StoredKey> = Vec::new();
        std::mem::swap(&mut keys, &mut self.keys);
        let ghost before = keys@;
        let mut entry = keys.remove(i);
        entry.metadata.last_used = Some(now);
        keys.insert(i, entry);
        proof {
            assert(keys@ =~= before.update(i as int, keys@[i as int]));
            assert forall|a: int, b: int| 0 <= a < b < keys@.len() implies (#[trigger] keys@[a]).metadata.key_id@
                != (#[trigger] keys@[b]).metadata.key_id@ by {
                assert(before[a].metadata.key_id@ != before[b].metadata.key_id@);
            }
        }
        self.keys = keys;
    }

    fn signature_with(&self, i: usize, data: &[u8], algorithm: SignatureAlgorithm) -> (r: Result<Vec<u8>, String>)
        requires
            i < self.spec_keys().len(),
        ensures
            match sign_outcome(self.spec_keys()[i as int], data@, algorithm) {
                Err(m) => r matches Err(e) && e@ == m,
                Ok(sig) => r matches Ok(v) && (algorithm == SignatureAlgorithm::Ed25519 ==> v@ == sig) && (
                algorithm == SignatureAlgorithm::EcdsaP256 ==> p256_der_parses(v@) && p256_accepts(
                    p256_public_of(self.spec_keys()[i as int].private_key@),
                    data@,
                    v@,
                )),
            },
    {
        let key = &self.keys[i];
        match (key.metadata.algorithm, algorithm) {
            (AsymmetricAlgorithm::Ed25519, SignatureAlgorithm::Ed25519) => {
                if key.private_key.len() != 32 {
                    return Err(String::from_str("Invalid Ed25519 private key length"));
                }
                let secret: [u8; 32] = crate::codec::read_array::<32>(key.private_key.as_slice(), 0);
                assert(secret@ =~= key.private_key@);
                let sig = ed25519_sign(&secret, data);
                let mut v: Vec<u8> = Vec::new();
                crate::codec::push_all(&mut v, sig.as_slice());
                Ok(v)
            },
            (AsymmetricAlgorithm::EcdsaP256, SignatureAlgorithm::EcdsaP256) => {
                if key.private_key.len() != 32 {
                    return Err(String::from_str("Invalid P256 private key length"));
                }
                match p256_secret_check(key.private_key.as_slice()) {
                    Ok(()) => {},
                    Err(e) => {
                        return Err(concat_str("Failed to parse P256 private key: ", e.as_str()));
                    },
                }
                Ok(p256_sign(key.private_key.as_slice(), data))
            },
            _ => Err(incompatible(key.metadata.algorithm, algorithm)),
        }
    }

    /// Verifies `signature` on `data` with the key `key_id` under a
    /// compatible algorithm; see [`verify_outcome`].
    pub fn verify_signature(&self, key_id: &str, data: &[u8], signature: &[u8], algorithm: SignatureAlgorithm) -> (r:
        Result<bool, String>)
        ensures
            match key_position(self.spec_keys(), key_id@) {
                None => r matches Err(e) && e@ == "Key not found: "@ + key_id@,
                Some(i) => match verify_outcome(self.spec_keys()[i], data@, signature@, algorithm) {
                    Ok(v) => r == Ok::<bool, String>(v),
                    Err(m) => r matches Err(e) && e@ == m,
                },
            },
    {
        let i = match self.find(key_id) {
            Some(i) => i,
            None => {
                return Err(concat_str("Key not found: ", key_id));
            },
        };
        let key = &self.keys[i];
        match (key.metadata.algorithm, algorithm) {
            (AsymmetricAlgorithm::Ed25519, SignatureAlgorithm::Ed25519) => {
                if key.public_key.len() != 32 {
                    return Err(String::from_str("Invalid Ed25519 public key length"));
                }
                let pk: [u8; 32] = crate::codec::read_array::<32>(key.public_key.as_slice(), 0);
                assert(pk@ =~= key.public_key@);
                match ed25519_key_check(&pk) {
                    Ok(()) => {},
                    Err(e) => {
                        return Err(concat_str("Invalid Ed25519 public key: ", e.as_str()));
                    },
                }
                if signature.len() != 64 {
                    return Err(String::from_str("Invalid Ed25519 signature length"));
                }
                let sig: [u8; 64] = crate::codec::read_array::<64>(signature, 0);
                assert(sig@ =~= signature@);
                Ok(ed25519_verify_checked(&pk, data, &sig).is_ok())
            },
            (AsymmetricAlgorithm::EcdsaP256, SignatureAlgorithm::EcdsaP256) => {
                match p256_point_check(key.public_key.as_slice()) {
                    Ok(()) => {},
                    Err(e) => {
                        return Err(concat_str("Invalid P256 public key encoding: ", e.as_str()));
                    },
                }
                if !p256_point_is_key(key.public_key.as_slice()) {
                    return Err(String::from_str("Invalid P256 public key"));
                }
                match p256_der_check(signature) {
                    Ok(()) => {},
                    Err(e) => {
                        return Err(concat_str("Failed to parse P256 signature: ", e.as_str()));
                    },
                }
                Ok(p256_verify_point(key.public_key.as_slice(), data, signature))
            },
            _ => Err(incompatible(key.metadata.algorithm, algorithm)),
        }
    }

    /// The SHA-2 digest of `data`.
    pub fn hash_data(&self, data: &[u8], algorithm: HashAlgorithm) -> (r: Result<Vec<u8>, String>)
        ensures
            match hsm_hash(data@, algorithm) {
                Some(h) => r matches Ok(v) && v@ == h && v@.len() == sha2_digest_len(algorithm),
                None => r matches Err(e) && e@ == "Unsupported hash algorithm: Blake2b"@,
            },
    {
        match algorithm {
            HashAlgorithm::Sha256 => Ok(sha256_digest(data)),
            HashAlgorithm::Sha384 => Ok(sha384_digest(data)),
            HashAlgorithm::Sha512 => Ok(sha512_digest(data)),
            HashAlgorithm::Blake2b => Err(String::from_str("Unsupported hash algorithm: Blake2b")),
        }
    }

    /// Whether the backend performs an operation; see [`hsm_supports`].
    pub fn supports(&self, operation: &CryptoOperation) -> (r: bool)
        ensures
            r == hsm_supports(*operation),
    {
        match operation {
            CryptoOperation::Sign { algorithm, .. } => match algorithm {
                SignatureAlgorithm::Ed25519 | SignatureAlgorithm::EcdsaP256 => true,
                _ => false,
            },
            CryptoOperation::Verify { algorithm, .. } => match algorithm {
                SignatureAlgorithm::Ed25519 | SignatureAlgorithm::EcdsaP256 => true,
                _ => false,
            },
            CryptoOperation::GetPublicKey => true,
            CryptoOperation::GenerateKeyPair { algorithm } => match algorithm {
                AsymmetricAlgorithm::Ed25519 | AsymmetricAlgorithm::EcdsaP256 => true,
                _ => false,
            },
            CryptoOperation::Hash { algorithm, .. } => match algorithm {
                HashAlgorithm::Blake2b => false,
                _ => true,
            },
            _ => false,
        }
    }

    /// The backend's capabilities: Ed25519 and P-256 keys and signatures,
    /// the SHA-2 hashes, key generation; no symmetric operations, key
    /// derivation or attestation; 256-bit keys.
    pub fn capabilities(&self) -> (r: BackendCapabilities)
        ensures
            hsm_capabilities(r),
    {
        let r = BackendCapabilities {
            symmetric_algorithms: Vec::new(),
            asymmetric_algorithms: vec![AsymmetricAlgorithm::Ed25519, AsymmetricAlgorithm::EcdsaP256],
            signature_algorithms: vec![SignatureAlgorithm::Ed25519, SignatureAlgorithm::EcdsaP256],
            hash_algorithms: vec![HashAlgorithm::Sha256, HashAlgorithm::Sha384, HashAlgorithm::Sha512],
            hardware_backed: false,
            supports_key_derivation: false,
            supports_key_generation: true,
            supports_attestation: false,
            max_key_size: Some(256),
        };
        assert(r.asymmetric_algorithms@ =~= seq![AsymmetricAlgorithm::Ed25519, AsymmetricAlgorithm::EcdsaP256]);
        assert(r.signature_algorithms@ =~= seq![SignatureAlgorithm::Ed25519, SignatureAlgorithm::EcdsaP256]);
        assert(r.hash_algorithms@ =~= seq![HashAlgorithm::Sha256, HashAlgorithm::Sha384, HashAlgorithm::Sha512]);
        r
    }

    /// The backend's description.
    pub fn info(&self) -> (r: BackendInfo)
        ensures
            hsm_info(r),
    {
        BackendInfo {
            name: "software_hsm",
            description: "Software HSM with asymmetric crypto operations",
            version: "1.0.0",
            available: true,
            config_requirements: vec!["key_store_path", "passphrase"],
        }
    }
}

/// The software HSM's capabilities: Ed25519 and P-256 keys and signatures,
/// the SHA-2 hashes, key generation; no symmetric operations, key
/// derivation or attestation; 256-bit keys.
pub open spec fn hsm_capabilities(r: BackendCapabilities) -> bool {
    &&& r.symmetric_algorithms@.len() == 0
    &&& r.asymmetric_algorithms@ == seq![AsymmetricAlgorithm::Ed25519, AsymmetricAlgorithm::EcdsaP256]
    &&& r.signature_algorithms@ == seq![SignatureAlgorithm::Ed25519, SignatureAlgorithm::EcdsaP256]
    &&& r.hash_algorithms@ == seq![HashAlgorithm::Sha256, HashAlgorithm::Sha384, HashAlgorithm::Sha512]
    &&& !r.hardware_backed
    &&& !r.supports_key_derivation
    &&& r.supports_key_generation
    &&& !r.supports_attestation
    &&& r.max_key_size == Some(256u32)
}

/// The software HSM's description.
pub open spec fn hsm_info(r: BackendInfo) -> bool {
    &&& r.name@ == "software_hsm"@
    &&& r.description@ == "Software HSM with asymmetric crypto operations"@
    &&& r.version@ == "1.0.0"@
    &&& r.available
    &&& r.config_requirements@.len() == 2
    &&& r.config_requirements@[0]@ == "key_store_path"@
    &&& r.config_requirements@[1]@ == "passphrase"@
}

/// The message of operations the software HSM does not perform.
pub open spec fn hsm_refusal_text() -> Seq<char> {
    "Operation not supported by Software HSM: \"trustedge_core::backends::universal::CryptoOperation\""@
}

/// What the software HSM answers for an operation with the key `key_id`
/// that leaves the backend as it is.
pub open spec fn hsm_reads(
    b: SoftwareHsmBackend,
    key_id: Seq<char>,
    operation: CryptoOperation,
    r: Result<CryptoResult, BackendError>,
) -> bool {
    match operation {
        CryptoOperation::Sign { data, algorithm } => match key_position(b.spec_keys(), key_id) {
            None => r matches Err(e) && backend_error_is(
                e,
                BackendFault::OperationFailed,
                "Signing failed: "@ + ("Key not found: "@ + key_id),
            ),
            Some(i) => match sign_outcome(b.spec_keys()[i], data@, algorithm) {
                Err(m) => r matches Err(e) && backend_error_is(
                    e,
                    BackendFault::OperationFailed,
                    "Signing failed: "@ + m,
                ),
                Ok(sig) => r matches Ok(CryptoResult::Signed(v)) && (algorithm
                    == SignatureAlgorithm::Ed25519 ==> v@ == sig) && (algorithm
                    == SignatureAlgorithm::EcdsaP256 ==> p256_der_parses(v@) && p256_accepts(
                    p256_public_of(b.spec_keys()[i].private_key@),
                    data@,
                    v@,
                )),
            },
        },
        CryptoOperation::Verify { data, signature, algorithm } => match key_position(
            b.spec_keys(),
            key_id,
        ) {
            None => r matches Err(e) && backend_error_is(
                e,
                BackendFault::OperationFailed,
                "Verification failed: "@ + ("Key not found: "@ + key_id),
            ),
            Some(i) => match verify_outcome(b.spec_keys()[i], data@, signature@, algorithm) {
                Ok(b) => r matches Ok(CryptoResult::VerificationResult(v)) && v == b,
                Err(m) => r matches Err(e) && backend_error_is(
                    e,
                    BackendFault::OperationFailed,
                    "Verification failed: "@ + m,
                ),
            },
        },
        CryptoOperation::GetPublicKey => match key_position(b.spec_keys(), key_id) {
            None => r matches Err(e) && backend_error_is(e, BackendFault::KeyNotFound, key_id),
            Some(i) => r matches Ok(CryptoResult::PublicKey(v)) && v@ == b.spec_keys()[i].public_key@,
        },
        CryptoOperation::Hash { data, algorithm } => match hsm_hash(data@, algorithm) {
            Some(h) => r matches Ok(CryptoResult::Hash(v)) && v@ == h && v@.len() == sha2_digest_len(algorithm),
            None => r matches Err(e) && backend_error_is(
                e,
                BackendFault::OperationFailed,
                "Hash operation failed: "@ + "Unsupported hash algorithm: Blake2b"@,
            ),
        },
        _ => r matches Err(e) && backend_error_is(e, BackendFault::UnsupportedOperation, hsm_refusal_text()),
    }
}

/// What generating a key pair under `key_id` at time `now` does to the
/// backend (`b` before, `after` after) and answers: for Ed25519 and P-256, a
/// fresh key recorded as [`SoftwareHsmBackend::generate_key_pair`] records
/// it (default description, other keys unchanged), answered with its public
/// key and identifier; for another algorithm, an unsupported operation.
pub open spec fn hsm_generates(
    b: SoftwareHsmBackend,
    after: SoftwareHsmBackend,
    key_id: Seq<char>,
    algorithm: AsymmetricAlgorithm,
    now: u64,
    r: Result<CryptoResult, BackendError>,
) -> bool {
    &&& after.spec_config() == b.spec_config()
    &&& after.well_formed()
    &&& if algorithm == AsymmetricAlgorithm::Ed25519 || algorithm == AsymmetricAlgorithm::EcdsaP256 {
        let k = key_position(after.spec_keys(), key_id);
        &&& k is Some
        &&& r matches Ok(CryptoResult::KeyPair { public_key, private_key_id }) && private_key_id@ == key_id
            && public_key@ == after.spec_keys()[k->0].public_key@
        &&& after.spec_keys()[k->0].metadata.algorithm == algorithm
        &&& after.spec_keys()[k->0].metadata.created_at == now
        &&& after.spec_keys()[k->0].metadata.last_used is None
        &&& after.spec_keys()[k->0].metadata.description@ == asymmetric_name(algorithm) + " key"@
        &&& after.spec_keys()[k->0].private_key@.len() == 32
        &&& (algorithm == AsymmetricAlgorithm::Ed25519 ==> after.spec_keys()[k->0].public_key@
            == ed25519_public_of(after.spec_keys()[k->0].private_key@))
        &&& (algorithm == AsymmetricAlgorithm::EcdsaP256 ==> after.spec_keys()[k->0].public_key@
            == p256_public_of(after.spec_keys()[k->0].private_key@) && p256_secret_valid(
            after.spec_keys()[k->0].private_key@,
        ))
        &&& match key_position(b.spec_keys(), key_id) {
            Some(i) => k == Some(i) && after.spec_keys().len() == b.spec_keys().len(),
            None => k == Some(b.spec_keys().len() as int) && after.spec_keys().len() == b.spec_keys().len() + 1,
        }
        &&& forall|j: int|
            0 <= j < b.spec_keys().len() && j != k->0 ==> #[trigger] after.spec_keys()[j] == b.spec_keys()[j]
    } else {
        &&& r matches Err(e) && backend_error_is(
            e,
            BackendFault::UnsupportedOperation,
            "Unsupported algorithm for Software HSM: "@ + asymmetric_name(algorithm) + ". Use Ed25519 or EcdsaP256."@,
        )
        &&& after.spec_keys() == b.spec_keys()
    }
}

/// What performing an operation with the key `key_id` at time `now` does
/// to the backend (`b` before, `after` after) and answers: key generation
/// as [`hsm_generates`] says; every other operation leaves the backend as
/// it was and answers as [`hsm_reads`] says.
pub open spec fn hsm_performs(
    b: SoftwareHsmBackend,
    after: SoftwareHsmBackend,
    key_id: Seq<char>,
    operation: CryptoOperation,
    now: u64,
    r: Result<CryptoResult, BackendError>,
) -> bool {
    match operation {
        CryptoOperation::GenerateKeyPair { algorithm } => hsm_generates(b, after, key_id, algorithm, now, r),
        _ => after.spec_keys() == b.spec_keys() && after.spec_config() == b.spec_config() && hsm_reads(
            b,
            key_id,
            operation,
            r,
        ),
    }
}

impl SoftwareHsmBackend {
    /// Performs an operation that leaves the backend as it is: signing
    /// (without recording the use), verification, reading the public key,
    /// hashing, refusing the rest.
    fn perform_held(&self, key_id: &str, operation: CryptoOperation) -> (r: Result<CryptoResult, BackendError>)
        requires
            !(operation is GenerateKeyPair),
        ensures
            hsm_reads(*self, key_id@, operation, r),
    {
        match operation {
            CryptoOperation::Sign { data, algorithm } => {
                let i = match self.find(key_id) {
                    Some(i) => i,
                    None => {
                        let m = concat_str("Key not found: ", key_id);
                        return Err(BackendError::OperationFailed(concat_str("Signing failed: ", m.as_str())));
                    },
                };
                match self.signature_with(i, data.as_slice(), algorithm) {
                    Ok(sig) => Ok(CryptoResult::Signed(sig)),
                    Err(m) => Err(BackendError::OperationFailed(concat_str("Signing failed: ", m.as_str()))),
                }
            },
            CryptoOperation::Verify { data, signature, algorithm } => {
                match self.verify_signature(key_id, data.as_slice(), signature.as_slice(), algorithm) {
                    Ok(b) => Ok(CryptoResult::VerificationResult(b)),
                    Err(m) => Err(BackendError::OperationFailed(concat_str("Verification failed: ", m.as_str()))),
                }
            },
            CryptoOperation::GetPublicKey => match self.find(key_id) {
                Some(i) => Ok(CryptoResult::PublicKey(self.keys[i].public_key.clone())),
                None => Err(BackendError::KeyNotFound(String::from_str(key_id))),
            },
            CryptoOperation::GenerateKeyPair { .. } => Err(
                BackendError::UnsupportedOperation(
                    String::from_str(
                        "Key generation requires mutable backend - use generate_key_pair() method directly",
                    ),
                ),
            ),
            CryptoOperation::Hash { data, algorithm } => match self.hash_data(data.as_slice(), algorithm) {
                Ok(h) => Ok(CryptoResult::Hash(h)),
                Err(m) => Err(BackendError::OperationFailed(concat_str("Hash operation failed: ", m.as_str()))),
            },
            _ => Err(
                BackendError::UnsupportedOperation(
                    String::from_str(
                        "Operation not supported by Software HSM: \"trustedge_core::backends::universal::CryptoOperation\"",
                    ),
                ),
            ),
        }
    }
}

impl SoftwareHsmBackend {
    /// Performs an operation with the key `key_id` at time `now` (see
    /// [`hsm_performs`]): key generation records a new key under `key_id`,
    /// as [`SoftwareHsmBackend::generate_key_pair`] does; the other
    /// operations leave the backend as it is.
    pub fn perform_at(&mut self, key_id: &str, operation: CryptoOperation, now: u64) -> (r: Result<
        CryptoResult,
        BackendError,
    >)
        ensures
            hsm_performs(*old(self), *final(self), key_id@, operation, now, r),
    {
        proof {
            use_type_invariant(&*self);
        }
        match operation {
            CryptoOperation::GenerateKeyPair { algorithm } => {
                match self.generate_key_pair(key_id, algorithm, None, now) {
                    Ok(files) => Ok(
                        CryptoResult::KeyPair { public_key: files.public_key, private_key_id: String::from_str(key_id) },
                    ),
                    Err(m) => Err(BackendError::UnsupportedOperation(m)),
                }
            },
            _ => self.perform_held(key_id, operation),
        }
    }
}

fn now_or_zero() -> (r: u64) {
    match crate::primitives::unix_time_secs() {
        Ok(t) => t,
        Err(_) => 0,
    }
}

/// Every operation that the software HSM advertises (see [`hsm_supports`])
/// is performed: its answer is never an unsupported-operation error.
pub proof fn law_advertised_operations_performed(
    b: SoftwareHsmBackend,
    after: SoftwareHsmBackend,
    key_id: Seq<char>,
    operation: CryptoOperation,
    now: u64,
    r: Result<CryptoResult, BackendError>,
)
    requires
        hsm_supports(operation),
        hsm_performs(b, after, key_id, operation, now, r),
    ensures
        !(r matches Err(BackendError::UnsupportedOperation(_))),
{
}

impl UniversalBackend for SoftwareHsmBackend {
    /// Performs an operation at the current time (zero if the clock is
    /// before the epoch); see [`SoftwareHsmBackend::perform_at`].
    fn perform_operation(&mut self, key_id: &str, operation: CryptoOperation) -> (r: Result<CryptoResult, BackendError>)
        ensures
            exists|now: u64| #[trigger] hsm_performs(*old(self), *final(self), key_id@, operation, now, r),
    {
        self.perform_at(key_id, operation, now_or_zero())
    }

    fn supports_operation(&self, operation: &CryptoOperation) -> (r: bool)
        ensures
            r == hsm_supports(*operation),
    {
        self.supports(operation)
    }

    fn get_capabilities(&self) -> (r: BackendCapabilities)
        ensures
            hsm_capabilities(r),
    {
        self.capabilities()
    }

    fn backend_info(&self) -> (r: BackendInfo)
        ensures
            hsm_info(r),
    {
        self.info()
    }
}

/// A held identifier has a position.
proof fn lemma_position_after_store(keys: Seq<StoredKey>, id: Seq<char>)
    requires
        exists|i: int| 0 <= i < keys.len() && (#[trigger] keys[i]).metadata.key_id@ == id,
    ensures
        key_position(keys, id) is Some,
    decreases keys.len(),
{
    let w = choose|i: int| 0 <= i < keys.len() && (#[trigger] keys[i]).metadata.key_id@ == id;
    if exists|j: int| 0 <= j < w && (#[trigger] keys[j]).metadata.key_id@ == id {
        let prefix = keys.subrange(0, w);
        let j = choose|j: int| 0 <= j < w && (#[trigger] keys[j]).metadata.key_id@ == id;
        assert(prefix[j] == keys[j]);
        lemma_position_after_store(prefix, id);
        let p = choose|k: int| #[trigger] first_with_id(prefix, id, k);
        assert forall|k: int| 0 <= k < p implies (#[trigger] keys[k]).metadata.key_id@ != id by {
            assert(prefix[k] == keys[k]);
        }
        assert(first_with_id(keys, id, p));
    } else {
        assert(first_with_id(keys, id, w));
    }
}

} // verus!
