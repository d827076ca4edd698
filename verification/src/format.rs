//! Stream file format: algorithm identifiers, the 66-byte file header, the
//! legacy 58-byte header and its migration, stream preambles, and the
//! additional authenticated data bound to every encrypted record.

use crate::codec::{
    be32, be32_value, be64, framed, lemma_framed_len, lemma_be32_roundtrip, lemma_be32_value_bytes, lemma_take_framed,
    lemma_take_raw, push_all, put_framed, read_array, slice_to_vec, spec_take_framed,
    spec_take_raw, take_framed, take_raw, u32_from_be, u32_to_be, u64_to_be, write_at,
};
use crate::primitives::{
    blake3_hash, blake3_of, ed25519_accepts, ed25519_key_decodes, ed25519_public_of, ed25519_sign,
    ed25519_signature_of, ed25519_verify,
};
use vstd::prelude::*;

pub use crate::chunk_manifest::{DataType, Manifest};

verus! {

/// Length of the AES-GCM nonce of a record.
pub const NONCE_LEN: usize = 12;

/// Length of the additional authenticated data of a record.
pub const AAD_LEN: usize = 32 + 8 + NONCE_LEN + 32 + 4;

/// Length of an encoded [`FileHeader`].
pub const HEADER_LEN: usize = 66;

/// Length of an encoded [`FileHeaderV1`].
pub const HEADER_V1_LEN: usize = 58;

/// Current file format version.
pub const VERSION: u8 = 2;

/// Identifier of AES-256-GCM in legacy headers.
pub const ALG_AES_256_GCM: u8 = 1;

/// Largest chunk a stream may carry (128 MiB).
pub const MAX_CHUNK_SIZE: u32 = 128 * 1024 * 1024;

/// Largest number of records in one stream.
pub const MAX_RECORDS_PER_STREAM: u64 = 1_000_000;

/// Largest stream size in bytes (10 GiB).
pub const MAX_STREAM_SIZE_BYTES: u64 = 10 * 1024 * 1024 * 1024;

/// Size of the AES-GCM authentication tag.
pub const AES_GCM_TAG_SIZE: usize = 16;

/// The four magic bytes `TRST` that open a stream.
pub open spec fn spec_magic() -> Seq<u8> {
    seq![84u8, 82u8, 83u8, 84u8]
}

/// The magic bytes `TRST`.
pub fn magic() -> (r: [u8; 4])
    ensures
        r@ == spec_magic(),
{
    let r = [84u8, 82u8, 83u8, 84u8];
    assert(r@ =~= spec_magic());
    r
}

/// Domain separation prefix of manifest signatures: `trustedge.manifest.v1`.
pub open spec fn spec_manifest_domain_sep() -> Seq<u8> {
    seq![
        116u8, 114u8, 117u8, 115u8, 116u8, 101u8, 100u8, 103u8, 101u8, 46u8, 109u8, 97u8, 110u8,
        105u8, 102u8, 101u8, 115u8, 116u8, 46u8, 118u8, 49u8,
    ]
}

/// The bytes of `trustedge.manifest.v1`.
pub fn manifest_domain_sep() -> (r: Vec<u8>)
    ensures
        r@ == spec_manifest_domain_sep(),
{
    let r = vec![
        116u8, 114u8, 117u8, 115u8, 116u8, 101u8, 100u8, 103u8, 101u8, 46u8, 109u8, 97u8, 110u8,
        105u8, 102u8, 101u8, 115u8, 116u8, 46u8, 118u8, 49u8,
    ];
    assert(r@ =~= spec_manifest_domain_sep());
    r
}

/// Errors raised while decoding identifiers, headers and stream preambles.
#[derive(Debug, Clone, Copy, PartialEq, Eq, Structural)]
pub enum FormatError {
    UnsupportedAeadAlgorithm(u8),
    UnsupportedSignatureAlgorithm(u8),
    UnsupportedHashAlgorithm(u8),
    UnsupportedKdfAlgorithm(u8),
    InvalidV1HeaderLength(usize),
    BadMagic,
    UnsupportedVersion(u8),
    Truncated,
    InvalidVerifyingKey,
    SignatureVerificationFailed,
}

/// AEAD (authenticated encryption with associated data) algorithms.
#[derive(Debug, Clone, Copy, PartialEq, Eq, Structural)]
pub enum AeadAlgorithm {
    Aes256Gcm,
    ChaCha20Poly1305,
    Aes256Siv,
}

impl AeadAlgorithm {
    /// Wire identifier.
    pub open spec fn spec_id(self) -> u8 {
        match self {
            AeadAlgorithm::Aes256Gcm => 1,
            AeadAlgorithm::ChaCha20Poly1305 => 2,
            AeadAlgorithm::Aes256Siv => 3,
        }
    }

    /// Algorithm with a given wire identifier, if any.
    pub open spec fn spec_from_id(v: u8) -> Option<AeadAlgorithm> {
        if v == 1 {
            Some(AeadAlgorithm::Aes256Gcm)
        } else if v == 2 {
            Some(AeadAlgorithm::ChaCha20Poly1305)
        } else if v == 3 {
            Some(AeadAlgorithm::Aes256Siv)
        } else {
            None
        }
    }

    pub fn id(self) -> (r: u8)
        ensures
            r == self.spec_id(),
    {
        match self {
            AeadAlgorithm::Aes256Gcm => 1,
            AeadAlgorithm::ChaCha20Poly1305 => 2,
            AeadAlgorithm::Aes256Siv => 3,
        }
    }

    /// Decodes a wire identifier; unknown identifiers are rejected.
    pub fn try_from(value: u8) -> (r: Result<AeadAlgorithm, FormatError>)
        ensures
            r == match Self::spec_from_id(value) {
                Some(a) => Ok(a),
                None => Err(FormatError::UnsupportedAeadAlgorithm(value)),
            },
    {
        match value {
            1 => Ok(AeadAlgorithm::Aes256Gcm),
            2 => Ok(AeadAlgorithm::ChaCha20Poly1305),
            3 => Ok(AeadAlgorithm::Aes256Siv),
            _ => Err(FormatError::UnsupportedAeadAlgorithm(value)),
        }
    }
}

/// Signature algorithms.
#[derive(Debug, Clone, Copy, PartialEq, Eq, Structural)]
pub enum SignatureAlgorithm {
    Ed25519,
    EcdsaP256,
    EcdsaP384,
    RsaPss2048,
    RsaPss4096,
    Dilithium3,
    Falcon512,
}

impl SignatureAlgorithm {
    pub open spec fn spec_id(self) -> u8 {
        match self {
            SignatureAlgorithm::Ed25519 => 1,
            SignatureAlgorithm::EcdsaP256 => 2,
            SignatureAlgorithm::EcdsaP384 => 3,
            SignatureAlgorithm::RsaPss2048 => 4,
            SignatureAlgorithm::RsaPss4096 => 5,
            SignatureAlgorithm::Dilithium3 => 6,
            SignatureAlgorithm::Falcon512 => 7,
        }
    }

    pub open spec fn spec_from_id(v: u8) -> Option<SignatureAlgorithm> {
        if v == 1 {
            Some(SignatureAlgorithm::Ed25519)
        } else if v == 2 {
            Some(SignatureAlgorithm::EcdsaP256)
        } else if v == 3 {
            Some(SignatureAlgorithm::EcdsaP384)
        } else if v == 4 {
            Some(SignatureAlgorithm::RsaPss2048)
        } else if v == 5 {
            Some(SignatureAlgorithm::RsaPss4096)
        } else if v == 6 {
            Some(SignatureAlgorithm::Dilithium3)
        } else if v == 7 {
            Some(SignatureAlgorithm::Falcon512)
        } else {
            None
        }
    }

    pub fn id(self) -> (r: u8)
        ensures
            r == self.spec_id(),
    {
        match self {
            SignatureAlgorithm::Ed25519 => 1,
            SignatureAlgorithm::EcdsaP256 => 2,
            SignatureAlgorithm::EcdsaP384 => 3,
            SignatureAlgorithm::RsaPss2048 => 4,
            SignatureAlgorithm::RsaPss4096 => 5,
            SignatureAlgorithm::Dilithium3 => 6,
            SignatureAlgorithm::Falcon512 => 7,
        }
    }

    pub fn try_from(value: u8) -> (r: Result<SignatureAlgorithm, FormatError>)
        ensures
            r == match Self::spec_from_id(value) {
                Some(a) => Ok(a),
                None => Err(FormatError::UnsupportedSignatureAlgorithm(value)),
            },
    {
        match value {
            1 => Ok(SignatureAlgorithm::Ed25519),
            2 => Ok(SignatureAlgorithm::EcdsaP256),
            3 => Ok(SignatureAlgorithm::EcdsaP384),
            4 => Ok(SignatureAlgorithm::RsaPss2048),
            5 => Ok(SignatureAlgorithm::RsaPss4096),
            6 => Ok(SignatureAlgorithm::Dilithium3),
            7 => Ok(SignatureAlgorithm::Falcon512),
            _ => Err(FormatError::UnsupportedSignatureAlgorithm(value)),
        }
    }
}

/// Hash algorithms.
#[derive(Debug, Clone, Copy, PartialEq, Eq, Structural)]
pub enum HashAlgorithm {
    Blake3,
    Sha256,
    Sha384,
    Sha512,
    Sha3_256,
    Sha3_512,
}

impl HashAlgorithm {
    pub open spec fn spec_id(self) -> u8 {
        match self {
            HashAlgorithm::Blake3 => 1,
            HashAlgorithm::Sha256 => 2,
            HashAlgorithm::Sha384 => 3,
            HashAlgorithm::Sha512 => 4,
            HashAlgorithm::Sha3_256 => 5,
            HashAlgorithm::Sha3_512 => 6,
        }
    }

    pub open spec fn spec_from_id(v: u8) -> Option<HashAlgorithm> {
        if v == 1 {
            Some(HashAlgorithm::Blake3)
        } else if v == 2 {
            Some(HashAlgorithm::Sha256)
        } else if v == 3 {
            Some(HashAlgorithm::Sha384)
        } else if v == 4 {
            Some(HashAlgorithm::Sha512)
        } else if v == 5 {
            Some(HashAlgorithm::Sha3_256)
        } else if v == 6 {
            Some(HashAlgorithm::Sha3_512)
        } else {
            None
        }
    }

    pub fn id(self) -> (r: u8)
        ensures
            r == self.spec_id(),
    {
        match self {
            HashAlgorithm::Blake3 => 1,
            HashAlgorithm::Sha256 => 2,
            HashAlgorithm::Sha384 => 3,
            HashAlgorithm::Sha512 => 4,
            HashAlgorithm::Sha3_256 => 5,
            HashAlgorithm::Sha3_512 => 6,
        }
    }

    pub fn try_from(value: u8) -> (r: Result<HashAlgorithm, FormatError>)
        ensures
            r == match Self::spec_from_id(value) {
                Some(a) => Ok(a),
                None => Err(FormatError::UnsupportedHashAlgorithm(value)),
            },
    {
        match value {
            1 => Ok(HashAlgorithm::Blake3),
            2 => Ok(HashAlgorithm::Sha256),
            3 => Ok(HashAlgorithm::Sha384),
            4 => Ok(HashAlgorithm::Sha512),
            5 => Ok(HashAlgorithm::Sha3_256),
            6 => Ok(HashAlgorithm::Sha3_512),
            _ => Err(FormatError::UnsupportedHashAlgorithm(value)),
        }
    }
}

/// Key derivation function algorithms.
#[derive(Debug, Clone, Copy, PartialEq, Eq, Structural)]
pub enum KdfAlgorithm {
    Pbkdf2Sha256,
    Argon2id,
    Scrypt,
    Hkdf,
}

impl KdfAlgorithm {
    pub open spec fn spec_id(self) -> u8 {
        match self {
            KdfAlgorithm::Pbkdf2Sha256 => 1,
            KdfAlgorithm::Argon2id => 2,
            KdfAlgorithm::Scrypt => 3,
            KdfAlgorithm::Hkdf => 4,
        }
    }

    pub open spec fn spec_from_id(v: u8) -> Option<KdfAlgorithm> {
        if v == 1 {
            Some(KdfAlgorithm::Pbkdf2Sha256)
        } else if v == 2 {
            Some(KdfAlgorithm::Argon2id)
        } else if v == 3 {
            Some(KdfAlgorithm::Scrypt)
        } else if v == 4 {
            Some(KdfAlgorithm::Hkdf)
        } else {
            None
        }
    }

    pub fn id(self) -> (r: u8)
        ensures
            r == self.spec_id(),
    {
        match self {
            KdfAlgorithm::Pbkdf2Sha256 => 1,
            KdfAlgorithm::Argon2id => 2,
            KdfAlgorithm::Scrypt => 3,
            KdfAlgorithm::Hkdf => 4,
        }
    }

    pub fn try_from(value: u8) -> (r: Result<KdfAlgorithm, FormatError>)
        ensures
            r == match Self::spec_from_id(value) {
                Some(a) => Ok(a),
                None => Err(FormatError::UnsupportedKdfAlgorithm(value)),
            },
    {
        match value {
            1 => Ok(KdfAlgorithm::Pbkdf2Sha256),
            2 => Ok(KdfAlgorithm::Argon2id),
            3 => Ok(KdfAlgorithm::Scrypt),
            4 => Ok(KdfAlgorithm::Hkdf),
            _ => Err(FormatError::UnsupportedKdfAlgorithm(value)),
        }
    }
}

/// Every algorithm maps to its identifier and back.
pub proof fn law_algorithm_ids_roundtrip(
    a: AeadAlgorithm,
    s: SignatureAlgorithm,
    h: HashAlgorithm,
    k: KdfAlgorithm,
)
    ensures
        AeadAlgorithm::spec_from_id(a.spec_id()) == Some(a),
        SignatureAlgorithm::spec_from_id(s.spec_id()) == Some(s),
        HashAlgorithm::spec_from_id(h.spec_id()) == Some(h),
        KdfAlgorithm::spec_from_id(k.spec_id()) == Some(k),
{
}

/// File header with algorithm agility (66 bytes on the wire).
#[derive(Debug, Clone, Copy)]
pub struct FileHeader {
    pub version: u8,
    pub aead_alg: u8,
    pub sig_alg: u8,
    pub hash_alg: u8,
    pub kdf_alg: u8,
    pub reserved: [u8; 3],
    pub key_id: [u8; 16],
    pub device_id_hash: [u8; 32],
    pub nonce_prefix: [u8; 4],
    pub chunk_size: u32,
}

/// Wire layout of a header: the five identifier bytes, the reserved bytes,
/// key id, device id hash, nonce prefix, big-endian chunk size and two zero
/// bytes of padding.
pub open spec fn header_layout(h: FileHeader) -> Seq<u8> {
    seq![h.version, h.aead_alg, h.sig_alg, h.hash_alg, h.kdf_alg] + h.reserved@ + h.key_id@
        + h.device_id_hash@ + h.nonce_prefix@ + be32(h.chunk_size) + seq![0u8, 0u8]
}

/// `h` holds the fields that the header bytes `b` carry.
pub open spec fn header_decodes_to(b: Seq<u8>, h: FileHeader) -> bool {
    &&& h.version == b[0]
    &&& h.aead_alg == b[1]
    &&& h.sig_alg == b[2]
    &&& h.hash_alg == b[3]
    &&& h.kdf_alg == b[4]
    &&& h.reserved@ == b.subrange(5, 8)
    &&& h.key_id@ == b.subrange(8, 24)
    &&& h.device_id_hash@ == b.subrange(24, 56)
    &&& h.nonce_prefix@ == b.subrange(56, 60)
    &&& h.chunk_size == be32_value(b.subrange(60, 64))
}

/// The first unsupported algorithm identifier of header bytes, checked in
/// the order AEAD, signature, hash, KDF.
pub open spec fn header_error(b: Seq<u8>) -> Option<FormatError> {
    if AeadAlgorithm::spec_from_id(b[1]) is None {
        Some(FormatError::UnsupportedAeadAlgorithm(b[1]))
    } else if SignatureAlgorithm::spec_from_id(b[2]) is None {
        Some(FormatError::UnsupportedSignatureAlgorithm(b[2]))
    } else if HashAlgorithm::spec_from_id(b[3]) is None {
        Some(FormatError::UnsupportedHashAlgorithm(b[3]))
    } else if KdfAlgorithm::spec_from_id(b[4]) is None {
        Some(FormatError::UnsupportedKdfAlgorithm(b[4]))
    } else {
        None
    }
}

impl FileHeader {
    /// The header's algorithm identifiers are all known.
    pub open spec fn ids_supported(self) -> bool {
        &&& AeadAlgorithm::spec_from_id(self.aead_alg) is Some
        &&& SignatureAlgorithm::spec_from_id(self.sig_alg) is Some
        &&& HashAlgorithm::spec_from_id(self.hash_alg) is Some
        &&& KdfAlgorithm::spec_from_id(self.kdf_alg) is Some
    }

    /// Encodes the header.
    pub fn to_bytes(&self) -> (r: [u8; HEADER_LEN])
        ensures
            r@ == header_layout(*self),
    {
        let mut out = [0u8; HEADER_LEN];
        out[0] = self.version;
        out[1] = self.aead_alg;
        out[2] = self.sig_alg;
        out[3] = self.hash_alg;
        out[4] = self.kdf_alg;
        write_at(&mut out, 5, self.reserved.as_slice());
        write_at(&mut out, 8, self.key_id.as_slice());
        write_at(&mut out, 24, self.device_id_hash.as_slice());
        write_at(&mut out, 56, self.nonce_prefix.as_slice());
        let cs = u32_to_be(self.chunk_size);
        write_at(&mut out, 60, cs.as_slice());
        assert(out@ =~= header_layout(*self));
        out
    }

    /// Decodes header bytes, rejecting unknown algorithm identifiers.
    pub fn from_bytes(bytes: &[u8; HEADER_LEN]) -> (r: Result<FileHeader, FormatError>)
        ensures
            match r {
                Ok(h) => header_error(bytes@) is None && header_decodes_to(bytes@, h),
                Err(e) => header_error(bytes@) == Some(e),
            },
    {
        let _aead = AeadAlgorithm::try_from(bytes[1])?;
        let _sig = SignatureAlgorithm::try_from(bytes[2])?;
        let _hash = HashAlgorithm::try_from(bytes[3])?;
        let _kdf = KdfAlgorithm::try_from(bytes[4])?;
        let reserved: [u8; 3] = read_array(bytes.as_slice(), 5);
        let key_id: [u8; 16] = read_array(bytes.as_slice(), 8);
        let device_id_hash: [u8; 32] = read_array(bytes.as_slice(), 24);
        let nonce_prefix: [u8; 4] = read_array(bytes.as_slice(), 56);
        let chunk_size = u32_from_be(bytes[60], bytes[61], bytes[62], bytes[63]);
        assert(seq![bytes@[60], bytes@[61], bytes@[62], bytes@[63]] =~= bytes@.subrange(60, 64));
        Ok(
            FileHeader {
                version: bytes[0],
                aead_alg: bytes[1],
                sig_alg: bytes[2],
                hash_alg: bytes[3],
                kdf_alg: bytes[4],
                reserved,
                key_id,
                device_id_hash,
                nonce_prefix,
                chunk_size,
            },
        )
    }

    /// A header with the default algorithms (AES-256-GCM, Ed25519, BLAKE3,
    /// PBKDF2-SHA256) and all other fields zero.
    pub fn new_with_defaults() -> (r: FileHeader)
        ensures
            r.version == VERSION,
            r.aead_alg == AeadAlgorithm::Aes256Gcm.spec_id(),
            r.sig_alg == SignatureAlgorithm::Ed25519.spec_id(),
            r.hash_alg == HashAlgorithm::Blake3.spec_id(),
            r.kdf_alg == KdfAlgorithm::Pbkdf2Sha256.spec_id(),
            r.reserved@ == seq![0u8, 0u8, 0u8],
            forall|i: int| 0 <= i < 16 ==> r.key_id@[i] == 0,
            forall|i: int| 0 <= i < 32 ==> r.device_id_hash@[i] == 0,
            forall|i: int| 0 <= i < 4 ==> r.nonce_prefix@[i] == 0,
            r.chunk_size == 0,
    {
        let r = FileHeader {
            version: VERSION,
            aead_alg: AeadAlgorithm::Aes256Gcm.id(),
            sig_alg: SignatureAlgorithm::Ed25519.id(),
            hash_alg: HashAlgorithm::Blake3.id(),
            kdf_alg: KdfAlgorithm::Pbkdf2Sha256.id(),
            reserved: [0u8; 3],
            key_id: [0u8; 16],
            device_id_hash: [0u8; 32],
            nonce_prefix: [0u8; 4],
            chunk_size: 0,
        };
        assert(r.reserved@ =~= seq![0u8, 0u8, 0u8]);
        r
    }
}

/// A header decodes from its own encoding, and only to itself; when its
/// identifiers are supported the encoding passes the identifier checks.
pub proof fn law_header_roundtrip(h: FileHeader, h2: FileHeader)
    ensures
        header_layout(h).len() == HEADER_LEN,
        header_decodes_to(header_layout(h), h),
        h.ids_supported() ==> header_error(header_layout(h)) is None,
        header_decodes_to(header_layout(h), h2) ==> h2 == h,
{
    let b = header_layout(h);
    lemma_be32_roundtrip(h.chunk_size);
    assert(b.subrange(5, 8) =~= h.reserved@);
    assert(b.subrange(8, 24) =~= h.key_id@);
    assert(b.subrange(24, 56) =~= h.device_id_hash@);
    assert(b.subrange(56, 60) =~= h.nonce_prefix@);
    assert(b.subrange(60, 64) =~= be32(h.chunk_size));
    if header_decodes_to(b, h2) {
        assert(h2.reserved =~= h.reserved);
        assert(h2.key_id =~= h.key_id);
        assert(h2.device_id_hash =~= h.device_id_hash);
        assert(h2.nonce_prefix =~= h.nonce_prefix);
    }
}

/// Additional authenticated data of a record:
/// `header_hash(32) || seq_be(8) || nonce(12) || manifest_hash(32) || chunk_len_be(4)`.
pub open spec fn aad_layout(
    header_hash: Seq<u8>,
    seq: u64,
    nonce: Seq<u8>,
    manifest_hash: Seq<u8>,
    chunk_len: u32,
) -> Seq<u8> {
    header_hash + be64(seq) + nonce + manifest_hash + be32(chunk_len)
}

/// Builds the additional authenticated data of a record.
pub fn build_aad(
    header_hash: &[u8; 32],
    seq: u64,
    nonce: &[u8; NONCE_LEN],
    manifest_hash: &[u8; 32],
    chunk_len: u32,
) -> (r: [u8; AAD_LEN])
    ensures
        r@ == aad_layout(header_hash@, seq, nonce@, manifest_hash@, chunk_len),
{
    let mut aad = [0u8; AAD_LEN];
    write_at(&mut aad, 0, header_hash.as_slice());
    let seq_be = u64_to_be(seq);
    write_at(&mut aad, 32, seq_be.as_slice());
    write_at(&mut aad, 40, nonce.as_slice());
    write_at(&mut aad, 52, manifest_hash.as_slice());
    let len_be = u32_to_be(chunk_len);
    write_at(&mut aad, 84, len_be.as_slice());
    assert(aad@ =~= aad_layout(header_hash@, seq, nonce@, manifest_hash@, chunk_len));
    aad
}

/// Audio sample formats.
#[derive(Debug, Clone, PartialEq, Eq)]
pub enum AudioFormat {
    /// 32-bit floating point samples.
    F32Le,
    /// 16-bit signed integer samples.
    I16Le,
    /// 24-bit signed integer samples.
    I24Le,
    /// Other or custom format.
    Other(String),
}

/// A manifest together with its signature and the signer's public key.
#[derive(Debug, Clone)]
pub struct SignedManifest {
    pub manifest: Vec<u8>,
    pub sig: Vec<u8>,
    pub pubkey: Vec<u8>,
}

/// Wire layout of a signed manifest: three length-prefixed byte strings.
pub open spec fn signed_manifest_layout(m: Seq<u8>, sig: Seq<u8>, pubkey: Seq<u8>) -> Seq<u8> {
    framed(m) + framed(sig) + framed(pubkey)
}

/// Decodes a signed manifest from the start of `b` (trailing bytes are
/// ignored): the three byte strings, if all are present.
pub open spec fn signed_manifest_fields(b: Seq<u8>) -> Option<(Seq<u8>, Seq<u8>, Seq<u8>)> {
    match spec_take_framed(b, 0) {
        Some((m, p1)) => match spec_take_framed(b, p1) {
            Some((sig, p2)) => match spec_take_framed(b, p2) {
                Some((pk, _p3)) => Some((m, sig, pk)),
                None => None,
            },
            None => None,
        },
        None => None,
    }
}

impl SignedManifest {
    /// Encodes the signed manifest.
    pub fn to_wire(&self) -> (r: Vec<u8>)
        ensures
            r@ == signed_manifest_layout(self.manifest@, self.sig@, self.pubkey@),
    {
        let mut out: Vec<u8> = Vec::new();
        put_framed(&mut out, self.manifest.as_slice());
        put_framed(&mut out, self.sig.as_slice());
        put_framed(&mut out, self.pubkey.as_slice());
        assert(out@ =~= signed_manifest_layout(self.manifest@, self.sig@, self.pubkey@));
        out
    }

    /// Decodes a signed manifest from the start of `bytes`.
    pub fn from_wire(bytes: &[u8]) -> (r: Option<SignedManifest>)
        ensures
            match r {
                Some(sm) => signed_manifest_fields(bytes@) == Some(
                    (sm.manifest@, sm.sig@, sm.pubkey@),
                ),
                None => signed_manifest_fields(bytes@) is None,
            },
    {
        let (manifest, p1) = match take_framed(bytes, 0) {
            Some(x) => x,
            None => return None,
        };
        let (sig, p2) = match take_framed(bytes, p1) {
            Some(x) => x,
            None => return None,
        };
        let (pubkey, _p3) = match take_framed(bytes, p2) {
            Some(x) => x,
            None => return None,
        };
        Some(SignedManifest { manifest, sig, pubkey })
    }
}

/// A signed manifest decodes from its own encoding.
pub proof fn law_signed_manifest_roundtrip(m: Seq<u8>, sig: Seq<u8>, pubkey: Seq<u8>, rest: Seq<u8>)
    requires
        m.len() <= u64::MAX,
        sig.len() <= u64::MAX,
        pubkey.len() <= u64::MAX,
    ensures
        signed_manifest_fields(signed_manifest_layout(m, sig, pubkey) + rest) == Some(
            (m, sig, pubkey),
        ),
{
    let e = Seq::<u8>::empty();
    let b = signed_manifest_layout(m, sig, pubkey) + rest;
    let p1 = 8 + m.len() as int;
    let p2 = p1 + 8 + sig.len() as int;
    let p3 = p2 + 8 + pubkey.len() as int;
    let fm = framed(m);
    let fs = framed(sig);
    let fp = framed(pubkey);
    lemma_framed_len(m);
    lemma_framed_len(sig);
    lemma_framed_len(pubkey);
    assert(spec_take_framed(b, 0) == Some((m, p1))) by {
        assert(b =~= e + fm + (fs + fp + rest));
        lemma_take_framed(e, m, fs + fp + rest);
    }
    assert(spec_take_framed(b, p1) == Some((sig, p2))) by {
        assert(b =~= fm + fs + (fp + rest));
        lemma_take_framed(fm, sig, fp + rest);
    }
    assert(spec_take_framed(b, p2) == Some((pubkey, p3))) by {
        assert(b =~= (fm + fs) + fp + rest);
        lemma_take_framed(fm + fs, pubkey, rest);
    }
}

/// Stream header: format version, encoded [`FileHeader`] and its BLAKE3 hash.
#[derive(Debug, Clone)]
pub struct StreamHeader {
    pub v: u8,
    pub header: Vec<u8>,
    pub header_hash: [u8; 32],
}

/// Stream header of the legacy version 1 format (58-byte file header).
#[derive(Debug, Clone)]
pub struct StreamHeaderV1 {
    pub v: u8,
    pub header: Vec<u8>,
    pub header_hash: [u8; 32],
}

/// An encrypted record of a stream.
#[derive(Debug, Clone)]
pub struct Record {
    pub seq: u64,
    pub nonce: [u8; NONCE_LEN],
    pub sm: SignedManifest,
    pub ct: Vec<u8>,
}

/// Legacy file header (58 bytes on the wire).
#[derive(Debug, Clone, Copy)]
pub struct FileHeaderV1 {
    pub version: u8,
    pub alg: u8,
    pub key_id: [u8; 16],
    pub device_id_hash: [u8; 32],
    pub nonce_prefix: [u8; 4],
    pub chunk_size: u32,
}

/// `h` holds the fields that legacy header bytes `b` carry.
pub open spec fn header_v1_decodes_to(b: Seq<u8>, h: FileHeaderV1) -> bool {
    &&& h.version == b[0]
    &&& h.alg == b[1]
    &&& h.key_id@ == b.subrange(2, 18)
    &&& h.device_id_hash@ == b.subrange(18, 50)
    &&& h.nonce_prefix@ == b.subrange(50, 54)
    &&& h.chunk_size == be32_value(b.subrange(54, 58))
}

impl FileHeaderV1 {
    /// Decodes a legacy header.
    pub fn from_bytes(bytes: &[u8; HEADER_V1_LEN]) -> (r: FileHeaderV1)
        ensures
            header_v1_decodes_to(bytes@, r),
    {
        let key_id: [u8; 16] = read_array(bytes.as_slice(), 2);
        let device_id_hash: [u8; 32] = read_array(bytes.as_slice(), 18);
        let nonce_prefix: [u8; 4] = read_array(bytes.as_slice(), 50);
        let chunk_size = u32_from_be(bytes[54], bytes[55], bytes[56], bytes[57]);
        assert(seq![bytes@[54], bytes@[55], bytes@[56], bytes@[57]] =~= bytes@.subrange(54, 58));
        FileHeaderV1 {
            version: bytes[0],
            alg: bytes[1],
            key_id,
            device_id_hash,
            nonce_prefix,
            chunk_size,
        }
    }
}

/// Version 2 header bytes for legacy header bytes `b`: version 2, the legacy
/// AEAD identifier, Ed25519, BLAKE3 and PBKDF2-SHA256, zero reserved bytes,
/// then the legacy key id, device id hash, nonce prefix and chunk size.
pub open spec fn migrated_header(b: Seq<u8>) -> Seq<u8> {
    seq![2u8, b[1], 1u8, 1u8, 1u8, 0u8, 0u8, 0u8] + b.subrange(2, 58) + seq![0u8, 0u8]
}

/// Migrates a version 1 stream header to version 2; the legacy header must
/// be exactly 58 bytes long.
pub fn migrate_v1_to_v2(v1: StreamHeaderV1) -> (r: Result<StreamHeader, FormatError>)
    ensures
        match r {
            Ok(sh) => {
                &&& v1.header@.len() == HEADER_V1_LEN
                &&& sh.v == 2
                &&& sh.header@ == migrated_header(v1.header@)
                &&& sh.header_hash@ == blake3_of(sh.header@)
            },
            Err(e) => v1.header@.len() != HEADER_V1_LEN && e == FormatError::InvalidV1HeaderLength(
                v1.header@.len() as usize,
            ),
        },
{
    let len = v1.header.len();
    if len != HEADER_V1_LEN {
        return Err(FormatError::InvalidV1HeaderLength(len));
    }
    let v1_bytes: [u8; HEADER_V1_LEN] = read_array(v1.header.as_slice(), 0);
    let old = FileHeaderV1::from_bytes(&v1_bytes);
    let v2_header = FileHeader {
        version: 2,
        aead_alg: old.alg,
        sig_alg: SignatureAlgorithm::Ed25519.id(),
        hash_alg: HashAlgorithm::Blake3.id(),
        kdf_alg: KdfAlgorithm::Pbkdf2Sha256.id(),
        reserved: [0u8; 3],
        key_id: old.key_id,
        device_id_hash: old.device_id_hash,
        nonce_prefix: old.nonce_prefix,
        chunk_size: old.chunk_size,
    };
    let v2_bytes = v2_header.to_bytes();
    proof {
        let b = v1.header@;
        assert(v1_bytes@ =~= b);
        lemma_be32_value_bytes(b.subrange(54, 58));
        assert(v2_header.reserved@ =~= seq![0u8, 0u8, 0u8]);
        assert(v2_bytes@ =~= migrated_header(b));
    }
    let header = slice_to_vec(v2_bytes.as_slice(), 0, HEADER_LEN);
    assert(header@ =~= v2_bytes@);
    let header_hash = blake3_hash(header.as_slice());
    Ok(StreamHeader { v: 2, header, header_hash })
}

/// Wire layout of a stream header record: version byte, length-prefixed
/// header bytes, 32-byte header hash.
pub open spec fn stream_header_layout(v: u8, header: Seq<u8>, hash: Seq<u8>) -> Seq<u8> {
    seq![v] + framed(header) + hash
}

/// Appends the stream preamble to `w`: the magic bytes, the current
/// [`VERSION`] and the stream header record.
pub fn write_stream_header(w: &mut Vec<u8>, sh: &StreamHeader)
    ensures
        final(w)@ == old(w)@ + spec_magic() + seq![VERSION] + stream_header_layout(
            sh.v,
            sh.header@,
            sh.header_hash@,
        ),
{
    let m = magic();
    push_all(w, m.as_slice());
    w.push(VERSION);
    w.push(sh.v);
    put_framed(w, sh.header.as_slice());
    push_all(w, sh.header_hash.as_slice());
    assert(w@ =~= old(w)@ + spec_magic() + seq![VERSION] + stream_header_layout(
        sh.v,
        sh.header@,
        sh.header_hash@,
    ));
}

/// Reads a stream header record at `pos`: version byte, header bytes, hash
/// and the position after the record.
pub open spec fn stream_header_at(b: Seq<u8>, pos: int) -> Option<(u8, Seq<u8>, Seq<u8>, int)> {
    match spec_take_raw(b, pos, 1) {
        Some((v, p1)) => match spec_take_framed(b, p1) {
            Some((h, p2)) => match spec_take_raw(b, p2, 32) {
                Some((hh, p3)) => Some((v[0], h, hh, p3)),
                None => None,
            },
            None => None,
        },
        None => None,
    }
}

/// Outcome of reading a stream preamble from `b`: version, header bytes,
/// header hash and bytes consumed.  Version 1 streams are migrated.
pub open spec fn preamble_outcome(b: Seq<u8>) -> Result<(u8, Seq<u8>, Seq<u8>, int), FormatError> {
    if b.len() < 4 {
        Err(FormatError::Truncated)
    } else if b.subrange(0, 4) != spec_magic() {
        Err(FormatError::BadMagic)
    } else if b.len() < 5 {
        Err(FormatError::Truncated)
    } else if b[4] == 1 {
        match stream_header_at(b, 5) {
            None => Err(FormatError::Truncated),
            Some((_v, h, _hh, end)) => if h.len() != HEADER_V1_LEN {
                Err(FormatError::InvalidV1HeaderLength(h.len() as usize))
            } else {
                Ok((2u8, migrated_header(h), blake3_of(migrated_header(h)), end))
            },
        }
    } else if b[4] == 2 {
        match stream_header_at(b, 5) {
            None => Err(FormatError::Truncated),
            Some((v, h, hh, end)) => Ok((v, h, hh, end)),
        }
    } else {
        Err(FormatError::UnsupportedVersion(b[4]))
    }
}

fn read_stream_header_at(bytes: &[u8], pos: usize) -> (r: Option<(u8, Vec<u8>, [u8; 32], usize)>)
    ensures
        match r {
            Some((v, h, hh, p)) => stream_header_at(bytes@, pos as int) == Some(
                (v, h@, hh@, p as int),
            ),
            None => stream_header_at(bytes@, pos as int) is None,
        },
{
    let (v, p1) = match take_raw(bytes, pos, 1) {
        Some(x) => x,
        None => return None,
    };
    let (h, p2) = match take_framed(bytes, p1) {
        Some(x) => x,
        None => return None,
    };
    let (hh, p3) = match take_raw(bytes, p2, 32) {
        Some(x) => x,
        None => return None,
    };
    let hash: [u8; 32] = read_array(hh.as_slice(), 0);
    assert(hash@ =~= hh@);
    Some((v[0], h, hash, p3))
}

/// Reads the preamble and stream header at the start of `bytes`, migrating
/// version 1 headers; returns the header and the number of bytes read.
pub fn read_preamble_and_header(bytes: &[u8]) -> (r: Result<(StreamHeader, usize), FormatError>)
    ensures
        match r {
            Ok((sh, n)) => preamble_outcome(bytes@) == Ok::<(u8, Seq<u8>, Seq<u8>, int), FormatError>((sh.v, sh.header@, sh.header_hash@, n as int)),
            Err(e) => preamble_outcome(bytes@) == Err::<(u8, Seq<u8>, Seq<u8>, int), FormatError>(e),
        },
{
    let len = bytes.len();
    if len < 4 {
        return Err(FormatError::Truncated);
    }
    let m = magic();
    if !(bytes[0] == m[0] && bytes[1] == m[1] && bytes[2] == m[2] && bytes[3] == m[3]) {
        assert(bytes@.subrange(0, 4) != spec_magic()) by {
            if bytes@.subrange(0, 4) == spec_magic() {
                assert(bytes@.subrange(0, 4)[0] == bytes@[0]);
                assert(bytes@.subrange(0, 4)[1] == bytes@[1]);
                assert(bytes@.subrange(0, 4)[2] == bytes@[2]);
                assert(bytes@.subrange(0, 4)[3] == bytes@[3]);
            }
        }
        return Err(FormatError::BadMagic);
    }
    assert(bytes@.subrange(0, 4) =~= spec_magic());
    if len < 5 {
        return Err(FormatError::Truncated);
    }
    let ver = bytes[4];
    if ver == 1 {
        match read_stream_header_at(bytes, 5) {
            None => Err(FormatError::Truncated),
            Some((v, header, header_hash, end)) => {
                let sh = migrate_v1_to_v2(StreamHeaderV1 { v, header, header_hash })?;
                Ok((sh, end))
            },
        }
    } else if ver == 2 {
        match read_stream_header_at(bytes, 5) {
            None => Err(FormatError::Truncated),
            Some((v, header, header_hash, end)) => Ok((StreamHeader { v, header, header_hash }, end)),
        }
    } else {
        Err(FormatError::UnsupportedVersion(ver))
    }
}

/// A version 2 preamble reads back as the stream header it was written from.
pub proof fn law_stream_header_roundtrip(v: u8, header: Seq<u8>, hash: Seq<u8>, rest: Seq<u8>)
    requires
        hash.len() == 32,
        header.len() <= u64::MAX,
    ensures
        preamble_outcome(spec_magic() + seq![VERSION] + stream_header_layout(v, header, hash) + rest)
            == Ok::<(u8, Seq<u8>, Seq<u8>, int), FormatError>((v, header, hash, 14 + header.len() as int + 32)),
{
    let pre = spec_magic() + seq![VERSION];
    let b = pre + stream_header_layout(v, header, hash) + rest;
    assert(b.subrange(0, 4) =~= spec_magic());
    assert(b[4] == VERSION);
    assert(b =~= pre + seq![v] + (framed(header) + hash + rest));
    lemma_take_raw(pre, seq![v], framed(header) + hash + rest);
    assert(b =~= (pre + seq![v]) + framed(header) + (hash + rest));
    lemma_take_framed(pre + seq![v], header, hash + rest);
    assert(b =~= (pre + seq![v] + framed(header)) + hash + rest);
    lemma_take_raw(pre + seq![v] + framed(header), hash, rest);
}

/// The message signed for a manifest: the domain separation prefix followed
/// by the manifest bytes.
pub open spec fn domain_message(manifest: Seq<u8>) -> Seq<u8> {
    spec_manifest_domain_sep() + manifest
}

fn domain_separated(manifest_bytes: &[u8]) -> (r: Vec<u8>)
    ensures
        r@ == domain_message(manifest_bytes@),
{
    let mut message = manifest_domain_sep();
    push_all(&mut message, manifest_bytes);
    message
}

/// Signs manifest bytes under the manifest domain separation prefix.  The
/// signer's public key accepts the result.
pub fn sign_manifest_with_domain(signing_key: &[u8; 32], manifest_bytes: &[u8]) -> (r: [u8; 64])
    ensures
        r@ == ed25519_signature_of(signing_key@, domain_message(manifest_bytes@)),
        ed25519_accepts(ed25519_public_of(signing_key@), domain_message(manifest_bytes@), r@),
{
    let message = domain_separated(manifest_bytes);
    ed25519_sign(signing_key, message.as_slice())
}

/// Verifies a domain-separated manifest signature.
pub fn verify_manifest_with_domain(
    verifying_key: &[u8; 32],
    manifest_bytes: &[u8],
    signature: &[u8; 64],
) -> (r: Result<(), FormatError>)
    ensures
        match r {
            Ok(()) => ed25519_key_decodes(verifying_key@) && ed25519_accepts(
                verifying_key@,
                domain_message(manifest_bytes@),
                signature@,
            ),
            Err(e) => if !ed25519_key_decodes(verifying_key@) {
                e == FormatError::InvalidVerifyingKey
            } else {
                !ed25519_accepts(verifying_key@, domain_message(manifest_bytes@), signature@) && e
                    == FormatError::SignatureVerificationFailed
            },
        },
{
    let message = domain_separated(manifest_bytes);
    match ed25519_verify(verifying_key, message.as_slice(), signature) {
        None => Err(FormatError::InvalidVerifyingKey),
        Some(true) => Ok(()),
        Some(false) => Err(FormatError::SignatureVerificationFailed),
    }
}

} // verus!
