//! Public-key building blocks: key pairs, their binary records, P-256 key
//! agreement and the wrapping of 32-byte session keys with RSA-OAEP-SHA256.

use crate::backends::universal::AsymmetricAlgorithm;
use crate::codec::{
    framed, lemma_framed_len, lemma_take_framed, lemma_take_u32, le32, push_all, put_framed,
    put_u32_le, read_array, spec_take_framed, spec_take_raw, spec_take_u32, take_framed, take_raw,
    take_u32,
};
use crate::error::AsymmetricError;
use crate::primitives::{
    blake3_hash, blake3_of, ecdh_agrees, ed25519_public_key, ed25519_public_of, hex_encode,
    opens_for_pair, p256_ecdh, p256_ecdh_of, p256_point_check, p256_point_encoded,
    p256_point_error_of, p256_point_is_key, p256_point_on_curve, p256_public_of, p256_public_sec1,
    p256_random_secret, p256_secret_check, p256_secret_error_of, p256_secret_valid, random_bytes,
    rsa_decrypt_error_of, rsa_generate, rsa_modulus_bytes, rsa_oaep_decrypt, rsa_oaep_encrypt,
    rsa_oaep_open_of, rsa_pair, rsa_private_check, rsa_private_error_of, rsa_private_parses,
    rsa_public_check, rsa_public_error_of, rsa_public_parses, string_from_utf8,
};
use crate::text::{concat_str, decimal, hex_text, str_with_decimal};
use vstd::prelude::*;
use vstd::utf8::{decode_utf8, encode_utf8, valid_utf8};

verus! {

/// A public key: its algorithm, raw bytes and an optional identifier.
#[derive(Debug, Clone, PartialEq, Eq)]
pub struct PublicKey {
    pub algorithm: AsymmetricAlgorithm,
    pub key_bytes: Vec<u8>,
    pub key_id: Option<String>,
}

/// A private key: its algorithm, raw bytes and an optional identifier.
#[derive(Clone)]
pub struct PrivateKey {
    pub algorithm: AsymmetricAlgorithm,
    pub key_bytes: Vec<u8>,
    pub key_id: Option<String>,
}

/// A public key and its private key.
#[derive(Clone)]
pub struct KeyPair {
    pub public: PublicKey,
    pub private: PrivateKey,
}

/// What went wrong, by the kind of [`AsymmetricError`] and its content.
pub enum AsymFault {
    Unsupported(AsymmetricAlgorithm),
    KeyFormat(Seq<char>),
    KeyExchange(Seq<char>),
    Backend(Seq<char>),
}

/// An error carries a fault: the same kind, the same content.
pub open spec fn asym_error_is(e: AsymmetricError, f: AsymFault) -> bool {
    match (e, f) {
        (AsymmetricError::UnsupportedAlgorithm(a), AsymFault::Unsupported(b)) => a == b,
        (AsymmetricError::InvalidKeyFormat(m), AsymFault::KeyFormat(n)) => m@ == n,
        (AsymmetricError::KeyExchangeFailed(m), AsymFault::KeyExchange(n)) => m@ == n,
        (AsymmetricError::BackendError(m), AsymFault::Backend(n)) => m@ == n,
        _ => false,
    }
}

/// The identifier of a key: its own, or the hex of the first 16 bytes of
/// the BLAKE3 hash of its bytes.
pub open spec fn key_identifier(key_id: Option<String>, key_bytes: Seq<u8>) -> Seq<char> {
    match key_id {
        Some(s) => s@,
        None => hex_text(blake3_of(key_bytes).subrange(0, 16)),
    }
}

fn key_identifier_of(key_id: &Option<String>, key_bytes: &[u8]) -> (r: String)
    ensures
        r@ == key_identifier(*key_id, key_bytes@),
{
    match key_id {
        Some(s) => s.clone(),
        None => {
            let h = blake3_hash(key_bytes);
            hex_encode(&h.as_slice()[0..16])
        },
    }
}

/// Position of an algorithm in its enumeration.
pub open spec fn algorithm_index(a: AsymmetricAlgorithm) -> u32 {
    match a {
        AsymmetricAlgorithm::Ed25519 => 0,
        AsymmetricAlgorithm::EcdsaP256 => 1,
        AsymmetricAlgorithm::Rsa2048 => 2,
        AsymmetricAlgorithm::Rsa4096 => 3,
    }
}

/// The algorithm at a position, if there is one.
pub open spec fn algorithm_at(i: u32) -> Option<AsymmetricAlgorithm> {
    if i == 0 {
        Some(AsymmetricAlgorithm::Ed25519)
    } else if i == 1 {
        Some(AsymmetricAlgorithm::EcdsaP256)
    } else if i == 2 {
        Some(AsymmetricAlgorithm::Rsa2048)
    } else if i == 3 {
        Some(AsymmetricAlgorithm::Rsa4096)
    } else {
        None
    }
}

/// Binary record of a key: the algorithm's position (32-bit little-endian),
/// the length-prefixed key bytes, then a tag byte and, when present, the
/// length-prefixed UTF-8 identifier.
pub open spec fn key_record(alg: AsymmetricAlgorithm, key_bytes: Seq<u8>, key_id: Option<Seq<char>>) -> Seq<
    u8,
> {
    le32(algorithm_index(alg)) + framed(key_bytes) + match key_id {
        None => seq![0u8],
        Some(s) => seq![1u8] + framed(encode_utf8(s)),
    }
}

/// The fields read back from the start of a key record, if it is one.
pub open spec fn key_record_fields(b: Seq<u8>) -> Option<
    (AsymmetricAlgorithm, Seq<u8>, Option<Seq<char>>),
> {
    match spec_take_u32(b, 0) {
        None => None,
        Some((i, p1)) => match algorithm_at(i) {
            None => None,
            Some(alg) => match spec_take_framed(b, p1) {
                None => None,
                Some((kb, p2)) => match spec_take_raw(b, p2, 1) {
                    None => None,
                    Some((t, p3)) => if t[0] == 0 {
                        Some((alg, kb, None))
                    } else if t[0] == 1 {
                        match spec_take_framed(b, p3) {
                            None => None,
                            Some((sb, _p4)) => if valid_utf8(sb) {
                                Some((alg, kb, Some(decode_utf8(sb))))
                            } else {
                                None
                            },
                        }
                    } else {
                        None
                    },
                },
            },
        },
    }
}

/// The characters of an optional text.
pub open spec fn opt_chars(o: Option<String>) -> Option<Seq<char>> {
    match o {
        Some(s) => Some(s@),
        None => None,
    }
}

fn algorithm_number(a: AsymmetricAlgorithm) -> (r: u32)
    ensures
        r == algorithm_index(a),
{
    match a {
        AsymmetricAlgorithm::Ed25519 => 0,
        AsymmetricAlgorithm::EcdsaP256 => 1,
        AsymmetricAlgorithm::Rsa2048 => 2,
        AsymmetricAlgorithm::Rsa4096 => 3,
    }
}

fn encode_key_record(alg: AsymmetricAlgorithm, key_bytes: &[u8], key_id: &Option<String>) -> (r: Vec<
    u8,
>)
    ensures
        r@ == key_record(alg, key_bytes@, opt_chars(*key_id)),
{
    let mut out: Vec<u8> = Vec::new();
    put_u32_le(&mut out, algorithm_number(alg));
    put_framed(&mut out, key_bytes);
    match key_id {
        None => {
            out.push(0u8);
        },
        Some(s) => {
            out.push(1u8);
            put_framed(&mut out, s.as_str().as_bytes());
        },
    }
    assert(out@ =~= key_record(alg, key_bytes@, opt_chars(*key_id)));
    out
}

fn decode_key_record(b: &[u8]) -> (r: Option<(AsymmetricAlgorithm, Vec<u8>, Option<String>)>)
    ensures
        match r {
            Some((alg, kb, id)) => key_record_fields(b@) == Some((alg, kb@, opt_chars(id))),
            None => key_record_fields(b@) is None,
        },
{
    let (i, p1) = match take_u32(b, 0) {
        Some(x) => x,
        None => return None,
    };
    let alg = if i == 0 {
        AsymmetricAlgorithm::Ed25519
    } else if i == 1 {
        AsymmetricAlgorithm::EcdsaP256
    } else if i == 2 {
        AsymmetricAlgorithm::Rsa2048
    } else if i == 3 {
        AsymmetricAlgorithm::Rsa4096
    } else {
        return None;
    };
    let (kb, p2) = match take_framed(b, p1) {
        Some(x) => x,
        None => return None,
    };
    let (t, p3) = match take_raw(b, p2, 1) {
        Some(x) => x,
        None => return None,
    };
    if t[0] == 0 {
        Some((alg, kb, None))
    } else if t[0] == 1 {
        let (sb, _p4) = match take_framed(b, p3) {
            Some(x) => x,
            None => return None,
        };
        match string_from_utf8(sb) {
            Some(s) => Some((alg, kb, Some(s))),
            None => None,
        }
    } else {
        None
    }
}

/// A key record reads back to the fields it was written from.
pub proof fn law_key_record_roundtrip(
    alg: AsymmetricAlgorithm,
    key_bytes: Seq<u8>,
    key_id: Option<Seq<char>>,
    rest: Seq<u8>,
)
    requires
        key_bytes.len() <= u64::MAX,
        key_id matches Some(s) ==> encode_utf8(s).len() <= u64::MAX,
    ensures
        key_record_fields(key_record(alg, key_bytes, key_id) + rest) == Some((alg, key_bytes, key_id)),
{
    let e = Seq::<u8>::empty();
    let head = le32(algorithm_index(alg));
    let fk = framed(key_bytes);
    let tail = match key_id {
        None => seq![0u8],
        Some(s) => seq![1u8] + framed(encode_utf8(s)),
    };
    let b = key_record(alg, key_bytes, key_id) + rest;
    lemma_framed_len(key_bytes);
    assert(b =~= e + head + (fk + tail + rest));
    lemma_take_u32(e, algorithm_index(alg), fk + tail + rest);
    assert(b =~= head + fk + (tail + rest));
    lemma_take_framed(head, key_bytes, tail + rest);
    let p2: int = 4 + 8 + key_bytes.len() as int;
    assert(b.subrange(p2, p2 + 1) =~= seq![tail[0]]);
    match key_id {
        None => {},
        Some(s) => {
            let sb = encode_utf8(s);
            assert(b =~= (head + fk + seq![1u8]) + framed(sb) + rest);
            lemma_take_framed(head + fk + seq![1u8], sb, rest);
            vstd::utf8::encode_utf8_valid_utf8(s);
            vstd::utf8::encode_utf8_decode_utf8(s);
        },
    }
}

fn deserialize_failed(what: &str) -> (r: AsymmetricError)
    ensures
        asym_error_is(r, AsymFault::Backend(what@)),
{
    AsymmetricError::BackendError(String::from_str(what))
}

impl PublicKey {
    pub fn new(algorithm: AsymmetricAlgorithm, key_bytes: Vec<u8>) -> (r: PublicKey)
        ensures
            r.algorithm == algorithm,
            r.key_bytes == key_bytes,
            r.key_id is None,
    {
        PublicKey { algorithm, key_bytes, key_id: None }
    }

    pub fn with_id(algorithm: AsymmetricAlgorithm, key_bytes: Vec<u8>, key_id: String) -> (r: PublicKey)
        ensures
            r.algorithm == algorithm,
            r.key_bytes == key_bytes,
            r.key_id == Some(key_id),
    {
        PublicKey { algorithm, key_bytes, key_id: Some(key_id) }
    }

    /// The key's identifier; see [`key_identifier`].
    pub fn id(&self) -> (r: String)
        ensures
            r@ == key_identifier(self.key_id, self.key_bytes@),
    {
        key_identifier_of(&self.key_id, self.key_bytes.as_slice())
    }

    pub fn as_bytes(&self) -> (r: &[u8])
        ensures
            r@ == self.key_bytes@,
    {
        self.key_bytes.as_slice()
    }

    /// The key's binary record; see [`key_record`].
    pub fn to_bytes(&self) -> (r: Result<Vec<u8>, AsymmetricError>)
        ensures
            r matches Ok(v) && v@ == key_record(
                self.algorithm,
                self.key_bytes@,
                opt_chars(self.key_id),
            ),
    {
        Ok(encode_key_record(self.algorithm, self.key_bytes.as_slice(), &self.key_id))
    }

    /// Reads a key from the start of a binary record.
    pub fn from_bytes(bytes: &[u8]) -> (r: Result<PublicKey, AsymmetricError>)
        ensures
            match key_record_fields(bytes@) {
                Some((alg, kb, id)) => r matches Ok(k) && k.algorithm == alg && k.key_bytes@ == kb
                    && opt_chars(k.key_id) == id,
                None => r matches Err(e) && asym_error_is(
                    e,
                    AsymFault::Backend("Failed to deserialize public key"@),
                ),
            },
    {
        match decode_key_record(bytes) {
            Some((algorithm, key_bytes, key_id)) => Ok(PublicKey { algorithm, key_bytes, key_id }),
            None => Err(deserialize_failed("Failed to deserialize public key")),
        }
    }
}

impl PrivateKey {
    pub fn new(algorithm: AsymmetricAlgorithm, key_bytes: Vec<u8>) -> (r: PrivateKey)
        ensures
            r.algorithm == algorithm,
            r.key_bytes == key_bytes,
            r.key_id is None,
    {
        PrivateKey { algorithm, key_bytes, key_id: None }
    }

    pub fn with_id(algorithm: AsymmetricAlgorithm, key_bytes: Vec<u8>, key_id: String) -> (r: PrivateKey)
        ensures
            r.algorithm == algorithm,
            r.key_bytes == key_bytes,
            r.key_id == Some(key_id),
    {
        PrivateKey { algorithm, key_bytes, key_id: Some(key_id) }
    }

    /// The key's identifier; see [`key_identifier`].
    pub fn id(&self) -> (r: String)
        ensures
            r@ == key_identifier(self.key_id, self.key_bytes@),
    {
        key_identifier_of(&self.key_id, self.key_bytes.as_slice())
    }

    pub fn as_bytes(&self) -> (r: &[u8])
        ensures
            r@ == self.key_bytes@,
    {
        self.key_bytes.as_slice()
    }

    /// The key's binary record; see [`key_record`].
    pub fn to_bytes(&self) -> (r: Result<Vec<u8>, AsymmetricError>)
        ensures
            r matches Ok(v) && v@ == key_record(
                self.algorithm,
                self.key_bytes@,
                opt_chars(self.key_id),
            ),
    {
        Ok(encode_key_record(self.algorithm, self.key_bytes.as_slice(), &self.key_id))
    }

    /// Reads a key from the start of a binary record.
    pub fn from_bytes(bytes: &[u8]) -> (r: Result<PrivateKey, AsymmetricError>)
        ensures
            match key_record_fields(bytes@) {
                Some((alg, kb, id)) => r matches Ok(k) && k.algorithm == alg && k.key_bytes@ == kb
                    && opt_chars(k.key_id) == id,
                None => r matches Err(e) && asym_error_is(
                    e,
                    AsymFault::Backend("Failed to deserialize private key"@),
                ),
            },
    {
        match decode_key_record(bytes) {
            Some((algorithm, key_bytes, key_id)) => Ok(PrivateKey { algorithm, key_bytes, key_id }),
            None => Err(deserialize_failed("Failed to deserialize private key")),
        }
    }
}

/// Private and public key bytes that belong together under an algorithm.
pub open spec fn keys_match(alg: AsymmetricAlgorithm, private_bytes: Seq<u8>, public_bytes: Seq<u8>) -> bool {
    match alg {
        AsymmetricAlgorithm::Ed25519 => private_bytes.len() == 32 && public_bytes == ed25519_public_of(
            private_bytes,
        ),
        AsymmetricAlgorithm::EcdsaP256 => p256_secret_valid(private_bytes) && private_bytes.len()
            == 32 && public_bytes == p256_public_of(private_bytes) && p256_point_encoded(
            public_bytes,
        ) && p256_point_on_curve(public_bytes),
        AsymmetricAlgorithm::Rsa2048 => rsa_pair(private_bytes, public_bytes) && rsa_private_parses(
            private_bytes,
        ) && rsa_public_parses(public_bytes) && rsa_modulus_bytes(public_bytes) == 256,
        AsymmetricAlgorithm::Rsa4096 => rsa_pair(private_bytes, public_bytes) && rsa_private_parses(
            private_bytes,
        ) && rsa_public_parses(public_bytes) && rsa_modulus_bytes(public_bytes) == 512,
    }
}

/// The key lengths of a generated pair: 32-byte Ed25519 keys; a 32-byte
/// P-256 secret with its 65-byte uncompressed point; RSA documents longer
/// than the modulus (public) and than the modulus with both primes
/// (private), whose exact length is not fixed.
pub open spec fn key_lengths_fit(alg: AsymmetricAlgorithm, private_bytes: Seq<u8>, public_bytes: Seq<u8>) -> bool {
    match alg {
        AsymmetricAlgorithm::Ed25519 => private_bytes.len() == 32 && public_bytes.len() == 32,
        AsymmetricAlgorithm::EcdsaP256 => private_bytes.len() == 32 && public_bytes.len() == 65,
        AsymmetricAlgorithm::Rsa2048 => private_bytes.len() > 512 && public_bytes.len() > 256,
        AsymmetricAlgorithm::Rsa4096 => private_bytes.len() > 1024 && public_bytes.len() > 512,
    }
}

impl KeyPair {
    pub fn new(public: PublicKey, private: PrivateKey) -> (r: KeyPair)
        ensures
            r.public == public,
            r.private == private,
    {
        KeyPair { public, private }
    }

    /// A fresh key pair of the given algorithm, without identifiers.  Only
    /// RSA generation can fail.
    pub fn generate(algorithm: AsymmetricAlgorithm) -> (r: Result<KeyPair, AsymmetricError>)
        ensures
            match r {
                Ok(kp) => {
                    &&& kp.public.algorithm == algorithm
                    &&& kp.private.algorithm == algorithm
                    &&& kp.public.key_id is None
                    &&& kp.private.key_id is None
                    &&& keys_match(algorithm, kp.private.key_bytes@, kp.public.key_bytes@)
                    &&& key_lengths_fit(algorithm, kp.private.key_bytes@, kp.public.key_bytes@)
                },
                Err(e) => (algorithm == AsymmetricAlgorithm::Rsa2048 || algorithm
                    == AsymmetricAlgorithm::Rsa4096) && asym_error_is(
                    e,
                    AsymFault::Backend("Failed to generate RSA private key"@),
                ),
            },
    {
        match algorithm {
            AsymmetricAlgorithm::Ed25519 => Ok(KeyPair::generate_ed25519()),
            AsymmetricAlgorithm::EcdsaP256 => Ok(KeyPair::generate_ecdsa_p256()),
            AsymmetricAlgorithm::Rsa2048 => KeyPair::generate_rsa(algorithm, 2048),
            AsymmetricAlgorithm::Rsa4096 => KeyPair::generate_rsa(algorithm, 4096),
        }
    }

    fn generate_ed25519() -> (kp: KeyPair)
        ensures
            kp.public.algorithm == AsymmetricAlgorithm::Ed25519,
            kp.private.algorithm == AsymmetricAlgorithm::Ed25519,
            kp.public.key_id is None,
            kp.private.key_id is None,
            keys_match(AsymmetricAlgorithm::Ed25519, kp.private.key_bytes@, kp.public.key_bytes@),
            key_lengths_fit(AsymmetricAlgorithm::Ed25519, kp.private.key_bytes@, kp.public.key_bytes@),
    {
        let algorithm = AsymmetricAlgorithm::Ed25519;
        let secret: [u8; 32] = random_bytes::<32>();
        let public = ed25519_public_key(&secret);
        let mut sk: Vec<u8> = Vec::new();
        push_all(&mut sk, secret.as_slice());
        let mut pk: Vec<u8> = Vec::new();
        push_all(&mut pk, public.as_slice());
        KeyPair::new(PublicKey::new(algorithm, pk), PrivateKey::new(algorithm, sk))
    }

    fn generate_ecdsa_p256() -> (kp: KeyPair)
        ensures
            kp.public.algorithm == AsymmetricAlgorithm::EcdsaP256,
            kp.private.algorithm == AsymmetricAlgorithm::EcdsaP256,
            kp.public.key_id is None,
            kp.private.key_id is None,
            keys_match(AsymmetricAlgorithm::EcdsaP256, kp.private.key_bytes@, kp.public.key_bytes@),
            key_lengths_fit(AsymmetricAlgorithm::EcdsaP256, kp.private.key_bytes@, kp.public.key_bytes@),
    {
        let algorithm = AsymmetricAlgorithm::EcdsaP256;
        let secret = p256_random_secret();
        let mut sk: Vec<u8> = Vec::new();
        push_all(&mut sk, secret.as_slice());
        let pk = p256_public_sec1(sk.as_slice());
        KeyPair::new(PublicKey::new(algorithm, pk), PrivateKey::new(algorithm, sk))
    }

    fn generate_rsa(algorithm: AsymmetricAlgorithm, bits: usize) -> (r: Result<KeyPair, AsymmetricError>)
        requires
            (algorithm == AsymmetricAlgorithm::Rsa2048 && bits == 2048) || (algorithm
                == AsymmetricAlgorithm::Rsa4096 && bits == 4096),
        ensures
            match r {
                Ok(kp) => {
                    &&& kp.public.algorithm == algorithm
                    &&& kp.private.algorithm == algorithm
                    &&& kp.public.key_id is None
                    &&& kp.private.key_id is None
                    &&& keys_match(algorithm, kp.private.key_bytes@, kp.public.key_bytes@)
                    &&& key_lengths_fit(algorithm, kp.private.key_bytes@, kp.public.key_bytes@)
                },
                Err(e) => asym_error_is(e, AsymFault::Backend("Failed to generate RSA private key"@)),
            },
    {
        match rsa_generate(bits) {
            Some((sk, pk)) => Ok(KeyPair::new(PublicKey::new(algorithm, pk), PrivateKey::new(algorithm, sk))),
            None => Err(deserialize_failed("Failed to generate RSA private key")),
        }
    }
}

/// What P-256 key agreement gives: the shared secret, or the fault.
pub open spec fn ecdh_outcome(secret: Seq<u8>, point: Seq<u8>) -> Result<Seq<u8>, AsymFault> {
    if !p256_secret_valid(secret) {
        Err(AsymFault::KeyFormat("Invalid private key: "@ + p256_secret_error_of(secret)))
    } else if !p256_point_encoded(point) {
        Err(AsymFault::KeyFormat("Invalid public key: "@ + p256_point_error_of(point)))
    } else if !p256_point_on_curve(point) {
        Err(AsymFault::KeyFormat("Invalid public key point"@))
    } else {
        Ok(p256_ecdh_of(secret, point))
    }
}

/// Derives a shared secret by P-256 ECDH; both keys must be P-256.  The
/// peer holding the secret of `peer_public_key` derives the same secret.
pub fn key_exchange(my_private_key: &PrivateKey, peer_public_key: &PublicKey) -> (r: Result<
    Vec<u8>,
    AsymmetricError,
>)
    ensures
        if my_private_key.algorithm == AsymmetricAlgorithm::EcdsaP256
            && peer_public_key.algorithm == AsymmetricAlgorithm::EcdsaP256 {
            match ecdh_outcome(my_private_key.key_bytes@, peer_public_key.key_bytes@) {
                Ok(s) => r matches Ok(v) && v@ == s && v@.len() == 32 && ecdh_agrees(
                    my_private_key.key_bytes@,
                    peer_public_key.key_bytes@,
                    s,
                ),
                Err(f) => r matches Err(e) && asym_error_is(e, f),
            }
        } else {
            r matches Err(e) && asym_error_is(e, AsymFault::Unsupported(my_private_key.algorithm))
        },
{
    match (my_private_key.algorithm, peer_public_key.algorithm) {
        (AsymmetricAlgorithm::EcdsaP256, AsymmetricAlgorithm::EcdsaP256) => {
            ecdh_p256(my_private_key, peer_public_key)
        },
        _ => Err(AsymmetricError::UnsupportedAlgorithm(my_private_key.algorithm)),
    }
}

fn ecdh_p256(private_key: &PrivateKey, public_key: &PublicKey) -> (r: Result<Vec<u8>, AsymmetricError>)
    ensures
        match ecdh_outcome(private_key.key_bytes@, public_key.key_bytes@) {
            Ok(s) => r matches Ok(v) && v@ == s && v@.len() == 32 && ecdh_agrees(
                private_key.key_bytes@,
                public_key.key_bytes@,
                s,
            ),
            Err(f) => r matches Err(e) && asym_error_is(e, f),
        },
{
    let sk = private_key.key_bytes.as_slice();
    let pk = public_key.key_bytes.as_slice();
    match p256_secret_check(sk) {
        Ok(()) => {},
        Err(e) => {
            return Err(AsymmetricError::InvalidKeyFormat(concat_str("Invalid private key: ", e.as_str())));
        },
    }
    match p256_point_check(pk) {
        Ok(()) => {},
        Err(e) => {
            return Err(AsymmetricError::InvalidKeyFormat(concat_str("Invalid public key: ", e.as_str())));
        },
    }
    if !p256_point_is_key(pk) {
        return Err(AsymmetricError::InvalidKeyFormat(String::from_str("Invalid public key point")));
    }
    Ok(p256_ecdh(sk, pk))
}

/// Whether an algorithm is one of the RSA sizes.
pub open spec fn is_rsa(a: AsymmetricAlgorithm) -> bool {
    a == AsymmetricAlgorithm::Rsa2048 || a == AsymmetricAlgorithm::Rsa4096
}

/// What wrapping a session key for a public key gives, short of the
/// (random) ciphertext itself: `Ok` with nothing known but that it opens,
/// or the fault.
pub open spec fn key_wrap_fault(alg: AsymmetricAlgorithm, public_der: Seq<u8>, key: Seq<u8>) -> Option<
    AsymFault,
> {
    if !is_rsa(alg) {
        Some(AsymFault::Unsupported(alg))
    } else if !rsa_public_parses(public_der) {
        Some(AsymFault::KeyFormat("Invalid RSA public key: "@ + rsa_public_error_of(public_der)))
    } else if key.len() + 66 > rsa_modulus_bytes(public_der) {
        Some(AsymFault::KeyExchange("RSA encryption failed: "@ + "message too long"@))
    } else {
        None
    }
}

/// Wraps a 32-byte session key for an RSA public key with OAEP-SHA256: a
/// ciphertext as long as the key's modulus, which every private key paired
/// with the public key unwraps.
pub fn encrypt_key_asymmetric(session_key: &[u8; 32], recipient_public_key: &PublicKey) -> (r: Result<
    Vec<u8>,
    AsymmetricError,
>)
    ensures
        match key_wrap_fault(
            recipient_public_key.algorithm,
            recipient_public_key.key_bytes@,
            session_key@,
        ) {
            None => r matches Ok(c) && opens_for_pair(
                recipient_public_key.key_bytes@,
                c@,
                session_key@,
            ) && c@.len() == rsa_modulus_bytes(recipient_public_key.key_bytes@),
            Some(f) => r matches Err(e) && asym_error_is(e, f),
        },
{
    match recipient_public_key.algorithm {
        AsymmetricAlgorithm::Rsa2048 | AsymmetricAlgorithm::Rsa4096 => {
            rsa_encrypt_key(session_key, recipient_public_key)
        },
        _ => Err(AsymmetricError::UnsupportedAlgorithm(recipient_public_key.algorithm)),
    }
}

fn rsa_encrypt_key(session_key: &[u8; 32], public_key: &PublicKey) -> (r: Result<Vec<u8>, AsymmetricError>)
    requires
        is_rsa(public_key.algorithm),
    ensures
        match key_wrap_fault(public_key.algorithm, public_key.key_bytes@, session_key@) {
            None => r matches Ok(c) && opens_for_pair(public_key.key_bytes@, c@, session_key@) && c@.len()
                == rsa_modulus_bytes(public_key.key_bytes@),
            Some(f) => r matches Err(e) && asym_error_is(e, f),
        },
{
    let der = public_key.key_bytes.as_slice();
    match rsa_public_check(der) {
        Ok(()) => {},
        Err(e) => {
            return Err(AsymmetricError::InvalidKeyFormat(concat_str("Invalid RSA public key: ", e.as_str())));
        },
    }
    match rsa_oaep_encrypt(der, session_key.as_slice()) {
        Ok(c) => Ok(c),
        Err(e) => Err(AsymmetricError::KeyExchangeFailed(concat_str("RSA encryption failed: ", e.as_str()))),
    }
}

/// What unwrapping a session key with a private key gives: the key, or the
/// fault.
pub open spec fn key_unwrap_outcome(alg: AsymmetricAlgorithm, private_der: Seq<u8>, ct: Seq<u8>) -> Result<
    Seq<u8>,
    AsymFault,
> {
    if !is_rsa(alg) {
        Err(AsymFault::Unsupported(alg))
    } else if !rsa_private_parses(private_der) {
        Err(AsymFault::KeyFormat("Invalid RSA private key: "@ + rsa_private_error_of(private_der)))
    } else {
        match rsa_oaep_open_of(private_der, ct) {
            None => Err(
                AsymFault::KeyExchange(
                    "RSA decryption failed: "@ + rsa_decrypt_error_of(private_der, ct),
                ),
            ),
            Some(m) => if m.len() != 32 {
                Err(
                    AsymFault::KeyExchange(
                        "Invalid session key length: expected 32, got "@ + decimal(m.len()),
                    ),
                )
            } else {
                Ok(m)
            },
        }
    }
}

/// Unwraps a session key with an RSA private key.
pub fn decrypt_key_asymmetric(encrypted_key: &[u8], my_private_key: &PrivateKey) -> (r: Result<
    [u8; 32],
    AsymmetricError,
>)
    ensures
        match key_unwrap_outcome(my_private_key.algorithm, my_private_key.key_bytes@, encrypted_key@) {
            Ok(k) => r matches Ok(v) && v@ == k,
            Err(f) => r matches Err(e) && asym_error_is(e, f),
        },
{
    match my_private_key.algorithm {
        AsymmetricAlgorithm::Rsa2048 | AsymmetricAlgorithm::Rsa4096 => {
            rsa_decrypt_key(encrypted_key, my_private_key)
        },
        _ => Err(AsymmetricError::UnsupportedAlgorithm(my_private_key.algorithm)),
    }
}

fn rsa_decrypt_key(encrypted_key: &[u8], private_key: &PrivateKey) -> (r: Result<[u8; 32], AsymmetricError>)
    requires
        is_rsa(private_key.algorithm),
    ensures
        match key_unwrap_outcome(private_key.algorithm, private_key.key_bytes@, encrypted_key@) {
            Ok(k) => r matches Ok(v) && v@ == k,
            Err(f) => r matches Err(e) && asym_error_is(e, f),
        },
{
    let der = private_key.key_bytes.as_slice();
    match rsa_private_check(der) {
        Ok(()) => {},
        Err(e) => {
            return Err(
                AsymmetricError::InvalidKeyFormat(concat_str("Invalid RSA private key: ", e.as_str())),
            );
        },
    }
    let decrypted = match rsa_oaep_decrypt(der, encrypted_key) {
        Ok(m) => m,
        Err(e) => {
            return Err(AsymmetricError::KeyExchangeFailed(concat_str("RSA decryption failed: ", e.as_str())));
        },
    };
    if decrypted.len() != 32 {
        return Err(
            AsymmetricError::KeyExchangeFailed(
                str_with_decimal("Invalid session key length: expected 32, got ", decrypted.len() as u64),
            ),
        );
    }
    let key: [u8; 32] = read_array::<32>(decrypted.as_slice(), 0);
    assert(decrypted@.subrange(0, 32) =~= decrypted@);
    Ok(key)
}

/// A session key wrapped for a public key unwraps, with a private key of
/// the same pair, to the same session key.
pub proof fn law_wrapped_key_unwraps(
    alg: AsymmetricAlgorithm,
    private_der: Seq<u8>,
    public_der: Seq<u8>,
    session_key: Seq<u8>,
    wrapped: Seq<u8>,
)
    requires
        is_rsa(alg),
        keys_match(alg, private_der, public_der),
        session_key.len() == 32,
        opens_for_pair(public_der, wrapped, session_key),
    ensures
        key_unwrap_outcome(alg, private_der, wrapped) == Ok::<_, AsymFault>(session_key),
{
    assert(rsa_pair(private_der, public_der));
}

} // verus!
