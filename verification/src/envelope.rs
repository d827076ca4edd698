//! Envelopes: a payload cut into 64 KiB chunks, each sealed with
//! AES-256-GCM and carrying a manifest signed by the issuer.
//!
//! The key is agreed between the issuer's Ed25519 key and the beneficiary's
//! (both in their X25519 form) and stretched with HKDF-SHA256 under a
//! random per-envelope salt and the info `TRUSTEDGE_ENVELOPE_V1` into 40
//! bytes: the AES key and an 8-byte nonce prefix.  Chunk `i` uses the nonce
//! `prefix || low 3 bytes of i (big-endian) || 0xFF if last else 0x00`.

use crate::codec::{
    be32, framed, le32, le64, lemma_framed_len, lemma_take_framed, lemma_take_raw, lemma_take_u32,
    lemma_take_u64, push_all, put_framed, put_u32_le, put_u64_le, read_array, spec_take_framed,
    spec_take_raw, spec_take_u32, spec_take_u64, take_framed, take_raw, take_u32, take_u64,
    u32_to_be, write_at,
};
use crate::format::{
    aad_layout, build_aad, signed_manifest_fields, signed_manifest_layout, SignedManifest, NONCE_LEN,
};
use crate::network_chunk::NetworkChunk;
use crate::primitives::{
    aes256gcm_decrypt, aes256gcm_encrypt, aes256gcm_open_of, aes256gcm_seal_of, blake3_hash,
    blake3_of, ed25519_accepts, ed25519_key_decodes, ed25519_public_key, ed25519_public_of,
    ed25519_sign, ed25519_signature_of, ed25519_verify, hkdf_sha256, hkdf_sha256_of, random_bytes,
    string_from_utf8, unix_time_secs, x25519_agrees, x25519_shared, x25519_shared_of,
};
use crate::text::{decimal, push_decimal};
use vstd::prelude::*;
use vstd::utf8::valid_utf8;

verus! {

/// Chunk size of envelopes.
pub const DEFAULT_CHUNK_SIZE: usize = 65536;

/// Metadata of an envelope.
#[derive(Debug, Clone, Copy)]
pub struct EnvelopeMetadata {
    /// Creation time, seconds since the UNIX epoch.
    pub created_at: u64,
    /// Size of the payload in bytes.
    pub payload_size: u64,
    /// Number of chunks.
    pub chunk_count: u32,
    /// AEAD algorithm identifier.
    pub aead_algorithm: u8,
    /// Signature algorithm identifier.
    pub signature_algorithm: u8,
    /// Hash algorithm identifier.
    pub hash_algorithm: u8,
}

/// A sealed envelope.
#[derive(Debug, Clone)]
pub struct Envelope {
    version: u8,
    hkdf_salt: [u8; 32],
    chunks: Vec<NetworkChunk>,
    verifying_key_bytes: [u8; 32],
    beneficiary_key_bytes: [u8; 32],
    metadata: EnvelopeMetadata,
}

/// A chunk as values: sequence, ciphertext, manifest bytes, nonce, timestamp.
pub type ChunkView = (u64, Seq<u8>, Seq<u8>, Seq<u8>, u64);

/// The values of a chunk.
pub open spec fn chunk_view(c: NetworkChunk) -> ChunkView {
    (c.sequence, c.data@, c.manifest@, c.nonce@, c.timestamp)
}

/// An envelope as values.
pub struct EnvelopeState {
    pub version: u8,
    pub hkdf_salt: Seq<u8>,
    pub chunks: Seq<ChunkView>,
    pub issuer: Seq<u8>,
    pub beneficiary: Seq<u8>,
    pub metadata: EnvelopeMetadata,
}

impl View for Envelope {
    type V = EnvelopeState;

    closed spec fn view(&self) -> EnvelopeState {
        EnvelopeState {
            version: self.version,
            hkdf_salt: self.hkdf_salt@,
            chunks: self.chunks@.map_values(|c: NetworkChunk| chunk_view(c)),
            issuer: self.verifying_key_bytes@,
            beneficiary: self.beneficiary_key_bytes@,
            metadata: self.metadata,
        }
    }
}

/// The HKDF info `TRUSTEDGE_ENVELOPE_V1`.
pub open spec fn envelope_info() -> Seq<u8> {
    seq![
        84u8, 82u8, 85u8, 83u8, 84u8, 69u8, 68u8, 71u8, 69u8, 95u8, 69u8, 78u8, 86u8, 69u8, 76u8,
        79u8, 80u8, 69u8, 95u8, 86u8, 49u8,
    ]
}

/// The bytes of `ENVELOPE_V1`, hashed into every chunk's associated data.
pub open spec fn envelope_tag() -> Seq<u8> {
    seq![69u8, 78u8, 86u8, 69u8, 76u8, 79u8, 80u8, 69u8, 95u8, 86u8, 49u8]
}

/// The bytes of `application/octet-stream`.
pub open spec fn octet_stream() -> Seq<u8> {
    seq![
        97u8, 112u8, 112u8, 108u8, 105u8, 99u8, 97u8, 116u8, 105u8, 111u8, 110u8, 47u8, 111u8,
        99u8, 116u8, 101u8, 116u8, 45u8, 115u8, 116u8, 114u8, 101u8, 97u8, 109u8,
    ]
}

/// Thirty-two zero bytes.
pub open spec fn zeros32() -> Seq<u8> {
    Seq::new(32, |i: int| 0u8)
}

/// Key material agreed for a secret and a peer's public key under a salt:
/// the AES key and the nonce prefix, or `None` when the shared secret is
/// all zeros.
pub open spec fn key_material(secret: Seq<u8>, public: Seq<u8>, salt: Seq<u8>) -> Option<(Seq<u8>, Seq<u8>)> {
    let shared = x25519_shared_of(secret, public);
    if shared == zeros32() {
        None
    } else {
        let okm = hkdf_sha256_of(Some(salt), shared, envelope_info(), 40);
        Some((okm.subrange(0, 32), okm.subrange(32, 40)))
    }
}

fn all_zero(b: &[u8; 32]) -> (r: bool)
    ensures
        r == (b@ == zeros32()),
{
    let mut i: usize = 0;
    while i < 32
        invariant
            i <= 32,
            forall|j: int| 0 <= j < i ==> b@[j] == 0u8,
        decreases 32 - i,
    {
        if b[i] != 0u8 {
            assert(b@[i as int] != zeros32()[i as int]);
            return false;
        }
        i = i + 1;
    }
    assert(b@ =~= zeros32());
    true
}

/// Agrees key material with a peer; see [`key_material`].
fn derive_shared_encryption_key(my_secret: &[u8; 32], their_public: &[u8; 32], salt: &[u8; 32]) -> (r:
    Result<([u8; 32], [u8; 8]), String>)
    requires
        ed25519_key_decodes(their_public@),
    ensures
        match key_material(my_secret@, their_public@, salt@) {
            Some((k, p)) => r matches Ok((rk, rp)) && rk@ == k && rp@ == p,
            None => r matches Err(m) && m@ == "ECDH produced zero shared secret"@,
        },
        x25519_agrees(my_secret@, their_public@, x25519_shared_of(my_secret@, their_public@)),
{
    let shared = x25519_shared(my_secret, their_public);
    if all_zero(&shared) {
        return Err(String::from_str("ECDH produced zero shared secret"));
    }
    let info = vec![
        84u8, 82u8, 85u8, 83u8, 84u8, 69u8, 68u8, 71u8, 69u8, 95u8, 69u8, 78u8, 86u8, 69u8, 76u8,
        79u8, 80u8, 69u8, 95u8, 86u8, 49u8,
    ];
    assert(info@ =~= envelope_info());
    let okm: [u8; 40] = hkdf_sha256::<40>(Some(salt.as_slice()), shared.as_slice(), info.as_slice());
    let key: [u8; 32] = read_array::<32>(okm.as_slice(), 0);
    let prefix: [u8; 8] = read_array::<8>(okm.as_slice(), 32);
    Ok((key, prefix))
}

/// Nonce of chunk `seq`: the prefix, the low three bytes of the index
/// (big-endian) and the last-chunk flag.
pub open spec fn chunk_nonce(prefix: Seq<u8>, seq: u64, last: bool) -> Seq<u8> {
    prefix + be32(seq as u32).subrange(1, 4) + seq![if last { 0xFFu8 } else { 0u8 }]
}

fn make_chunk_nonce(prefix: &[u8; 8], seq: u64, last: bool) -> (r: [u8; NONCE_LEN])
    ensures
        r@ == chunk_nonce(prefix@, seq, last),
{
    let mut nonce = [0u8; NONCE_LEN];
    write_at(&mut nonce, 0, prefix.as_slice());
    let be = u32_to_be(seq as u32);
    write_at(&mut nonce, 8, &be.as_slice()[1..4]);
    nonce[11] = if last {
        0xFFu8
    } else {
        0u8
    };
    assert(nonce@ =~= chunk_nonce(prefix@, seq, last));
    nonce
}

/// The bytes of a chunk manifest: sequence, chunk size, timestamp, format
/// hint, key derivation salt, iteration count.
pub open spec fn chunk_manifest_record(
    seq: u64,
    size: u32,
    ts: u64,
    hint: Seq<u8>,
    salt: Seq<u8>,
    iters: u32,
) -> Seq<u8> {
    le64(seq) + le32(size) + le64(ts) + framed(hint) + salt + le32(iters)
}

/// The manifest of chunk `seq` of an envelope, as written.
pub open spec fn written_chunk_manifest(seq: u64, size: u32, ts: u64) -> Seq<u8> {
    chunk_manifest_record(seq, size, ts, octet_stream(), zeros32(), 0)
}

/// The fields of a chunk manifest read from the start of bytes: sequence,
/// size, timestamp and key derivation salt (the hint must be UTF-8).
pub open spec fn chunk_manifest_fields(b: Seq<u8>) -> Option<(u64, u32, u64, Seq<u8>)> {
    match spec_take_u64(b, 0) {
        None => None,
        Some((seq, p1)) => match spec_take_u32(b, p1) {
            None => None,
            Some((size, p2)) => match spec_take_u64(b, p2) {
                None => None,
                Some((ts, p3)) => match spec_take_framed(b, p3) {
                    None => None,
                    Some((hint, p4)) => if !valid_utf8(hint) {
                        None
                    } else {
                        match spec_take_raw(b, p4, 32) {
                            None => None,
                            Some((salt, p5)) => match spec_take_u32(b, p5) {
                                None => None,
                                Some((_iters, _p6)) => Some((seq, size, ts, salt)),
                            },
                        }
                    },
                },
            },
        },
    }
}

fn octet_stream_bytes() -> (r: Vec<u8>)
    ensures
        r@ == octet_stream(),
{
    let r = vec![
        97u8, 112u8, 112u8, 108u8, 105u8, 99u8, 97u8, 116u8, 105u8, 111u8, 110u8, 47u8, 111u8,
        99u8, 116u8, 101u8, 116u8, 45u8, 115u8, 116u8, 114u8, 101u8, 97u8, 109u8,
    ];
    assert(r@ =~= octet_stream());
    r
}

fn encode_chunk_manifest(seq: u64, size: u32, ts: u64) -> (r: Vec<u8>)
    ensures
        r@ == written_chunk_manifest(seq, size, ts),
{
    let mut out: Vec<u8> = Vec::new();
    put_u64_le(&mut out, seq);
    put_u32_le(&mut out, size);
    put_u64_le(&mut out, ts);
    let hint = octet_stream_bytes();
    put_framed(&mut out, hint.as_slice());
    let salt = [0u8; 32];
    assert(salt@ =~= zeros32());
    push_all(&mut out, salt.as_slice());
    put_u32_le(&mut out, 0u32);
    assert(out@ =~= written_chunk_manifest(seq, size, ts));
    out
}

fn decode_chunk_manifest(b: &[u8]) -> (r: Option<(u64, u32, u64, [u8; 32])>)
    ensures
        match r {
            Some((seq, size, ts, salt)) => chunk_manifest_fields(b@) == Some((seq, size, ts, salt@)),
            None => chunk_manifest_fields(b@) is None,
        },
{
    let (seq, p1) = match take_u64(b, 0) {
        Some(x) => x,
        None => return None,
    };
    let (size, p2) = match take_u32(b, p1) {
        Some(x) => x,
        None => return None,
    };
    let (ts, p3) = match take_u64(b, p2) {
        Some(x) => x,
        None => return None,
    };
    let (hint, p4) = match take_framed(b, p3) {
        Some(x) => x,
        None => return None,
    };
    match string_from_utf8(hint) {
        Some(_) => {},
        None => return None,
    }
    let (salt_v, p5) = match take_raw(b, p4, 32) {
        Some(x) => x,
        None => return None,
    };
    let (_iters, _p6) = match take_u32(b, p5) {
        Some(x) => x,
        None => return None,
    };
    let salt: [u8; 32] = read_array::<32>(salt_v.as_slice(), 0);
    assert(salt_v@.subrange(0, 32) =~= salt_v@);
    Some((seq, size, ts, salt))
}

/// A chunk manifest reads back to what was written.
pub proof fn law_chunk_manifest_roundtrip(seq: u64, size: u32, ts: u64, rest: Seq<u8>)
    ensures
        chunk_manifest_fields(written_chunk_manifest(seq, size, ts) + rest) == Some(
            (seq, size, ts, zeros32()),
        ),
{
    let x = Seq::<u8>::empty();
    let a = le64(seq);
    let b = le32(size);
    let c = le64(ts);
    let h = framed(octet_stream());
    let z = zeros32();
    let t = le32(0u32);
    let all = written_chunk_manifest(seq, size, ts) + rest;
    lemma_framed_len(octet_stream());
    assert(spec_take_u64(all, 0) == Some((seq, 8int))) by {
        assert(all =~= x + a + (b + c + h + z + t + rest));
        lemma_take_u64(x, seq, b + c + h + z + t + rest);
    }
    assert(spec_take_u32(all, 8) == Some((size, 12int))) by {
        assert(all =~= a + b + (c + h + z + t + rest));
        lemma_take_u32(a, size, c + h + z + t + rest);
    }
    assert(spec_take_u64(all, 12) == Some((ts, 20int))) by {
        assert(all =~= (a + b) + c + (h + z + t + rest));
        lemma_take_u64(a + b, ts, h + z + t + rest);
    }
    let p4: int = 52;
    assert(spec_take_framed(all, 20) == Some((octet_stream(), p4))) by {
        assert(all =~= (a + b + c) + h + (z + t + rest));
        lemma_take_framed(a + b + c, octet_stream(), z + t + rest);
    }
    assert(spec_take_raw(all, p4, 32) == Some((z, p4 + 32))) by {
        assert(all =~= (a + b + c + h) + z + (t + rest));
        lemma_take_raw(a + b + c + h, z, t + rest);
    }
    assert(spec_take_u32(all, p4 + 32) == Some((0u32, p4 + 36))) by {
        assert(all =~= (a + b + c + h + z) + t + rest);
        lemma_take_u32(a + b + c + h + z, 0u32, rest);
    }
    assert(valid_utf8(octet_stream())) by {
        lemma_octet_stream_text();
    }
}

proof fn lemma_octet_stream_text()
    ensures
        valid_utf8(octet_stream()),
{
    let s = seq![
        'a', 'p', 'p', 'l', 'i', 'c', 'a', 't', 'i', 'o', 'n', '/', 'o', 'c', 't', 'e', 't', '-',
        's', 't', 'r', 'e', 'a', 'm',
    ];
    assert(vstd::utf8::is_ascii_chars(s));
    vstd::utf8::is_ascii_chars_encode_utf8(s);
    vstd::utf8::encode_utf8_valid_utf8(s);
    assert(vstd::utf8::encode_utf8(s) =~= octet_stream());
}

/// The hash of `ENVELOPE_V1`, the first part of every chunk's associated data.
pub open spec fn envelope_header_hash() -> Seq<u8> {
    blake3_of(envelope_tag())
}

fn envelope_header_hash_bytes() -> (r: [u8; 32])
    ensures
        r@ == envelope_header_hash(),
{
    let tag = vec![69u8, 78u8, 86u8, 69u8, 76u8, 79u8, 80u8, 69u8, 95u8, 86u8, 49u8];
    assert(tag@ =~= envelope_tag());
    blake3_hash(tag.as_slice())
}

/// What sealing chunk `seq` gives: its ciphertext, the bytes of its signed
/// manifest and its nonce.
pub open spec fn sealed_chunk(
    seq: u64,
    data: Seq<u8>,
    signing: Seq<u8>,
    key: Seq<u8>,
    prefix: Seq<u8>,
    last: bool,
    ts: u64,
) -> (Seq<u8>, Seq<u8>, Seq<u8>) {
    let nonce = chunk_nonce(prefix, seq, last);
    let m = written_chunk_manifest(seq, data.len() as u32, ts);
    let mh = blake3_of(m);
    let sig = ed25519_signature_of(signing, mh);
    let sm = signed_manifest_layout(m, sig, ed25519_public_of(signing));
    let aad = aad_layout(envelope_header_hash(), seq, nonce, mh, data.len() as u32);
    (aes256gcm_seal_of(key, nonce, aad, data), sm, nonce)
}

/// Seals one chunk under the envelope's key material.
fn create_encrypted_chunk(
    sequence: u64,
    chunk_data: &[u8],
    signing_key: &[u8; 32],
    encryption_key: &[u8; 32],
    nonce_prefix: &[u8; 8],
    is_last_chunk: bool,
    metadata: &EnvelopeMetadata,
) -> (r: NetworkChunk)
    requires
        chunk_data@.len() <= DEFAULT_CHUNK_SIZE,
    ensures
        (r.data@, r.manifest@, r.nonce@) == sealed_chunk(
            sequence,
            chunk_data@,
            signing_key@,
            encryption_key@,
            nonce_prefix@,
            is_last_chunk,
            metadata.created_at,
        ),
        r.sequence == sequence,
        r.data@.len() == chunk_data@.len() + 16,
        ed25519_signature_of(
            signing_key@,
            blake3_of(written_chunk_manifest(sequence, chunk_data@.len() as u32, metadata.created_at)),
        ).len() == 64,
        ed25519_accepts(
            ed25519_public_of(signing_key@),
            blake3_of(written_chunk_manifest(sequence, chunk_data@.len() as u32, metadata.created_at)),
            ed25519_signature_of(
                signing_key@,
                blake3_of(written_chunk_manifest(sequence, chunk_data@.len() as u32, metadata.created_at)),
            ),
        ),
        aes256gcm_open_of(
            encryption_key@,
            r.nonce@,
            aad_layout(
                envelope_header_hash(),
                sequence,
                r.nonce@,
                blake3_of(written_chunk_manifest(sequence, chunk_data@.len() as u32, metadata.created_at)),
                chunk_data@.len() as u32,
            ),
            r.data@,
        ) == Some(chunk_data@),
{
    let nonce = make_chunk_nonce(nonce_prefix, sequence, is_last_chunk);
    let size = chunk_data.len() as u32;
    let manifest = encode_chunk_manifest(sequence, size, metadata.created_at);
    let manifest_hash = blake3_hash(manifest.as_slice());
    let sig = ed25519_sign(signing_key, manifest_hash.as_slice());
    let public = ed25519_public_key(signing_key);
    let mut sig_v: Vec<u8> = Vec::new();
    push_all(&mut sig_v, sig.as_slice());
    let mut pub_v: Vec<u8> = Vec::new();
    push_all(&mut pub_v, public.as_slice());
    let signed = SignedManifest { manifest, sig: sig_v, pubkey: pub_v };
    let header_hash = envelope_header_hash_bytes();
    let aad = build_aad(&header_hash, sequence, &nonce, &manifest_hash, size);
    let ciphertext = aes256gcm_encrypt(encryption_key, &nonce, aad.as_slice(), chunk_data);
    let wire = signed.to_wire();
    NetworkChunk::new_with_nonce(sequence, ciphertext, wire, nonce)
}

/// Number of chunks of a payload of `n` bytes.
pub open spec fn chunk_total(n: nat) -> nat {
    if n % 65536 == 0 {
        n / 65536
    } else {
        n / 65536 + 1
    }
}

/// Chunk `k` of a payload.
pub open spec fn payload_chunk(payload: Seq<u8>, k: nat) -> Seq<u8> {
    let start: int = k as int * 65536;
    let end: int = if start + 65536 <= payload.len() {
        start + 65536
    } else {
        payload.len() as int
    };
    payload.subrange(start, end)
}

/// Metadata of an envelope sealed at `ts` for a payload of `n` bytes.
pub open spec fn sealed_metadata(ts: u64, n: nat) -> EnvelopeMetadata {
    EnvelopeMetadata {
        created_at: ts,
        payload_size: n as u64,
        chunk_count: chunk_total(n) as u32,
        aead_algorithm: 1,
        signature_algorithm: 1,
        hash_algorithm: 1,
    }
}

/// The manifest of chunk `i` of a payload, as sealed at `ts`.
pub open spec fn payload_chunk_manifest(payload: Seq<u8>, i: int, ts: u64) -> Seq<u8> {
    written_chunk_manifest(i as u64, payload_chunk(payload, i as nat).len() as u32, ts)
}

/// The first `k` chunks are those sealed from the payload; each signature
/// verifies under the issuer's key and each ciphertext opens to its chunk.
pub open spec fn chunks_sealed(
    chunks: Seq<ChunkView>,
    k: int,
    payload: Seq<u8>,
    signing: Seq<u8>,
    key: Seq<u8>,
    prefix: Seq<u8>,
    ts: u64,
) -> bool {
    forall|i: int|
        0 <= i < k ==> {
            &&& (#[trigger] chunks[i]).0 == i
            &&& chunks[i].1.len() == payload_chunk(payload, i as nat).len() + 16
            &&& (chunks[i].1, chunks[i].2, chunks[i].3) == sealed_chunk(
                i as u64,
                payload_chunk(payload, i as nat),
                signing,
                key,
                prefix,
                i == chunk_total(payload.len()) - 1,
                ts,
            )
            &&& ed25519_signature_of(signing, blake3_of(payload_chunk_manifest(payload, i, ts))).len()
                == 64
            &&& ed25519_accepts(
                ed25519_public_of(signing),
                blake3_of(payload_chunk_manifest(payload, i, ts)),
                ed25519_signature_of(signing, blake3_of(payload_chunk_manifest(payload, i, ts))),
            )
            &&& aes256gcm_open_of(
                key,
                chunks[i].3,
                aad_layout(
                    envelope_header_hash(),
                    i as u64,
                    chunks[i].3,
                    blake3_of(payload_chunk_manifest(payload, i, ts)),
                    payload_chunk(payload, i as nat).len() as u32,
                ),
                chunks[i].1,
            ) == Some(payload_chunk(payload, i as nat))
        }
}

/// An envelope state sealed from a payload by a signing key for a
/// beneficiary, under a salt, at a time.
pub open spec fn sealed_state(
    e: EnvelopeState,
    payload: Seq<u8>,
    signing: Seq<u8>,
    beneficiary: Seq<u8>,
    salt: Seq<u8>,
    ts: u64,
) -> bool {
    &&& e.version == 2
    &&& e.hkdf_salt == salt
    &&& e.issuer == ed25519_public_of(signing)
    &&& e.beneficiary == beneficiary
    &&& e.metadata == sealed_metadata(ts, payload.len())
    &&& e.chunks.len() == chunk_total(payload.len())
    &&& ed25519_key_decodes(ed25519_public_of(signing))
    &&& ed25519_public_of(signing).len() == 32
    &&& x25519_agrees(signing, beneficiary, x25519_shared_of(signing, beneficiary))
    &&& key_material(signing, beneficiary, salt) matches Some((key, prefix)) && chunks_sealed(
        e.chunks,
        e.chunks.len() as int,
        payload,
        signing,
        key,
        prefix,
        ts,
    )
}

/// An envelope state sealed from a payload for a beneficiary under some
/// 32-byte salt at some time.
pub open spec fn sealed_from(e: EnvelopeState, payload: Seq<u8>, signing: Seq<u8>, beneficiary: Seq<u8>) -> bool {
    exists|salt: Seq<u8>, ts: u64|
        #![trigger sealed_state(e, payload, signing, beneficiary, salt, ts)]
        salt.len() == 32 && sealed_state(e, payload, signing, beneficiary, salt, ts)
}

impl Envelope {
    /// Seals a payload for a beneficiary whose key bytes are first checked
    /// to be an Ed25519 public key: `None` when they are not, otherwise what
    /// [`Envelope::seal`] gives.
    pub fn seal_checked(payload: &[u8], signing_key: &[u8; 32], beneficiary_key: &[u8; 32]) -> (r: Option<
        Result<Envelope, String>,
    >)
        ensures
            r is None <==> !ed25519_key_decodes(beneficiary_key@),
            r matches Some(Ok(env)) ==> sealed_from(env@, payload@, signing_key@, beneficiary_key@),
    {
        match crate::primitives::ed25519_key_check(beneficiary_key) {
            Ok(()) => Some(Envelope::seal(payload, signing_key, beneficiary_key)),
            Err(_) => None,
        }
    }
}

impl Envelope {
    /// Seals a payload from an issuer's signing key for a beneficiary's
    /// public key, with a fresh random salt, at the current time; see
    /// [`Envelope::seal_at`].
    pub fn seal(payload: &[u8], signing_key: &[u8; 32], beneficiary_key: &[u8; 32]) -> (r: Result<
        Envelope,
        String,
    >)
        requires
            ed25519_key_decodes(beneficiary_key@),
        ensures
            match r {
                Ok(env) => sealed_from(env@, payload@, signing_key@, beneficiary_key@),
                Err(m) => m@ == "Failed to get current timestamp"@ || (m@ == "ECDH produced zero shared secret"@
                    && x25519_shared_of(signing_key@, beneficiary_key@) == zeros32()),
            },
            x25519_shared_of(signing_key@, beneficiary_key@) == zeros32() ==> r is Err,
    {
        let now = unix_time_secs();
        let salt: [u8; 32] = random_bytes::<32>();
        let r = Envelope::seal_at(payload, signing_key, beneficiary_key, now, salt);
        proof {
            if r is Ok {
                let t = now->Ok_0;
                assert(sealed_state(r->Ok_0@, payload@, signing_key@, beneficiary_key@, salt@, t));
            }
        }
        r
    }

    /// Seals a payload from an issuer's signing key for a beneficiary's
    /// public key, under the HKDF salt `salt`, against a reading of the
    /// clock: a clock error refuses, an all-zero X25519 shared secret
    /// refuses, and otherwise the envelope is [`sealed_state`] at that time.
    pub fn seal_at(
        payload: &[u8],
        signing_key: &[u8; 32],
        beneficiary_key: &[u8; 32],
        now: Result<u64, String>,
        salt: [u8; 32],
    ) -> (r: Result<Envelope, String>)
        requires
            ed25519_key_decodes(beneficiary_key@),
        ensures
            match now {
                Err(_) => r matches Err(m) && m@ == "Failed to get current timestamp"@,
                Ok(t) => if x25519_shared_of(signing_key@, beneficiary_key@) == zeros32() {
                    r matches Err(m) && m@ == "ECDH produced zero shared secret"@
                } else {
                    r matches Ok(env) && sealed_state(env@, payload@, signing_key@, beneficiary_key@, salt@, t)
                },
            },
    {
        let ts = match now {
            Ok(t) => t,
            Err(_) => {
                return Err(String::from_str("Failed to get current timestamp"));
            },
        };
        let n = payload.len();
        let total: usize = if n % 65536 == 0 {
            n / 65536
        } else {
            n / 65536 + 1
        };
        let metadata = EnvelopeMetadata {
            created_at: ts,
            payload_size: n as u64,
            chunk_count: #[verifier::truncate] (total as u32),
            aead_algorithm: 1,
            signature_algorithm: 1,
            hash_algorithm: 1,
        };
        let (key, prefix) = match derive_shared_encryption_key(signing_key, beneficiary_key, &salt) {
            Ok(x) => x,
            Err(m) => {
                return Err(m);
            },
        };
        let mut chunks: Vec<NetworkChunk> = Vec::new();
        let mut i: usize = 0;
        while i < total
            invariant
                i <= total,
                n == payload@.len(),
                total == chunk_total(n as nat),
                metadata.created_at == ts,
                chunks@.len() == i,
                chunks_sealed(
                    chunks@.map_values(|c: NetworkChunk| chunk_view(c)),
                    i as int,
                    payload@,
                    signing_key@,
                    key@,
                    prefix@,
                    ts,
                ),
            decreases total - i,
        {
            let start = i * 65536;
            let end = if n - start >= 65536 {
                start + 65536
            } else {
                n
            };
            assert(end == start + 65536 || end == n);
            let piece = &payload[start..end];
            assert(piece@ == payload_chunk(payload@, i as nat));
            let c = create_encrypted_chunk(
                i as u64,
                piece,
                signing_key,
                &key,
                &prefix,
                i == total - 1,
                &metadata,
            );
            let ghost before = chunks@.map_values(|c: NetworkChunk| chunk_view(c));
            chunks.push(c);
            assert(chunks@.map_values(|c: NetworkChunk| chunk_view(c)) =~= before.push(chunk_view(c)));
            i = i + 1;
        }
        let issuer = ed25519_public_key(signing_key);
        assert(issuer@ == ed25519_public_of(signing_key@));
        let env = Envelope {
            version: 2,
            hkdf_salt: salt,
            chunks,
            verifying_key_bytes: issuer,
            beneficiary_key_bytes: *beneficiary_key,
            metadata,
        };
        assert(sealed_state(env@, payload@, signing_key@, beneficiary_key@, salt@, ts));
        Ok(env)
    }
}

/// A chunk's signed manifest decodes and carries a 64-byte signature by
/// the issuer over the hash of the chunk manifest.
pub open spec fn chunk_signature_ok(issuer: Seq<u8>, manifest: Seq<u8>) -> bool {
    match signed_manifest_fields(manifest) {
        None => false,
        Some((m, sig, _pk)) => sig.len() == 64 && ed25519_key_decodes(issuer) && ed25519_accepts(
            issuer,
            blake3_of(m),
            sig,
        ),
    }
}

/// The chunks' sequence numbers are `0 .. count`, each exactly once.
pub open spec fn sequence_ok(chunks: Seq<ChunkView>, count: u32) -> bool {
    &&& chunks.len() == count
    &&& forall|i: int| 0 <= i < chunks.len() ==> (#[trigger] chunks[i]).0 < count
    &&& forall|i: int, j: int|
        0 <= i < j < chunks.len() ==> (#[trigger] chunks[i]).0 != (#[trigger] chunks[j]).0
}

/// Every chunk is signed by the issuer and none is missing or repeated.
pub open spec fn envelope_verifies(e: EnvelopeState) -> bool {
    &&& forall|i: int|
        0 <= i < e.chunks.len() ==> chunk_signature_ok(e.issuer, (#[trigger] e.chunks[i]).2)
    &&& sequence_ok(e.chunks, e.metadata.chunk_count)
}

/// An envelope passes verification, and so can be unsealed, only if each
/// of its chunks carries in its signed manifest a 64-byte Ed25519
/// signature by the issuer over the BLAKE3 hash of the chunk manifest: a
/// chunk whose signature or manifest is such that the issuer's signature
/// does not verify makes verification fail and unsealing refuse.
pub proof fn law_unsigned_chunk_fails_verification(e: EnvelopeState, secret: Seq<u8>, i: int)
    requires
        0 <= i < e.chunks.len(),
        !(signed_manifest_fields(e.chunks[i].2) matches Some((m, sig, _pk)) && sig.len() == 64
            && ed25519_accepts(e.issuer, blake3_of(m), sig)),
    ensures
        !envelope_verifies(e),
        unseal_outcome(e, secret) == Err::<Seq<u8>, Seq<char>>("Envelope verification failed"@),
{
    if envelope_verifies(e) {
        assert(chunk_signature_ok(e.issuer, e.chunks[i].2));
    }
}

/// The chunk carrying sequence number `k`.
pub open spec fn chunk_with_sequence(chunks: Seq<ChunkView>, k: u64) -> ChunkView {
    chunks[choose|i: int| 0 <= i < chunks.len() && (#[trigger] chunks[i]).0 == k]
}

/// What decrypting a chunk of an envelope with a secret key gives.
pub open spec fn decrypt_chunk_outcome(e: EnvelopeState, c: ChunkView, secret: Seq<u8>) -> Result<
    Seq<u8>,
    Seq<char>,
> {
    match signed_manifest_fields(c.2) {
        None => Err("Failed to deserialize signed manifest"@),
        Some((m, _sig, _pk)) => match chunk_manifest_fields(m) {
            None => Err("Failed to deserialize chunk manifest"@),
            Some((seq, size, _ts, kd_salt)) => if !ed25519_key_decodes(e.issuer) {
                Err("Invalid sender public key in envelope"@)
            } else {
                let salt = if e.version >= 2 {
                    e.hkdf_salt
                } else {
                    kd_salt
                };
                match key_material(secret, e.issuer, salt) {
                    None => Err("ECDH produced zero shared secret"@),
                    Some((key, _prefix)) => {
                        let aad = aad_layout(envelope_header_hash(), seq, c.3, blake3_of(m), size);
                        match aes256gcm_open_of(key, c.3, aad, c.1) {
                            None => Err("Decryption failed: Error"@),
                            Some(p) => Ok(p),
                        }
                    },
                }
            },
        },
    }
}

/// Decrypts the chunks with sequence numbers below `k`, in order.
pub open spec fn decrypt_upto(e: EnvelopeState, secret: Seq<u8>, k: nat) -> Result<Seq<u8>, Seq<char>>
    decreases k,
{
    if k == 0 {
        Ok(Seq::empty())
    } else {
        match decrypt_upto(e, secret, (k - 1) as nat) {
            Err(m) => Err(m),
            Ok(acc) => match decrypt_chunk_outcome(
                e,
                chunk_with_sequence(e.chunks, (k - 1) as u64),
                secret,
            ) {
                Err(m) => Err(m),
                Ok(d) => Ok(acc + d),
            },
        }
    }
}

/// What unsealing an envelope with a secret key gives: the payload, or why
/// not.
pub open spec fn unseal_outcome(e: EnvelopeState, secret: Seq<u8>) -> Result<Seq<u8>, Seq<char>> {
    if !envelope_verifies(e) {
        Err("Envelope verification failed"@)
    } else {
        match decrypt_upto(e, secret, e.chunks.len()) {
            Err(m) => Err(m),
            Ok(p) => if p.len() != (e.metadata.payload_size as usize) as nat {
                Err(
                    "Payload size mismatch: expected "@ + decimal(e.metadata.payload_size as nat)
                        + ", got "@ + decimal(p.len()),
                )
            } else {
                Ok(p)
            },
        }
    }
}

proof fn lemma_decrypt_upto_err_stable(e: EnvelopeState, secret: Seq<u8>, k: nat, n: nat)
    requires
        k <= n,
        decrypt_upto(e, secret, k) is Err,
    ensures
        decrypt_upto(e, secret, n) == decrypt_upto(e, secret, k),
    decreases n - k,
{
    if k < n {
        lemma_decrypt_upto_err_stable(e, secret, k, (n - 1) as nat);
    }
}

impl Envelope {
    fn verify_chunk_signature(&self, chunk: &NetworkChunk) -> (r: bool)
        ensures
            r == chunk_signature_ok(self@.issuer, chunk.manifest@),
    {
        let sm = match SignedManifest::from_wire(chunk.manifest.as_slice()) {
            Some(sm) => sm,
            None => return false,
        };
        if sm.sig.len() != 64 {
            return false;
        }
        let hash = blake3_hash(sm.manifest.as_slice());
        let sig: [u8; 64] = read_array::<64>(sm.sig.as_slice(), 0);
        assert(sm.sig@.subrange(0, 64) =~= sm.sig@);
        match ed25519_verify(&self.verifying_key_bytes, hash.as_slice(), &sig) {
            Some(ok) => ok,
            None => false,
        }
    }

    fn verify_chunk_sequence(&self) -> (r: bool)
        ensures
            r == sequence_ok(self@.chunks, self@.metadata.chunk_count),
    {
        let ghost cs = self@.chunks;
        if self.chunks.len() != self.metadata.chunk_count as usize {
            return false;
        }
        let n = self.chunks.len();
        let mut seen: Vec<bool> = Vec::new();
        let mut z: usize = 0;
        while z < n
            invariant
                z <= n,
                seen@.len() == z,
                forall|k: int| 0 <= k < z ==> !seen@[k],
            decreases n - z,
        {
            seen.push(false);
            z = z + 1;
        }
        let mut i: usize = 0;
        while i < n
            invariant
                i <= n,
                n == self.chunks@.len(),
                n == self.metadata.chunk_count,
                cs == self@.chunks,
                cs.len() == n,
                seen@.len() == n,
                forall|j: int| 0 <= j < i ==> (#[trigger] cs[j]).0 < n,
                forall|j: int, l: int| 0 <= j < l < i ==> (#[trigger] cs[j]).0 != (#[trigger] cs[l]).0,
                forall|k: int| 0 <= k < n ==> (#[trigger] seen@[k] <==> exists|j: int| 0 <= j < i && cs[j].0 == k),
            decreases n - i,
        {
            let s = self.chunks[i].sequence;
            assert(cs[i as int].0 == s);
            if s >= n as u64 {
                return false;
            }
            if seen[s as usize] {
                proof {
                    let j = choose|j: int| 0 <= j < i && cs[j].0 == s;
                    assert(cs[j].0 == cs[i as int].0);
                }
                return false;
            }
            seen.set(s as usize, true);
            i = i + 1;
        }
        true
    }

    /// Whether every chunk is signed by the issuer and the chunks are
    /// complete and unrepeated.
    pub fn verify(&self) -> (r: bool)
        ensures
            r == envelope_verifies(self@),
            r ==> forall|i: int|
                0 <= i < self@.chunks.len() ==> (signed_manifest_fields((#[trigger] self@.chunks[i]).2) matches Some(
                    (m, sig, _pk),
                ) && sig.len() == 64 && ed25519_accepts(self@.issuer, blake3_of(m), sig)),
    {
        let ghost cs = self@.chunks;
        let n = self.chunks.len();
        let mut i: usize = 0;
        while i < n
            invariant
                i <= n,
                n == cs.len(),
                cs == self@.chunks,
                forall|j: int| 0 <= j < i ==> chunk_signature_ok(self@.issuer, (#[trigger] cs[j]).2),
            decreases n - i,
        {
            assert(cs[i as int] == chunk_view(self.chunks@[i as int]));
            if !self.verify_chunk_signature(&self.chunks[i]) {
                return false;
            }
            i = i + 1;
        }
        self.verify_chunk_sequence()
    }

    fn decrypt_chunk(&self, chunk: &NetworkChunk, decryption_key: &[u8; 32]) -> (r: Result<Vec<u8>, String>)
        ensures
            match decrypt_chunk_outcome(self@, chunk_view(*chunk), decryption_key@) {
                Ok(p) => r matches Ok(v) && v@ == p,
                Err(m) => r matches Err(e) && e@ == m,
            },
    {
        let sm = match SignedManifest::from_wire(chunk.manifest.as_slice()) {
            Some(sm) => sm,
            None => {
                return Err(String::from_str("Failed to deserialize signed manifest"));
            },
        };
        let (seq, size, _ts, kd_salt) = match decode_chunk_manifest(sm.manifest.as_slice()) {
            Some(x) => x,
            None => {
                return Err(String::from_str("Failed to deserialize chunk manifest"));
            },
        };
        match crate::primitives::ed25519_key_check(&self.verifying_key_bytes) {
            Ok(()) => {},
            Err(_) => {
                return Err(String::from_str("Invalid sender public key in envelope"));
            },
        }
        let salt = if self.version >= 2 {
            self.hkdf_salt
        } else {
            kd_salt
        };
        let (key, _prefix) = match derive_shared_encryption_key(
            decryption_key,
            &self.verifying_key_bytes,
            &salt,
        ) {
            Ok(x) => x,
            Err(m) => {
                return Err(m);
            },
        };
        let header_hash = envelope_header_hash_bytes();
        let manifest_hash = blake3_hash(sm.manifest.as_slice());
        let aad = build_aad(&header_hash, seq, &chunk.nonce, &manifest_hash, size);
        match aes256gcm_decrypt(&key, &chunk.nonce, aad.as_slice(), chunk.data.as_slice()) {
            Some(p) => Ok(p),
            None => Err(String::from_str("Decryption failed: Error")),
        }
    }

    /// Verifies the envelope, then decrypts its chunks in sequence order with
    /// the beneficiary's secret key and checks the payload's size.
    pub fn unseal(&self, decryption_key: &[u8; 32]) -> (r: Result<Vec<u8>, String>)
        ensures
            match unseal_outcome(self@, decryption_key@) {
                Ok(p) => r matches Ok(v) && v@ == p,
                Err(m) => r matches Err(e) && e@ == m,
            },
            r is Ok ==> forall|i: int|
                0 <= i < self@.chunks.len() ==> (signed_manifest_fields((#[trigger] self@.chunks[i]).2) matches Some(
                    (m, sig, _pk),
                ) && sig.len() == 64 && ed25519_accepts(self@.issuer, blake3_of(m), sig)),
    {
        if !self.verify() {
            return Err(String::from_str("Envelope verification failed"));
        }
        let ghost e = self@;
        let ghost cs = self@.chunks;
        let n = self.chunks.len();
        let mut pos: Vec<usize> = Vec::new();
        let mut z: usize = 0;
        while z < n
            invariant
                z <= n,
                pos@.len() == z,
            decreases n - z,
        {
            pos.push(0);
            z = z + 1;
        }
        let mut i: usize = 0;
        while i < n
            invariant
                i <= n,
                n == cs.len(),
                cs == self@.chunks,
                sequence_ok(cs, self@.metadata.chunk_count),
                pos@.len() == n,
                forall|j: int| 0 <= j < i ==> #[trigger] pos@[cs[j].0 as int] == j,
            decreases n - i,
        {
            let s = self.chunks[i].sequence;
            assert(cs[i as int].0 == s);
            pos.set(s as usize, i);
            assert forall|j: int| 0 <= j < i + 1 implies #[trigger] pos@[cs[j].0 as int] == j by {
                if j < i {
                    assert(cs[j].0 != cs[i as int].0);
                }
            }
            i = i + 1;
        }
        let mut payload: Vec<u8> = Vec::new();
        let mut k: usize = 0;
        while k < n
            invariant
                k <= n,
                n == cs.len(),
                e == self@,
                cs == e.chunks,
                sequence_ok(cs, e.metadata.chunk_count),
                envelope_verifies(e),
                pos@.len() == n,
                forall|j: int| 0 <= j < n ==> #[trigger] pos@[cs[j].0 as int] == j,
                decrypt_upto(e, decryption_key@, k as nat) == Ok::<Seq<u8>, Seq<char>>(payload@),
            decreases n - k,
        {
            let idx = pos[k];
            proof {
                lemma_sequence_covers(cs, e.metadata.chunk_count, k as int);
                let w = choose|w: int| 0 <= w < cs.len() && (#[trigger] cs[w]).0 == k as u64;
                assert(pos@[cs[w].0 as int] == w);
                assert(idx == w);
                lemma_chunk_with_sequence(cs, e.metadata.chunk_count, k as u64, w);
            }
            assert(chunk_view(self.chunks@[idx as int]) == cs[idx as int]);
            let d = match self.decrypt_chunk(&self.chunks[idx], decryption_key) {
                Ok(d) => d,
                Err(m) => {
                    proof {
                        lemma_decrypt_upto_err_stable(e, decryption_key@, (k + 1) as nat, n as nat);
                    }
                    return Err(m);
                },
            };
            push_all(&mut payload, d.as_slice());
            k = k + 1;
        }
        if payload.len() != self.metadata.payload_size as usize {
            let mut m = String::from_str("Payload size mismatch: expected ");
            push_decimal(&mut m, self.metadata.payload_size);
            m.append(", got ");
            push_decimal(&mut m, payload.len() as u64);
            return Err(m);
        }
        Ok(payload)
    }

    /// The envelope's metadata.
    pub fn metadata(&self) -> (r: &EnvelopeMetadata)
        ensures
            *r == self@.metadata,
    {
        &self.metadata
    }

    /// The beneficiary's public key.
    pub fn beneficiary(&self) -> (r: [u8; 32])
        ensures
            r@ == self@.beneficiary,
    {
        self.beneficiary_key_bytes
    }

    /// The issuer's public key.
    pub fn issuer(&self) -> (r: [u8; 32])
        ensures
            r@ == self@.issuer,
    {
        self.verifying_key_bytes
    }
}

/// With sequence numbers `0 .. count` each present once, every number below
/// the count is carried by some chunk.
proof fn lemma_sequence_covers(cs: Seq<ChunkView>, count: u32, k: int)
    requires
        sequence_ok(cs, count),
        0 <= k < count,
    ensures
        exists|w: int| 0 <= w < cs.len() && (#[trigger] cs[w]).0 == k as u64,
{
    // The map from positions to sequence numbers is injective into
    // `0 .. count` on `count` positions, hence onto.
    let n = cs.len() as int;
    let f = |i: int| cs[i].0 as int;
    assert forall|i: int| 0 <= i < n implies 0 <= #[trigger] f(i) < n by {
        assert(cs[i].0 < count);
    }
    assert forall|i: int, j: int| 0 <= i < n && 0 <= j < n && i != j implies #[trigger] f(i) != #[trigger] f(j) by {
        if i < j {
            assert(cs[i].0 != cs[j].0);
        } else {
            assert(cs[j].0 != cs[i].0);
        }
    }
    lemma_injective_onto(f, n, k);
}

/// An injective map from `0 .. n` into `0 .. n` reaches every value below `n`.
proof fn lemma_injective_onto(f: spec_fn(int) -> int, n: int, k: int)
    requires
        0 <= k < n,
        forall|i: int| 0 <= i < n ==> 0 <= #[trigger] f(i) < n,
        forall|i: int, j: int| 0 <= i < n && 0 <= j < n && i != j ==> #[trigger] f(i) != #[trigger] f(j),
    ensures
        exists|w: int| 0 <= w < n && #[trigger] f(w) == k,
    decreases n,
{
    let last = n - 1;
    if exists|w: int| 0 <= w < n && #[trigger] f(w) == last {
        let w = choose|w: int| 0 <= w < n && #[trigger] f(w) == last;
        if k == last {
            assert(0 <= w < n && f(w) == k);
        } else {
            let h = |i: int| if i == w { f(last) } else { f(i) };
            assert forall|i: int| 0 <= i < last implies 0 <= #[trigger] h(i) < last by {
                if i == w {
                    assert(f(last) != f(w));
                } else {
                    assert(f(i) != f(w));
                }
            }
            assert forall|i: int, j: int| 0 <= i < last && 0 <= j < last && i != j implies #[trigger] h(i)
                != #[trigger] h(j) by {
                if i == w {
                    assert(f(last) != f(j));
                } else if j == w {
                    assert(f(i) != f(last));
                } else {
                    assert(f(i) != f(j));
                }
            }
            lemma_injective_onto(h, last, k);
            let v = choose|v: int| 0 <= v < last && #[trigger] h(v) == k;
            if v == w {
                assert(0 <= last < n && f(last) == k);
            } else {
                assert(0 <= v < n && f(v) == k);
            }
        }
    } else {
        // Every value lies below `last`; then `0 .. last` already covers
        // `0 .. last`, and `f(last)` collides with one of them.
        if last > 0 {
            assert forall|i: int| 0 <= i < last implies 0 <= #[trigger] f(i) < last by {
                assert(f(i) != last);
            }
            assert(0 <= f(last) < last) by {
                assert(f(last) != last);
            }
            lemma_injective_onto(f, last, f(last));
            let v = choose|v: int| 0 <= v < last && #[trigger] f(v) == f(last);
            assert(f(v) != f(last));
        } else {
            assert(f(0) != 0);
        }
    }
}

/// The chunk carrying a sequence number is the one at its position.
proof fn lemma_chunk_with_sequence(cs: Seq<ChunkView>, count: u32, k: u64, w: int)
    requires
        sequence_ok(cs, count),
        0 <= w < cs.len(),
        cs[w].0 == k,
    ensures
        chunk_with_sequence(cs, k) == cs[w],
{
    let i = choose|i: int| 0 <= i < cs.len() && (#[trigger] cs[i]).0 == k;
    if i != w {
        if i < w {
            assert(cs[i].0 != cs[w].0);
        } else {
            assert(cs[w].0 != cs[i].0);
        }
    }
}

/// The end of the first `k` chunks of a payload of `len` bytes.
pub open spec fn prefix_end(len: nat, k: nat) -> int {
    if k * 65536 <= len {
        (k * 65536) as int
    } else {
        len as int
    }
}

proof fn lemma_chunk_bounds(len: nat, i: nat)
    requires
        i < chunk_total(len),
    ensures
        i * 65536 < len,
        prefix_end(len, i) == i * 65536,
        payload_chunk_range(len, i),
{
    assert(i * 65536 < len) by (nonlinear_arith)
        requires
            i < (if len % 65536 == 0 { len / 65536 } else { len / 65536 + 1 }),
    ;
    assert(prefix_end(len, (i + 1) as nat) == (if (i + 1) * 65536 <= len { ((i + 1) * 65536) as int } else { len as int }));
}

/// Chunk `i` spans the payload from the end of `i` chunks to the end of
/// `i + 1` chunks.
pub open spec fn payload_chunk_range(len: nat, i: nat) -> bool {
    prefix_end(len, (i + 1) as nat) == (if i * 65536 + 65536 <= len { (i * 65536 + 65536) as int } else { len as int })
}

proof fn lemma_chunk_total_covers(len: nat)
    ensures
        prefix_end(len, chunk_total(len)) == len,
        chunk_total(len) <= len,
{
    let n = chunk_total(len);
    assert(n * 65536 >= len) by (nonlinear_arith)
        requires
            n == (if len % 65536 == 0 { len / 65536 } else { len / 65536 + 1 }),
    ;
    assert(n <= len) by (nonlinear_arith)
        requires
            n == (if len % 65536 == 0 { len / 65536 } else { len / 65536 + 1 }),
    ;
}

proof fn lemma_written_chunk_manifest_len(seq: u64, size: u32, ts: u64)
    ensures
        written_chunk_manifest(seq, size, ts).len() == 88,
{
    lemma_framed_len(octet_stream());
}

#[verifier::spinoff_prover]
proof fn lemma_chunk_decrypts(
    e: EnvelopeState,
    payload: Seq<u8>,
    signing: Seq<u8>,
    secret: Seq<u8>,
    salt: Seq<u8>,
    ts: u64,
    key: Seq<u8>,
    prefix: Seq<u8>,
    i: int,
)
    requires
        0 <= i < e.chunks.len(),
        e.chunks.len() == chunk_total(payload.len()),
        e.version == 2,
        e.hkdf_salt == salt,
        e.issuer == ed25519_public_of(signing),
        ed25519_public_of(signing).len() == 32,
        ed25519_key_decodes(e.issuer),
        key_material(secret, e.issuer, salt) == Some((key, prefix)),
        chunks_sealed(e.chunks, e.chunks.len() as int, payload, signing, key, prefix, ts),
    ensures
        decrypt_chunk_outcome(e, e.chunks[i], secret) == Ok::<Seq<u8>, Seq<char>>(
            payload_chunk(payload, i as nat),
        ),
{
    let c = e.chunks[i];
    let data = payload_chunk(payload, i as nat);
    let m = payload_chunk_manifest(payload, i, ts);
    let sig = ed25519_signature_of(signing, blake3_of(m));
    let pk = ed25519_public_of(signing);
    assert(c.2 == signed_manifest_layout(m, sig, pk));
    lemma_written_chunk_manifest_len(i as u64, data.len() as u32, ts);
    crate::format::law_signed_manifest_roundtrip(m, sig, pk, Seq::empty());
    assert(signed_manifest_layout(m, sig, pk) + Seq::<u8>::empty() =~= signed_manifest_layout(m, sig, pk));
    law_chunk_manifest_roundtrip(i as u64, data.len() as u32, ts, Seq::empty());
    assert(m + Seq::<u8>::empty() =~= m);
}

proof fn lemma_chunk_signature(
    e: EnvelopeState,
    payload: Seq<u8>,
    signing: Seq<u8>,
    ts: u64,
    key: Seq<u8>,
    prefix: Seq<u8>,
    i: int,
)
    requires
        0 <= i < e.chunks.len(),
        e.issuer == ed25519_public_of(signing),
        ed25519_public_of(signing).len() == 32,
        ed25519_key_decodes(e.issuer),
        chunks_sealed(e.chunks, e.chunks.len() as int, payload, signing, key, prefix, ts),
    ensures
        chunk_signature_ok(e.issuer, e.chunks[i].2),
{
    let c = e.chunks[i];
    let m = payload_chunk_manifest(payload, i, ts);
    let sig = ed25519_signature_of(signing, blake3_of(m));
    let pk = ed25519_public_of(signing);
    assert(c.2 == signed_manifest_layout(m, sig, pk));
    assert(sig.len() == 64);
    lemma_written_chunk_manifest_len(i as u64, payload_chunk(payload, i as nat).len() as u32, ts);
    crate::format::law_signed_manifest_roundtrip(m, sig, pk, Seq::empty());
    assert(signed_manifest_layout(m, sig, pk) + Seq::<u8>::empty() =~= signed_manifest_layout(m, sig, pk));
}

#[verifier::spinoff_prover]
#[verifier::rlimit(40)]
proof fn lemma_decrypt_prefix(
    e: EnvelopeState,
    payload: Seq<u8>,
    signing: Seq<u8>,
    secret: Seq<u8>,
    salt: Seq<u8>,
    ts: u64,
    key: Seq<u8>,
    prefix: Seq<u8>,
    k: nat,
)
    requires
        k <= e.chunks.len(),
        e.chunks.len() == chunk_total(payload.len()),
        e.version == 2,
        e.hkdf_salt == salt,
        e.issuer == ed25519_public_of(signing),
        ed25519_public_of(signing).len() == 32,
        ed25519_key_decodes(e.issuer),
        sequence_ok(e.chunks, e.metadata.chunk_count),
        key_material(secret, e.issuer, salt) == Some((key, prefix)),
        chunks_sealed(e.chunks, e.chunks.len() as int, payload, signing, key, prefix, ts),
    ensures
        decrypt_upto(e, secret, k) == Ok::<Seq<u8>, Seq<char>>(
            payload.subrange(0, prefix_end(payload.len(), k)),
        ),
    decreases k,
{
    if k == 0 {
        assert(payload.subrange(0, 0) =~= Seq::<u8>::empty());
    } else {
        let i = (k - 1) as nat;
        lemma_decrypt_prefix(e, payload, signing, secret, salt, ts, key, prefix, i);
        lemma_chunk_bounds(payload.len(), i);
        assert(e.chunks[i as int].0 == i);
        lemma_chunk_with_sequence(e.chunks, e.metadata.chunk_count, i as u64, i as int);
        lemma_chunk_decrypts(e, payload, signing, secret, salt, ts, key, prefix, i as int);
        assert(payload.subrange(0, prefix_end(payload.len(), i)) + payload_chunk(payload, i)
            =~= payload.subrange(0, prefix_end(payload.len(), k)));
    }
}

/// An envelope sealed for a beneficiary unseals, with the beneficiary's
/// secret key, to the payload it was sealed from (for payloads of fewer
/// than 2^32 chunks, whose count the metadata holds, and that fit in
/// memory).
#[verifier::spinoff_prover]
pub proof fn law_seal_unseal(
    e: EnvelopeState,
    payload: Seq<u8>,
    signing: Seq<u8>,
    beneficiary: Seq<u8>,
    secret: Seq<u8>,
)
    requires
        sealed_from(e, payload, signing, beneficiary),
        secret.len() == 32,
        ed25519_public_of(secret) == beneficiary,
        chunk_total(payload.len()) <= 0xffff_ffff,
        payload.len() <= usize::MAX,
    ensures
        unseal_outcome(e, secret) == Ok::<Seq<u8>, Seq<char>>(payload),
{
    let (salt, ts) = choose|salt: Seq<u8>, ts: u64|
        #![trigger sealed_state(e, payload, signing, beneficiary, salt, ts)]
        salt.len() == 32 && sealed_state(e, payload, signing, beneficiary, salt, ts);
    let (key, prefix) = key_material(signing, beneficiary, salt)->Some_0;
    let n = chunk_total(payload.len());
    assert(x25519_shared_of(secret, ed25519_public_of(signing)) == x25519_shared_of(signing, beneficiary));
    assert(key_material(secret, e.issuer, salt) == key_material(signing, beneficiary, salt));
    assert(e.metadata.chunk_count == n);
    assert forall|i: int| 0 <= i < e.chunks.len() implies chunk_signature_ok(e.issuer, (#[trigger] e.chunks[i]).2) by {
        lemma_chunk_signature(e, payload, signing, ts, key, prefix, i);
    }
    assert(sequence_ok(e.chunks, e.metadata.chunk_count)) by {
        assert forall|i: int| 0 <= i < e.chunks.len() implies (#[trigger] e.chunks[i]).0 < e.metadata.chunk_count by {
            assert(e.chunks[i].0 == i);
        }
        assert forall|i: int, j: int| 0 <= i < j < e.chunks.len() implies (#[trigger] e.chunks[i]).0 != (#[trigger] e.chunks[j]).0 by {
            assert(e.chunks[i].0 == i && e.chunks[j].0 == j);
        }
    }
    lemma_decrypt_prefix(e, payload, signing, secret, salt, ts, key, prefix, n);
    lemma_chunk_total_covers(payload.len());
    assert(payload.subrange(0, payload.len() as int) =~= payload);
    assert(envelope_verifies(e));
    assert(decrypt_upto(e, secret, e.chunks.len()) == Ok::<Seq<u8>, Seq<char>>(payload));
    assert(e.metadata.payload_size == payload.len() as u64);
}

/// The bytes of a chunk in an envelope's encoding.
pub open spec fn chunk_record(c: ChunkView) -> Seq<u8> {
    le64(c.0) + framed(c.1) + framed(c.2) + c.3 + le64(c.4)
}

/// The bytes of the first `k` chunks.
pub open spec fn chunks_record(cs: Seq<ChunkView>, k: nat) -> Seq<u8>
    decreases k,
{
    if k == 0 || k > cs.len() {
        Seq::empty()
    } else {
        chunks_record(cs, (k - 1) as nat) + chunk_record(cs[k - 1])
    }
}

/// The bytes of an envelope: version, salt, the counted chunks, issuer,
/// beneficiary and metadata, integers little-endian.
pub open spec fn envelope_bytes(e: EnvelopeState) -> Seq<u8> {
    seq![e.version] + e.hkdf_salt + le64(e.chunks.len() as u64) + chunks_record(
        e.chunks,
        e.chunks.len(),
    ) + e.issuer + e.beneficiary + le64(e.metadata.created_at) + le64(e.metadata.payload_size)
        + le32(e.metadata.chunk_count) + seq![
        e.metadata.aead_algorithm,
        e.metadata.signature_algorithm,
        e.metadata.hash_algorithm,
    ]
}

impl Envelope {
    /// BLAKE3 hash of the envelope's bytes, for chaining envelopes.
    pub fn hash(&self) -> (r: [u8; 32])
        ensures
            r@ == blake3_of(envelope_bytes(self@)),
    {
        let ghost e = self@;
        let mut out: Vec<u8> = Vec::new();
        out.push(self.version);
        push_all(&mut out, self.hkdf_salt.as_slice());
        put_u64_le(&mut out, self.chunks.len() as u64);
        let ghost head = out@;
        let n = self.chunks.len();
        let mut i: usize = 0;
        while i < n
            invariant
                i <= n,
                n == e.chunks.len(),
                e == self@,
                out@ == head + chunks_record(e.chunks, i as nat),
            decreases n - i,
        {
            let c = &self.chunks[i];
            assert(e.chunks[i as int] == chunk_view(*c));
            put_u64_le(&mut out, c.sequence);
            put_framed(&mut out, c.data.as_slice());
            put_framed(&mut out, c.manifest.as_slice());
            push_all(&mut out, c.nonce.as_slice());
            put_u64_le(&mut out, c.timestamp);
            assert(out@ =~= head + chunks_record(e.chunks, (i + 1) as nat));
            i = i + 1;
        }
        push_all(&mut out, self.verifying_key_bytes.as_slice());
        push_all(&mut out, self.beneficiary_key_bytes.as_slice());
        put_u64_le(&mut out, self.metadata.created_at);
        put_u64_le(&mut out, self.metadata.payload_size);
        put_u32_le(&mut out, self.metadata.chunk_count);
        out.push(self.metadata.aead_algorithm);
        out.push(self.metadata.signature_algorithm);
        out.push(self.metadata.hash_algorithm);
        assert(out@ =~= envelope_bytes(e));
        blake3_hash(out.as_slice())
    }
}

} // verus!
