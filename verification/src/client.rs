//! The sending side of a chunk stream: how a client turns plaintext into
//! the chunks it sends.
//!
//! A session is described by a header whose BLAKE3 hash every chunk's
//! manifest carries; each chunk's nonce is the session's random prefix
//! followed by the chunk's sequence number, and its associated data binds
//! the header, the sequence number, the nonce, the signed manifest and the
//! plaintext length.  Opening files, reading the environment and talking to
//! the server are left to the caller.

use crate::chunk_manifest::{manifest_layout, DataType, Manifest, ManifestView, DataTypeView, data_type_view};
use crate::codec::{be64, push_all, u64_to_be, write_at};
use crate::format::{
    aad_layout, build_aad, domain_message, header_layout, sign_manifest_with_domain,
    signed_manifest_layout, AeadAlgorithm, FileHeader, HashAlgorithm, KdfAlgorithm, SignatureAlgorithm,
    SignedManifest, VERSION,
};
use crate::network_chunk::NetworkChunk;
use crate::primitives::{
    aes256gcm_encrypt, aes256gcm_open_of, aes256gcm_seal_of, blake3_hash, blake3_of, ed25519_accepts,
    ed25519_key_decodes, ed25519_public_key, ed25519_public_of, ed25519_signature_of, hex_decode,
    random_bytes, unix_time_millis,
};
use crate::text::{decimal, hex_bytes_of, push_decimal};
use vstd::prelude::*;
use vstd::utf8::encode_utf8;

verus! {

/// The current time in milliseconds since the UNIX epoch, taken modulo
/// 2^64; zero when the clock reads before the epoch.
pub fn now_ms() -> (r: u64) {
    match unix_time_millis() {
        Ok(t) => #[verifier::truncate] (t as u64),
        Err(_) => 0,
    }
}

/// The nonce of a chunk: the session's 4-byte prefix and the big-endian
/// sequence number.
pub open spec fn nonce_layout(prefix: Seq<u8>, seq: u64) -> Seq<u8> {
    prefix + be64(seq)
}

/// Builds the nonce of chunk `seq`.
pub fn make_nonce(prefix: [u8; 4], seq: u64) -> (r: [u8; 12])
    ensures
        r@ == nonce_layout(prefix@, seq),
{
    let mut nonce = [0u8; 12];
    write_at(&mut nonce, 0, prefix.as_slice());
    let be = u64_to_be(seq);
    write_at(&mut nonce, 4, be.as_slice());
    assert(nonce@ =~= nonce_layout(prefix@, seq));
    nonce
}

/// The header a client describes its session with.
pub open spec fn session_header(
    chunk_size: u32,
    nonce_prefix: Seq<u8>,
    key_id: Seq<u8>,
    device_id: Seq<char>,
    salt: Seq<char>,
) -> Seq<u8> {
    seq![2u8, 1u8, 1u8, 1u8, 1u8] + seq![0u8, 0u8, 0u8] + key_id + blake3_of(
        encode_utf8(device_id) + encode_utf8(salt),
    ) + nonce_prefix + crate::codec::be32(chunk_size) + seq![0u8, 0u8]
}

/// The session header's hash, for the given random prefix and key id and the
/// device identity (`device_id` and `salt`); the chunk size is taken modulo
/// 2^32 as the header stores it.
pub fn session_header_with(
    chunk_size: usize,
    nonce_prefix: [u8; 4],
    key_id: [u8; 16],
    device_id: &str,
    salt: &str,
) -> (r: ([u8; 32], [u8; 4], [u8; 16]))
    ensures
        r.0@ == blake3_of(session_header(chunk_size as u32, nonce_prefix@, key_id@, device_id@, salt@)),
        r.1 == nonce_prefix,
        r.2 == key_id,
{
    let mut id_material: Vec<u8> = Vec::new();
    push_all(&mut id_material, device_id.as_bytes());
    push_all(&mut id_material, salt.as_bytes());
    let device_id_hash = blake3_hash(id_material.as_slice());
    let header = FileHeader {
        version: VERSION,
        aead_alg: AeadAlgorithm::Aes256Gcm.id(),
        sig_alg: SignatureAlgorithm::Ed25519.id(),
        hash_alg: HashAlgorithm::Blake3.id(),
        kdf_alg: KdfAlgorithm::Pbkdf2Sha256.id(),
        reserved: [0u8; 3],
        key_id,
        device_id_hash,
        nonce_prefix,
        chunk_size: #[verifier::truncate] (chunk_size as u32),
    };
    let bytes = header.to_bytes();
    assert(header.reserved@ =~= seq![0u8, 0u8, 0u8]);
    assert(bytes@ =~= session_header(chunk_size as u32, nonce_prefix@, key_id@, device_id@, salt@));
    let header_hash = blake3_hash(bytes.as_slice());
    (header_hash, nonce_prefix, key_id)
}

/// A new session: a random nonce prefix and key id, and the hash of the
/// header that describes the session (see [`session_header_with`]).
pub fn build_session_header(chunk_size: usize, device_id: &str, salt: &str) -> (r: Result<
    ([u8; 32], [u8; 4], [u8; 16]),
    String,
>)
    ensures
        r matches Ok((hash, prefix, key_id)) && hash@ == blake3_of(
            session_header(chunk_size as u32, prefix@, key_id@, device_id@, salt@),
        ),
{
    let nonce_prefix: [u8; 4] = random_bytes::<4>();
    let key_id: [u8; 16] = random_bytes::<16>();
    Ok(session_header_with(chunk_size, nonce_prefix, key_id, device_id, salt))
}

/// The manifest of chunk `seq` of a session.
pub open spec fn chunk_manifest_view(
    header_hash: Seq<u8>,
    key_id: Seq<u8>,
    seq: u64,
    ts_ms: u64,
    pt: Seq<u8>,
    data_type: DataTypeView,
) -> ManifestView {
    ManifestView {
        v: 1,
        ts_ms,
        seq,
        header_hash,
        pt_hash: blake3_of(pt),
        key_id,
        ai_used: false,
        model_ids: Seq::empty(),
        data_type,
        chunk_len: pt.len() as u32,
    }
}

/// What a client sends for one chunk of plaintext: the ciphertext, the
/// encoded signed manifest and the nonce.
pub open spec fn sealed_chunk(
    signing_key: Seq<u8>,
    key: Seq<u8>,
    header_hash: Seq<u8>,
    nonce_prefix: Seq<u8>,
    key_id: Seq<u8>,
    seq: u64,
    pt: Seq<u8>,
    ts_ms: u64,
    data_type: DataTypeView,
) -> (Seq<u8>, Seq<u8>, Seq<u8>) {
    let nonce = nonce_layout(nonce_prefix, seq);
    let mb = manifest_layout(chunk_manifest_view(header_hash, key_id, seq, ts_ms, pt, data_type));
    let sig = ed25519_signature_of(signing_key, domain_message(mb));
    let sm = signed_manifest_layout(mb, sig, ed25519_public_of(signing_key));
    let aad = aad_layout(header_hash, seq, nonce, blake3_of(mb), pt.len() as u32);
    (aes256gcm_seal_of(key, nonce, aad, pt), sm, nonce)
}

/// Encrypts, describes and signs one chunk of plaintext (see
/// [`sealed_chunk`]); fails only on plaintexts too long for AES-GCM.
pub fn seal_chunk(
    signing_key: &[u8; 32],
    key: &[u8; 32],
    header_hash: &[u8; 32],
    nonce_prefix: [u8; 4],
    key_id: [u8; 16],
    seq: u64,
    pt: &[u8],
    ts_ms: u64,
    data_type: DataType,
) -> (r: Result<NetworkChunk, String>)
    ensures
        pt@.len() > 0x10_0000_0000 ==> (r matches Err(e) && e@ == "AES-GCM encrypt failed"@),
        pt@.len() <= 0x10_0000_0000 ==> (r matches Ok(c) && {
            let (ct, sm, nonce) = sealed_chunk(
                signing_key@,
                key@,
                header_hash@,
                nonce_prefix@,
                key_id@,
                seq,
                pt@,
                ts_ms,
                data_type_view(data_type),
            );
            &&& c.sequence == seq
            &&& c.data@ == ct
            &&& c.manifest@ == sm
            &&& c.nonce@ == nonce
            &&& ed25519_accepts(
                ed25519_public_of(signing_key@),
                domain_message(
                    manifest_layout(
                        chunk_manifest_view(header_hash@, key_id@, seq, ts_ms, pt@, data_type_view(data_type)),
                    ),
                ),
                ed25519_signature_of(
                    signing_key@,
                    domain_message(
                        manifest_layout(
                            chunk_manifest_view(header_hash@, key_id@, seq, ts_ms, pt@, data_type_view(data_type)),
                        ),
                    ),
                ),
            )
            &&& ed25519_key_decodes(ed25519_public_of(signing_key@))
            &&& aes256gcm_open_of(
                key@,
                nonce,
                aad_layout(
                    header_hash@,
                    seq,
                    nonce,
                    blake3_of(
                        manifest_layout(
                            chunk_manifest_view(header_hash@, key_id@, seq, ts_ms, pt@, data_type_view(data_type)),
                        ),
                    ),
                    pt@.len() as u32,
                ),
                ct,
            ) == Some(pt@)
        }),
{
    if pt.len() as u64 > 0x10_0000_0000u64 {
        return Err(String::from_str("AES-GCM encrypt failed"));
    }
    let nonce = make_nonce(nonce_prefix, seq);
    let pt_hash = blake3_hash(pt);
    let chunk_len: u32 = #[verifier::truncate] (pt.len() as u32);
    let manifest = Manifest {
        v: 1,
        ts_ms,
        seq,
        header_hash: *header_hash,
        pt_hash,
        key_id,
        ai_used: false,
        model_ids: Vec::new(),
        data_type,
        chunk_len,
    };
    let m_bytes = manifest.to_wire();
    proof {
        assert(manifest@.model_ids =~= Seq::<Seq<char>>::empty());
        assert(manifest@ == chunk_manifest_view(header_hash@, key_id@, seq, ts_ms, pt@, data_type_view(manifest.data_type)));
    }
    let sig = sign_manifest_with_domain(signing_key, m_bytes.as_slice());
    let public = ed25519_public_key(signing_key);
    let mut sig_vec: Vec<u8> = Vec::new();
    push_all(&mut sig_vec, sig.as_slice());
    let mut pub_vec: Vec<u8> = Vec::new();
    push_all(&mut pub_vec, public.as_slice());
    let mh = blake3_hash(m_bytes.as_slice());
    let aad = build_aad(header_hash, seq, &nonce, &mh, chunk_len);
    let ct = aes256gcm_encrypt(key, &nonce, aad.as_slice(), pt);
    let sm = SignedManifest { manifest: m_bytes, sig: sig_vec, pubkey: pub_vec };
    let sm_bytes = sm.to_wire();
    Ok(NetworkChunk::new_with_nonce(seq, ct, sm_bytes, nonce))
}

/// The plaintext of test chunk `seq`: a greeting, padded with `padding...`
/// until it holds at least `min(chunk_size, 2048)` bytes.
pub open spec fn test_chunk_text(seq: u64) -> Seq<char> {
    "This is encrypted test chunk #"@ + decimal(seq as nat) + ". "@
}

/// Builds the plaintext of test chunk `seq`.
pub fn test_chunk_plaintext(seq: u64, chunk_size: usize) -> (r: Vec<u8>)
    ensures
        exists|k: nat|
            r@ == encode_utf8(test_chunk_text(seq)) + #[trigger] padding_of(k),
        r@.len() >= (if chunk_size < 2048 {
            chunk_size as int
        } else {
            2048
        }),
        r@.len() < (if chunk_size < 2048 {
            chunk_size as int
        } else {
            2048
        }) + 10 || r@ == encode_utf8(test_chunk_text(seq)),
{
    let mut greeting = String::from_str("This is encrypted test chunk #");
    push_decimal(&mut greeting, seq);
    greeting.append(". ");
    let mut pt: Vec<u8> = Vec::new();
    push_all(&mut pt, greeting.as_str().as_bytes());
    let target: usize = if chunk_size < 2048 {
        chunk_size
    } else {
        2048
    };
    let ghost head = pt@;
    let ghost mut k: nat = 0;
    assert(padding_of(0) =~= Seq::<u8>::empty());
    assert(pt@ =~= head + padding_of(0));
    while pt.len() < target
        invariant
            target <= 2048,
            pt@ == head + padding_of(k),
            head == encode_utf8(test_chunk_text(seq)),
            pt@.len() < target + 10 || k == 0,
        decreases target + 10 - pt@.len(),
    {
        push_all(&mut pt, "padding...".as_bytes());
        proof {
            reveal_strlit("padding...");
            lemma_padding_step(k);
            k = k + 1;
            assert(pt@ =~= head + padding_of(k));
        }
    }
    pt
}

/// `k` copies of the padding text.
pub open spec fn padding_of(k: nat) -> Seq<u8>
    decreases k,
{
    if k == 0 {
        Seq::empty()
    } else {
        padding_of((k - 1) as nat) + encode_utf8("padding..."@)
    }
}

proof fn lemma_padding_step(k: nat)
    ensures
        padding_of(k + 1) == padding_of(k) + encode_utf8("padding..."@),
        encode_utf8("padding..."@).len() == 10,
{
    reveal_strlit("padding...");
    vstd::utf8::is_ascii_chars_encode_utf8("padding..."@);
}

/// Parses a 256-bit key given as hexadecimal text.
pub fn parse_key_hex(s: &str) -> (r: Result<[u8; 32], String>)
    ensures
        match r {
            Ok(k) => hex_bytes_of(encode_utf8(s@)) == Some(k@),
            Err(e) => match hex_bytes_of(encode_utf8(s@)) {
                None => e@ == "key_hex: not valid hex"@,
                Some(b) => b.len() != 32 && e@ == "key_hex must be 32 bytes (64 hex chars)"@,
            },
        },
{
    let bytes = match hex_decode(s.as_bytes()) {
        Ok(b) => b,
        Err(_) => {
            return Err(String::from_str("key_hex: not valid hex"));
        },
    };
    if bytes.len() != 32 {
        return Err(String::from_str("key_hex must be 32 bytes (64 hex chars)"));
    }
    let k: [u8; 32] = crate::codec::read_array::<32>(bytes.as_slice(), 0);
    assert(k@ =~= bytes@);
    Ok(k)
}

} // verus!
