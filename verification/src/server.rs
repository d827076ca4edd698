//! The receiving side of a chunk stream: what a server decides about each
//! frame of a connection.
//!
//! The server locks a stream to the nonce prefix (and, when it decrypts,
//! the header hash) of its first chunk, requires strictly consecutive
//! sequence numbers starting at 1, and enforces per-connection limits.
//! Reading frames, writing files and sending acknowledgements are left to
//! the caller, which hands each decoded chunk to these functions.

use crate::chunk_manifest::{
    data_type_fits, law_manifest_roundtrip, manifest_fits, manifest_layout, parse_manifest, DataTypeView,
    Manifest,
};
use crate::client::{chunk_manifest_view, nonce_layout, sealed_chunk};
use crate::format::{
    aad_layout, build_aad, domain_message, law_signed_manifest_roundtrip, signed_manifest_fields,
    signed_manifest_layout, verify_manifest_with_domain, FormatError, SignedManifest,
};
use crate::network_chunk::NetworkChunk;
use crate::primitives::{
    aes256gcm_decrypt, aes256gcm_open_of, blake3_hash, blake3_keyed_hash, blake3_keyed_of, blake3_of,
    ed25519_accepts, ed25519_key_decodes, ed25519_public_of, ed25519_signature_of, hex_decode,
    hex_encode,
};
use crate::text::{bytes_equal, concat_str, decimal, hex_bytes_of, hex_text, push_decimal};
use vstd::prelude::*;

verus! {

/// Largest frame the server's legacy reader accepts (100 MiB).
pub const MAX_LEGACY_FRAME: u32 = 104_857_600;

/// What a server tracks about one connection.
#[derive(Debug)]
pub struct ConnectionState {
    pub connection_id: u64,
    /// AES-256-GCM key the connection decrypts with, if it decrypts.
    pub cipher_key: Option<[u8; 32]>,
    /// Sequence number the next chunk must carry.
    pub expected_seq_next: u64,
    /// Header hash the stream is locked to.
    pub stream_header_hash: Option<[u8; 32]>,
    /// Nonce prefix the stream is locked to.
    pub stream_nonce_prefix: Option<[u8; 4]>,
    pub header_verified: bool,
    pub header_locked: bool,
    pub authenticated: bool,
    pub session_id: Option<[u8; 16]>,
    pub client_identity: Option<String>,
    pub bytes_received: u64,
    pub chunks_received: u64,
}

/// The first four bytes of a nonce.
pub open spec fn nonce_prefix_of(nonce: Seq<u8>) -> Seq<u8> {
    nonce.subrange(0, 4)
}

pub open spec fn opt_bytes4(o: Option<[u8; 4]>) -> Option<Seq<u8>> {
    match o {
        Some(a) => Some(a@),
        None => None,
    }
}

pub open spec fn opt_bytes32(o: Option<[u8; 32]>) -> Option<Seq<u8>> {
    match o {
        Some(a) => Some(a@),
        None => None,
    }
}

/// How the hardened handler judges a chunk: the new nonce-prefix lock and
/// either the acknowledgement text or the reason for refusing it.
pub open spec fn hardened_outcome(
    locked: bool,
    verified: bool,
    prefix: Option<Seq<u8>>,
    expected: u64,
    seq: u64,
    nonce: Seq<u8>,
) -> (Option<Seq<u8>>, Result<Seq<char>, Seq<char>>) {
    let p = nonce_prefix_of(nonce);
    let new_prefix = if !locked && !verified {
        Some(p)
    } else {
        prefix
    };
    if locked && (prefix matches Some(q) && q != p) {
        (new_prefix, Err("Nonce prefix mismatch - stream header locked, renegotiation rejected"@))
    } else if seq != expected {
        (
            new_prefix,
            Err("Sequence mismatch: got "@ + decimal(seq as nat) + ", expected "@ + decimal(expected as nat)),
        )
    } else {
        (new_prefix, Ok("ACK "@ + decimal(seq as nat)))
    }
}

/// Why the legacy handler refuses a chunk, if it does.
pub open spec fn legacy_problem(chunk_ok: bool, seq: u64, expected: u64) -> Option<Seq<char>> {
    if !chunk_ok {
        Some("Chunk validation failed"@)
    } else if seq != expected {
        Some(
            "Out-of-order chunk: got seq="@ + decimal(seq as nat) + ", expected "@ + decimal(
                expected as nat,
            ),
        )
    } else {
        None
    }
}

/// What decrypting a chunk gives, from the stream's locks before it: the
/// locks after it and the plaintext or the reason for refusing it.  The
/// locks are taken from the first chunk whose manifest verifies and decodes,
/// and they stay even when a later check fails.
pub open spec fn open_outcome(
    key: Option<Seq<u8>>,
    hh_lock: Option<Seq<u8>>,
    np_lock: Option<Seq<u8>>,
    seq: u64,
    nonce: Seq<u8>,
    data: Seq<u8>,
    manifest_bytes: Seq<u8>,
) -> (Option<Seq<u8>>, Option<Seq<u8>>, Result<Seq<u8>, Seq<char>>) {
    let unchanged = (hh_lock, np_lock);
    if key is None {
        (hh_lock, np_lock, Err("cipher missing in session"@))
    } else {
        match signed_manifest_fields(manifest_bytes) {
            None => (hh_lock, np_lock, Err("SignedManifest decode"@)),
            Some((mb, sig, pk)) => if pk.len() != 32 {
                (hh_lock, np_lock, Err("pubkey length != 32"@))
            } else if sig.len() != 64 {
                (hh_lock, np_lock, Err("sig length != 64"@))
            } else if !ed25519_key_decodes(pk) {
                (hh_lock, np_lock, Err("bad pubkey"@))
            } else if !ed25519_accepts(pk, domain_message(mb), sig) {
                (hh_lock, np_lock, Err("manifest signature verify failed"@))
            } else {
                match parse_manifest(mb) {
                    None => (hh_lock, np_lock, Err("manifest decode"@)),
                    Some(m) => {
                        let (hh, np) = if hh_lock is None {
                            (Some(m.header_hash), Some(nonce_prefix_of(nonce)))
                        } else {
                            (hh_lock, np_lock)
                        };
                        let res = if hh != Some(m.header_hash) {
                            Err("manifest.header_hash changed mid-stream"@)
                        } else if np != Some(nonce_prefix_of(nonce)) {
                            Err("record nonce prefix != stream nonce_prefix"@)
                        } else if m.chunk_len == 0 {
                            Err("manifest chunk_len must be > 0, got 0"@)
                        } else {
                            let aad = aad_layout(m.header_hash, seq, nonce, blake3_of(mb), m.chunk_len);
                            match aes256gcm_open_of(key->0, nonce, aad, data) {
                                None => Err("AES-GCM decrypt/verify failed"@),
                                Some(pt) => if pt.len() != m.chunk_len {
                                    Err(
                                        "decrypted length "@ + decimal(pt.len()) + " != manifest chunk_len "@
                                            + decimal(m.chunk_len as nat),
                                    )
                                } else if blake3_of(pt) != m.pt_hash {
                                    Err("pt hash mismatch"@)
                                } else {
                                    Ok(pt)
                                },
                            }
                        };
                        (hh, np, res)
                    },
                }
            },
        }
    }
}

/// The acknowledgement a server sends when it confirms with a MAC: the
/// plain acknowledgement, `:MAC:` and the first 8 bytes, in hexadecimal, of
/// the BLAKE3 keyed hash of `hex(session id):ack` under the session
/// identifier written twice.
pub open spec fn secure_ack_text(session_id: Seq<u8>, ack: Seq<char>) -> Seq<char> {
    let input = vstd::utf8::encode_utf8(hex_text(session_id) + ":"@ + ack);
    ack + ":MAC:"@ + hex_text(blake3_keyed_of(session_id + session_id, input).subrange(0, 8))
}

fn prefix_of(nonce: &[u8; 12]) -> (r: [u8; 4])
    ensures
        r@ == nonce_prefix_of(nonce@),
{
    let r = [nonce[0], nonce[1], nonce[2], nonce[3]];
    assert(r@ =~= nonce_prefix_of(nonce@));
    r
}

fn same4(a: &[u8; 4], b: &[u8; 4]) -> (r: bool)
    ensures
        r == (a@ == b@),
{
    bytes_equal(a.as_slice(), b.as_slice())
}

impl ConnectionState {
    /// The state of a new connection: expecting sequence 1, nothing locked
    /// or counted, authenticated exactly when no authentication is required.
    pub fn new(connection_id: u64, cipher_key: Option<[u8; 32]>, require_auth: bool) -> (r: ConnectionState)
        ensures
            r.connection_id == connection_id,
            r.cipher_key == cipher_key,
            r.expected_seq_next == 1,
            r.stream_header_hash is None,
            r.stream_nonce_prefix is None,
            !r.header_verified,
            !r.header_locked,
            r.authenticated == !require_auth,
            r.session_id is None,
            r.client_identity is None,
            r.bytes_received == 0,
            r.chunks_received == 0,
    {
        ConnectionState {
            connection_id,
            cipher_key,
            expected_seq_next: 1,
            stream_header_hash: None,
            stream_nonce_prefix: None,
            header_verified: false,
            header_locked: false,
            authenticated: !require_auth,
            session_id: None,
            client_identity: None,
            bytes_received: 0,
            chunks_received: 0,
        }
    }

    /// Records a successful authentication.
    pub fn record_authentication(&mut self, session_id: [u8; 16], client_identity: Option<String>)
        ensures
            final(self).authenticated,
            final(self).session_id == Some(session_id),
            final(self).client_identity == client_identity,
            final(self).expected_seq_next == old(self).expected_seq_next,
            final(self).bytes_received == old(self).bytes_received,
            final(self).chunks_received == old(self).chunks_received,
            final(self).stream_nonce_prefix == old(self).stream_nonce_prefix,
            final(self).stream_header_hash == old(self).stream_header_hash,
    {
        self.authenticated = true;
        self.session_id = Some(session_id);
        self.client_identity = client_identity;
    }

    /// Checks, before a read, the byte and chunk limits of the connection:
    /// a connection that has reached a limit takes nothing more, so at most
    /// `max_connection_chunks` chunks are read (a limit of 0 means none).
    pub fn check_limits(&self, max_connection_bytes: u64, max_connection_chunks: u64) -> (r: Result<(), String>)
        ensures
            max_connection_bytes > 0 && self.bytes_received >= max_connection_bytes ==> (r matches Err(e) && e@
                == "Connection #"@ + decimal(self.connection_id as nat) + " exceeded byte limit: "@ + decimal(
                self.bytes_received as nat,
            ) + " bytes (max: "@ + decimal(max_connection_bytes as nat) + ")"@),
            !(max_connection_bytes > 0 && self.bytes_received >= max_connection_bytes) && max_connection_chunks
                > 0 && self.chunks_received >= max_connection_chunks ==> (r matches Err(e) && e@
                == "Connection #"@ + decimal(self.connection_id as nat) + " exceeded chunk limit: "@ + decimal(
                self.chunks_received as nat,
            ) + " chunks (max: "@ + decimal(max_connection_chunks as nat) + ")"@),
            r is Ok <==> !(max_connection_bytes > 0 && self.bytes_received >= max_connection_bytes) && !(
            max_connection_chunks > 0 && self.chunks_received >= max_connection_chunks),
    {
        if max_connection_bytes > 0 && self.bytes_received >= max_connection_bytes {
            let mut m = String::from_str("Connection #");
            push_decimal(&mut m, self.connection_id);
            m.append(" exceeded byte limit: ");
            push_decimal(&mut m, self.bytes_received);
            m.append(" bytes (max: ");
            push_decimal(&mut m, max_connection_bytes);
            m.append(")");
            return Err(m);
        }
        if max_connection_chunks > 0 && self.chunks_received >= max_connection_chunks {
            let mut m = String::from_str("Connection #");
            push_decimal(&mut m, self.connection_id);
            m.append(" exceeded chunk limit: ");
            push_decimal(&mut m, self.chunks_received);
            m.append(" chunks (max: ");
            push_decimal(&mut m, max_connection_chunks);
            m.append(")");
            return Err(m);
        }
        Ok(())
    }

    /// Counts a received frame of `len` bytes.
    pub fn record_frame(&mut self, len: u64)
        requires
            old(self).bytes_received + len <= u64::MAX,
            old(self).chunks_received < u64::MAX,
        ensures
            final(self).bytes_received == old(self).bytes_received + len,
            final(self).chunks_received == old(self).chunks_received + 1,
            final(self).expected_seq_next == old(self).expected_seq_next,
            final(self).stream_nonce_prefix == old(self).stream_nonce_prefix,
            final(self).stream_header_hash == old(self).stream_header_hash,
            final(self).header_locked == old(self).header_locked,
            final(self).session_id == old(self).session_id,
            final(self).connection_id == old(self).connection_id,
            final(self).cipher_key == old(self).cipher_key,
            final(self).header_verified == old(self).header_verified,
    {
        self.bytes_received = self.bytes_received + len;
        self.chunks_received = self.chunks_received + 1;
    }

    /// Judges a chunk on the hardened path: the first chunk locks the
    /// stream's nonce prefix, later ones must carry it, and sequence numbers
    /// must follow each other.  The answer is the acknowledgement text.
    pub fn process_chunk_hardened(&mut self, chunk: &NetworkChunk) -> (r: Result<String, String>)
        requires
            old(self).expected_seq_next < u64::MAX,
        ensures
            ({
                let (prefix, res) = hardened_outcome(
                    old(self).header_locked,
                    old(self).header_verified,
                    opt_bytes4(old(self).stream_nonce_prefix),
                    old(self).expected_seq_next,
                    chunk.sequence,
                    chunk.nonce@,
                );
                &&& opt_bytes4(final(self).stream_nonce_prefix) == prefix
                &&& match res {
                    Ok(ack) => r matches Ok(a) && a@ == ack && final(self).expected_seq_next
                        == old(self).expected_seq_next + 1,
                    Err(m) => r matches Err(e) && e@ == m && final(self).expected_seq_next
                        == old(self).expected_seq_next,
                }
            }),
            final(self).header_locked == (old(self).header_locked || !old(self).header_verified),
            final(self).header_verified == (old(self).header_verified || !old(self).header_locked),
            final(self).bytes_received == old(self).bytes_received,
            final(self).chunks_received == old(self).chunks_received,
            final(self).stream_header_hash == old(self).stream_header_hash,
            final(self).session_id == old(self).session_id,
            final(self).connection_id == old(self).connection_id,
            final(self).cipher_key == old(self).cipher_key,
    {
        let prefix = prefix_of(&chunk.nonce);
        if !self.header_locked {
            if !self.header_verified {
                self.stream_nonce_prefix = Some(prefix);
                self.header_verified = true;
                self.header_locked = true;
            }
        } else {
            match &self.stream_nonce_prefix {
                Some(expected) => {
                    if !same4(&prefix, expected) {
                        return Err(
                            String::from_str(
                                "Nonce prefix mismatch - stream header locked, renegotiation rejected",
                            ),
                        );
                    }
                },
                None => {},
            }
        }
        if chunk.sequence != self.expected_seq_next {
            let mut m = String::from_str("Sequence mismatch: got ");
            push_decimal(&mut m, chunk.sequence);
            m.append(", expected ");
            push_decimal(&mut m, self.expected_seq_next);
            return Err(m);
        }
        self.expected_seq_next = self.expected_seq_next + 1;
        let mut ack = String::from_str("ACK ");
        push_decimal(&mut ack, chunk.sequence);
        Ok(ack)
    }

    /// The acknowledgement to send: with a session, the acknowledgement
    /// with its MAC (see [`secure_ack_text`]); without one, unchanged.
    pub fn create_secure_ack(&self, ack_msg: &str) -> (r: String)
        ensures
            match self.session_id {
                Some(id) => r@ == secure_ack_text(id@, ack_msg@),
                None => r@ == ack_msg@,
            },
    {
        match &self.session_id {
            None => String::from_str(ack_msg),
            Some(id) => {
                let mut mac_input = hex_encode(id.as_slice());
                mac_input.append(":");
                mac_input.append(ack_msg);
                let mut key = [0u8; 32];
                crate::codec::write_at(&mut key, 0, id.as_slice());
                crate::codec::write_at(&mut key, 16, id.as_slice());
                assert(key@ =~= id@ + id@);
                let mac = blake3_keyed_hash(&key, mac_input.as_str().as_bytes());
                let mut first8: Vec<u8> = Vec::new();
                let mut i: usize = 0;
                while i < 8
                    invariant
                        i <= 8,
                        mac@.len() == 32,
                        first8@ == mac@.subrange(0, i as int),
                    decreases 8 - i,
                {
                    first8.push(mac[i]);
                    i = i + 1;
                    assert(first8@ =~= mac@.subrange(0, i as int));
                }
                let mut out = String::from_str(ack_msg);
                out.append(":MAC:");
                out.append(hex_encode(first8.as_slice()).as_str());
                out
            },
        }
    }

    /// Judges a chunk on the legacy path against a reading of the clock: it
    /// must pass its own checks (see [`NetworkChunk::validate_at`]) and
    /// carry the next sequence number.  The answer is the acknowledgement
    /// text `ACK:<seq>`.
    pub fn accept_legacy_chunk_at(&mut self, chunk: &NetworkChunk, now: Result<u64, String>) -> (r: Result<
        String,
        String,
    >)
        requires
            old(self).expected_seq_next < u64::MAX,
        ensures
            match legacy_problem(
                crate::network_chunk::chunk_problem(
                    chunk.data@,
                    chunk.manifest@,
                    chunk.timestamp,
                    match now {
                        Ok(t) => Ok(t),
                        Err(e) => Err(e@),
                    },
                ) is None,
                chunk.sequence,
                old(self).expected_seq_next,
            ) {
                None => r matches Ok(ack) && ack@ == "ACK:"@ + decimal(chunk.sequence as nat)
                    && final(self).expected_seq_next == old(self).expected_seq_next + 1,
                Some(m) => r matches Err(e) && e@ == m && final(self).expected_seq_next
                    == old(self).expected_seq_next,
            },
            final(self).stream_header_hash == old(self).stream_header_hash,
            final(self).stream_nonce_prefix == old(self).stream_nonce_prefix,
            final(self).connection_id == old(self).connection_id,
            final(self).cipher_key == old(self).cipher_key,
    {
        match chunk.validate_at(now) {
            Ok(()) => {},
            Err(_) => {
                return Err(String::from_str("Chunk validation failed"));
            },
        }
        if chunk.sequence != self.expected_seq_next {
            let mut m = String::from_str("Out-of-order chunk: got seq=");
            push_decimal(&mut m, chunk.sequence);
            m.append(", expected ");
            push_decimal(&mut m, self.expected_seq_next);
            return Err(m);
        }
        self.expected_seq_next = self.expected_seq_next + 1;
        let mut ack = String::from_str("ACK:");
        push_decimal(&mut ack, chunk.sequence);
        Ok(ack)
    }

    /// Judges a chunk on the legacy path against the current time; see
    /// [`ConnectionState::accept_legacy_chunk_at`].
    pub fn accept_legacy_chunk(&mut self, chunk: &NetworkChunk) -> (r: Result<String, String>)
        requires
            old(self).expected_seq_next < u64::MAX,
        ensures
            r matches Ok(ack) ==> ack@ == "ACK:"@ + decimal(chunk.sequence as nat) && chunk.sequence
                == old(self).expected_seq_next && final(self).expected_seq_next == old(self).expected_seq_next + 1,
            r is Err ==> final(self).expected_seq_next == old(self).expected_seq_next,
            chunk.data@.len() == 0 ==> (r matches Err(e) && e@ == "Chunk validation failed"@),
            final(self).stream_header_hash == old(self).stream_header_hash,
            final(self).stream_nonce_prefix == old(self).stream_nonce_prefix,
            final(self).connection_id == old(self).connection_id,
            final(self).cipher_key == old(self).cipher_key,
    {
        let now = crate::primitives::unix_time_secs();
        self.accept_legacy_chunk_at(chunk, now)
    }

    /// Verifies, decodes and decrypts a chunk of the stream; see
    /// [`open_outcome`].  The plaintext is returned for the caller to store.
    pub fn process_and_decrypt_chunk(&mut self, chunk: &NetworkChunk) -> (r: Result<Vec<u8>, String>)
        requires
            old(self).stream_header_hash is Some ==> old(self).stream_nonce_prefix is Some,
        ensures
            ({
                let (hh, np, res) = open_outcome(
                    match old(self).cipher_key {
                        Some(k) => Some(k@),
                        None => None,
                    },
                    opt_bytes32(old(self).stream_header_hash),
                    opt_bytes4(old(self).stream_nonce_prefix),
                    chunk.sequence,
                    chunk.nonce@,
                    chunk.data@,
                    chunk.manifest@,
                );
                &&& opt_bytes32(final(self).stream_header_hash) == hh
                &&& opt_bytes4(final(self).stream_nonce_prefix) == np
                &&& match res {
                    Ok(pt) => r matches Ok(v) && v@ == pt,
                    Err(m) => r matches Err(e) && e@ == m,
                }
            }),
            final(self).stream_header_hash is Some ==> final(self).stream_nonce_prefix is Some,
            final(self).expected_seq_next == old(self).expected_seq_next,
            final(self).connection_id == old(self).connection_id,
            final(self).cipher_key == old(self).cipher_key,
            final(self).session_id == old(self).session_id,
            final(self).header_locked == old(self).header_locked,
            final(self).bytes_received == old(self).bytes_received,
            final(self).chunks_received == old(self).chunks_received,
    {
        let key = match &self.cipher_key {
            Some(k) => *k,
            None => {
                return Err(String::from_str("cipher missing in session"));
            },
        };
        let sm = match SignedManifest::from_wire(chunk.manifest.as_slice()) {
            Some(sm) => sm,
            None => {
                return Err(String::from_str("SignedManifest decode"));
            },
        };
        if sm.pubkey.len() != 32 {
            return Err(String::from_str("pubkey length != 32"));
        }
        if sm.sig.len() != 64 {
            return Err(String::from_str("sig length != 64"));
        }
        let pubkey: [u8; 32] = crate::codec::read_array::<32>(sm.pubkey.as_slice(), 0);
        let sig: [u8; 64] = crate::codec::read_array::<64>(sm.sig.as_slice(), 0);
        proof {
            assert(pubkey@ =~= sm.pubkey@);
            assert(sig@ =~= sm.sig@);
        }
        match verify_manifest_with_domain(&pubkey, sm.manifest.as_slice(), &sig) {
            Ok(()) => {},
            Err(FormatError::InvalidVerifyingKey) => {
                return Err(String::from_str("bad pubkey"));
            },
            Err(_) => {
                return Err(String::from_str("manifest signature verify failed"));
            },
        }
        let m = match Manifest::from_wire(sm.manifest.as_slice()) {
            Some(m) => m,
            None => {
                return Err(String::from_str("manifest decode"));
            },
        };
        let nonce_prefix = prefix_of(&chunk.nonce);
        if self.stream_header_hash.is_none() {
            self.stream_header_hash = Some(m.header_hash);
            self.stream_nonce_prefix = Some(nonce_prefix);
        }
        let locked_hash = match &self.stream_header_hash {
            Some(h) => *h,
            None => {
                return Err(String::from_str("manifest.header_hash changed mid-stream"));
            },
        };
        if !bytes_equal(m.header_hash.as_slice(), locked_hash.as_slice()) {
            return Err(String::from_str("manifest.header_hash changed mid-stream"));
        }
        let locked_prefix = match &self.stream_nonce_prefix {
            Some(p) => *p,
            None => {
                return Err(String::from_str("record nonce prefix != stream nonce_prefix"));
            },
        };
        if !same4(&nonce_prefix, &locked_prefix) {
            return Err(String::from_str("record nonce prefix != stream nonce_prefix"));
        }
        if m.chunk_len == 0 {
            return Err(String::from_str("manifest chunk_len must be > 0, got 0"));
        }
        let mh = blake3_hash(sm.manifest.as_slice());
        let aad = build_aad(&m.header_hash, chunk.sequence, &chunk.nonce, &mh, m.chunk_len);
        let pt = match aes256gcm_decrypt(&key, &chunk.nonce, aad.as_slice(), chunk.data.as_slice()) {
            Some(pt) => pt,
            None => {
                return Err(String::from_str("AES-GCM decrypt/verify failed"));
            },
        };
        if pt.len() as u64 != m.chunk_len as u64 {
            let mut e = String::from_str("decrypted length ");
            push_decimal(&mut e, pt.len() as u64);
            e.append(" != manifest chunk_len ");
            push_decimal(&mut e, m.chunk_len as u64);
            return Err(e);
        }
        let pt_hash = blake3_hash(pt.as_slice());
        if !bytes_equal(pt_hash.as_slice(), m.pt_hash.as_slice()) {
            return Err(String::from_str("pt hash mismatch"));
        }
        Ok(pt)
    }
}


impl ConnectionState {
    /// One chunk of a legacy connection, against a reading of the clock: it
    /// is accepted as [`ConnectionState::accept_legacy_chunk_at`] accepts it
    /// and then, when the connection decrypts and holds a key, opened as
    /// [`ConnectionState::process_and_decrypt_chunk`] opens it.  The answer is
    /// the acknowledgement and the plaintext, if the chunk was decrypted.
    pub fn legacy_step_at(&mut self, chunk: &NetworkChunk, decrypt: bool, now: Result<u64, String>) -> (r: Result<
        (String, Option<Vec<u8>>),
        String,
    >)
        requires
            old(self).expected_seq_next < u64::MAX,
            old(self).stream_header_hash is Some ==> old(self).stream_nonce_prefix is Some,
        ensures
            final(self).connection_id == old(self).connection_id,
            final(self).cipher_key == old(self).cipher_key,
            final(self).stream_header_hash is Some ==> final(self).stream_nonce_prefix is Some,
            match legacy_problem(
                crate::network_chunk::chunk_problem(
                    chunk.data@,
                    chunk.manifest@,
                    chunk.timestamp,
                    match now {
                        Ok(t) => Ok(t),
                        Err(e) => Err(e@),
                    },
                ) is None,
                chunk.sequence,
                old(self).expected_seq_next,
            ) {
                Some(m) => r matches Err(e) && e@ == m && final(self).expected_seq_next == old(self).expected_seq_next
                    && final(self).stream_header_hash == old(self).stream_header_hash
                    && final(self).stream_nonce_prefix == old(self).stream_nonce_prefix,
                None => final(self).expected_seq_next == old(self).expected_seq_next + 1 && if decrypt
                    && old(self).cipher_key is Some {
                    let (hh, np, res) = open_outcome(
                        match old(self).cipher_key {
                            Some(k) => Some(k@),
                            None => None,
                        },
                        opt_bytes32(old(self).stream_header_hash),
                        opt_bytes4(old(self).stream_nonce_prefix),
                        chunk.sequence,
                        chunk.nonce@,
                        chunk.data@,
                        chunk.manifest@,
                    );
                    &&& opt_bytes32(final(self).stream_header_hash) == hh
                    &&& opt_bytes4(final(self).stream_nonce_prefix) == np
                    &&& match res {
                        Ok(pt) => r matches Ok((ack, Some(v))) && ack@ == "ACK:"@ + decimal(chunk.sequence as nat)
                            && v@ == pt,
                        Err(m) => r matches Err(e) && e@ == m,
                    }
                } else {
                    &&& r matches Ok((ack, None)) && ack@ == "ACK:"@ + decimal(chunk.sequence as nat)
                    &&& final(self).stream_header_hash == old(self).stream_header_hash
                    &&& final(self).stream_nonce_prefix == old(self).stream_nonce_prefix
                },
            },
    {
        let ack = match self.accept_legacy_chunk_at(chunk, now) {
            Ok(a) => a,
            Err(e) => {
                return Err(e);
            },
        };
        if decrypt && self.cipher_key.is_some() {
            match self.process_and_decrypt_chunk(chunk) {
                Ok(pt) => Ok((ack, Some(pt))),
                Err(e) => Err(e),
            }
        } else {
            Ok((ack, None))
        }
    }

    /// One chunk of a legacy connection at the current time; see
    /// [`ConnectionState::legacy_step_at`].
    pub fn legacy_step(&mut self, chunk: &NetworkChunk, decrypt: bool) -> (r: Result<(String, Option<Vec<u8>>), String>)
        requires
            old(self).expected_seq_next < u64::MAX,
            old(self).stream_header_hash is Some ==> old(self).stream_nonce_prefix is Some,
        ensures
            final(self).connection_id == old(self).connection_id,
            final(self).cipher_key == old(self).cipher_key,
            final(self).stream_header_hash is Some ==> final(self).stream_nonce_prefix is Some,
            chunk.data@.len() == 0 ==> (r matches Err(e) && e@ == "Chunk validation failed"@),
            r matches Ok((ack, _)) ==> ack@ == "ACK:"@ + decimal(chunk.sequence as nat) && chunk.sequence
                == old(self).expected_seq_next && final(self).expected_seq_next == old(self).expected_seq_next + 1,
            r matches Ok((_, Some(_))) ==> decrypt && old(self).cipher_key is Some,
    {
        let now = crate::primitives::unix_time_secs();
        self.legacy_step_at(chunk, decrypt, now)
    }
}

/// What the reader of a hardened connection saw next.
#[derive(Debug)]
pub enum HardenedEvent {
    /// A frame of `len` bytes arrived; `chunk` is what it decodes to, if it
    /// decodes.
    Frame { len: u64, chunk: Option<NetworkChunk> },
    /// The peer closed the stream.
    Closed,
    /// The frame layer failed; its error text.
    FrameError(String),
    /// Nothing arrived within the read timeout.
    TimedOut,
}

/// What a hardened connection does next.
#[derive(Debug, PartialEq, Eq)]
pub enum HardenedAction {
    /// Send this acknowledgement and read on; `plaintext` is what the
    /// chunk decrypted to, when the connection decrypts.
    Reply { ack: String, plaintext: Option<Vec<u8>> },
    /// Ignore the frame (it did not decode) and read on.
    Skip,
    /// Send this error response, then end the connection normally.
    Reject(String),
    /// End the connection normally.
    Stop,
    /// End the connection with this error.
    Fail(String),
}

/// The acknowledgement sent for `ack`: with a MAC when secure
/// acknowledgements are on and the connection has a session.
pub open spec fn reply_text(secure_acks: bool, session_id: Option<[u8; 16]>, ack: Seq<char>) -> Seq<char> {
    if secure_acks {
        match session_id {
            Some(id) => secure_ack_text(id@, ack),
            None => ack,
        }
    } else {
        ack
    }
}

/// The identity, key and session of connection `a` are those of `b`.
pub open spec fn same_identity(a: ConnectionState, b: ConnectionState) -> bool {
    &&& a.connection_id == b.connection_id
    &&& a.cipher_key == b.cipher_key
    &&& a.session_id == b.session_id
}

impl ConnectionState {
    /// Checked before each read of a hardened connection: the byte and
    /// chunk limits (see [`ConnectionState::check_limits`]), then the idle
    /// timeout, whose length in seconds the error names.
    pub fn hardened_precheck(
        &self,
        max_connection_bytes: u64,
        max_connection_chunks: u64,
        idle_expired: bool,
        idle_timeout_secs: u64,
    ) -> (r: Result<(), String>)
        ensures
            r is Ok <==> !(max_connection_bytes > 0 && self.bytes_received >= max_connection_bytes) && !(
            max_connection_chunks > 0 && self.chunks_received >= max_connection_chunks) && !idle_expired,
            !(max_connection_bytes > 0 && self.bytes_received >= max_connection_bytes) && !(max_connection_chunks
                > 0 && self.chunks_received >= max_connection_chunks) && idle_expired ==> (r matches Err(e) && e@
                == "Connection #"@ + decimal(self.connection_id as nat) + " idle timeout: "@ + decimal(
                idle_timeout_secs as nat,
            ) + "s"@),
            max_connection_bytes > 0 && self.bytes_received >= max_connection_bytes ==> (r matches Err(e) && e@
                == "Connection #"@ + decimal(self.connection_id as nat) + " exceeded byte limit: "@ + decimal(
                self.bytes_received as nat,
            ) + " bytes (max: "@ + decimal(max_connection_bytes as nat) + ")"@),
            !(max_connection_bytes > 0 && self.bytes_received >= max_connection_bytes) && max_connection_chunks
                > 0 && self.chunks_received >= max_connection_chunks ==> (r matches Err(e) && e@
                == "Connection #"@ + decimal(self.connection_id as nat) + " exceeded chunk limit: "@ + decimal(
                self.chunks_received as nat,
            ) + " chunks (max: "@ + decimal(max_connection_chunks as nat) + ")"@),
    {
        match self.check_limits(max_connection_bytes, max_connection_chunks) {
            Ok(()) => {},
            Err(e) => {
                return Err(e);
            },
        }
        if idle_expired {
            let mut m = String::from_str("Connection #");
            push_decimal(&mut m, self.connection_id);
            m.append(" idle timeout: ");
            push_decimal(&mut m, idle_timeout_secs);
            m.append("s");
            return Err(m);
        }
        Ok(())
    }

    /// One step of a hardened connection: what to do with what the reader
    /// saw.  A frame is counted; a chunk is judged as
    /// [`ConnectionState::process_chunk_hardened`] judges it and, once
    /// accepted, opened as [`ConnectionState::process_and_decrypt_chunk`]
    /// opens it when the connection decrypts and holds a key.  It is answered
    /// with its acknowledgement (see [`reply_text`]) and plaintext, or refused
    /// with `ERROR: ` and the reason; a frame that does not decode is skipped.
    pub fn hardened_step(&mut self, event: HardenedEvent, decrypt: bool, secure_acks: bool) -> (r: HardenedAction)
        requires
            old(self).stream_header_hash is Some ==> old(self).stream_nonce_prefix is Some,
            event matches HardenedEvent::Frame { len, .. } ==> old(self).bytes_received + len <= u64::MAX
                && old(self).chunks_received < u64::MAX && old(self).expected_seq_next < u64::MAX,
        ensures
            same_identity(*final(self), *old(self)),
            final(self).stream_header_hash is Some ==> final(self).stream_nonce_prefix is Some,
            match event {
                HardenedEvent::Closed => r is Stop && *final(self) == *old(self),
                HardenedEvent::FrameError(e) => r matches HardenedAction::Fail(m) && m@ == "Frame decode error: "@
                    + e@ && *final(self) == *old(self),
                HardenedEvent::TimedOut => r matches HardenedAction::Fail(m) && m@ == "Connection #"@ + decimal(
                    old(self).connection_id as nat,
                ) + " read timeout"@ && *final(self) == *old(self),
                HardenedEvent::Frame { len, chunk } => {
                    &&& final(self).bytes_received == old(self).bytes_received + len
                    &&& final(self).chunks_received == old(self).chunks_received + 1
                    &&& match chunk {
                        None => r is Skip && final(self).expected_seq_next == old(self).expected_seq_next
                            && final(self).stream_nonce_prefix == old(self).stream_nonce_prefix
                            && final(self).stream_header_hash == old(self).stream_header_hash,
                        Some(c) => {
                            let (prefix, res) = hardened_outcome(
                                old(self).header_locked,
                                old(self).header_verified,
                                opt_bytes4(old(self).stream_nonce_prefix),
                                old(self).expected_seq_next,
                                c.sequence,
                                c.nonce@,
                            );
                            match res {
                                Err(m) => {
                                    &&& r matches HardenedAction::Reject(a) && a@ == "ERROR: "@ + m
                                    &&& final(self).expected_seq_next == old(self).expected_seq_next
                                    &&& opt_bytes4(final(self).stream_nonce_prefix) == prefix
                                    &&& final(self).stream_header_hash == old(self).stream_header_hash
                                },
                                Ok(ack) => {
                                    &&& final(self).expected_seq_next == old(self).expected_seq_next + 1
                                    &&& (if decrypt && old(self).cipher_key is Some {
                                        let (hh, np, opened) = open_outcome(
                                            match old(self).cipher_key {
                                                Some(k) => Some(k@),
                                                None => None,
                                            },
                                            opt_bytes32(old(self).stream_header_hash),
                                            prefix,
                                            c.sequence,
                                            c.nonce@,
                                            c.data@,
                                            c.manifest@,
                                        );
                                        &&& opt_bytes32(final(self).stream_header_hash) == hh
                                        &&& opt_bytes4(final(self).stream_nonce_prefix) == np
                                        &&& match opened {
                                            Ok(pt) => r matches HardenedAction::Reply { ack: a, plaintext: Some(v) }
                                                && a@ == reply_text(secure_acks, old(self).session_id, ack) && v@
                                                == pt,
                                            Err(m) => r matches HardenedAction::Reject(a) && a@ == "ERROR: "@ + m,
                                        }
                                    } else {
                                        &&& r matches HardenedAction::Reply { ack: a, plaintext: None } && a@
                                            == reply_text(secure_acks, old(self).session_id, ack)
                                        &&& opt_bytes4(final(self).stream_nonce_prefix) == prefix
                                        &&& final(self).stream_header_hash == old(self).stream_header_hash
                                    })
                                },
                            }
                        },
                    }
                },
            },
    {
        match event {
            HardenedEvent::Closed => HardenedAction::Stop,
            HardenedEvent::FrameError(e) => HardenedAction::Fail(concat_str("Frame decode error: ", e.as_str())),
            HardenedEvent::TimedOut => {
                let mut m = String::from_str("Connection #");
                push_decimal(&mut m, self.connection_id);
                m.append(" read timeout");
                HardenedAction::Fail(m)
            },
            HardenedEvent::Frame { len, chunk } => {
                self.record_frame(len);
                match chunk {
                    None => HardenedAction::Skip,
                    Some(c) => match self.process_chunk_hardened(&c) {
                        Ok(ack) => {
                            let plaintext = if decrypt && self.cipher_key.is_some() {
                                match self.process_and_decrypt_chunk(&c) {
                                    Ok(pt) => Some(pt),
                                    Err(e) => {
                                        return HardenedAction::Reject(concat_str("ERROR: ", e.as_str()));
                                    },
                                }
                            } else {
                                None
                            };
                            let reply = if secure_acks {
                                self.create_secure_ack(ack.as_str())
                            } else {
                                ack
                            };
                            HardenedAction::Reply { ack: reply, plaintext }
                        },
                        Err(e) => HardenedAction::Reject(concat_str("ERROR: ", e.as_str())),
                    },
                }
            },
        }
    }
}

/// Checks the announced length of a frame on the legacy path.
pub fn check_legacy_frame_len(len: u32) -> (r: Result<usize, String>)
    ensures
        match r {
            Ok(n) => len <= 104_857_600 && n == len,
            Err(e) => len > 104_857_600 && e@ == "Chunk too large: "@ + decimal(len as nat) + " bytes"@,
        },
{
    if len > MAX_LEGACY_FRAME {
        let mut m = String::from_str("Chunk too large: ");
        push_decimal(&mut m, len as u64);
        m.append(" bytes");
        return Err(m);
    }
    Ok(len as usize)
}

/// Parses a 256-bit key given as hexadecimal text.
pub fn parse_key_hex(s: &str) -> (r: Result<[u8; 32], String>)
    ensures
        match r {
            Ok(k) => hex_bytes_of(vstd::utf8::encode_utf8(s@)) == Some(k@),
            Err(e) => match hex_bytes_of(vstd::utf8::encode_utf8(s@)) {
                None => e@ == "key_hex not valid hex"@,
                Some(b) => b.len() != 32 && e@ == "key_hex must be 32 bytes (64 hex chars)"@,
            },
        },
{
    let bytes = match hex_decode(s.as_bytes()) {
        Ok(b) => b,
        Err(_) => {
            return Err(String::from_str("key_hex not valid hex"));
        },
    };
    if bytes.len() != 32 {
        return Err(String::from_str("key_hex must be 32 bytes (64 hex chars)"));
    }
    let k: [u8; 32] = crate::codec::read_array::<32>(bytes.as_slice(), 0);
    assert(k@ =~= bytes@);
    Ok(k)
}

/// Name of the file a connection's decrypted data is written to.
pub fn decrypted_output_name(connection_id: u64) -> (r: String)
    ensures
        r@ == "conn"@ + decimal(connection_id as nat) + "_decrypted.bin"@,
{
    let mut s = String::from_str("conn");
    push_decimal(&mut s, connection_id);
    s.append("_decrypted.bin");
    s
}

/// Names of the files a received chunk and its metadata are saved to.
pub fn chunk_file_names(connection_id: u64, sequence: u64) -> (r: (String, String))
    ensures
        r.0@ == "conn"@ + decimal(connection_id as nat) + "_seq"@ + decimal(sequence as nat) + ".bin"@,
        r.1@ == "conn"@ + decimal(connection_id as nat) + "_seq"@ + decimal(sequence as nat) + ".meta.json"@,
{
    let mut a = String::from_str("conn");
    push_decimal(&mut a, connection_id);
    a.append("_seq");
    push_decimal(&mut a, sequence);
    let mut b = String::from_str(a.as_str());
    a.append(".bin");
    b.append(".meta.json");
    (a, b)
}

/// A chunk sealed by a client (see [`crate::client::seal_chunk`]) is opened
/// by a server holding the same key, whether the chunk starts the stream or
/// continues a stream locked to the same header and nonce prefix; the
/// server gets the plaintext back and the stream ends locked to the chunk's
/// header hash and nonce prefix.  (An empty chunk is refused: its manifest
/// declares no length.)
#[verifier::rlimit(60)]
pub proof fn law_sealed_chunk_opens(
    signing_key: Seq<u8>,
    key: Seq<u8>,
    header_hash: Seq<u8>,
    nonce_prefix: Seq<u8>,
    key_id: Seq<u8>,
    seq: u64,
    pt: Seq<u8>,
    ts_ms: u64,
    data_type: DataTypeView,
    continuing: bool,
)
    requires
        key.len() == 32,
        header_hash.len() == 32,
        nonce_prefix.len() == 4,
        key_id.len() == 16,
        0 < pt.len() <= u32::MAX,
        data_type_fits(data_type),
        blake3_of(pt).len() == 32,
        ed25519_public_of(signing_key).len() == 32,
        ed25519_key_decodes(ed25519_public_of(signing_key)),
        ({
            let mb = manifest_layout(chunk_manifest_view(header_hash, key_id, seq, ts_ms, pt, data_type));
            let sig = ed25519_signature_of(signing_key, domain_message(mb));
            let nonce = nonce_layout(nonce_prefix, seq);
            &&& mb.len() <= u64::MAX
            &&& sig.len() == 64
            &&& ed25519_accepts(ed25519_public_of(signing_key), domain_message(mb), sig)
            &&& aes256gcm_open_of(
                key,
                nonce,
                aad_layout(header_hash, seq, nonce, blake3_of(mb), pt.len() as u32),
                sealed_chunk(signing_key, key, header_hash, nonce_prefix, key_id, seq, pt, ts_ms, data_type).0,
            ) == Some(pt)
        }),
    ensures
        ({
            let (ct, sm, nonce) = sealed_chunk(
                signing_key,
                key,
                header_hash,
                nonce_prefix,
                key_id,
                seq,
                pt,
                ts_ms,
                data_type,
            );
            let (hh_lock, np_lock) = if continuing {
                (Some(header_hash), Some(nonce_prefix))
            } else {
                (None, None)
            };
            open_outcome(Some(key), hh_lock, np_lock, seq, nonce, ct, sm) == (
                Some(header_hash),
                Some(nonce_prefix),
                Ok::<Seq<u8>, Seq<char>>(pt),
            )
        }),
{
    let view = chunk_manifest_view(header_hash, key_id, seq, ts_ms, pt, data_type);
    let mb = manifest_layout(view);
    let sig = ed25519_signature_of(signing_key, domain_message(mb));
    let pk = ed25519_public_of(signing_key);
    let nonce = nonce_layout(nonce_prefix, seq);
    let sm = signed_manifest_layout(mb, sig, pk);
    assert(signed_manifest_fields(sm) == Some((mb, sig, pk))) by {
        assert(sm + Seq::<u8>::empty() =~= sm);
        law_signed_manifest_roundtrip(mb, sig, pk, Seq::<u8>::empty());
    }
    assert(parse_manifest(mb) == Some(view)) by {
        assert(view.model_ids =~= Seq::<Seq<char>>::empty());
        assert(manifest_fits(view));
        assert(mb + Seq::<u8>::empty() =~= mb);
        law_manifest_roundtrip(view, Seq::<u8>::empty());
    }
    assert(view.header_hash == header_hash && view.chunk_len == pt.len() && view.chunk_len != 0);
    assert(view.pt_hash == blake3_of(pt));
    assert(nonce_prefix_of(nonce) =~= nonce_prefix);
}

/// Once a chunk is acknowledged, the same chunk sent again is refused: the
/// stream expects the next sequence number.
pub proof fn law_replayed_chunk_refused(
    locked: bool,
    verified: bool,
    prefix: Option<Seq<u8>>,
    expected: u64,
    seq: u64,
    nonce: Seq<u8>,
)
    requires
        hardened_outcome(locked, verified, prefix, expected, seq, nonce).1 is Ok,
        expected < u64::MAX,
    ensures
        hardened_outcome(
            locked || !verified,
            verified || !locked,
            hardened_outcome(locked, verified, prefix, expected, seq, nonce).0,
            (expected + 1) as u64,
            seq,
            nonce,
        ).1 is Err,
{
}

} // verus!
