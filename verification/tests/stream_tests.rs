use trustedge_core::chunk_manifest::{DataType, Manifest};
use trustedge_core::client::{build_session_header, make_nonce, seal_chunk, session_header_with, test_chunk_plaintext};
use trustedge_core::format::{FileHeader, SignedManifest};
use trustedge_core::network_chunk::NetworkChunk;
use trustedge_core::server::{
    check_legacy_frame_len, chunk_file_names, decrypted_output_name, parse_key_hex, ConnectionState, HardenedAction,
    HardenedEvent,
};

const KEY: [u8; 32] = [7u8; 32];

fn session() -> ([u8; 32], [u8; 4], [u8; 16]) {
    session_header_with(4096, [0xA1, 0xB2, 0xC3, 0xD4], [0x11; 16], "trustedge-abc123", "trustedge-demo-salt")
}

fn sealed(seq: u64, pt: &[u8], signing: &[u8; 32]) -> NetworkChunk {
    let (hh, prefix, key_id) = session();
    seal_chunk(signing, &KEY, &hh, prefix, key_id, seq, pt, 1_700_000_000_000, DataType::File { mime_type: None })
        .unwrap()
}

#[test]
fn nonce_is_prefix_and_big_endian_sequence() {
    let n = make_nonce([1, 2, 3, 4], 0x0102030405060708);
    assert_eq!(n, [1, 2, 3, 4, 1, 2, 3, 4, 5, 6, 7, 8]);
}

#[test]
fn session_header_hash_covers_the_header() {
    let (hh, prefix, key_id) = session();
    let mut device = blake3::Hasher::new();
    device.update(b"trustedge-abc123");
    device.update(b"trustedge-demo-salt");
    let header = FileHeader {
        version: 2,
        aead_alg: 1,
        sig_alg: 1,
        hash_alg: 1,
        kdf_alg: 1,
        reserved: [0; 3],
        key_id,
        device_id_hash: *device.finalize().as_bytes(),
        nonce_prefix: prefix,
        chunk_size: 4096,
    };
    assert_eq!(hh, *blake3::hash(&header.to_bytes()).as_bytes());
    let (h1, p1, k1) = build_session_header(4096, "d", "s").unwrap();
    assert_eq!(h1, session_header_with(4096, p1, k1, "d", "s").0);
}

#[test]
fn sealed_chunks_open_in_order() {
    let signing = [3u8; 32];
    let mut state = ConnectionState::new(1, Some(KEY), false);
    for seq in 1..=3u64 {
        let pt = test_chunk_plaintext(seq, 100);
        let chunk = sealed(seq, &pt, &signing);
        assert_eq!(state.accept_legacy_chunk(&chunk).unwrap(), format!("ACK:{}", seq));
        assert_eq!(state.process_and_decrypt_chunk(&chunk).unwrap(), pt);
    }
    let (hh, prefix, _) = session();
    assert_eq!(state.stream_header_hash, Some(hh));
    assert_eq!(state.stream_nonce_prefix, Some(prefix));
}

#[test]
fn tampered_chunks_are_refused() {
    let signing = [3u8; 32];
    let pt = b"hello stream".to_vec();
    let chunk = sealed(1, &pt, &signing);

    let mut bad_ct = chunk.clone();
    bad_ct.data[0] ^= 1;
    let mut s = ConnectionState::new(1, Some(KEY), false);
    assert_eq!(s.process_and_decrypt_chunk(&bad_ct).unwrap_err(), "AES-GCM decrypt/verify failed");

    let mut sm = SignedManifest::from_wire(&chunk.manifest).unwrap();
    sm.sig[0] ^= 1;
    let mut bad_sig = chunk.clone();
    bad_sig.manifest = sm.to_wire();
    let mut s = ConnectionState::new(1, Some(KEY), false);
    assert_eq!(s.process_and_decrypt_chunk(&bad_sig).unwrap_err(), "manifest signature verify failed");

    let mut s = ConnectionState::new(1, None, false);
    assert_eq!(s.process_and_decrypt_chunk(&chunk).unwrap_err(), "cipher missing in session");

    let mut bad_manifest = chunk.clone();
    bad_manifest.manifest = vec![1, 2, 3];
    let mut s = ConnectionState::new(1, Some(KEY), false);
    assert_eq!(s.process_and_decrypt_chunk(&bad_manifest).unwrap_err(), "SignedManifest decode");
}

#[test]
fn header_hash_is_locked_by_first_chunk() {
    let signing = [3u8; 32];
    let first = sealed(1, b"one", &signing);
    let (_, prefix, key_id) = session();
    let other_header = [0x55u8; 32];
    let second = seal_chunk(&signing, &KEY, &other_header, prefix, key_id, 2, b"two", 1, DataType::Unknown).unwrap();
    let mut s = ConnectionState::new(1, Some(KEY), false);
    assert!(s.process_and_decrypt_chunk(&first).is_ok());
    assert_eq!(s.process_and_decrypt_chunk(&second).unwrap_err(), "manifest.header_hash changed mid-stream");
}

#[test]
fn manifest_of_sealed_chunk_describes_it() {
    let signing = [3u8; 32];
    let pt = b"payload bytes".to_vec();
    let chunk = sealed(9, &pt, &signing);
    let sm = SignedManifest::from_wire(&chunk.manifest).unwrap();
    let m = Manifest::from_wire(&sm.manifest).unwrap();
    assert_eq!(m.seq, 9);
    assert_eq!(m.chunk_len as usize, pt.len());
    assert_eq!(m.pt_hash, *blake3::hash(&pt).as_bytes());
    assert_eq!(chunk.nonce[..4], session().1);
    assert_eq!(chunk.data.len(), pt.len() + 16);
}

#[test]
fn hardened_stream_locks_prefix_and_order() {
    let mut s = ConnectionState::new(3, None, true);
    assert!(!s.authenticated);
    let mut c1 = NetworkChunk::new_with_nonce(1, vec![1], vec![1], [9, 9, 9, 9, 0, 0, 0, 0, 0, 0, 0, 1]);
    assert_eq!(s.process_chunk_hardened(&c1).unwrap(), "ACK 1");
    c1.sequence = 1;
    assert_eq!(s.process_chunk_hardened(&c1).unwrap_err(), "Sequence mismatch: got 1, expected 2");
    let other = NetworkChunk::new_with_nonce(2, vec![1], vec![1], [8, 9, 9, 9, 0, 0, 0, 0, 0, 0, 0, 2]);
    assert_eq!(
        s.process_chunk_hardened(&other).unwrap_err(),
        "Nonce prefix mismatch - stream header locked, renegotiation rejected"
    );
    let c2 = NetworkChunk::new_with_nonce(2, vec![1], vec![1], [9, 9, 9, 9, 0, 0, 0, 0, 0, 0, 0, 2]);
    assert_eq!(s.process_chunk_hardened(&c2).unwrap(), "ACK 2");
}

#[test]
fn secure_ack_carries_keyed_mac() {
    let mut s = ConnectionState::new(1, None, true);
    assert_eq!(s.create_secure_ack("ACK 1"), "ACK 1");
    let id = [0x42u8; 16];
    s.record_authentication(id, Some("cam".to_string()));
    let mut key = [0u8; 32];
    key[..16].copy_from_slice(&id);
    key[16..].copy_from_slice(&id);
    let input = format!("{}:{}", hex::encode(id), "ACK 1");
    let mac = blake3::keyed_hash(&key, input.as_bytes());
    let expected = format!("ACK 1:MAC:{}", hex::encode(&mac.as_bytes()[..8]));
    assert_eq!(s.create_secure_ack("ACK 1"), expected);
}

#[test]
fn connection_limits() {
    let mut s = ConnectionState::new(5, None, false);
    s.record_frame(100);
    s.record_frame(100);
    assert_eq!(s.bytes_received, 200);
    assert_eq!(s.chunks_received, 2);
    assert!(s.check_limits(0, 0).is_ok());
    assert!(s.check_limits(201, 3).is_ok());
    assert_eq!(s.check_limits(200, 0).unwrap_err(), "Connection #5 exceeded byte limit: 200 bytes (max: 200)");
    assert_eq!(s.check_limits(199, 0).unwrap_err(), "Connection #5 exceeded byte limit: 200 bytes (max: 199)");
    assert_eq!(s.check_limits(0, 2).unwrap_err(), "Connection #5 exceeded chunk limit: 2 chunks (max: 2)");
    assert_eq!(s.check_limits(0, 1).unwrap_err(), "Connection #5 exceeded chunk limit: 2 chunks (max: 1)");
}

#[test]
fn hardened_connection_reads_at_most_the_chunk_limit() {
    let max_chunks = 3u64;
    let mut s = ConnectionState::new(9, None, false);
    let mut acked = 0u64;
    for seq in 1..=5u64 {
        if s.hardened_precheck(0, max_chunks, false, 30).is_err() {
            break;
        }
        let nonce = [9, 9, 9, 9, 0, 0, 0, 0, 0, 0, 0, seq as u8];
        let c = NetworkChunk::new_with_nonce(seq, vec![1], vec![1], nonce);
        match s.hardened_step(HardenedEvent::Frame { len: 10, chunk: Some(c) }, false, false) {
            HardenedAction::Reply { .. } => acked += 1,
            other => panic!("unexpected {:?}", other),
        }
    }
    assert_eq!(acked, max_chunks);
    assert_eq!(
        s.hardened_precheck(0, max_chunks, false, 30).unwrap_err(),
        "Connection #9 exceeded chunk limit: 3 chunks (max: 3)"
    );
}

#[test]
fn legacy_frames_and_names() {
    assert_eq!(check_legacy_frame_len(100).unwrap(), 100);
    assert_eq!(check_legacy_frame_len(104_857_601).unwrap_err(), "Chunk too large: 104857601 bytes");
    assert_eq!(decrypted_output_name(4), "conn4_decrypted.bin");
    let (a, b) = chunk_file_names(4, 12);
    assert_eq!(a, "conn4_seq12.bin");
    assert_eq!(b, "conn4_seq12.meta.json");
    let mut s = ConnectionState::new(1, None, false);
    let empty = NetworkChunk::new_with_nonce(1, vec![], vec![1], [0; 12]);
    assert_eq!(s.accept_legacy_chunk(&empty).unwrap_err(), "Chunk validation failed");
    let late = NetworkChunk::new_with_nonce(2, vec![1], vec![1], [0; 12]);
    assert_eq!(s.accept_legacy_chunk(&late).unwrap_err(), "Out-of-order chunk: got seq=2, expected 1");
}

#[test]
fn key_hex_parsing() {
    let hex64 = "00".repeat(31) + "ff";
    let k = parse_key_hex(&hex64).unwrap();
    assert_eq!(k[31], 0xff);
    assert_eq!(parse_key_hex("zz").unwrap_err(), "key_hex not valid hex");
    assert_eq!(parse_key_hex("abcd").unwrap_err(), "key_hex must be 32 bytes (64 hex chars)");
    assert_eq!(trustedge_core::client::parse_key_hex("zz").unwrap_err(), "key_hex: not valid hex");
}

#[test]
fn test_chunk_plaintext_is_padded() {
    let pt = test_chunk_plaintext(3, 100);
    let head = b"This is encrypted test chunk #3. ";
    assert!(pt.starts_with(head));
    assert!(pt.len() >= 100 && pt.len() < 110);
    assert!(pt[head.len()..].chunks(10).all(|c| c == b"padding..."));
    let big = test_chunk_plaintext(1, 1_000_000);
    assert!(big.len() >= 2048 && big.len() < 2058);
    assert_eq!(test_chunk_plaintext(1, 0), b"This is encrypted test chunk #1. ".to_vec());
}

#[test]
fn now_ms_reads_the_clock_in_milliseconds() {
    let before = std::time::SystemTime::now().duration_since(std::time::UNIX_EPOCH).unwrap().as_millis() as u64;
    let t = trustedge_core::client::now_ms();
    let after = std::time::SystemTime::now().duration_since(std::time::UNIX_EPOCH).unwrap().as_millis() as u64;
    assert!(before <= t && t <= after);
}

#[test]
fn hardened_steps_answer_each_event() {
    let mut s = ConnectionState::new(7, None, false);
    assert_eq!(s.hardened_step(HardenedEvent::Closed, false, false), HardenedAction::Stop);
    assert_eq!(
        s.hardened_step(HardenedEvent::FrameError("frame size too big".to_string()), false, false),
        HardenedAction::Fail("Frame decode error: frame size too big".to_string())
    );
    assert_eq!(
        s.hardened_step(HardenedEvent::TimedOut, false, false),
        HardenedAction::Fail("Connection #7 read timeout".to_string())
    );
    assert_eq!(s.hardened_step(HardenedEvent::Frame { len: 5, chunk: None }, false, false), HardenedAction::Skip);
    assert_eq!((s.bytes_received, s.chunks_received), (5, 1));

    let c1 = NetworkChunk::new_with_nonce(1, vec![1], vec![1], [9, 9, 9, 9, 0, 0, 0, 0, 0, 0, 0, 1]);
    assert_eq!(
        s.hardened_step(HardenedEvent::Frame { len: 40, chunk: Some(c1) }, false, false),
        HardenedAction::Reply { ack: "ACK 1".to_string(), plaintext: None }
    );
    let c3 = NetworkChunk::new_with_nonce(3, vec![1], vec![1], [9, 9, 9, 9, 0, 0, 0, 0, 0, 0, 0, 3]);
    assert_eq!(
        s.hardened_step(HardenedEvent::Frame { len: 40, chunk: Some(c3) }, false, false),
        HardenedAction::Reject("ERROR: Sequence mismatch: got 3, expected 2".to_string())
    );
    assert_eq!((s.bytes_received, s.chunks_received, s.expected_seq_next), (85, 3, 2));
}

#[test]
fn hardened_step_macs_acknowledgements_of_a_session() {
    let mut s = ConnectionState::new(1, None, true);
    let id = [0x42u8; 16];
    s.record_authentication(id, None);
    let c1 = NetworkChunk::new_with_nonce(1, vec![1], vec![1], [9, 9, 9, 9, 0, 0, 0, 0, 0, 0, 0, 1]);
    let mut key = [0u8; 32];
    key[..16].copy_from_slice(&id);
    key[16..].copy_from_slice(&id);
    let mac = blake3::keyed_hash(&key, format!("{}:ACK 1", hex::encode(id)).as_bytes());
    let expected = format!("ACK 1:MAC:{}", hex::encode(&mac.as_bytes()[..8]));
    assert_eq!(
        s.hardened_step(HardenedEvent::Frame { len: 10, chunk: Some(c1) }, false, true),
        HardenedAction::Reply { ack: expected, plaintext: None }
    );
}

#[test]
fn hardened_precheck_limits_then_idle() {
    let mut s = ConnectionState::new(7, None, false);
    assert!(s.hardened_precheck(100, 10, false, 30).is_ok());
    assert_eq!(s.hardened_precheck(100, 10, true, 30).unwrap_err(), "Connection #7 idle timeout: 30s");
    s.record_frame(101);
    assert_eq!(
        s.hardened_precheck(100, 10, true, 30).unwrap_err(),
        "Connection #7 exceeded byte limit: 101 bytes (max: 100)"
    );
}

#[test]
fn hardened_steps_decrypt_when_asked() {
    let signing = [5u8; 32];
    let c1 = sealed(1, b"first chunk", &signing);
    let c2 = sealed(2, b"second chunk", &signing);
    let mut s = ConnectionState::new(3, Some(KEY), false);
    assert_eq!(
        s.hardened_step(HardenedEvent::Frame { len: 100, chunk: Some(c1.clone()) }, true, false),
        HardenedAction::Reply { ack: "ACK 1".to_string(), plaintext: Some(b"first chunk".to_vec()) }
    );
    let (hh, prefix, _) = session();
    assert_eq!(s.stream_header_hash, Some(hh));
    assert_eq!(s.stream_nonce_prefix, Some(prefix));
    assert_eq!(
        s.hardened_step(HardenedEvent::Frame { len: 100, chunk: Some(c2) }, true, false),
        HardenedAction::Reply { ack: "ACK 2".to_string(), plaintext: Some(b"second chunk".to_vec()) }
    );

    let mut wrong_key = ConnectionState::new(4, Some([8u8; 32]), false);
    assert_eq!(
        wrong_key.hardened_step(HardenedEvent::Frame { len: 100, chunk: Some(c1.clone()) }, true, false),
        HardenedAction::Reject("ERROR: AES-GCM decrypt/verify failed".to_string())
    );

    let mut passing = ConnectionState::new(5, Some(KEY), false);
    assert_eq!(
        passing.hardened_step(HardenedEvent::Frame { len: 100, chunk: Some(c1) }, false, false),
        HardenedAction::Reply { ack: "ACK 1".to_string(), plaintext: None }
    );
    assert_eq!(passing.stream_header_hash, None);
}

#[test]
fn legacy_steps_acknowledge_and_decrypt_in_order() {
    let signing = [5u8; 32];
    let mut decrypting = ConnectionState::new(1, Some(KEY), false);
    let c1 = sealed(1, b"first chunk", &signing);
    let (ack, pt) = decrypting.legacy_step(&c1, true).unwrap();
    assert_eq!(ack, "ACK:1");
    assert_eq!(pt.unwrap(), b"first chunk");
    let c3 = sealed(3, b"third chunk", &signing);
    assert_eq!(decrypting.legacy_step(&c3, true).unwrap_err(), "Out-of-order chunk: got seq=3, expected 2");

    let mut passing = ConnectionState::new(2, Some(KEY), false);
    let (ack, pt) = passing.legacy_step(&c1, false).unwrap();
    assert_eq!(ack, "ACK:1");
    assert!(pt.is_none());

    let mut keyless = ConnectionState::new(3, None, false);
    let (_, pt) = keyless.legacy_step(&c1, true).unwrap();
    assert!(pt.is_none());

    let empty = NetworkChunk::new_with_nonce(1, vec![], vec![1], [0; 12]);
    assert_eq!(ConnectionState::new(4, None, false).legacy_step(&empty, false).unwrap_err(), "Chunk validation failed");
}

#[test]
fn new_chunks_carry_their_timestamp() {
    let c = NetworkChunk::new_at(4, vec![1, 2], vec![3], 1_700_000_123);
    assert_eq!((c.sequence, c.timestamp, c.nonce), (4, 1_700_000_123, [0u8; 12]));
    assert_eq!((c.data, c.manifest), (vec![1, 2], vec![3]));
    let n = NetworkChunk::new_with_nonce_at(5, vec![1], vec![2], [7u8; 12], 42);
    assert_eq!((n.sequence, n.timestamp, n.nonce), (5, 42, [7u8; 12]));
    let before = std::time::SystemTime::now().duration_since(std::time::UNIX_EPOCH).unwrap().as_secs();
    let now = NetworkChunk::new(1, vec![1], vec![1]);
    let after = std::time::SystemTime::now().duration_since(std::time::UNIX_EPOCH).unwrap().as_secs();
    assert!(before <= now.timestamp && now.timestamp <= after);
}
