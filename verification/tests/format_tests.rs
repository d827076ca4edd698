use trustedge_core::format::{read_preamble_and_header, write_stream_header, FormatError, StreamHeader};
use trustedge_core::chunk_manifest::{DataType, Manifest};
use trustedge_core::format::{
    migrate_v1_to_v2, AeadAlgorithm, AudioFormat, FileHeader, HashAlgorithm, KdfAlgorithm,
    SignatureAlgorithm, SignedManifest, StreamHeaderV1, ALG_AES_256_GCM, HEADER_LEN, VERSION,
};

#[test]
fn test_algorithm_enum_roundtrip() {
    for alg in [
        AeadAlgorithm::Aes256Gcm,
        AeadAlgorithm::ChaCha20Poly1305,
        AeadAlgorithm::Aes256Siv,
    ] {
        let byte_val = alg.id();
        let parsed = AeadAlgorithm::try_from(byte_val).unwrap();
        assert_eq!(alg, parsed);
    }
    for alg in [
        SignatureAlgorithm::Ed25519,
        SignatureAlgorithm::EcdsaP256,
        SignatureAlgorithm::EcdsaP384,
    ] {
        let byte_val = alg.id();
        let parsed = SignatureAlgorithm::try_from(byte_val).unwrap();
        assert_eq!(alg, parsed);
    }
    for alg in [HashAlgorithm::Blake3, HashAlgorithm::Sha256, HashAlgorithm::Sha384] {
        let byte_val = alg.id();
        let parsed = HashAlgorithm::try_from(byte_val).unwrap();
        assert_eq!(alg, parsed);
    }
    for alg in [KdfAlgorithm::Pbkdf2Sha256, KdfAlgorithm::Argon2id, KdfAlgorithm::Scrypt] {
        let byte_val = alg.id();
        let parsed = KdfAlgorithm::try_from(byte_val).unwrap();
        assert_eq!(alg, parsed);
    }
}

#[test]
fn test_unsupported_algorithm_rejection() {
    assert!(AeadAlgorithm::try_from(99).is_err());
    assert!(SignatureAlgorithm::try_from(99).is_err());
    assert!(HashAlgorithm::try_from(99).is_err());
    assert!(KdfAlgorithm::try_from(99).is_err());
    assert!(AeadAlgorithm::try_from(0).is_err());
    assert!(AeadAlgorithm::try_from(255).is_err());
}

#[test]
fn test_fileheader_v2_roundtrip() {
    let header = FileHeader {
        version: 2,
        aead_alg: AeadAlgorithm::Aes256Gcm.id(),
        sig_alg: SignatureAlgorithm::Ed25519.id(),
        hash_alg: HashAlgorithm::Blake3.id(),
        kdf_alg: KdfAlgorithm::Pbkdf2Sha256.id(),
        reserved: [0; 3],
        key_id: [1; 16],
        device_id_hash: [2; 32],
        nonce_prefix: [3, 4, 5, 6],
        chunk_size: 4096,
    };
    let bytes = header.to_bytes();
    assert_eq!(bytes.len(), HEADER_LEN);
    let parsed = FileHeader::from_bytes(&bytes).unwrap();
    assert_eq!(header.version, parsed.version);
    assert_eq!(header.aead_alg, parsed.aead_alg);
    assert_eq!(header.sig_alg, parsed.sig_alg);
    assert_eq!(header.hash_alg, parsed.hash_alg);
    assert_eq!(header.kdf_alg, parsed.kdf_alg);
    assert_eq!(header.key_id, parsed.key_id);
    assert_eq!(header.device_id_hash, parsed.device_id_hash);
    assert_eq!(header.nonce_prefix, parsed.nonce_prefix);
    assert_eq!(header.chunk_size, parsed.chunk_size);
}

#[test]
fn test_non_default_algorithms() {
    let header = FileHeader {
        version: 2,
        aead_alg: AeadAlgorithm::ChaCha20Poly1305.id(),
        sig_alg: SignatureAlgorithm::EcdsaP256.id(),
        hash_alg: HashAlgorithm::Sha256.id(),
        kdf_alg: KdfAlgorithm::Argon2id.id(),
        reserved: [0; 3],
        key_id: [0x42; 16],
        device_id_hash: [0x33; 32],
        nonce_prefix: [0x11, 0x22, 0x33, 0x44],
        chunk_size: 8192,
    };
    let bytes = header.to_bytes();
    let parsed = FileHeader::from_bytes(&bytes).unwrap();
    assert_eq!(parsed.aead_alg, AeadAlgorithm::ChaCha20Poly1305.id());
    assert_eq!(parsed.sig_alg, SignatureAlgorithm::EcdsaP256.id());
    assert_eq!(parsed.hash_alg, HashAlgorithm::Sha256.id());
    assert_eq!(parsed.kdf_alg, KdfAlgorithm::Argon2id.id());
}

#[test]
fn test_invalid_algorithm_parsing() {
    let mut bytes = [0u8; HEADER_LEN];
    bytes[0] = 2;
    bytes[1] = 99;
    bytes[2] = SignatureAlgorithm::Ed25519.id();
    bytes[3] = HashAlgorithm::Blake3.id();
    bytes[4] = KdfAlgorithm::Pbkdf2Sha256.id();
    assert!(FileHeader::from_bytes(&bytes).is_err());
    bytes[1] = AeadAlgorithm::Aes256Gcm.id();
    bytes[2] = 99;
    assert!(FileHeader::from_bytes(&bytes).is_err());
    bytes[2] = SignatureAlgorithm::Ed25519.id();
    bytes[3] = 99;
    assert!(FileHeader::from_bytes(&bytes).is_err());
    bytes[3] = HashAlgorithm::Blake3.id();
    bytes[4] = 99;
    assert!(FileHeader::from_bytes(&bytes).is_err());
}

#[test]
fn test_default_header_creation() {
    let header = FileHeader::new_with_defaults();
    assert_eq!(header.version, VERSION);
    assert_eq!(header.aead_alg, AeadAlgorithm::Aes256Gcm.id());
    assert_eq!(header.sig_alg, SignatureAlgorithm::Ed25519.id());
    assert_eq!(header.hash_alg, HashAlgorithm::Blake3.id());
    assert_eq!(header.kdf_alg, KdfAlgorithm::Pbkdf2Sha256.id());
    assert_eq!(header.reserved, [0; 3]);
}

#[test]
fn test_v1_to_v2_migration() {
    let v1_header_bytes = {
        let mut bytes = [0u8; 58];
        bytes[0] = 1;
        bytes[1] = ALG_AES_256_GCM;
        bytes[2..18].copy_from_slice(&[0x42; 16]);
        bytes[18..50].copy_from_slice(&[0x33; 32]);
        bytes[50..54].copy_from_slice(&[0x11, 0x22, 0x33, 0x44]);
        bytes[54..58].copy_from_slice(&4096u32.to_be_bytes());
        bytes
    };
    let v1_stream_header = StreamHeaderV1 {
        v: 1,
        header: v1_header_bytes.to_vec(),
        header_hash: *blake3::hash(&v1_header_bytes).as_bytes(),
    };
    let v2_stream_header = migrate_v1_to_v2(v1_stream_header).unwrap();
    assert_eq!(v2_stream_header.v, 2);
    assert_eq!(v2_stream_header.header.len(), HEADER_LEN);
    let v2_header_bytes: [u8; HEADER_LEN] = v2_stream_header.header.try_into().unwrap();
    let v2_header = FileHeader::from_bytes(&v2_header_bytes).unwrap();
    assert_eq!(v2_header.version, 2);
    assert_eq!(v2_header.aead_alg, ALG_AES_256_GCM);
    assert_eq!(v2_header.sig_alg, SignatureAlgorithm::Ed25519.id());
    assert_eq!(v2_header.hash_alg, HashAlgorithm::Blake3.id());
    assert_eq!(v2_header.kdf_alg, KdfAlgorithm::Pbkdf2Sha256.id());
    assert_eq!(v2_header.key_id, [0x42; 16]);
    assert_eq!(v2_header.device_id_hash, [0x33; 32]);
    assert_eq!(v2_header.nonce_prefix, [0x11, 0x22, 0x33, 0x44]);
    assert_eq!(v2_header.chunk_size, 4096);
}

#[test]
fn signed_manifest_wire_roundtrip() {
    let sm = SignedManifest { manifest: vec![1, 2, 3], sig: vec![9; 64], pubkey: vec![7; 32] };
    let bytes = sm.to_wire();
    assert_eq!(&bytes[0..8], &3u64.to_le_bytes());
    let back = SignedManifest::from_wire(&bytes).unwrap();
    assert_eq!(back.manifest, vec![1, 2, 3]);
    assert_eq!(back.sig, vec![9; 64]);
    assert_eq!(back.pubkey, vec![7; 32]);
    assert!(SignedManifest::from_wire(&bytes[..10]).is_none());
}

fn sample_manifest(data_type: DataType) -> Manifest {
    Manifest {
        v: 1,
        ts_ms: 1_700_000_000_000,
        seq: 7,
        header_hash: [0xAB; 32],
        pt_hash: [0xCD; 32],
        key_id: [0x11; 16],
        ai_used: true,
        model_ids: vec!["yolo".to_string(), "whisper".to_string()],
        data_type,
        chunk_len: 4096,
    }
}

#[test]
fn manifest_wire_layout_and_roundtrip() {
    let m = sample_manifest(DataType::File { mime_type: Some("text/plain".to_string()) });
    let bytes = m.to_wire();
    // v, ts, seq
    assert_eq!(bytes[0], 1);
    assert_eq!(&bytes[1..9], &1_700_000_000_000u64.to_le_bytes());
    assert_eq!(&bytes[9..17], &7u64.to_le_bytes());
    // ai_used flag after the three arrays
    assert_eq!(bytes[17 + 32 + 32 + 16], 1);
    // chunk length last
    assert_eq!(&bytes[bytes.len() - 4..], &4096u32.to_le_bytes());
    let back = Manifest::from_wire(&bytes).unwrap();
    assert_eq!(back.seq, 7);
    assert_eq!(back.model_ids, vec!["yolo".to_string(), "whisper".to_string()]);
    assert_eq!(back.data_type, DataType::File { mime_type: Some("text/plain".to_string()) });
    assert_eq!(back.chunk_len, 4096);
    assert!(back.ai_used);
}

#[test]
fn manifest_every_data_type_roundtrips() {
    let types = vec![
        DataType::Unknown,
        DataType::File { mime_type: None },
        DataType::Audio { sample_rate: 48000, channels: 2, format: AudioFormat::I16Le },
        DataType::Audio {
            sample_rate: 44100,
            channels: 1,
            format: AudioFormat::Other("mulaw".to_string()),
        },
        DataType::Video { width: 1920, height: 1080, fps_bits: 30.0f32.to_bits(), format: "h264".to_string() },
        DataType::Sensor { sensor_type: "imu".to_string() },
    ];
    for t in types {
        let m = sample_manifest(t.clone());
        let back = Manifest::from_wire(&m.to_wire()).unwrap();
        assert_eq!(back.data_type, t);
    }
}

#[test]
fn manifest_decode_rejects_bad_bytes() {
    let m = sample_manifest(DataType::Unknown);
    let mut bytes = m.to_wire();
    // a boolean other than 0 or 1
    bytes[17 + 32 + 32 + 16] = 2;
    assert!(Manifest::from_wire(&bytes).is_none());
    // truncated
    let good = m.to_wire();
    assert!(Manifest::from_wire(&good[..good.len() - 1]).is_none());
    // an unknown data type index
    let mut bad_tag = sample_manifest(DataType::Unknown).to_wire();
    let n = bad_tag.len();
    bad_tag[n - 8] = 9;
    assert!(Manifest::from_wire(&bad_tag).is_none());
}

#[test]
fn stream_header_written_is_read_back() {
    let header = FileHeader::new_with_defaults().to_bytes().to_vec();
    let hash = *blake3::hash(&header).as_bytes();
    let sh = StreamHeader { v: 2, header: header.clone(), header_hash: hash };
    let mut out = Vec::new();
    write_stream_header(&mut out, &sh);
    out.extend_from_slice(b"records follow");
    let (read, n) = read_preamble_and_header(&out).unwrap();
    assert_eq!(read.v, 2);
    assert_eq!(read.header, header);
    assert_eq!(read.header_hash, hash);
    assert_eq!(&out[n..], b"records follow");

    assert!(matches!(read_preamble_and_header(b"TR"), Err(FormatError::Truncated)));
    assert!(matches!(read_preamble_and_header(b"ABCD\x02"), Err(FormatError::BadMagic)));
    let mut bad_version = out[..4].to_vec();
    bad_version.push(9);
    assert!(matches!(read_preamble_and_header(&bad_version), Err(FormatError::UnsupportedVersion(9))));
}
