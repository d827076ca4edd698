use trustedge_core::asymmetric::{KeyPair, PublicKey};
use trustedge_core::backends::universal::AsymmetricAlgorithm;
use trustedge_core::chunk_manifest::{DataType, Manifest};
use trustedge_core::format::{AudioFormat, SignedManifest};
use trustedge_core::hybrid::{parse_envelope, seal_for_recipient};

type ManifestTuple<D> = (u8, u64, u64, [u8; 32], [u8; 32], [u8; 16], bool, Vec<String>, D, u32);

fn manifest_with(data_type: DataType) -> Manifest {
    Manifest {
        v: 1,
        ts_ms: 1_700_000_000_123,
        seq: 42,
        header_hash: [0xAB; 32],
        pt_hash: [0xCD; 32],
        key_id: [0x11; 16],
        ai_used: true,
        model_ids: vec!["yolo".to_string(), "whisper".to_string()],
        data_type,
        chunk_len: 4096,
    }
}

fn bincode_manifest<D: serde::Serialize>(data_type: D) -> Vec<u8> {
    let t: ManifestTuple<D> = (
        1,
        1_700_000_000_123,
        42,
        [0xAB; 32],
        [0xCD; 32],
        [0x11; 16],
        true,
        vec!["yolo".to_string(), "whisper".to_string()],
        data_type,
        4096,
    );
    bincode::serialize(&t).unwrap()
}

#[test]
fn manifest_wire_matches_bincode_for_each_data_type() {
    // An enum variant is written by bincode as its index (u32) followed by its fields.
    let cases: Vec<(DataType, Vec<u8>)> = vec![
        (DataType::Unknown, bincode_manifest(0u32)),
        (DataType::File { mime_type: None }, bincode_manifest((1u32, None::<String>))),
        (
            DataType::File { mime_type: Some("text/plain".to_string()) },
            bincode_manifest((1u32, Some("text/plain".to_string()))),
        ),
        (
            DataType::Audio { sample_rate: 48_000, channels: 2, format: AudioFormat::I16Le },
            bincode_manifest((2u32, 48_000u32, 2u16, 1u32)),
        ),
        (
            DataType::Audio { sample_rate: 44_100, channels: 1, format: AudioFormat::Other("opus".to_string()) },
            bincode_manifest((2u32, 44_100u32, 1u16, (3u32, "opus".to_string()))),
        ),
        (
            DataType::Video { width: 1920, height: 1080, fps_bits: 30.0f32.to_bits(), format: "h264".to_string() },
            bincode_manifest((3u32, 1920u32, 1080u32, 30.0f32, "h264".to_string())),
        ),
        (
            DataType::Sensor { sensor_type: "imu".to_string() },
            bincode_manifest((4u32, "imu".to_string())),
        ),
    ];
    for (data_type, expected) in cases {
        let m = manifest_with(data_type);
        assert_eq!(m.to_wire(), expected);
        let back = Manifest::from_wire(&expected).unwrap();
        assert_eq!(back.to_wire(), expected);
    }
}

#[test]
fn signed_manifest_wire_matches_bincode() {
    let sm = SignedManifest { manifest: vec![1, 2, 3, 4], sig: vec![9; 64], pubkey: vec![7; 32] };
    let expected = bincode::serialize(&(vec![1u8, 2, 3, 4], vec![9u8; 64], vec![7u8; 32])).unwrap();
    assert_eq!(sm.to_wire(), expected);
    let back = SignedManifest::from_wire(&expected).unwrap();
    assert_eq!((back.manifest, back.sig, back.pubkey), (vec![1, 2, 3, 4], vec![9; 64], vec![7; 32]));
}

#[test]
fn public_key_record_matches_bincode() {
    let pk = PublicKey { algorithm: AsymmetricAlgorithm::Rsa2048, key_bytes: vec![5; 10], key_id: Some("k1".to_string()) };
    let expected = bincode::serialize(&(2u32, vec![5u8; 10], Some("k1".to_string()))).unwrap();
    assert_eq!(pk.to_bytes().unwrap(), expected);
    let back = PublicKey::from_bytes(&expected).unwrap();
    assert_eq!(back, pk);
}

#[test]
fn hybrid_envelope_layout_matches_bincode() {
    type EnvelopeTuple = ([u8; 4], u8, String, Vec<u8>, Vec<u8>, [u8; 12], u8);
    let t: EnvelopeTuple = (*b"TRHY", 1, "abcd".to_string(), vec![1, 2, 3], vec![4, 5, 6, 7], [8; 12], 1);
    let bytes = bincode::serialize(&t).unwrap();
    let e = parse_envelope(&bytes).unwrap();
    assert_eq!(e.magic, *b"TRHY");
    assert_eq!(e.version, 1);
    assert_eq!(e.recipient_key_id, "abcd");
    assert_eq!(e.encrypted_session_key, vec![1, 2, 3]);
    assert_eq!(e.encrypted_payload, vec![4, 5, 6, 7]);
    assert_eq!(e.nonce, [8; 12]);
    assert_eq!(e.algorithm, 1);

    let kp = KeyPair::generate(AsymmetricAlgorithm::Rsa2048).unwrap();
    let sealed = seal_for_recipient(b"hello", &kp.public).unwrap();
    let decoded: EnvelopeTuple = bincode::deserialize(&sealed).unwrap();
    assert_eq!(bincode::serialize(&decoded).unwrap(), sealed);
    assert_eq!(&decoded.0, b"TRHY");
    assert_eq!(decoded.2, kp.public.id());
    assert_eq!(decoded.3.len(), 256);
    assert_eq!(decoded.4.len(), b"hello".len() + 16);
    assert!(sealed.len() > b"hello".len() + 16 + 256);
}
