use ed25519_dalek::SigningKey;
use rand::rngs::OsRng;
use trustedge_core::auth::ClientCertificate;
use trustedge_core::auth::{
    answer_challenge, answer_challenge_at, check_auth_frame_len, derive_session_key, expect_message,
    finish_handshake, AuthMessageType, ClientAuthResponse, ServerCertificate, ServerReply, SessionInfo, SessionManager,
};

fn now_secs() -> u64 {
    std::time::SystemTime::now().duration_since(std::time::UNIX_EPOCH).unwrap().as_secs()
}

#[test]
fn test_timestamp_future_rejected() {
    let mut session_manager = SessionManager::new("test-server".into()).expect("SessionManager::new must succeed");
    let challenge = session_manager.create_challenge().expect("create_challenge must succeed");
    let response = ClientAuthResponse {
        client_public_key: [0u8; 32],
        challenge_signature: [0u8; 64],
        client_identity: None,
        timestamp: now_secs() + 60,
    };
    let err = session_manager.authenticate_client(&challenge, &response).unwrap_err();
    assert!(err.contains("too far in the future"), "expected 'too far in the future' in error, got: {err}");
}

#[test]
fn test_timestamp_past_rejected() {
    let mut session_manager = SessionManager::new("test-server".into()).expect("SessionManager::new must succeed");
    let challenge = session_manager.create_challenge().expect("create_challenge must succeed");
    let response = ClientAuthResponse {
        client_public_key: [0u8; 32],
        challenge_signature: [0u8; 64],
        client_identity: None,
        timestamp: 1000,
    };
    let err = session_manager.authenticate_client(&challenge, &response).unwrap_err();
    assert!(err.contains("too old"), "expected 'too old' in error, got: {err}");
}

#[test]
fn test_timestamp_within_tolerance_reaches_signature_check() {
    let mut session_manager = SessionManager::new("test-server".into()).expect("SessionManager::new must succeed");
    let challenge = session_manager.create_challenge().expect("create_challenge must succeed");
    let response = ClientAuthResponse {
        client_public_key: [0u8; 32],
        challenge_signature: [0u8; 64],
        client_identity: None,
        timestamp: now_secs() - 10,
    };
    let msg = session_manager.authenticate_client(&challenge, &response).unwrap_err();
    assert!(!msg.contains("too far in the future") && !msg.contains("too old"), "timestamp check must pass; got: {msg}");
    assert!(
        msg.contains("Invalid client public key")
            || msg.contains("signature")
            || msg.contains("verification")
            || msg.contains("ECDH"),
        "expected a key/signature/ECDH error after timestamp passes, got: {msg}"
    );
}

#[test]
fn test_old_session_key_domain_produces_distinct_okm() {
    let key_material = [0x17u8; 64];
    let old = blake3::derive_key("TRUSTEDGE_SESSION_KEY_V1", &key_material);
    let new = blake3::derive_key("SEALEDGE_SESSION_KEY_V1", &key_material);
    assert_ne!(old, new);
}

#[test]
fn test_old_session_key_domain_rejected_cleanly() {
    let key_material = [0x17u8; 64];
    let old = blake3::derive_key("TRUSTEDGE_SESSION_KEY_V1", &key_material);
    let new = blake3::derive_key("SEALEDGE_SESSION_KEY_V1", &key_material);
    assert_ne!(old, new);
}

fn server_key() -> [u8; 32] {
    SigningKey::generate(&mut OsRng).to_bytes()
}

#[test]
fn full_handshake_agrees_on_session_key() {
    let server_signing = server_key();
    let mut manager = SessionManager::with_signing_key("test-server".into(), server_signing).unwrap();
    let pinned = manager.server_certificate().public_key;
    let client = SigningKey::generate(&mut OsRng).to_bytes();

    let challenge = manager.create_challenge().unwrap();
    let response = answer_challenge(&challenge, &client, Some("cam-1".to_string()), &pinned).unwrap();
    let (reply, session) = manager.answer_client(&challenge, &response);
    let session = session.expect("server accepts the response");
    assert!(matches!(reply, ServerReply::Confirm(_)));
    assert_eq!(manager.active_session_count(), 1);

    let result = finish_handshake(&challenge, &client, reply).expect("client accepts the confirmation");
    assert_eq!(result.session_id, session.session_id);
    assert_eq!(result.session_key, session.session_key);
    assert_eq!(session.client_identity.as_deref(), Some("cam-1"));

    let found = manager.validate_session(&session.session_id).expect("session is valid");
    assert_eq!(found.session_key, session.session_key);
    manager.remove_session(&session.session_id);
    assert_eq!(manager.active_session_count(), 0);
    assert_eq!(manager.validate_session(&session.session_id).unwrap_err(), "Session not found");
}

#[test]
fn pinning_rejects_other_server() {
    let manager = SessionManager::new("test-server".into()).unwrap();
    let challenge = manager.create_challenge().unwrap();
    let client = server_key();
    let err = answer_challenge(&challenge, &client, None, &[9u8; 32]).unwrap_err();
    assert_eq!(err, "Server public key pinning failed");
}

#[test]
fn expired_certificate_is_refused() {
    let manager = SessionManager::new("test-server".into()).unwrap();
    let challenge = manager.create_challenge().unwrap();
    let pinned = manager.server_certificate().public_key;
    let too_late = manager.server_certificate().valid_until + 1;
    let err = answer_challenge_at(&challenge, &server_key(), None, &pinned, too_late).unwrap_err();
    assert_eq!(err, "Server certificate verification failed");
}

#[test]
fn certificate_verifies_and_pins() {
    let key = server_key();
    let cert = ServerCertificate::new_self_signed_at("srv".to_string(), &key, 1, 1_000);
    assert_eq!(cert.valid_until, 1_000 + 86_400);
    assert!(cert.verify_at(1_000).is_ok());
    assert!(cert.verify_at(1_000 + 86_400).is_ok());
    assert_eq!(cert.verify_at(999).unwrap_err(), "Certificate expired or not yet valid");
    assert!(cert.verify_pinned(&cert.public_key).is_ok());
    let mut forged = cert.clone();
    forged.identity = "other".to_string();
    assert!(forged.verify_at(2_000).unwrap_err().starts_with("Certificate signature verification failed"));
}

#[test]
fn failure_reply_is_reported() {
    let manager = SessionManager::new("test-server".into()).unwrap();
    let challenge = manager.create_challenge().unwrap();
    let err = finish_handshake(&challenge, &server_key(), ServerReply::Failure("nope".to_string())).unwrap_err();
    assert_eq!(err, "Authentication failed: nope");
    let err = finish_handshake(&challenge, &server_key(), ServerReply::Unexpected).unwrap_err();
    assert_eq!(err, "Unexpected server response type");
}

#[test]
fn session_keys_agree_both_ways() {
    let a = SigningKey::generate(&mut OsRng);
    let b = SigningKey::generate(&mut OsRng);
    let challenge = [5u8; 32];
    let ka = derive_session_key(&a.to_bytes(), &b.verifying_key().to_bytes(), &challenge).unwrap();
    let kb = derive_session_key(&b.to_bytes(), &a.verifying_key().to_bytes(), &challenge).unwrap();
    assert_eq!(ka, kb);
}

#[test]
fn message_kind_and_frame_checks() {
    assert!(expect_message(AuthMessageType::ClientHello, AuthMessageType::ClientHello).is_ok());
    assert_eq!(
        expect_message(AuthMessageType::ClientAuth, AuthMessageType::ClientHello).unwrap_err(),
        "Expected ClientHello message"
    );
    assert_eq!(check_auth_frame_len(8192, "Client hello").unwrap(), 8192);
    assert_eq!(check_auth_frame_len(8193, "Client hello").unwrap_err(), "Client hello message too large");
    assert_eq!(AuthMessageType::ServerConfirm.code(), 4);
}

#[test]
fn cleanup_removes_only_expired_sessions() {
    let server_signing = server_key();
    let mut manager = SessionManager::with_signing_key("srv".into(), server_signing).unwrap();
    let pinned = manager.server_certificate().public_key;
    let client = SigningKey::generate(&mut OsRng).to_bytes();
    let challenge = manager.create_challenge().unwrap();
    let now = now_secs();
    let response = answer_challenge_at(&challenge, &client, None, &pinned, now).unwrap();
    let s1 = manager.authenticate_client_at(&challenge, &response, now, [1u8; 16]).unwrap();
    let s2 = manager.authenticate_client_at(&challenge, &response, now + 100, [2u8; 16]).unwrap();
    assert_eq!(manager.active_session_count(), 2);
    // the first session expires 1800 s after it was made, the second 100 s later
    manager.cleanup_expired_sessions_at(s1.expires_at);
    assert_eq!(manager.active_session_count(), 1);
    assert!(manager.validate_session_at(&s2.session_id, s1.expires_at).is_ok());
    assert_eq!(manager.validate_session_at(&s1.session_id, s1.expires_at).unwrap_err(), "Session not found");
}

#[test]
fn client_certificate_from_key_and_generated() {
    let sk = SigningKey::generate(&mut OsRng);
    let cert = ClientCertificate::from_signing_key("alice", sk.to_bytes(), 42);
    assert_eq!(cert.identity, "alice");
    assert_eq!(cert.public_key, sk.verifying_key().to_bytes());
    assert_eq!(cert.created_at, 42);
    assert_eq!(cert.signing_key().unwrap(), &sk.to_bytes());

    let generated = ClientCertificate::generate("bob").unwrap();
    let key = *generated.signing_key().unwrap();
    assert_eq!(generated.public_key, SigningKey::from_bytes(&key).verifying_key().to_bytes());

    let read_back = ClientCertificate { signing_key: None, ..generated };
    assert_eq!(read_back.signing_key().unwrap_err(), "Signing key not available in certificate");
}

#[test]
fn session_expiry_against_the_clock() {
    let server_signing = server_key();
    let mut manager = SessionManager::with_signing_key("srv".into(), server_signing).unwrap();
    let pinned = manager.server_certificate().public_key;
    let client = SigningKey::generate(&mut OsRng).to_bytes();
    let challenge = manager.create_challenge().unwrap();
    let now = now_secs();
    let response = answer_challenge_at(&challenge, &client, None, &pinned, now).unwrap();
    let fresh = manager.authenticate_client(&challenge, &response).unwrap();
    assert!(!fresh.is_expired());
    assert!(fresh.is_valid());
    let signer = SigningKey::from_bytes(&client);
    let old_response = ClientAuthResponse {
        client_public_key: signer.verifying_key().to_bytes(),
        challenge_signature: ed25519_dalek::Signer::sign(&signer, &challenge.challenge).to_bytes(),
        client_identity: None,
        timestamp: now - 2000,
    };
    let stale = manager.authenticate_client_at(&challenge, &old_response, now - 2000, [9u8; 16]).unwrap();
    assert!(stale.is_expired());
    assert_eq!(manager.active_session_count(), 2);
    manager.cleanup_expired_sessions();
    assert_eq!(manager.active_session_count(), 1);
}

#[test]
fn session_expiring_at_zero_is_expired_whatever_the_clock() {
    let s = SessionInfo {
        session_id: [1; 16],
        client_public_key: [2; 32],
        client_identity: None,
        created_at: 0,
        expires_at: 0,
        authenticated: true,
        session_key: [3; 32],
    };
    assert!(s.is_expired());
    assert!(!s.is_valid());
    assert!(s.is_expired_at(0));
    assert!(!s.is_valid_at(0));
    let later = SessionInfo { expires_at: 100, ..s };
    assert!(later.is_valid_at(99));
    assert!(later.is_expired_at(100));
}
