use trustedge_core::transport::{HardwareBackedVerifier, TransportConfig};

#[test]
fn test_transport_defaults() {
    let config = TransportConfig::default();
    assert!(config.connect_timeout_ms > 0);
    assert!(config.read_timeout_ms > 0);
    assert!(config.max_message_size > 0);
    assert!(config.max_connection_bytes > 0);
    assert!(config.max_connection_chunks > 0);
    assert!(config.connection_idle_timeout_ms > 0);
}

#[test]
fn transport_default_values() {
    let config = TransportConfig::default();
    assert_eq!(config.connect_timeout_ms, 10_000);
    assert_eq!(config.read_timeout_ms, 30_000);
    assert_eq!(config.max_message_size, 16 * 1024 * 1024);
    assert_eq!(config.keep_alive_ms, 0);
    assert_eq!(config.max_connection_bytes, 1024 * 1024 * 1024);
    assert_eq!(config.max_connection_chunks, 10_000);
    assert_eq!(config.connection_idle_timeout_ms, 300_000);
}

#[test]
fn test_transport_config_validation() {
    let config = TransportConfig {
        connect_timeout_ms: 15000,
        read_timeout_ms: 45000,
        max_message_size: 32 * 1024 * 1024,
        keep_alive_ms: 10000,
        max_connection_bytes: 2048 * 1024 * 1024,
        max_connection_chunks: 20000,
        connection_idle_timeout_ms: 600000,
    };
    let copy = config;
    assert_eq!(copy.connect_timeout_ms, 15000);
    assert_eq!(copy.read_timeout_ms, 45000);
    assert_eq!(copy.max_message_size, 32 * 1024 * 1024);
    assert_eq!(copy.keep_alive_ms, 10000);
}

#[test]
fn hardware_verifier_trusts_pinned_certificates_only() {
    let v = HardwareBackedVerifier::new(vec![vec![1, 2, 3], vec![4, 5]]);
    assert!(v.validate_hardware_certificate(&[4, 5]));
    assert!(!v.validate_hardware_certificate(&[4, 5, 6]));
    let any = HardwareBackedVerifier::accept_any_hardware();
    assert!(any.validate_hardware_certificate(&[9, 9, 9]));
    let empty = HardwareBackedVerifier::new(vec![]);
    assert!(empty.validate_hardware_certificate(&[]));
}

#[test]
fn message_size_limits() {
    let config = TransportConfig::default();
    assert!(config.check_outgoing_size(16 * 1024 * 1024).is_ok());
    assert_eq!(
        config.check_outgoing_size(16 * 1024 * 1024 + 1).unwrap_err(),
        "Message too large: 16777217 bytes (max: 16777216)"
    );
    let small = TransportConfig { max_message_size: 10, ..TransportConfig::default() };
    assert!(small.check_incoming_size(10).is_ok());
    assert_eq!(small.check_incoming_size(11).unwrap_err(), "Received message too large: 11 bytes (max: 10)");
}
