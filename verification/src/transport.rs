//! Transport settings and the trust policy for hardware-backed peers.
//!
//! The connections themselves (TCP and QUIC streams) live outside the
//! library; it holds the limits they obey and the decision which server
//! certificates a hardware-verified client accepts.

use crate::text::{bytes_equal, decimal, push_decimal};
use vstd::prelude::*;

verus! {

/// Transport configuration.  All timeouts are bounded so that a peer cannot
/// hold resources indefinitely.
#[derive(Debug, Clone, Copy, PartialEq, Eq, Structural)]
pub struct TransportConfig {
    /// Connection timeout in milliseconds.
    pub connect_timeout_ms: u64,
    /// Per-frame read timeout in milliseconds.
    pub read_timeout_ms: u64,
    /// Largest message accepted, in bytes.
    pub max_message_size: usize,
    /// Keep-alive interval in milliseconds (0 disables it).
    pub keep_alive_ms: u64,
    /// Largest number of bytes per connection (0 means no limit).
    pub max_connection_bytes: u64,
    /// Largest number of chunks per connection (0 means no limit).
    pub max_connection_chunks: u64,
    /// Idle timeout in milliseconds (0 disables it).
    pub connection_idle_timeout_ms: u64,
}

/// The default transport configuration: 10 s to connect, 30 s per frame,
/// 16 MiB per message, no keep-alive, 1 GiB and 10 000 chunks per
/// connection, 5 min idle timeout.
pub open spec fn default_transport_config() -> TransportConfig {
    TransportConfig {
        connect_timeout_ms: 10_000,
        read_timeout_ms: 30_000,
        max_message_size: 16_777_216,
        keep_alive_ms: 0,
        max_connection_bytes: 1_073_741_824,
        max_connection_chunks: 10_000,
        connection_idle_timeout_ms: 300_000,
    }
}

impl Default for TransportConfig {
    fn default() -> (r: TransportConfig)
        ensures
            r == default_transport_config(),
    {
        TransportConfig {
            connect_timeout_ms: 10_000,
            read_timeout_ms: 30_000,
            max_message_size: 16 * 1024 * 1024,
            keep_alive_ms: 0,
            max_connection_bytes: 1024 * 1024 * 1024,
            max_connection_chunks: 10_000,
            connection_idle_timeout_ms: 300_000,
        }
    }
}

impl TransportConfig {
    /// Checks the size of a message about to be sent against the limit.
    pub fn check_outgoing_size(&self, len: usize) -> (r: Result<(), String>)
        ensures
            r is Ok <==> len <= self.max_message_size,
            r matches Err(e) ==> e@ == "Message too large: "@ + decimal(len as nat) + " bytes (max: "@ + decimal(
                self.max_message_size as nat,
            ) + ")"@,
    {
        if len > self.max_message_size {
            let mut m = String::from_str("Message too large: ");
            push_decimal(&mut m, len as u64);
            m.append(" bytes (max: ");
            push_decimal(&mut m, self.max_message_size as u64);
            m.append(")");
            return Err(m);
        }
        Ok(())
    }

    /// Checks the announced size of a received message against the limit.
    pub fn check_incoming_size(&self, len: usize) -> (r: Result<(), String>)
        ensures
            r is Ok <==> len <= self.max_message_size,
            r matches Err(e) ==> e@ == "Received message too large: "@ + decimal(len as nat) + " bytes (max: "@
                + decimal(self.max_message_size as nat) + ")"@,
    {
        if len > self.max_message_size {
            let mut m = String::from_str("Received message too large: ");
            push_decimal(&mut m, len as u64);
            m.append(" bytes (max: ");
            push_decimal(&mut m, self.max_message_size as u64);
            m.append(")");
            return Err(m);
        }
        Ok(())
    }
}

/// Maker of transports; the transports themselves are built by the
/// networking layer from a [`TransportConfig`].
#[derive(Debug, Clone, Copy)]
pub struct TransportFactory;

/// Decides which server certificates a hardware-verified client trusts.
#[derive(Debug)]
pub struct HardwareBackedVerifier {
    trusted_certificates: Vec<Vec<u8>>,
    validate_attestation: bool,
}

impl HardwareBackedVerifier {
    /// The DER certificates this verifier trusts.
    pub closed spec fn trusted(&self) -> Seq<Seq<u8>> {
        self.trusted_certificates@.map_values(|c: Vec<u8>| c@)
    }

    /// Whether attestation is to be checked when no certificate is pinned.
    pub closed spec fn attestation(&self) -> bool {
        self.validate_attestation
    }

    /// A verifier that trusts exactly the given certificates.
    pub fn new(trusted_certificates: Vec<Vec<u8>>) -> (r: HardwareBackedVerifier)
        ensures
            r.trusted() == trusted_certificates@.map_values(|c: Vec<u8>| c@),
            r.attestation(),
    {
        HardwareBackedVerifier { trusted_certificates, validate_attestation: true }
    }

    /// A verifier that accepts any hardware-generated certificate (meant
    /// for development).
    pub fn accept_any_hardware() -> (r: HardwareBackedVerifier)
        ensures
            r.trusted().len() == 0,
            !r.attestation(),
    {
        HardwareBackedVerifier { trusted_certificates: Vec::new(), validate_attestation: false }
    }

    /// Whether a server certificate is accepted: with certificates pinned,
    /// exactly when it is one of them; with none pinned, always (hardware
    /// attestation is not checked yet).
    pub fn validate_hardware_certificate(&self, cert_der: &[u8]) -> (r: bool)
        ensures
            r == (self.trusted().len() == 0 || self.trusted().contains(cert_der@)),
    {
        let n = self.trusted_certificates.len();
        if n == 0 {
            return true;
        }
        let mut i: usize = 0;
        while i < n
            invariant
                i <= n,
                n == self.trusted_certificates@.len(),
                forall|j: int| 0 <= j < i ==> self.trusted_certificates@[j]@ != cert_der@,
            decreases n - i,
        {
            if bytes_equal(self.trusted_certificates[i].as_slice(), cert_der) {
                proof {
                    assert(self.trusted()[i as int] == cert_der@);
                }
                return true;
            }
            i = i + 1;
        }
        proof {
            if self.trusted().contains(cert_der@) {
                let k = choose|k: int| 0 <= k < self.trusted().len() && self.trusted()[k] == cert_der@;
                assert(self.trusted_certificates@[k]@ == cert_der@);
            }
        }
        false
    }
}

} // verus!
