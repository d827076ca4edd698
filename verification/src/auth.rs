//! Mutual authentication and sessions.
//!
//! A server holds a self-signed Ed25519 certificate, pinned by its clients.
//! It challenges a client with 32 random bytes; the client signs them and
//! answers with a timestamp that must lie at most 5 s ahead of and 300 s
//! behind the server's clock.  Both sides then derive the session key from
//! their X25519 agreement, the challenge and both public keys.

use crate::primitives::{
    blake3_derive_key, blake3_derive_key_of, ed25519_accepts, ed25519_key_check, ed25519_key_decodes,
    ed25519_key_error_of, ed25519_public_key, ed25519_public_of, ed25519_sign, ed25519_signature_of,
    ed25519_verify_checked, ed25519_verify_error_of, hex_encode, random_bytes, unix_time_secs,
    x25519_agrees, x25519_shared, x25519_shared_of,
};
use crate::codec::push_all;
use crate::text::{concat_str, decimal, hex_text, push_decimal};
use vstd::prelude::*;
use vstd::utf8::encode_utf8;

verus! {

/// Lifetime of a session in seconds (30 minutes).
pub const SESSION_TIMEOUT_SECS: u64 = 1800;

/// Size of an authentication challenge.
pub const CHALLENGE_SIZE: usize = 32;

/// Size of a session identifier.
pub const SESSION_ID_SIZE: usize = 16;

/// How far ahead of the server's clock a response may be stamped.
pub const FUTURE_TOLERANCE_SECS: u64 = 5;

/// How far behind the server's clock a response may be stamped.
pub const PAST_TOLERANCE_SECS: u64 = 300;

/// Kinds of authentication messages.
#[derive(Debug, Clone, Copy, PartialEq, Eq, Structural)]
pub enum AuthMessageType {
    ClientHello,
    ServerChallenge,
    ClientAuth,
    ServerConfirm,
    AuthError,
}

impl AuthMessageType {
    /// Wire code of the message kind.
    pub open spec fn spec_code(self) -> u8 {
        match self {
            AuthMessageType::ClientHello => 1,
            AuthMessageType::ServerChallenge => 2,
            AuthMessageType::ClientAuth => 3,
            AuthMessageType::ServerConfirm => 4,
            AuthMessageType::AuthError => 5,
        }
    }

    pub fn code(self) -> (r: u8)
        ensures
            r == self.spec_code(),
    {
        match self {
            AuthMessageType::ClientHello => 1,
            AuthMessageType::ServerChallenge => 2,
            AuthMessageType::ClientAuth => 3,
            AuthMessageType::ServerConfirm => 4,
            AuthMessageType::AuthError => 5,
        }
    }
}

/// A client's identity and Ed25519 key pair.
#[derive(Debug, Clone)]
pub struct ClientCertificate {
    pub identity: String,
    pub public_key: [u8; 32],
    /// The secret key; absent in a certificate read back from its file.
    pub signing_key: Option<[u8; 32]>,
    /// Creation time, seconds since the UNIX epoch.
    pub created_at: u64,
}

impl ClientCertificate {
    /// A certificate for `identity` with the given secret key, created at
    /// `now`.
    pub fn from_signing_key(identity: &str, signing_key: [u8; 32], now: u64) -> (r: ClientCertificate)
        ensures
            r.identity@ == identity@,
            r.public_key@ == ed25519_public_of(signing_key@),
            r.signing_key == Some(signing_key),
            r.created_at == now,
    {
        ClientCertificate {
            identity: identity.to_string(),
            public_key: ed25519_public_key(&signing_key),
            signing_key: Some(signing_key),
            created_at: now,
        }
    }

    /// A certificate for `identity` with a fresh random key, created now.
    pub fn generate(identity: &str) -> (r: Result<ClientCertificate, String>)
        ensures
            r matches Ok(c) && c.identity@ == identity@ && (c.signing_key matches Some(k)
                && c.public_key@ == ed25519_public_of(k@)),
    {
        let signing_key: [u8; 32] = random_bytes::<32>();
        let now = match unix_time_secs() {
            Ok(t) => t,
            Err(_) => 0,
        };
        Ok(ClientCertificate::from_signing_key(identity, signing_key, now))
    }

    /// The secret key, required to authenticate.
    pub fn signing_key(&self) -> (r: Result<&[u8; 32], String>)
        ensures
            match self.signing_key {
                Some(k) => r == Ok::<&[u8; 32], String>(&k),
                None => r matches Err(e) && e@ == "Signing key not available in certificate"@,
            },
    {
        match &self.signing_key {
            Some(k) => Ok(k),
            None => Err(String::from_str("Signing key not available in certificate")),
        }
    }
}

/// A self-signed server certificate.
#[derive(Debug, Clone)]
pub struct ServerCertificate {
    pub identity: String,
    pub public_key: [u8; 32],
    pub valid_from: u64,
    pub valid_until: u64,
    pub signature: [u8; 64],
}

/// The text a certificate's signature covers:
/// `identity:hex(public key):valid_from:valid_until`.
pub open spec fn cert_text(identity: Seq<char>, public_key: Seq<u8>, from: u64, until: u64) -> Seq<char> {
    identity + ":"@ + hex_text(public_key) + ":"@ + decimal(from as nat) + ":"@ + decimal(until as nat)
}

fn cert_data(identity: &str, public_key: &[u8; 32], from: u64, until: u64) -> (r: String)
    ensures
        r@ == cert_text(identity@, public_key@, from, until),
{
    let mut s = String::from_str(identity);
    s.append(":");
    s.append(hex_encode(public_key.as_slice()).as_str());
    s.append(":");
    push_decimal(&mut s, from);
    s.append(":");
    push_decimal(&mut s, until);
    s
}

/// Why a certificate does not verify at time `now`, if it does not.
pub open spec fn cert_problem(c: ServerCertificate, now: u64) -> Option<Seq<char>> {
    let data = encode_utf8(cert_text(c.identity@, c.public_key@, c.valid_from, c.valid_until));
    if now < c.valid_from || now > c.valid_until {
        Some("Certificate expired or not yet valid"@)
    } else if !ed25519_key_decodes(c.public_key@) {
        Some("Invalid public key: "@ + ed25519_key_error_of(c.public_key@))
    } else if !ed25519_accepts(c.public_key@, data, c.signature@) {
        Some(
            "Certificate signature verification failed: "@ + ed25519_verify_error_of(
                c.public_key@,
                data,
                c.signature@,
            ),
        )
    } else {
        None
    }
}

/// `c` is a certificate for `identity`, self-signed with `key`, valid for
/// `days` days from its start, and it verifies throughout that time.
pub open spec fn self_signed_by(c: ServerCertificate, identity: Seq<char>, key: Seq<u8>, days: u64) -> bool {
    &&& c.identity@ == identity
    &&& c.public_key@ == ed25519_public_of(key)
    &&& c.valid_until == c.valid_from + days * 86400
    &&& c.signature@ == ed25519_signature_of(
        key,
        encode_utf8(cert_text(identity, c.public_key@, c.valid_from, c.valid_until)),
    )
    &&& forall|t: u64| c.valid_from <= t <= c.valid_until ==> #[trigger] cert_problem(c, t) is None
}

impl ServerCertificate {
    /// A certificate for `identity` signed by `signing_key`, valid from
    /// `now` for `validity_days` days.  It verifies at every moment of that
    /// period.
    pub fn new_self_signed_at(identity: String, signing_key: &[u8; 32], validity_days: u64, now: u64) -> (r:
        ServerCertificate)
        requires
            now + validity_days * 86400 <= u64::MAX,
        ensures
            r.identity@ == identity@,
            r.public_key@ == ed25519_public_of(signing_key@),
            r.valid_from == now,
            r.valid_until == now + validity_days * 86400,
            r.signature@ == ed25519_signature_of(
                signing_key@,
                encode_utf8(cert_text(identity@, r.public_key@, r.valid_from, r.valid_until)),
            ),
            forall|t: u64| now <= t <= r.valid_until ==> #[trigger] cert_problem(r, t) is None,
    {
        let valid_until = now + validity_days * 86400;
        let public_key = ed25519_public_key(signing_key);
        let data = cert_data(identity.as_str(), &public_key, now, valid_until);
        let signature = ed25519_sign(signing_key, data.as_str().as_bytes());
        ServerCertificate { identity, public_key, valid_from: now, valid_until, signature }
    }

    /// A self-signed certificate valid from the current time.
    pub fn new_self_signed(identity: String, signing_key: &[u8; 32], validity_days: u64) -> (r: Result<
        ServerCertificate,
        String,
    >)
        ensures
            r matches Ok(c) ==> self_signed_by(c, identity@, signing_key@, validity_days),
    {
        let now = match unix_time_secs() {
            Ok(t) => t,
            Err(e) => {
                return Err(e);
            },
        };
        if validity_days > (u64::MAX - now) / 86400 {
            return Err(String::from_str("Certificate validity period out of range"));
        }
        assert(validity_days * 86400 <= u64::MAX - now) by (nonlinear_arith)
            requires
                validity_days <= (u64::MAX - now) / 86400,
        ;
        Ok(ServerCertificate::new_self_signed_at(identity, signing_key, validity_days, now))
    }

    /// Checks the validity period at `now` and the self-signature.
    pub fn verify_at(&self, now: u64) -> (r: Result<(), String>)
        ensures
            match cert_problem(*self, now) {
                None => r is Ok,
                Some(m) => r matches Err(e) && e@ == m,
            },
    {
        if now < self.valid_from || now > self.valid_until {
            return Err(String::from_str("Certificate expired or not yet valid"));
        }
        match ed25519_key_check(&self.public_key) {
            Ok(()) => {},
            Err(e) => {
                return Err(concat_str("Invalid public key: ", e.as_str()));
            },
        }
        let data = cert_data(self.identity.as_str(), &self.public_key, self.valid_from, self.valid_until);
        match ed25519_verify_checked(&self.public_key, data.as_str().as_bytes(), &self.signature) {
            Ok(()) => Ok(()),
            Err(e) => Err(concat_str("Certificate signature verification failed: ", e.as_str())),
        }
    }

    /// Checks the validity period at the current time and the self-signature.
    pub fn verify(&self) -> (r: Result<(), String>)
        ensures
            r is Ok ==> exists|t: u64| #[trigger] cert_problem(*self, t) is None,
    {
        match unix_time_secs() {
            Ok(now) => self.verify_at(now),
            Err(e) => Err(e),
        }
    }

    /// Checks that the certificate carries the pinned public key.
    pub fn verify_pinned(&self, expected_pubkey: &[u8; 32]) -> (r: Result<(), String>)
        ensures
            match r {
                Ok(()) => self.public_key@ == expected_pubkey@,
                Err(e) => self.public_key@ != expected_pubkey@ && e@
                    == "Server public key mismatch: certificate key does not match pinned key. Possible Man-in-the-Middle attack."@,
            },
    {
        if !crate::text::bytes_equal(self.public_key.as_slice(), expected_pubkey.as_slice()) {
            return Err(
                String::from_str(
                    "Server public key mismatch: certificate key does not match pinned key. Possible Man-in-the-Middle attack.",
                ),
            );
        }
        Ok(())
    }
}

/// A challenge from the server to a client.
#[derive(Debug, Clone)]
pub struct AuthChallenge {
    pub challenge: [u8; 32],
    pub server_cert: ServerCertificate,
    pub timestamp: u64,
}

/// A client's answer to a challenge.
#[derive(Debug, Clone)]
pub struct ClientAuthResponse {
    pub client_public_key: [u8; 32],
    pub challenge_signature: [u8; 64],
    pub client_identity: Option<String>,
    pub timestamp: u64,
}

/// The server's confirmation of a session.
#[derive(Debug, Clone)]
pub struct ServerAuthConfirm {
    pub session_id: [u8; 16],
    pub session_expires_at: u64,
    pub session_signature: [u8; 64],
}

/// An authentication message: its kind and encoded payload.
#[derive(Debug, Clone)]
pub struct AuthMessage {
    pub msg_type: AuthMessageType,
    pub payload: Vec<u8>,
}

/// What a client keeps of a successful handshake.
#[derive(Debug)]
pub struct ClientAuthResult {
    pub session_id: [u8; 16],
    pub server_certificate: ServerCertificate,
    pub session_key: [u8; 32],
}

/// Lexicographic order of byte strings of equal length.
pub open spec fn lex_less(a: Seq<u8>, b: Seq<u8>) -> bool
    decreases a.len(),
{
    if a.len() == 0 || b.len() == 0 {
        false
    } else if a[0] < b[0] {
        true
    } else if a[0] > b[0] {
        false
    } else {
        lex_less(a.drop_first(), b.drop_first())
    }
}

proof fn lemma_lex_less_asymmetric(a: Seq<u8>, b: Seq<u8>)
    ensures
        !(lex_less(a, b) && lex_less(b, a)),
    decreases a.len(),
{
    if a.len() > 0 && b.len() > 0 && a[0] == b[0] {
        lemma_lex_less_asymmetric(a.drop_first(), b.drop_first());
    }
}

proof fn lemma_lex_total(a: Seq<u8>, b: Seq<u8>)
    requires
        a.len() == b.len(),
        !lex_less(a, b),
        !lex_less(b, a),
    ensures
        a == b,
    decreases a.len(),
{
    if a.len() > 0 {
        lemma_lex_total(a.drop_first(), b.drop_first());
        assert(a =~= seq![a[0]] + a.drop_first());
        assert(b =~= seq![b[0]] + b.drop_first());
    } else {
        assert(a =~= b);
    }
}

fn bytes_less(a: &[u8; 32], b: &[u8; 32]) -> (r: bool)
    ensures
        r == lex_less(a@, b@),
{
    let mut i: usize = 0;
    assert(a@.subrange(0, 32) =~= a@ && b@.subrange(0, 32) =~= b@);
    while i < 32
        invariant
            i <= 32,
            forall|j: int| 0 <= j < i ==> a@[j] == b@[j],
            lex_less(a@, b@) == lex_less(a@.subrange(i as int, 32), b@.subrange(i as int, 32)),
        decreases 32 - i,
    {
        let ghost sa = a@.subrange(i as int, 32);
        let ghost sb = b@.subrange(i as int, 32);
        assert(sa[0] == a@[i as int] && sb[0] == b@[i as int]);
        if a[i] < b[i] {
            return true;
        }
        if a[i] > b[i] {
            return false;
        }
        assert(sa.drop_first() =~= a@.subrange(i + 1, 32));
        assert(sb.drop_first() =~= b@.subrange(i + 1, 32));
        i = i + 1;
    }
    false
}

/// The BLAKE3 context of session keys.
pub open spec fn session_key_context() -> Seq<char> {
    "SEALEDGE_SESSION_KEY_V1"@
}

/// Key material of a session: the shared secret, the challenge, then the
/// two public keys, the lower first.
pub open spec fn session_material(shared: Seq<u8>, challenge: Seq<u8>, mine: Seq<u8>, theirs: Seq<u8>) -> Seq<u8> {
    if lex_less(mine, theirs) {
        shared + challenge + mine + theirs
    } else {
        shared + challenge + theirs + mine
    }
}

/// The session key of a secret with a peer's public key over a challenge,
/// or `None` when the shared secret is all zeros.
pub open spec fn session_key_of(secret: Seq<u8>, their_public: Seq<u8>, challenge: Seq<u8>) -> Option<Seq<u8>> {
    let shared = x25519_shared_of(secret, their_public);
    if shared == Seq::new(32, |i: int| 0u8) {
        None
    } else {
        Some(
            blake3_derive_key_of(
                session_key_context(),
                session_material(shared, challenge, ed25519_public_of(secret), their_public),
            ),
        )
    }
}

/// Both sides of a handshake derive the same session key.
pub proof fn law_session_key_agrees(a: Seq<u8>, b: Seq<u8>, challenge: Seq<u8>)
    requires
        a.len() == 32,
        b.len() == 32,
        ed25519_public_of(a).len() == 32,
        ed25519_public_of(b).len() == 32,
        x25519_agrees(a, ed25519_public_of(b), x25519_shared_of(a, ed25519_public_of(b))),
    ensures
        session_key_of(a, ed25519_public_of(b), challenge) == session_key_of(
            b,
            ed25519_public_of(a),
            challenge,
        ),
{
    let pa = ed25519_public_of(a);
    let pb = ed25519_public_of(b);
    assert(x25519_shared_of(b, pa) == x25519_shared_of(a, pb));
    lemma_lex_less_asymmetric(pa, pb);
    if !lex_less(pa, pb) && !lex_less(pb, pa) {
        lemma_lex_total(pa, pb);
    }
}

fn zero_secret(b: &[u8; 32]) -> (r: bool)
    ensures
        r == (b@ == Seq::new(32, |i: int| 0u8)),
{
    let mut i: usize = 0;
    while i < 32
        invariant
            i <= 32,
            forall|j: int| 0 <= j < i ==> b@[j] == 0u8,
        decreases 32 - i,
    {
        if b[i] != 0u8 {
            assert(b@[i as int] != Seq::new(32, |k: int| 0u8)[i as int]);
            return false;
        }
        i = i + 1;
    }
    assert(b@ =~= Seq::new(32, |i: int| 0u8));
    true
}

/// Derives the session key; see [`session_key_of`].  The peer derives the
/// same key from its side.
pub fn derive_session_key(my_signing_key: &[u8; 32], their_public_key: &[u8; 32], challenge: &[u8; 32]) -> (r:
    Result<[u8; 32], String>)
    requires
        ed25519_key_decodes(their_public_key@),
    ensures
        match session_key_of(my_signing_key@, their_public_key@, challenge@) {
            Some(k) => r matches Ok(v) && v@ == k,
            None => r matches Err(m) && m@ == "ECDH produced zero shared secret"@,
        },
        x25519_agrees(
            my_signing_key@,
            their_public_key@,
            x25519_shared_of(my_signing_key@, their_public_key@),
        ),
        ed25519_public_of(my_signing_key@).len() == 32,
{
    let shared = x25519_shared(my_signing_key, their_public_key);
    let my_pub = ed25519_public_key(my_signing_key);
    if zero_secret(&shared) {
        return Err(String::from_str("ECDH produced zero shared secret"));
    }
    let mut material: Vec<u8> = Vec::new();
    push_all(&mut material, shared.as_slice());
    push_all(&mut material, challenge.as_slice());
    if bytes_less(&my_pub, their_public_key) {
        push_all(&mut material, my_pub.as_slice());
        push_all(&mut material, their_public_key.as_slice());
    } else {
        push_all(&mut material, their_public_key.as_slice());
        push_all(&mut material, my_pub.as_slice());
    }
    Ok(blake3_derive_key("SEALEDGE_SESSION_KEY_V1", material.as_slice()))
}

/// A session of an authenticated client.
#[derive(Debug)]
pub struct SessionInfo {
    pub session_id: [u8; 16],
    pub client_public_key: [u8; 32],
    pub client_identity: Option<String>,
    pub created_at: u64,
    pub expires_at: u64,
    pub authenticated: bool,
    pub session_key: [u8; 32],
}

fn clone_identity(o: &Option<String>) -> (r: Option<String>)
    ensures
        crate::primitives::opt_text(r) == crate::primitives::opt_text(*o),
{
    match o {
        Some(s) => Some(s.clone()),
        None => None,
    }
}

/// Two sessions with the same content.
pub open spec fn same_session(a: SessionInfo, b: SessionInfo) -> bool {
    &&& a.session_id == b.session_id
    &&& a.client_public_key == b.client_public_key
    &&& crate::primitives::opt_text(a.client_identity) == crate::primitives::opt_text(b.client_identity)
    &&& a.created_at == b.created_at
    &&& a.expires_at == b.expires_at
    &&& a.authenticated == b.authenticated
    &&& a.session_key == b.session_key
}

fn now_or_zero() -> (r: u64) {
    match unix_time_secs() {
        Ok(t) => t,
        Err(_) => 0,
    }
}

impl SessionInfo {
    /// A copy of the session.
    pub fn duplicate(&self) -> (r: SessionInfo)
        ensures
            same_session(r, *self),
    {
        SessionInfo {
            session_id: self.session_id,
            client_public_key: self.client_public_key,
            client_identity: clone_identity(&self.client_identity),
            created_at: self.created_at,
            expires_at: self.expires_at,
            authenticated: self.authenticated,
            session_key: self.session_key,
        }
    }

    /// Authenticated and not yet expired at `now`.
    pub fn is_valid_at(&self, now: u64) -> (r: bool)
        ensures
            r == (self.authenticated && now < self.expires_at),
    {
        self.authenticated && now < self.expires_at
    }

    /// Expired at `now`.
    pub fn is_expired_at(&self, now: u64) -> (r: bool)
        ensures
            r == (now >= self.expires_at),
    {
        now >= self.expires_at
    }

    /// Authenticated and not yet expired now (the clock read as zero if it
    /// is before the epoch).
    pub fn is_valid(&self) -> (r: bool)
        ensures
            r ==> self.authenticated && self.expires_at > 0,
    {
        self.is_valid_at(now_or_zero())
    }

    /// Expired now (the clock read as zero if it is before the epoch); a
    /// session that expires at time zero is expired whatever the clock reads.
    pub fn is_expired(&self) -> (r: bool)
        ensures
            self.expires_at == 0 ==> r,
    {
        self.is_expired_at(now_or_zero())
    }
}

/// The text a session confirmation signs:
/// `hex(session id):hex(client key):expires_at`.
pub open spec fn confirm_text(session_id: Seq<u8>, client_key: Seq<u8>, expires_at: u64) -> Seq<char> {
    hex_text(session_id) + ":"@ + hex_text(client_key) + ":"@ + decimal(expires_at as nat)
}

fn confirm_data(session_id: &[u8; 16], client_key: &[u8; 32], expires_at: u64) -> (r: String)
    ensures
        r@ == confirm_text(session_id@, client_key@, expires_at),
{
    let mut s = hex_encode(session_id.as_slice());
    s.append(":");
    s.append(hex_encode(client_key.as_slice()).as_str());
    s.append(":");
    push_decimal(&mut s, expires_at);
    s
}

/// Why a client's response is refused at time `now` by a server holding
/// `server_key`, if it is.
pub open spec fn auth_problem(
    challenge: Seq<u8>,
    client_key: Seq<u8>,
    signature: Seq<u8>,
    timestamp: u64,
    now: u64,
    server_key: Seq<u8>,
) -> Option<Seq<char>> {
    if timestamp > now + 5 {
        Some(
            "Authentication response timestamp too far in the future (response="@ + decimal(
                timestamp as nat,
            ) + ", now="@ + decimal(now as nat) + ")"@,
        )
    } else if now - timestamp > 300 {
        Some(
            "Authentication response timestamp too old (response="@ + decimal(timestamp as nat)
                + ", now="@ + decimal(now as nat) + ")"@,
        )
    } else if !ed25519_key_decodes(client_key) {
        Some("Invalid client public key: "@ + ed25519_key_error_of(client_key))
    } else if !ed25519_accepts(client_key, challenge, signature) {
        Some(
            "Client challenge signature verification failed: "@ + ed25519_verify_error_of(
                client_key,
                challenge,
                signature,
            ),
        )
    } else if session_key_of(server_key, client_key, challenge) is None {
        Some("ECDH produced zero shared secret"@)
    } else {
        None
    }
}

/// Active sessions, the server's signing key and its certificate.
pub struct SessionManager {
    sessions: Vec<SessionInfo>,
    server_signing_key: [u8; 32],
    server_certificate: ServerCertificate,
}

/// The sessions unexpired at `now`, in order.
pub open spec fn live_sessions(s: Seq<SessionInfo>, now: u64) -> Seq<SessionInfo> {
    s.filter(|x: SessionInfo| now < x.expires_at)
}

/// Session identifiers are unique.
pub open spec fn unique_ids(s: Seq<SessionInfo>) -> bool {
    forall|i: int, j: int|
        0 <= i < j < s.len() ==> (#[trigger] s[i]).session_id@ != (#[trigger] s[j]).session_id@
}

/// The position of the session with identifier `id`, if any.
pub open spec fn position_of(s: Seq<SessionInfo>, id: Seq<u8>) -> Option<int> {
    if exists|i: int| 0 <= i < s.len() && (#[trigger] s[i]).session_id@ == id {
        Some(choose|i: int| 0 <= i < s.len() && (#[trigger] s[i]).session_id@ == id)
    } else {
        None
    }
}

impl SessionManager {
    /// The sessions, in the order they were added.
    pub closed spec fn sessions(&self) -> Seq<SessionInfo> {
        self.sessions@
    }

    /// The server's signing key.
    pub closed spec fn signing_key(&self) -> Seq<u8> {
        self.server_signing_key@
    }

    /// The server's certificate.
    pub closed spec fn certificate(&self) -> ServerCertificate {
        self.server_certificate
    }

    /// No two sessions share an identifier.
    pub open spec fn well_formed(&self) -> bool {
        unique_ids(self.sessions())
    }

    /// A manager with a fresh random signing key and a self-signed
    /// certificate valid for a year.
    pub fn new(server_identity: String) -> (r: Result<SessionManager, String>)
        ensures
            r matches Ok(m) ==> m.well_formed() && m.sessions().len() == 0 && m.signing_key().len() == 32
                && self_signed_by(m.certificate(), server_identity@, m.signing_key(), 365),
    {
        let key: [u8; 32] = random_bytes::<32>();
        SessionManager::with_signing_key(server_identity, key)
    }

    /// A manager with the given signing key and a self-signed certificate
    /// valid for a year.
    pub fn with_signing_key(server_identity: String, signing_key: [u8; 32]) -> (r: Result<
        SessionManager,
        String,
    >)
        ensures
            r matches Ok(m) ==> m.well_formed() && m.sessions().len() == 0 && m.signing_key()
                == signing_key@ && self_signed_by(m.certificate(), server_identity@, signing_key@, 365),
    {
        let cert = match ServerCertificate::new_self_signed(server_identity, &signing_key, 365) {
            Ok(c) => c,
            Err(e) => {
                return Err(e);
            },
        };
        Ok(SessionManager { sessions: Vec::new(), server_signing_key: signing_key, server_certificate: cert })
    }

    /// The server's certificate.
    pub fn server_certificate(&self) -> (r: &ServerCertificate)
        ensures
            *r == self.certificate(),
    {
        &self.server_certificate
    }

    /// A fresh random challenge stamped with the current time.
    pub fn create_challenge(&self) -> (r: Result<AuthChallenge, String>)
        ensures
            r matches Ok(c) ==> {
                &&& c.server_cert.identity@ == self.certificate().identity@
                &&& c.server_cert.public_key == self.certificate().public_key
                &&& c.server_cert.valid_from == self.certificate().valid_from
                &&& c.server_cert.valid_until == self.certificate().valid_until
                &&& c.server_cert.signature == self.certificate().signature
            },
    {
        let challenge: [u8; 32] = random_bytes::<32>();
        let timestamp = match unix_time_secs() {
            Ok(t) => t,
            Err(e) => {
                return Err(e);
            },
        };
        Ok(
            AuthChallenge {
                challenge,
                server_cert: ServerCertificate {
                    identity: self.server_certificate.identity.clone(),
                    public_key: self.server_certificate.public_key,
                    valid_from: self.server_certificate.valid_from,
                    valid_until: self.server_certificate.valid_until,
                    signature: self.server_certificate.signature,
                },
                timestamp,
            },
        )
    }

    fn store(&mut self, session: SessionInfo)
        requires
            old(self).well_formed(),
        ensures
            final(self).well_formed(),
            final(self).signing_key() == old(self).signing_key(),
            final(self).certificate() == old(self).certificate(),
            match position_of(old(self).sessions(), session.session_id@) {
                Some(i) => final(self).sessions() == old(self).sessions().update(i, session),
                None => final(self).sessions() == old(self).sessions().push(session),
            },
    {
        let ghost old_s = self.sessions@;
        let n = self.sessions.len();
        let mut i: usize = 0;
        while i < n
            invariant
                i <= n,
                n == self.sessions@.len(),
                self.sessions@ == old_s,
                old_s == old(self).sessions@,
                unique_ids(old_s),
                self.server_signing_key == old(self).server_signing_key,
                self.server_certificate == old(self).server_certificate,
                forall|j: int| 0 <= j < i ==> (#[trigger] old_s[j]).session_id@ != session.session_id@,
            decreases n - i,
        {
            if crate::text::bytes_equal(self.sessions[i].session_id.as_slice(), session.session_id.as_slice()) {
                proof {
                    let p = choose|k: int| 0 <= k < old_s.len() && (#[trigger] old_s[k]).session_id@
                        == session.session_id@;
                    assert(old_s[i as int].session_id@ == session.session_id@);
                    if p < i {
                        assert(old_s[p].session_id@ != old_s[i as int].session_id@);
                    } else if p > i {
                        assert(old_s[i as int].session_id@ != old_s[p].session_id@);
                    }
                    assert(p == i);
                    assert(position_of(old_s, session.session_id@) == Some(i as int));
                }
                self.sessions.set(i, session);
                proof {
                    assert forall|a: int, b: int| 0 <= a < b < self.sessions@.len() implies (#[trigger] self.sessions@[a]).session_id@
                        != (#[trigger] self.sessions@[b]).session_id@ by {
                        if a == i {
                            assert(old_s[i as int].session_id@ != old_s[b].session_id@);
                        } else if b == i {
                            assert(old_s[a].session_id@ != old_s[i as int].session_id@);
                        } else {
                            assert(old_s[a].session_id@ != old_s[b].session_id@);
                        }
                    }
                }
                return;
            }
            i = i + 1;
        }
        self.sessions.push(session);
        proof {
            assert forall|a: int, b: int| 0 <= a < b < self.sessions@.len() implies (#[trigger] self.sessions@[a]).session_id@
                != (#[trigger] self.sessions@[b]).session_id@ by {
                if b == n {
                    assert(old_s[a].session_id@ != session.session_id@);
                } else {
                    assert(old_s[a].session_id@ != old_s[b].session_id@);
                }
            }
        }
    }

    /// Authenticates a client's response to a challenge at time `now` and
    /// stores the new session under `session_id`; see [`auth_problem`].
    pub fn authenticate_client_at(
        &mut self,
        challenge: &AuthChallenge,
        response: &ClientAuthResponse,
        now: u64,
        session_id: [u8; 16],
    ) -> (r: Result<SessionInfo, String>)
        requires
            old(self).well_formed(),
            now <= u64::MAX - 1800,
        ensures
            final(self).well_formed(),
            final(self).signing_key() == old(self).signing_key(),
            final(self).certificate() == old(self).certificate(),
            match auth_problem(
                challenge.challenge@,
                response.client_public_key@,
                response.challenge_signature@,
                response.timestamp,
                now,
                old(self).signing_key(),
            ) {
                Some(m) => r matches Err(e) && e@ == m && final(self).sessions() == old(self).sessions(),
                None => r matches Ok(s) && {
                    &&& s.session_id == session_id
                    &&& s.client_public_key == response.client_public_key
                    &&& crate::primitives::opt_text(s.client_identity) == crate::primitives::opt_text(
                        response.client_identity,
                    )
                    &&& s.created_at == now
                    &&& s.expires_at == now + 1800
                    &&& s.authenticated
                    &&& session_key_of(
                        old(self).signing_key(),
                        response.client_public_key@,
                        challenge.challenge@,
                    ) == Some(s.session_key@)
                    &&& x25519_agrees(
                        old(self).signing_key(),
                        response.client_public_key@,
                        x25519_shared_of(old(self).signing_key(), response.client_public_key@),
                    )
                    &&& match position_of(old(self).sessions(), session_id@) {
                        Some(i) => final(self).sessions().len() == old(self).sessions().len()
                            && same_session(final(self).sessions()[i], s) && forall|j: int|
                            0 <= j < old(self).sessions().len() && j != i ==> #[trigger] final(self).sessions()[j] == old(self).sessions()[j],
                        None => final(self).sessions().len() == old(self).sessions().len() + 1
                            && same_session(final(self).sessions().last(), s) && forall|j: int|
                            0 <= j < old(self).sessions().len() ==> #[trigger] final(self).sessions()[j] == old(self).sessions()[j],
                    }
                },
            },
    {
        let ts = response.timestamp;
        if ts > now && ts - now > 5 {
            let mut m = String::from_str("Authentication response timestamp too far in the future (response=");
            push_decimal(&mut m, ts);
            m.append(", now=");
            push_decimal(&mut m, now);
            m.append(")");
            return Err(m);
        }
        let behind: u64 = if now > ts {
            now - ts
        } else {
            0
        };
        if behind > 300 {
            let mut m = String::from_str("Authentication response timestamp too old (response=");
            push_decimal(&mut m, ts);
            m.append(", now=");
            push_decimal(&mut m, now);
            m.append(")");
            return Err(m);
        }
        match ed25519_key_check(&response.client_public_key) {
            Ok(()) => {},
            Err(e) => {
                return Err(concat_str("Invalid client public key: ", e.as_str()));
            },
        }
        match ed25519_verify_checked(
            &response.client_public_key,
            challenge.challenge.as_slice(),
            &response.challenge_signature,
        ) {
            Ok(()) => {},
            Err(e) => {
                return Err(concat_str("Client challenge signature verification failed: ", e.as_str()));
            },
        }
        let session_key = match derive_session_key(
            &self.server_signing_key,
            &response.client_public_key,
            &challenge.challenge,
        ) {
            Ok(k) => k,
            Err(m) => {
                return Err(m);
            },
        };
        let session = SessionInfo {
            session_id,
            client_public_key: response.client_public_key,
            client_identity: clone_identity(&response.client_identity),
            created_at: now,
            expires_at: now + 1800,
            authenticated: true,
            session_key,
        };
        let stored = session.duplicate();
        self.store(stored);
        Ok(session)
    }

    /// Authenticates a client's response at the current time under a fresh
    /// random session identifier; see [`SessionManager::authenticate_client_at`].
    pub fn authenticate_client(&mut self, challenge: &AuthChallenge, response: &ClientAuthResponse) -> (r:
        Result<SessionInfo, String>)
        requires
            old(self).well_formed(),
        ensures
            final(self).well_formed(),
            final(self).signing_key() == old(self).signing_key(),
            final(self).certificate() == old(self).certificate(),
            r matches Ok(s) ==> auth_problem(
                challenge.challenge@,
                response.client_public_key@,
                response.challenge_signature@,
                response.timestamp,
                s.created_at,
                old(self).signing_key(),
            ) is None && s.expires_at == s.created_at + 1800 && s.authenticated
                && s.client_public_key == response.client_public_key && session_key_of(
                old(self).signing_key(),
                response.client_public_key@,
                challenge.challenge@,
            ) == Some(s.session_key@) && x25519_agrees(
                old(self).signing_key(),
                response.client_public_key@,
                x25519_shared_of(old(self).signing_key(), response.client_public_key@),
            ) && crate::primitives::opt_text(s.client_identity) == crate::primitives::opt_text(
                response.client_identity,
            ) && match position_of(old(self).sessions(), s.session_id@) {
                Some(i) => final(self).sessions().len() == old(self).sessions().len() && same_session(
                    final(self).sessions()[i],
                    s,
                ) && forall|j: int|
                    0 <= j < old(self).sessions().len() && j != i ==> #[trigger] final(self).sessions()[j]
                        == old(self).sessions()[j],
                None => final(self).sessions().len() == old(self).sessions().len() + 1 && same_session(
                    final(self).sessions().last(),
                    s,
                ) && forall|j: int|
                    0 <= j < old(self).sessions().len() ==> #[trigger] final(self).sessions()[j]
                        == old(self).sessions()[j],
            },
            r is Err ==> final(self).sessions() == old(self).sessions(),
    {
        let now = match unix_time_secs() {
            Ok(t) => t,
            Err(e) => {
                return Err(e);
            },
        };
        if now > u64::MAX - 1800 {
            return Err(String::from_str("Current time out of range"));
        }
        let session_id: [u8; 16] = random_bytes::<16>();
        self.authenticate_client_at(challenge, response, now, session_id)
    }

    /// Signs a session's details for its client:
    /// see [`confirm_text`].
    pub fn create_auth_confirm(&self, session: &SessionInfo) -> (r: Result<ServerAuthConfirm, String>)
        ensures
            r matches Ok(c) && c.session_id == session.session_id && c.session_expires_at
                == session.expires_at && c.session_signature@ == ed25519_signature_of(
                self.signing_key(),
                encode_utf8(confirm_text(session.session_id@, session.client_public_key@, session.expires_at)),
            ) && ed25519_accepts(
                ed25519_public_of(self.signing_key()),
                encode_utf8(confirm_text(session.session_id@, session.client_public_key@, session.expires_at)),
                c.session_signature@,
            ),
    {
        let data = confirm_data(&session.session_id, &session.client_public_key, session.expires_at);
        let sig = ed25519_sign(&self.server_signing_key, data.as_str().as_bytes());
        Ok(
            ServerAuthConfirm {
                session_id: session.session_id,
                session_expires_at: session.expires_at,
                session_signature: sig,
            },
        )
    }

    /// Removes the sessions expired at `now`, keeping the others in order.
    pub fn cleanup_expired_sessions_at(&mut self, now: u64)
        requires
            old(self).well_formed(),
        ensures
            final(self).well_formed(),
            final(self).signing_key() == old(self).signing_key(),
            final(self).certificate() == old(self).certificate(),
            final(self).sessions() == live_sessions(old(self).sessions(), now),
    {
        let ghost old_s = self.sessions@;
        let ghost n = old_s.len();
        let ghost pred = |s: SessionInfo| now < s.expires_at;
        let ghost mut i: int = 0;
        let mut j: usize = 0;
        while j < self.sessions.len()
            invariant
                0 <= i <= n,
                n == old_s.len(),
                j <= self.sessions@.len(),
                self.sessions@.len() - j == n - i,
                self.sessions@ == old_s.subrange(0, i).filter(pred) + old_s.subrange(i, n as int),
                j == old_s.subrange(0, i).filter(pred).len(),
                unique_ids(self.sessions@),
                self.server_signing_key == old(self).server_signing_key,
                self.server_certificate == old(self).server_certificate,
                old_s == old(self).sessions@,
                pred == (|s: SessionInfo| now < s.expires_at),
            decreases self.sessions@.len() - j,
        {
            let ghost kept = old_s.subrange(0, i).filter(pred);
            proof {
                assert(old_s.subrange(0, i + 1) =~= old_s.subrange(0, i).push(old_s[i]));
                old_s.subrange(0, i).lemma_filter_push(old_s[i], pred);
                assert(old_s.subrange(i, n as int) =~= seq![old_s[i]] + old_s.subrange(i + 1, n as int));
                assert(self.sessions@[j as int] == old_s[i]);
            }
            if now < self.sessions[j].expires_at {
                proof {
                    assert(pred(old_s[i]));
                    assert(old_s.subrange(0, i + 1).filter(pred) == kept.push(old_s[i]));
                    assert(self.sessions@ =~= kept.push(old_s[i]) + old_s.subrange(i + 1, n as int));
                }
                j = j + 1;
            } else {
                let ghost before = self.sessions@;
                let _gone = self.sessions.remove(j);
                proof {
                    assert(!pred(old_s[i]));
                    assert(old_s.subrange(0, i + 1).filter(pred) == kept);
                    assert(self.sessions@ =~= kept + old_s.subrange(i + 1, n as int));
                    assert forall|a: int, b: int| 0 <= a < b < self.sessions@.len() implies (#[trigger] self.sessions@[a]).session_id
                        != (#[trigger] self.sessions@[b]).session_id by {
                        let a0 = if a < j { a } else { a + 1 };
                        let b0 = if b < j { b } else { b + 1 };
                        assert(self.sessions@[a] == before[a0]);
                        assert(self.sessions@[b] == before[b0]);
                        assert(before[a0].session_id@ != before[b0].session_id@);
                    }
                }
            }
            proof {
                i = i + 1;
            }
        }
        proof {
            assert(old_s.subrange(i, n as int) =~= Seq::<SessionInfo>::empty());
            assert(old_s.subrange(0, n as int) =~= old_s);
            assert(self.sessions@ =~= old_s.filter(pred));
        }
    }
    /// The index of the session with identifier `id`, if any.
    fn find_session(&self, id: &[u8; 16]) -> (r: Option<usize>)
        requires
            self.well_formed(),
        ensures
            match r {
                Some(k) => k < self.sessions().len() && position_of(self.sessions(), id@) == Some(k as int)
                    && self.sessions()[k as int].session_id@ == id@,
                None => position_of(self.sessions(), id@) is None,
            },
    {
        let n = self.sessions.len();
        let mut i: usize = 0;
        while i < n
            invariant
                i <= n,
                n == self.sessions@.len(),
                self.well_formed(),
                forall|j: int| 0 <= j < i ==> (#[trigger] self.sessions@[j]).session_id@ != id@,
            decreases n - i,
        {
            if crate::text::bytes_equal(self.sessions[i].session_id.as_slice(), id.as_slice()) {
                proof {
                    let s = self.sessions@;
                    let p = choose|k: int| 0 <= k < s.len() && (#[trigger] s[k]).session_id@ == id@;
                    assert(s[i as int].session_id@ == id@);
                    if p < i {
                        assert(s[p].session_id@ != s[i as int].session_id@);
                    } else if p > i {
                        assert(s[i as int].session_id@ != s[p].session_id@);
                    }
                }
                return Some(i);
            }
            i = i + 1;
        }
        None
    }

    /// Removes the sessions expired at `now`, then returns the session with
    /// identifier `session_id` if it is authenticated and unexpired.
    pub fn validate_session_at(&mut self, session_id: &[u8; 16], now: u64) -> (r: Result<&SessionInfo, String>)
        requires
            old(self).well_formed(),
        ensures
            final(self).well_formed(),
            final(self).signing_key() == old(self).signing_key(),
            final(self).certificate() == old(self).certificate(),
            final(self).sessions() == live_sessions(old(self).sessions(), now),
            match position_of(final(self).sessions(), session_id@) {
                None => r matches Err(e) && e@ == "Session not found"@,
                Some(i) => {
                    let s = final(self).sessions()[i];
                    if s.authenticated && now < s.expires_at {
                        r matches Ok(v) && *v == s
                    } else {
                        r matches Err(e) && e@ == "Session expired or invalid"@
                    }
                },
            },
    {
        self.cleanup_expired_sessions_at(now);
        match self.find_session(session_id) {
            None => Err(String::from_str("Session not found")),
            Some(i) => {
                let session = &self.sessions[i];
                if !session.is_valid_at(now) {
                    return Err(String::from_str("Session expired or invalid"));
                }
                Ok(session)
            },
        }
    }

    /// Removes the sessions expired now, then returns the session with
    /// identifier `session_id` if it is authenticated and unexpired.
    pub fn validate_session(&mut self, session_id: &[u8; 16]) -> (r: Result<&SessionInfo, String>)
        requires
            old(self).well_formed(),
        ensures
            final(self).well_formed(),
            final(self).signing_key() == old(self).signing_key(),
            final(self).certificate() == old(self).certificate(),
            r matches Ok(v) ==> v.session_id@ == session_id@ && v.authenticated,
            exists|now: u64|
                #![trigger live_sessions(old(self).sessions(), now)]
                final(self).sessions() == live_sessions(old(self).sessions(), now) && match position_of(
                    final(self).sessions(),
                    session_id@,
                ) {
                    None => r matches Err(e) && e@ == "Session not found"@,
                    Some(i) => {
                        let s = final(self).sessions()[i];
                        if s.authenticated && now < s.expires_at {
                            r matches Ok(v) && *v == s
                        } else {
                            r matches Err(e) && e@ == "Session expired or invalid"@
                        }
                    },
                },
    {
        let now = now_or_zero();
        self.validate_session_at(session_id, now)
    }

    /// Removes the session with identifier `session_id`, if there is one.
    pub fn remove_session(&mut self, session_id: &[u8; 16])
        requires
            old(self).well_formed(),
        ensures
            final(self).well_formed(),
            final(self).signing_key() == old(self).signing_key(),
            final(self).certificate() == old(self).certificate(),
            match position_of(old(self).sessions(), session_id@) {
                Some(i) => final(self).sessions() == old(self).sessions().remove(i),
                None => final(self).sessions() == old(self).sessions(),
            },
    {
        match self.find_session(session_id) {
            None => {},
            Some(i) => {
                let ghost before = self.sessions@;
                let _gone = self.sessions.remove(i);
                proof {
                    assert forall|a: int, b: int| 0 <= a < b < self.sessions@.len() implies (#[trigger] self.sessions@[a]).session_id@
                        != (#[trigger] self.sessions@[b]).session_id@ by {
                        let a0 = if a < i { a } else { a + 1 };
                        let b0 = if b < i { b } else { b + 1 };
                        assert(self.sessions@[a] == before[a0]);
                        assert(self.sessions@[b] == before[b0]);
                        assert(before[a0].session_id@ != before[b0].session_id@);
                    }
                }
            },
        }
    }

    /// Removes the sessions expired now (the clock read as zero if it is
    /// before the epoch), keeping the others in order.
    pub fn cleanup_expired_sessions(&mut self)
        requires
            old(self).well_formed(),
        ensures
            final(self).well_formed(),
            final(self).signing_key() == old(self).signing_key(),
            final(self).certificate() == old(self).certificate(),
            exists|now: u64| final(self).sessions() == #[trigger] live_sessions(old(self).sessions(), now),
    {
        let now = now_or_zero();
        self.cleanup_expired_sessions_at(now);
    }

    /// The number of sessions held.
    pub fn active_session_count(&self) -> (r: usize)
        ensures
            r == self.sessions().len(),
    {
        self.sessions.len()
    }
}

/// Largest authentication frame accepted, in bytes.
pub const MAX_AUTH_MESSAGE_SIZE: u32 = 8192;

impl AuthMessageType {
    /// The name of the message kind.
    pub open spec fn spec_name(self) -> Seq<char> {
        match self {
            AuthMessageType::ClientHello => "ClientHello"@,
            AuthMessageType::ServerChallenge => "ServerChallenge"@,
            AuthMessageType::ClientAuth => "ClientAuth"@,
            AuthMessageType::ServerConfirm => "ServerConfirm"@,
            AuthMessageType::AuthError => "AuthError"@,
        }
    }

    fn name(self) -> (r: &'static str)
        ensures
            r@ == self.spec_name(),
    {
        match self {
            AuthMessageType::ClientHello => "ClientHello",
            AuthMessageType::ServerChallenge => "ServerChallenge",
            AuthMessageType::ClientAuth => "ClientAuth",
            AuthMessageType::ServerConfirm => "ServerConfirm",
            AuthMessageType::AuthError => "AuthError",
        }
    }
}

/// Checks that a received message has the kind the handshake expects next.
pub fn expect_message(received: AuthMessageType, expected: AuthMessageType) -> (r: Result<(), String>)
    ensures
        match r {
            Ok(()) => received == expected,
            Err(e) => received != expected && e@ == "Expected "@ + expected.spec_name() + " message"@,
        },
{
    if received == expected {
        Ok(())
    } else {
        let mut m = String::from_str("Expected ");
        m.append(expected.name());
        m.append(" message");
        Err(m)
    }
}

/// Checks the announced length of a handshake frame; `what` names the
/// message in the error.
pub fn check_auth_frame_len(len: u32, what: &str) -> (r: Result<usize, String>)
    ensures
        match r {
            Ok(n) => len <= 8192 && n == len,
            Err(e) => len > 8192 && e@ == what@ + " message too large"@,
        },
{
    if len > MAX_AUTH_MESSAGE_SIZE {
        let mut m = String::from_str(what);
        m.append(" message too large");
        return Err(m);
    }
    Ok(len as usize)
}

/// What the server answers a client's authentication response with.
#[derive(Debug)]
pub enum ServerReply {
    /// The session was created: its signed confirmation.
    Confirm(ServerAuthConfirm),
    /// The response was refused, for the reason given.
    Failure(String),
    /// A message of another kind.
    Unexpected,
}

impl SessionManager {
    /// The server's step after a client's response: authenticate it and
    /// answer with the signed confirmation of the new session, or with the
    /// reason for the refusal.
    pub fn answer_client(&mut self, challenge: &AuthChallenge, response: &ClientAuthResponse) -> (r: (
        ServerReply,
        Result<SessionInfo, String>,
    ))
        requires
            old(self).well_formed(),
        ensures
            final(self).well_formed(),
            final(self).signing_key() == old(self).signing_key(),
            match r.1 {
                Ok(s) => r.0 matches ServerReply::Confirm(c) && c.session_id == s.session_id
                    && c.session_expires_at == s.expires_at && c.session_signature@
                    == ed25519_signature_of(
                    old(self).signing_key(),
                    encode_utf8(confirm_text(s.session_id@, s.client_public_key@, s.expires_at)),
                ) && ed25519_accepts(
                    ed25519_public_of(old(self).signing_key()),
                    encode_utf8(confirm_text(s.session_id@, s.client_public_key@, s.expires_at)),
                    c.session_signature@,
                ) && s.client_public_key == response.client_public_key && session_key_of(
                    old(self).signing_key(),
                    response.client_public_key@,
                    challenge.challenge@,
                ) == Some(s.session_key@) && x25519_agrees(
                    old(self).signing_key(),
                    response.client_public_key@,
                    x25519_shared_of(old(self).signing_key(), response.client_public_key@),
                ),
                Err(e) => r.0 matches ServerReply::Failure(m) && m@ == e@,
            },
    {
        match self.authenticate_client(challenge, response) {
            Ok(session) => {
                let confirm = match self.create_auth_confirm(&session) {
                    Ok(c) => c,
                    Err(e) => {
                        return (ServerReply::Failure(e.clone()), Err(e));
                    },
                };
                (ServerReply::Confirm(confirm), Ok(session))
            },
            Err(e) => (ServerReply::Failure(e.clone()), Err(e)),
        }
    }
}

/// The client's answer to a challenge at time `now`: the server certificate
/// must verify at `now` and carry the pinned key; the client then signs the
/// challenge.
pub fn answer_challenge_at(
    challenge: &AuthChallenge,
    client_signing_key: &[u8; 32],
    client_identity: Option<String>,
    server_pubkey: &[u8; 32],
    now: u64,
) -> (r: Result<ClientAuthResponse, String>)
    ensures
        cert_problem(challenge.server_cert, now) is Some ==> (r matches Err(e) && e@
            == "Server certificate verification failed"@),
        cert_problem(challenge.server_cert, now) is None && challenge.server_cert.public_key@ != server_pubkey@
            ==> (r matches Err(e) && e@ == "Server public key pinning failed"@),
        cert_problem(challenge.server_cert, now) is None && challenge.server_cert.public_key@ == server_pubkey@
            ==> (r matches Ok(resp) && resp.client_public_key@ == ed25519_public_of(client_signing_key@)
            && resp.challenge_signature@ == ed25519_signature_of(client_signing_key@, challenge.challenge@)
            && ed25519_accepts(resp.client_public_key@, challenge.challenge@, resp.challenge_signature@)
            && crate::primitives::opt_text(resp.client_identity) == crate::primitives::opt_text(client_identity)
            && resp.timestamp == now),
{
    match challenge.server_cert.verify_at(now) {
        Ok(()) => {},
        Err(_) => {
            return Err(String::from_str("Server certificate verification failed"));
        },
    }
    match challenge.server_cert.verify_pinned(server_pubkey) {
        Ok(()) => {},
        Err(_) => {
            return Err(String::from_str("Server public key pinning failed"));
        },
    }
    let challenge_signature = ed25519_sign(client_signing_key, challenge.challenge.as_slice());
    Ok(
        ClientAuthResponse {
            client_public_key: ed25519_public_key(client_signing_key),
            challenge_signature,
            client_identity,
            timestamp: now,
        },
    )
}

/// The client's answer to a challenge at the current time; see
/// [`answer_challenge_at`].
pub fn answer_challenge(
    challenge: &AuthChallenge,
    client_signing_key: &[u8; 32],
    client_identity: Option<String>,
    server_pubkey: &[u8; 32],
) -> (r: Result<ClientAuthResponse, String>)
    ensures
        r is Ok ==> challenge.server_cert.public_key@ == server_pubkey@,
        r matches Ok(resp) ==> resp.client_public_key@ == ed25519_public_of(client_signing_key@)
            && resp.challenge_signature@ == ed25519_signature_of(client_signing_key@, challenge.challenge@)
            && ed25519_accepts(resp.client_public_key@, challenge.challenge@, resp.challenge_signature@)
            && crate::primitives::opt_text(resp.client_identity) == crate::primitives::opt_text(client_identity)
            && cert_problem(challenge.server_cert, resp.timestamp) is None,
{
    let now = match unix_time_secs() {
        Ok(t) => t,
        Err(e) => {
            return Err(e);
        },
    };
    answer_challenge_at(challenge, client_signing_key, client_identity, server_pubkey, now)
}

/// What a client concludes from the server's reply: the session it was
/// granted, once the server's signature on it verifies under the
/// certificate's key.
pub open spec fn finish_outcome(
    challenge: AuthChallenge,
    client_key: Seq<u8>,
    reply: ServerReply,
) -> Result<(Seq<u8>, Seq<u8>), Seq<char>> {
    match reply {
        ServerReply::Confirm(c) => {
            let server_key = challenge.server_cert.public_key@;
            let data = encode_utf8(confirm_text(c.session_id@, ed25519_public_of(client_key), c.session_expires_at));
            if !ed25519_key_decodes(server_key) {
                Err(ed25519_key_error_of(server_key))
            } else if !ed25519_accepts(server_key, data, c.session_signature@) {
                Err("Server session signature verification failed"@)
            } else {
                match session_key_of(client_key, server_key, challenge.challenge@) {
                    Some(k) => Ok((c.session_id@, k)),
                    None => Err("ECDH produced zero shared secret"@),
                }
            }
        },
        ServerReply::Failure(m) => Err("Authentication failed: "@ + m@),
        ServerReply::Unexpected => Err("Unexpected server response type"@),
    }
}

/// The client's last step: checks the server's reply and derives the
/// session key; see [`finish_outcome`].
pub fn finish_handshake(challenge: &AuthChallenge, client_signing_key: &[u8; 32], reply: ServerReply) -> (r: Result<
    ClientAuthResult,
    String,
>)
    ensures
        match finish_outcome(*challenge, client_signing_key@, reply) {
            Ok((id, key)) => r matches Ok(res) && res.session_id@ == id && res.session_key@ == key
                && res.server_certificate.public_key == challenge.server_cert.public_key
                && res.server_certificate.identity@ == challenge.server_cert.identity@,
            Err(m) => r matches Err(e) && e@ == m,
        },
{
    match reply {
        ServerReply::Confirm(c) => {
            let my_pub = ed25519_public_key(client_signing_key);
            let data = confirm_data(&c.session_id, &my_pub, c.session_expires_at);
            let server_key = &challenge.server_cert.public_key;
            match ed25519_key_check(server_key) {
                Ok(()) => {},
                Err(e) => {
                    return Err(e);
                },
            }
            match ed25519_verify_checked(server_key, data.as_str().as_bytes(), &c.session_signature) {
                Ok(()) => {},
                Err(_) => {
                    return Err(String::from_str("Server session signature verification failed"));
                },
            }
            let session_key = match derive_session_key(client_signing_key, server_key, &challenge.challenge) {
                Ok(k) => k,
                Err(e) => {
                    return Err(e);
                },
            };
            Ok(
                ClientAuthResult {
                    session_id: c.session_id,
                    server_certificate: ServerCertificate {
                        identity: challenge.server_cert.identity.clone(),
                        public_key: challenge.server_cert.public_key,
                        valid_from: challenge.server_cert.valid_from,
                        valid_until: challenge.server_cert.valid_until,
                        signature: challenge.server_cert.signature,
                    },
                    session_key,
                },
            )
        },
        ServerReply::Failure(m) => Err(concat_str("Authentication failed: ", m.as_str())),
        ServerReply::Unexpected => Err(String::from_str("Unexpected server response type")),
    }
}

/// A client that answered the challenge of a server whose certificate
/// carries the server's key accepts the server's confirmation of the
/// session, and ends with the session's identifier and key.
pub proof fn law_handshake_agrees(
    challenge: AuthChallenge,
    client_key: Seq<u8>,
    server_key: Seq<u8>,
    confirm: ServerAuthConfirm,
    session: SessionInfo,
)
    requires
        client_key.len() == 32,
        server_key.len() == 32,
        ed25519_public_of(client_key).len() == 32,
        ed25519_public_of(server_key).len() == 32,
        ed25519_key_decodes(ed25519_public_of(server_key)),
        challenge.server_cert.public_key@ == ed25519_public_of(server_key),
        session.client_public_key@ == ed25519_public_of(client_key),
        x25519_agrees(server_key, session.client_public_key@, x25519_shared_of(server_key, session.client_public_key@)),
        session_key_of(server_key, session.client_public_key@, challenge.challenge@) == Some(session.session_key@),
        confirm.session_id == session.session_id,
        confirm.session_expires_at == session.expires_at,
        ed25519_accepts(
            ed25519_public_of(server_key),
            encode_utf8(confirm_text(session.session_id@, session.client_public_key@, session.expires_at)),
            confirm.session_signature@,
        ),
    ensures
        finish_outcome(challenge, client_key, ServerReply::Confirm(confirm)) == Ok::<(Seq<u8>, Seq<u8>), Seq<char>>(
            (session.session_id@, session.session_key@),
        ),
{
    law_session_key_agrees(server_key, client_key, challenge.challenge@);
}

} // verus!
