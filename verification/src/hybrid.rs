//! Hybrid encryption: a payload sealed with AES-256-GCM under a fresh
//! session key, the session key wrapped for the recipient's RSA key.
//!
//! Envelope layout: the magic `TRHY`, the version byte 1, the
//! length-prefixed recipient key id (UTF-8), the length-prefixed wrapped
//! session key, the length-prefixed ciphertext, the 12-byte nonce and the
//! AEAD algorithm byte (1, AES-256-GCM).  Lengths are 64-bit little-endian.

use crate::asymmetric::{
    asym_error_is, encrypt_key_asymmetric, decrypt_key_asymmetric, is_rsa, key_identifier,
    key_unwrap_outcome, key_wrap_fault, keys_match, law_wrapped_key_unwraps, AsymFault, PrivateKey,
    PublicKey,
};
use crate::codec::{
    framed, lemma_framed_len, lemma_take_framed, lemma_take_raw, push_all, put_framed, read_array,
    spec_take_framed, spec_take_raw, take_framed, take_raw,
};
use crate::error::{algorithm_name, asymmetric_error_text, AsymmetricError};
use crate::primitives::{
    aes256gcm_decrypt, aes256gcm_encrypt, aes256gcm_open_of, aes256gcm_seal_of, opens_for_pair, rsa_modulus_bytes,
    random_bytes, string_from_utf8,
};
use crate::text::{concat_str, decimal, str_with_decimal};
use vstd::prelude::*;
use vstd::utf8::{decode_utf8, encode_utf8, valid_utf8};

verus! {

/// Errors of hybrid encryption.
#[derive(Debug)]
pub enum HybridEncryptionError {
    EncryptionFailed(String),
    DecryptionFailed(String),
    InvalidEnvelope(String),
    AsymmetricError(AsymmetricError),
}

/// What went wrong, by the kind of [`HybridEncryptionError`] and its message.
pub enum HybridFault {
    Encryption(Seq<char>),
    Decryption(Seq<char>),
    Invalid(Seq<char>),
}

/// An error carries a fault: the same kind, the same message.
pub open spec fn hybrid_error_is(e: HybridEncryptionError, f: HybridFault) -> bool {
    match (e, f) {
        (HybridEncryptionError::EncryptionFailed(m), HybridFault::Encryption(n)) => m@ == n,
        (HybridEncryptionError::DecryptionFailed(m), HybridFault::Decryption(n)) => m@ == n,
        (HybridEncryptionError::InvalidEnvelope(m), HybridFault::Invalid(n)) => m@ == n,
        _ => false,
    }
}

/// Display text of an asymmetric fault.
pub open spec fn asym_fault_text(f: AsymFault) -> Seq<char> {
    match f {
        AsymFault::Unsupported(a) => "Unsupported algorithm: "@ + algorithm_name(a),
        AsymFault::KeyFormat(m) => "Invalid key format: "@ + m,
        AsymFault::KeyExchange(m) => "Key exchange failed: "@ + m,
        AsymFault::Backend(m) => "Backend error: "@ + m,
    }
}

/// A 32-byte symmetric key.
#[derive(Debug, Clone, PartialEq, Eq)]
pub struct SymmetricKey(pub [u8; 32]);

impl SymmetricKey {
    /// A fresh random key.
    pub fn generate() -> (r: SymmetricKey) {
        SymmetricKey(random_bytes::<32>())
    }

    pub fn from_bytes(bytes: [u8; 32]) -> (r: SymmetricKey)
        ensures
            r.0 == bytes,
    {
        SymmetricKey(bytes)
    }

    pub fn as_bytes(&self) -> (r: &[u8; 32])
        ensures
            r@ == self.0@,
    {
        &self.0
    }
}

/// A hybrid envelope's fields.
#[derive(Debug, Clone)]
pub struct HybridEnvelope {
    pub magic: [u8; 4],
    pub version: u8,
    pub recipient_key_id: String,
    pub encrypted_session_key: Vec<u8>,
    pub encrypted_payload: Vec<u8>,
    pub nonce: [u8; 12],
    pub algorithm: u8,
}

/// The magic `TRHY`.
pub open spec fn hybrid_magic() -> Seq<u8> {
    seq![84u8, 82u8, 72u8, 89u8]
}

/// The envelope version.
pub const HYBRID_VERSION: u8 = 1;

/// Envelope fields as values.
pub type EnvelopeView = (Seq<u8>, u8, Seq<char>, Seq<u8>, Seq<u8>, Seq<u8>, u8);

impl View for HybridEnvelope {
    type V = (Seq<u8>, u8, Seq<char>, Seq<u8>, Seq<u8>, Seq<u8>, u8);

    open spec fn view(&self) -> (Seq<u8>, u8, Seq<char>, Seq<u8>, Seq<u8>, Seq<u8>, u8) {
        (
            self.magic@,
            self.version,
            self.recipient_key_id@,
            self.encrypted_session_key@,
            self.encrypted_payload@,
            self.nonce@,
            self.algorithm,
        )
    }
}

/// The bytes of an envelope.
pub open spec fn envelope_record(e: EnvelopeView) -> Seq<u8> {
    e.0 + seq![e.1] + framed(encode_utf8(e.2)) + framed(e.3) + framed(e.4) + e.5 + seq![e.6]
}

/// The fields read back from the start of bytes, if they hold an envelope.
pub open spec fn envelope_fields(b: Seq<u8>) -> Option<EnvelopeView> {
    match spec_take_raw(b, 0, 4) {
        None => None,
        Some((magic, p1)) => match spec_take_raw(b, p1, 1) {
            None => None,
            Some((v, p2)) => match spec_take_framed(b, p2) {
                None => None,
                Some((idb, p3)) => if !valid_utf8(idb) {
                    None
                } else {
                    match spec_take_framed(b, p3) {
                        None => None,
                        Some((esk, p4)) => match spec_take_framed(b, p4) {
                            None => None,
                            Some((payload, p5)) => match spec_take_raw(b, p5, 12) {
                                None => None,
                                Some((nonce, p6)) => match spec_take_raw(b, p6, 1) {
                                    None => None,
                                    Some((alg, _p7)) => Some(
                                        (magic, v[0], decode_utf8(idb), esk, payload, nonce, alg[0]),
                                    ),
                                },
                            },
                        },
                    }
                },
            },
        },
    }
}

/// An envelope's bytes read back to its fields.
#[verifier::rlimit(40)]
pub proof fn law_envelope_roundtrip(e: EnvelopeView, rest: Seq<u8>)
    requires
        e.0.len() == 4,
        e.5.len() == 12,
        encode_utf8(e.2).len() <= u64::MAX,
        e.3.len() <= u64::MAX,
        e.4.len() <= u64::MAX,
    ensures
        envelope_fields(envelope_record(e) + rest) == Some(e),
{
    let x = Seq::<u8>::empty();
    let idb = encode_utf8(e.2);
    let v = seq![e.1];
    let fi = framed(idb);
    let fk = framed(e.3);
    let fp = framed(e.4);
    let al = seq![e.6];
    let all = envelope_record(e) + rest;
    lemma_framed_len(idb);
    lemma_framed_len(e.3);
    lemma_framed_len(e.4);
    let p1: int = 4;
    let p2: int = 5;
    let p3: int = p2 + fi.len();
    let p4: int = p3 + fk.len();
    let p5: int = p4 + fp.len();
    let p6: int = p5 + 12;
    assert(spec_take_raw(all, 0, 4) == Some((e.0, p1))) by {
        assert(all =~= x + e.0 + (v + fi + fk + fp + e.5 + al + rest));
        lemma_take_raw(x, e.0, v + fi + fk + fp + e.5 + al + rest);
    }
    assert(spec_take_raw(all, p1, 1) == Some((v, p2))) by {
        assert(all =~= e.0 + v + (fi + fk + fp + e.5 + al + rest));
        lemma_take_raw(e.0, v, fi + fk + fp + e.5 + al + rest);
    }
    assert(spec_take_framed(all, p2) == Some((idb, p3))) by {
        assert(all =~= (e.0 + v) + fi + (fk + fp + e.5 + al + rest));
        lemma_take_framed(e.0 + v, idb, fk + fp + e.5 + al + rest);
    }
    assert(spec_take_framed(all, p3) == Some((e.3, p4))) by {
        assert(all =~= (e.0 + v + fi) + fk + (fp + e.5 + al + rest));
        lemma_take_framed(e.0 + v + fi, e.3, fp + e.5 + al + rest);
    }
    assert(spec_take_framed(all, p4) == Some((e.4, p5))) by {
        assert(all =~= (e.0 + v + fi + fk) + fp + (e.5 + al + rest));
        lemma_take_framed(e.0 + v + fi + fk, e.4, e.5 + al + rest);
    }
    assert(spec_take_raw(all, p5, 12) == Some((e.5, p6))) by {
        assert(all =~= (e.0 + v + fi + fk + fp) + e.5 + (al + rest));
        lemma_take_raw(e.0 + v + fi + fk + fp, e.5, al + rest);
    }
    assert(spec_take_raw(all, p6, 1) == Some((al, p6 + 1))) by {
        assert(all =~= (e.0 + v + fi + fk + fp + e.5) + al + rest);
        lemma_take_raw(e.0 + v + fi + fk + fp + e.5, al, rest);
    }
    vstd::utf8::encode_utf8_valid_utf8(e.2);
    vstd::utf8::encode_utf8_decode_utf8(e.2);
}

fn hybrid_magic_bytes() -> (r: [u8; 4])
    ensures
        r@ == hybrid_magic(),
{
    let r = [84u8, 82u8, 72u8, 89u8];
    assert(r@ =~= hybrid_magic());
    r
}

fn encode_envelope(e: &HybridEnvelope) -> (r: Vec<u8>)
    ensures
        r@ == envelope_record(e@),
{
    let mut out: Vec<u8> = Vec::new();
    push_all(&mut out, e.magic.as_slice());
    out.push(e.version);
    put_framed(&mut out, e.recipient_key_id.as_str().as_bytes());
    put_framed(&mut out, e.encrypted_session_key.as_slice());
    put_framed(&mut out, e.encrypted_payload.as_slice());
    push_all(&mut out, e.nonce.as_slice());
    out.push(e.algorithm);
    assert(out@ =~= envelope_record(e@));
    out
}

/// The envelope for a recipient: the AES-256-GCM envelope of the current
/// version, laid out as [`sealed_envelope`].
fn assemble_envelope(
    recipient_key_id: &str,
    encrypted_session_key: &[u8],
    encrypted_payload: &[u8],
    nonce: &[u8; 12],
) -> (r: Vec<u8>)
    ensures
        r@ == sealed_envelope(recipient_key_id@, encrypted_session_key@, encrypted_payload@, nonce@),
{
    let mut wrapped: Vec<u8> = Vec::new();
    push_all(&mut wrapped, encrypted_session_key);
    let mut payload: Vec<u8> = Vec::new();
    push_all(&mut payload, encrypted_payload);
    let envelope = HybridEnvelope {
        magic: hybrid_magic_bytes(),
        version: HYBRID_VERSION,
        recipient_key_id: recipient_key_id.to_string(),
        encrypted_session_key: wrapped,
        encrypted_payload: payload,
        nonce: *nonce,
        algorithm: 1u8,
    };
    encode_envelope(&envelope)
}

pub(crate) fn decode_envelope(b: &[u8]) -> (r: Option<HybridEnvelope>)
    ensures
        match r {
            Some(e) => envelope_fields(b@) == Some(e@),
            None => envelope_fields(b@) is None,
        },
{
    let (magic_v, p1) = match take_raw(b, 0, 4) {
        Some(x) => x,
        None => return None,
    };
    let (v, p2) = match take_raw(b, p1, 1) {
        Some(x) => x,
        None => return None,
    };
    let (idb, p3) = match take_framed(b, p2) {
        Some(x) => x,
        None => return None,
    };
    let recipient_key_id = match string_from_utf8(idb) {
        Some(s) => s,
        None => return None,
    };
    let (encrypted_session_key, p4) = match take_framed(b, p3) {
        Some(x) => x,
        None => return None,
    };
    let (encrypted_payload, p5) = match take_framed(b, p4) {
        Some(x) => x,
        None => return None,
    };
    let (nonce_v, p6) = match take_raw(b, p5, 12) {
        Some(x) => x,
        None => return None,
    };
    let (alg, _p7) = match take_raw(b, p6, 1) {
        Some(x) => x,
        None => return None,
    };
    let magic: [u8; 4] = read_array::<4>(magic_v.as_slice(), 0);
    assert(magic_v@.subrange(0, 4) =~= magic_v@);
    let nonce: [u8; 12] = read_array::<12>(nonce_v.as_slice(), 0);
    assert(nonce_v@.subrange(0, 12) =~= nonce_v@);
    Some(
        HybridEnvelope {
            magic,
            version: v[0],
            recipient_key_id,
            encrypted_session_key,
            encrypted_payload,
            nonce,
            algorithm: alg[0],
        },
    )
}

/// What parsing an envelope gives: its fields, or the fault.
pub open spec fn envelope_parse_outcome(b: Seq<u8>) -> Result<EnvelopeView, HybridFault> {
    match envelope_fields(b) {
        None => Err(HybridFault::Invalid("Deserialization failed: malformed envelope"@)),
        Some(e) => if e.0 != hybrid_magic() {
            Err(HybridFault::Invalid("Invalid magic number"@))
        } else if e.1 != 1 {
            Err(HybridFault::Invalid("Unsupported version: "@ + decimal(e.1 as nat)))
        } else {
            Ok(e)
        },
    }
}

/// Parses and checks an envelope.
pub fn parse_envelope(envelope_bytes: &[u8]) -> (r: Result<HybridEnvelope, HybridEncryptionError>)
    ensures
        match envelope_parse_outcome(envelope_bytes@) {
            Ok(v) => r matches Ok(e) && e@ == v,
            Err(f) => r matches Err(e) && hybrid_error_is(e, f),
        },
{
    let envelope = match decode_envelope(envelope_bytes) {
        Some(e) => e,
        None => {
            return Err(
                HybridEncryptionError::InvalidEnvelope(
                    String::from_str("Deserialization failed: malformed envelope"),
                ),
            );
        },
    };
    let m = hybrid_magic_bytes();
    if !(envelope.magic[0] == m[0] && envelope.magic[1] == m[1] && envelope.magic[2] == m[2]
        && envelope.magic[3] == m[3]) {
        proof {
            if envelope.magic@ == hybrid_magic() {
                assert(envelope.magic@[0] == m@[0]);
            }
        }
        return Err(HybridEncryptionError::InvalidEnvelope(String::from_str("Invalid magic number")));
    }
    assert(envelope.magic@ =~= hybrid_magic());
    if envelope.version != HYBRID_VERSION {
        return Err(
            HybridEncryptionError::InvalidEnvelope(
                str_with_decimal("Unsupported version: ", envelope.version as u64),
            ),
        );
    }
    Ok(envelope)
}

/// A ciphertext and the nonce it was sealed with.
#[derive(Debug, Clone)]
pub struct EncryptedData {
    pub ciphertext: Vec<u8>,
    pub nonce: [u8; 12],
}

/// The most bytes AES-256-GCM seals at once.
pub open spec fn aes_gcm_limit() -> nat {
    0x10_0000_0000
}

/// Seals data with AES-256-GCM under a key and a fresh random nonce, with
/// no associated data.
pub fn encrypt_symmetric(data: &[u8], key: &SymmetricKey) -> (r: Result<EncryptedData, HybridEncryptionError>)
    ensures
        data@.len() > aes_gcm_limit() ==> (r matches Err(e) && hybrid_error_is(
            e,
            HybridFault::Encryption("AES-GCM encryption failed: aead::Error"@),
        )),
        data@.len() <= aes_gcm_limit() ==> (r matches Ok(enc) && enc.ciphertext@ == aes256gcm_seal_of(
            key.0@,
            enc.nonce@,
            Seq::empty(),
            data@,
        ) && enc.ciphertext@.len() == data@.len() + 16 && aes256gcm_open_of(
            key.0@,
            enc.nonce@,
            Seq::empty(),
            enc.ciphertext@,
        ) == Some(data@)),
{
    if data.len() as u64 > 0x10_0000_0000u64 {
        return Err(
            HybridEncryptionError::EncryptionFailed(
                String::from_str("AES-GCM encryption failed: aead::Error"),
            ),
        );
    }
    let nonce: [u8; 12] = random_bytes::<12>();
    let empty: Vec<u8> = Vec::new();
    let ciphertext = aes256gcm_encrypt(&key.0, &nonce, empty.as_slice(), data);
    Ok(EncryptedData { ciphertext, nonce })
}

/// Opens data sealed by [`encrypt_symmetric`].
pub fn decrypt_symmetric(encrypted: &EncryptedData, key: &SymmetricKey) -> (r: Result<
    Vec<u8>,
    HybridEncryptionError,
>)
    ensures
        match aes256gcm_open_of(key.0@, encrypted.nonce@, Seq::empty(), encrypted.ciphertext@) {
            Some(p) => r matches Ok(v) && v@ == p,
            None => r matches Err(e) && hybrid_error_is(
                e,
                HybridFault::Decryption("AES-GCM decryption failed: aead::Error"@),
            ),
        },
{
    let empty: Vec<u8> = Vec::new();
    match aes256gcm_decrypt(&key.0, &encrypted.nonce, empty.as_slice(), encrypted.ciphertext.as_slice()) {
        Some(p) => Ok(p),
        None => Err(
            HybridEncryptionError::DecryptionFailed(
                String::from_str("AES-GCM decryption failed: aead::Error"),
            ),
        ),
    }
}

/// What opening an envelope with a private key gives: the payload, or the
/// fault.
pub open spec fn open_outcome(b: Seq<u8>, alg: crate::backends::universal::AsymmetricAlgorithm, private_der: Seq<u8>) -> Result<
    Seq<u8>,
    HybridFault,
> {
    match envelope_parse_outcome(b) {
        Err(f) => Err(f),
        Ok(e) => match key_unwrap_outcome(alg, private_der, e.3) {
            Err(af) => Err(HybridFault::Decryption("Key decryption failed: "@ + asym_fault_text(af))),
            Ok(k) => match aes256gcm_open_of(k, e.5, Seq::empty(), e.4) {
                None => Err(HybridFault::Decryption("AES-GCM decryption failed: aead::Error"@)),
                Some(p) => Ok(p),
            },
        },
    }
}

proof fn lemma_asym_text(e: AsymmetricError, f: AsymFault)
    requires
        asym_error_is(e, f),
    ensures
        asymmetric_error_text(e) == asym_fault_text(f),
{
}

/// Opens an envelope with the recipient's private key.
pub fn open_envelope(envelope: &[u8], my_private_key: &PrivateKey) -> (r: Result<
    Vec<u8>,
    HybridEncryptionError,
>)
    ensures
        match open_outcome(envelope@, my_private_key.algorithm, my_private_key.key_bytes@) {
            Ok(p) => r matches Ok(v) && v@ == p,
            Err(f) => r matches Err(e) && hybrid_error_is(e, f),
        },
{
    let parsed = match parse_envelope(envelope) {
        Ok(p) => p,
        Err(e) => {
            return Err(e);
        },
    };
    let session_key_bytes = match decrypt_key_asymmetric(
        parsed.encrypted_session_key.as_slice(),
        my_private_key,
    ) {
        Ok(k) => k,
        Err(e) => {
            let text = e.message();
            proof {
                let out = key_unwrap_outcome(
                    my_private_key.algorithm,
                    my_private_key.key_bytes@,
                    parsed.encrypted_session_key@,
                );
                lemma_asym_text(e, out->Err_0);
            }
            return Err(HybridEncryptionError::DecryptionFailed(concat_str("Key decryption failed: ", text.as_str())));
        },
    };
    let session_key = SymmetricKey::from_bytes(session_key_bytes);
    let encrypted_data = EncryptedData { ciphertext: parsed.encrypted_payload, nonce: parsed.nonce };
    decrypt_symmetric(&encrypted_data, &session_key)
}

/// The bytes of a sealed envelope for a recipient key id, a wrapped session
/// key, a ciphertext and a nonce.
pub open spec fn sealed_envelope(id: Seq<char>, wrapped: Seq<u8>, ct: Seq<u8>, nonce: Seq<u8>) -> Seq<u8> {
    envelope_record((hybrid_magic(), 1u8, id, wrapped, ct, nonce, 1u8))
}

/// A 32-byte session key; wrapping depends on nothing else of it.
pub open spec fn session_key_shape() -> Seq<u8> {
    Seq::new(32, |i: int| 0u8)
}

/// A sealed envelope for the recipient key id `id`.
pub open spec fn addressed_to(env: Seq<u8>, id: Seq<char>) -> bool {
    exists|wrapped: Seq<u8>, ct: Seq<u8>, nonce: Seq<u8>|
        #![trigger sealed_envelope(id, wrapped, ct, nonce)]
        env == sealed_envelope(id, wrapped, ct, nonce)
}

/// A sealed envelope for the recipient key id `id` whose wrapped session
/// key has `wrapped_len` bytes and whose payload, sealed with its 16-byte
/// tag, has `payload_len + 16` bytes.
pub open spec fn sealed_layout(env: Seq<u8>, id: Seq<char>, payload_len: nat, wrapped_len: nat) -> bool {
    exists|wrapped: Seq<u8>, ct: Seq<u8>, nonce: Seq<u8>|
        #![trigger sealed_envelope(id, wrapped, ct, nonce)]
        env == sealed_envelope(id, wrapped, ct, nonce) && wrapped.len() == wrapped_len && ct.len() == payload_len
            + 16 && nonce.len() == 12
}

/// Every private key of the recipient's pair opens the envelope to `data`.
pub open spec fn opens_for_recipient(
    alg: crate::backends::universal::AsymmetricAlgorithm,
    public_der: Seq<u8>,
    env: Seq<u8>,
    data: Seq<u8>,
) -> bool {
    forall|private_der: Seq<u8>|
        #[trigger] keys_match(alg, private_der, public_der) ==> open_outcome(env, alg, private_der)
            == Ok::<Seq<u8>, HybridFault>(data)
}

/// Seals a payload for a recipient: a fresh random session key seals the
/// payload with AES-256-GCM and is itself wrapped for the recipient's RSA
/// key.  Every private key of the recipient's pair opens the envelope to
/// the payload.
pub fn seal_for_recipient(data: &[u8], recipient_public_key: &PublicKey) -> (r: Result<
    Vec<u8>,
    HybridEncryptionError,
>)
    ensures
        if data@.len() > aes_gcm_limit() {
            r matches Err(e) && hybrid_error_is(
                e,
                HybridFault::Encryption("AES-GCM encryption failed: aead::Error"@),
            )
        } else {
            match key_wrap_fault(
                recipient_public_key.algorithm,
                recipient_public_key.key_bytes@,
                session_key_shape(),
            ) {
                Some(f) => r matches Err(e) && hybrid_error_is(
                    e,
                    HybridFault::Encryption("Key encryption failed: "@ + asym_fault_text(f)),
                ),
                None => r matches Ok(env) && opens_for_recipient(
                    recipient_public_key.algorithm,
                    recipient_public_key.key_bytes@,
                    env@,
                    data@,
                ) && addressed_to(env@, key_identifier(recipient_public_key.key_id, recipient_public_key.key_bytes@))
                    && sealed_layout(
                    env@,
                    key_identifier(recipient_public_key.key_id, recipient_public_key.key_bytes@),
                    data@.len(),
                    rsa_modulus_bytes(recipient_public_key.key_bytes@),
                ) && env@.len() > data@.len() + 16 + rsa_modulus_bytes(recipient_public_key.key_bytes@),
            }
        },
{
    let session_key = SymmetricKey::generate();
    let encrypted = match encrypt_symmetric(data, &session_key) {
        Ok(x) => x,
        Err(e) => {
            return Err(e);
        },
    };
    let wrapped = match encrypt_key_asymmetric(session_key.as_bytes(), recipient_public_key) {
        Ok(w) => w,
        Err(e) => {
            let text = e.message();
            proof {
                let out = key_wrap_fault(
                    recipient_public_key.algorithm,
                    recipient_public_key.key_bytes@,
                    session_key.0@,
                );
                lemma_asym_text(e, out->0);
                assert(key_wrap_fault(
                    recipient_public_key.algorithm,
                    recipient_public_key.key_bytes@,
                    session_key.0@,
                ) == key_wrap_fault(
                    recipient_public_key.algorithm,
                    recipient_public_key.key_bytes@,
                    session_key_shape(),
                ));
            }
            return Err(HybridEncryptionError::EncryptionFailed(concat_str("Key encryption failed: ", text.as_str())));
        },
    };
    let id = recipient_public_key.id();
    let out = assemble_envelope(id.as_str(), wrapped.as_slice(), encrypted.ciphertext.as_slice(), &encrypted.nonce);
    proof {
        let ev: EnvelopeView = (hybrid_magic(), 1u8, id@, wrapped@, encrypted.ciphertext@, encrypted.nonce@, 1u8);
        assert(out@ == envelope_record(ev));
        assert(out@.len() == out.len());
        assert(out@ == sealed_envelope(id@, wrapped@, encrypted.ciphertext@, encrypted.nonce@));
        lemma_framed_len(encode_utf8(id@));
        lemma_framed_len(wrapped@);
        lemma_framed_len(encrypted.ciphertext@);
        lemma_record_parts_fit(ev);
        law_envelope_roundtrip(ev, Seq::empty());
        assert(out@ + Seq::<u8>::empty() =~= out@);
        assert forall|private_der: Seq<u8>|
            #[trigger] keys_match(recipient_public_key.algorithm, private_der, recipient_public_key.key_bytes@)
            implies open_outcome(out@, recipient_public_key.algorithm, private_der) == Ok::<
            Seq<u8>,
            HybridFault,
        >(data@) by {
            law_wrapped_key_unwraps(
                recipient_public_key.algorithm,
                private_der,
                recipient_public_key.key_bytes@,
                session_key.0@,
                ev.3,
            );
        }
    }
    Ok(out)
}

/// Parts of a record that fit in memory fit the length prefixes.
proof fn lemma_record_parts_fit(e: EnvelopeView)
    requires
        envelope_record(e).len() <= usize::MAX,
    ensures
        encode_utf8(e.2).len() <= u64::MAX,
        e.3.len() <= u64::MAX,
        e.4.len() <= u64::MAX,
{
    lemma_framed_len(encode_utf8(e.2));
    lemma_framed_len(e.3);
    lemma_framed_len(e.4);
}

} // verus!
