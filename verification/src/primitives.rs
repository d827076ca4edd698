//! Boundary to the cryptographic and encoding crates this library builds on.
//!
//! Every item here is trusted: its contract is taken from the documentation
//! and source of the crate it calls, not proved.  Results that are a
//! function of the arguments alone but take pages to define (hashes,
//! signatures, ciphers) are given names without bodies; results that depend
//! on chance or the clock are only described by what holds of every outcome.

use aead::{Aead as _, KeyInit as _};
use base64::Engine as _;
use ed25519_dalek::{Signer as _, Verifier as _};
use p256::ecdsa::signature::Signer as _;
use p256::ecdsa::signature::Verifier as _;
use p256::elliptic_curve::sec1::{FromEncodedPoint as _, ToEncodedPoint as _};
use rsa::pkcs8::{
    DecodePrivateKey as _, DecodePublicKey as _, EncodePrivateKey as _, EncodePublicKey as _,
};
use rand_core::RngCore as _;
use sha2::Digest as _;
use crate::crypto::{key_meta_text, KeyFileMeta};
use crate::text::{hex_bytes_of, hex_text};
use vstd::prelude::*;

verus! {

/// BLAKE3 hash (32 bytes) of a byte string.
pub uninterp spec fn blake3_of(data: Seq<u8>) -> Seq<u8>;

/// Ed25519 public key belonging to a 32-byte secret key.
pub uninterp spec fn ed25519_public_of(secret: Seq<u8>) -> Seq<u8>;

/// Ed25519 signature (deterministic, RFC 8032) of a message under a secret key.
pub uninterp spec fn ed25519_signature_of(secret: Seq<u8>, msg: Seq<u8>) -> Seq<u8>;

/// Whether 32 bytes decode to an Ed25519 verifying key.
pub uninterp spec fn ed25519_key_decodes(public: Seq<u8>) -> bool;

/// Whether an Ed25519 verifying key accepts a signature on a message.
pub uninterp spec fn ed25519_accepts(public: Seq<u8>, msg: Seq<u8>, sig: Seq<u8>) -> bool;

/// Standard (padded) base64 text of a byte string.
pub uninterp spec fn base64_text_of(data: Seq<u8>) -> Seq<char>;

/// Bytes that a standard base64 text decodes to, if it is well formed.
pub uninterp spec fn base64_bytes_of(text: Seq<u8>) -> Option<Seq<u8>>;

/// `blake3::hash`: the 32-byte BLAKE3 digest of `data`.
#[verifier::external_body]
pub(crate) fn blake3_hash(data: &[u8]) -> (r: [u8; 32])
    ensures
        r@ == blake3_of(data@),
{
    *blake3::hash(data).as_bytes()
}

/// `SigningKey::from_bytes(secret).verifying_key().to_bytes()`: the public
/// key of a secret key; such a key always decodes again.
#[verifier::external_body]
pub(crate) fn ed25519_public_key(secret: &[u8; 32]) -> (r: [u8; 32])
    ensures
        r@ == ed25519_public_of(secret@),
        ed25519_key_decodes(r@),
{
    ed25519_dalek::SigningKey::from_bytes(secret).verifying_key().to_bytes()
}

/// `SigningKey::sign`: the Ed25519 signature of `msg`.  The verifying key of
/// the same secret accepts it (the defining property of the scheme).
#[verifier::external_body]
pub(crate) fn ed25519_sign(secret: &[u8; 32], msg: &[u8]) -> (r: [u8; 64])
    ensures
        r@ == ed25519_signature_of(secret@, msg@),
        ed25519_accepts(ed25519_public_of(secret@), msg@, r@),
{
    ed25519_dalek::SigningKey::from_bytes(secret).sign(msg).to_bytes()
}

/// `VerifyingKey::from_bytes` followed by `VerifyingKey::verify`: `None` when
/// the key bytes do not decode, otherwise whether the signature verifies.
#[verifier::external_body]
pub(crate) fn ed25519_verify(public: &[u8; 32], msg: &[u8], sig: &[u8; 64]) -> (r: Option<bool>)
    ensures
        r is None <==> !ed25519_key_decodes(public@),
        r matches Some(ok) ==> ok == ed25519_accepts(public@, msg@, sig@),
{
    match ed25519_dalek::VerifyingKey::from_bytes(public) {
        Ok(key) => Some(key.verify(msg, &ed25519_dalek::Signature::from_bytes(sig)).is_ok()),
        Err(_) => None,
    }
}

/// A character of the standard base64 alphabet, padding included.
pub open spec fn base64_char(c: char) -> bool {
    ('A' <= c <= 'Z') || ('a' <= c <= 'z') || ('0' <= c <= '9') || c == '+' || c == '/' || c == '='
}

/// `base64::engine::general_purpose::STANDARD.encode`.  The result is made
/// of the standard alphabet and decodes back to `data`.
#[verifier::external_body]
pub(crate) fn base64_encode(data: &[u8]) -> (r: String)
    ensures
        r@ == base64_text_of(data@),
        vstd::utf8::is_ascii_chars(r@),
        forall|i: int| 0 <= i < r@.len() ==> base64_char(#[trigger] r@[i]),
        base64_bytes_of(vstd::utf8::encode_utf8(r@)) == Some(data@),
{
    base64::engine::general_purpose::STANDARD.encode(data)
}

/// Display text of the error that standard base64 decoding reports.
pub uninterp spec fn base64_error_of(text: Seq<u8>) -> Seq<char>;

/// `base64::engine::general_purpose::STANDARD.decode`; the error is given by
/// its display text.
#[verifier::external_body]
pub(crate) fn base64_decode(text: &[u8]) -> (r: Result<Vec<u8>, String>)
    ensures
        match r {
            Ok(v) => base64_bytes_of(text@) == Some(v@),
            Err(e) => base64_bytes_of(text@) is None && e@ == base64_error_of(text@),
        },
{
    base64::engine::general_purpose::STANDARD.decode(text).map_err(|e| e.to_string())
}

/// `hex::encode`: lower-case hexadecimal text, two digits per byte.
#[verifier::external_body]
pub(crate) fn hex_encode(data: &[u8]) -> (r: String)
    ensures
        r@ == hex_text(data@),
{
    hex::encode(data)
}

/// Display text of the error that `hex::decode` reports.
pub uninterp spec fn hex_error_of(text: Seq<u8>) -> Seq<char>;

/// `hex::decode` on the bytes of a text: pairs of hexadecimal digits of
/// either case; odd lengths and other characters are rejected, and the error
/// is given by its display text.
#[verifier::external_body]
pub(crate) fn hex_decode(text: &[u8]) -> (r: Result<Vec<u8>, String>)
    ensures
        match r {
            Ok(v) => hex_bytes_of(text@) == Some(v@),
            Err(e) => hex_bytes_of(text@) is None && e@ == hex_error_of(text@),
        },
{
    hex::decode(text).map_err(|e| e.to_string())
}

/// `rand_core::OsRng::fill_bytes`: `N` bytes from the operating system's
/// random source.  Nothing is promised of them (and the call panics if the
/// source fails, which this contract cannot exclude).
#[verifier::external_body]
pub(crate) fn random_bytes<const N: usize>() -> (r: [u8; N]) {
    let mut b = [0u8; N];
    rand_core::OsRng.fill_bytes(&mut b);
    b
}

/// Display text of the error `VerifyingKey::from_bytes` reports for bytes
/// that are no Ed25519 point.
pub uninterp spec fn ed25519_key_error_of(public: Seq<u8>) -> Seq<char>;

/// `ed25519_dalek::VerifyingKey::from_bytes`, keeping only whether the bytes
/// decode and the error's display text.
#[verifier::external_body]
pub(crate) fn ed25519_key_check(public: &[u8; 32]) -> (r: Result<(), String>)
    ensures
        match r {
            Ok(()) => ed25519_key_decodes(public@),
            Err(e) => !ed25519_key_decodes(public@) && e@ == ed25519_key_error_of(public@),
        },
{
    ed25519_dalek::VerifyingKey::from_bytes(public).map(|_| ()).map_err(|e| e.to_string())
}

/// Whether bytes are a SEC1-encoded P-256 public key.
pub uninterp spec fn p256_key_parses(sec1: Seq<u8>) -> bool;

/// Display text of the error of `p256::ecdsa::VerifyingKey::from_sec1_bytes`.
pub uninterp spec fn p256_key_error_of(sec1: Seq<u8>) -> Seq<char>;

/// Whether bytes are a DER-encoded ECDSA P-256 signature.
pub uninterp spec fn p256_der_parses(der: Seq<u8>) -> bool;

/// Display text of the error of `p256::ecdsa::Signature::from_der`.
pub uninterp spec fn p256_der_error_of(der: Seq<u8>) -> Seq<char>;

/// Whether a P-256 key accepts a DER signature on a message (SHA-256).
pub uninterp spec fn p256_accepts(sec1: Seq<u8>, msg: Seq<u8>, der: Seq<u8>) -> bool;

/// `p256::ecdsa::VerifyingKey::from_sec1_bytes`, keeping only whether it
/// parses and the error's display text.
#[verifier::external_body]
pub(crate) fn p256_key_check(sec1: &[u8]) -> (r: Result<(), String>)
    ensures
        match r {
            Ok(()) => p256_key_parses(sec1@),
            Err(e) => !p256_key_parses(sec1@) && e@ == p256_key_error_of(sec1@),
        },
{
    p256::ecdsa::VerifyingKey::from_sec1_bytes(sec1).map(|_| ()).map_err(|e| e.to_string())
}

/// `p256::ecdsa::Signature::from_der`, keeping only whether it parses and
/// the error's display text.
#[verifier::external_body]
pub(crate) fn p256_der_check(der: &[u8]) -> (r: Result<(), String>)
    ensures
        match r {
            Ok(()) => p256_der_parses(der@),
            Err(e) => !p256_der_parses(der@) && e@ == p256_der_error_of(der@),
        },
{
    p256::ecdsa::Signature::from_der(der).map(|_| ()).map_err(|e| e.to_string())
}

/// `signature::Verifier::verify` of a P-256 key on a DER signature.
#[verifier::external_body]
pub(crate) fn p256_verify(sec1: &[u8], msg: &[u8], der: &[u8]) -> (r: bool)
    requires
        p256_key_parses(sec1@),
        p256_der_parses(der@),
    ensures
        r == p256_accepts(sec1@, msg@, der@),
{
    let key = p256::ecdsa::VerifyingKey::from_sec1_bytes(sec1).unwrap();
    let sig = p256::ecdsa::Signature::from_der(der).unwrap();
    key.verify(msg, &sig).is_ok()
}

/// HKDF-SHA256 output of `len` bytes (RFC 5869); `None` salt is HKDF's
/// default salt.
pub uninterp spec fn hkdf_sha256_of(salt: Option<Seq<u8>>, ikm: Seq<u8>, info: Seq<u8>, len: nat) -> Seq<u8>;

/// `Hkdf::<Sha256>::new(salt, ikm)` then `expand(info, N bytes)`; expansion
/// succeeds for every length up to 255 hash lengths.
#[verifier::external_body]
pub(crate) fn hkdf_sha256<const N: usize>(salt: Option<&[u8]>, ikm: &[u8], info: &[u8]) -> (r: [u8; N])
    requires
        N <= 8160,
    ensures
        r@ == hkdf_sha256_of(
            match salt {
                Some(s) => Some(s@),
                None => None,
            },
            ikm@,
            info@,
            N as nat,
        ),
{
    let mut okm = [0u8; N];
    hkdf::Hkdf::<sha2::Sha256>::new(salt, ikm).expand(info, &mut okm).unwrap();
    okm
}

/// PBKDF2-HMAC-SHA256 key of 32 bytes.
pub uninterp spec fn pbkdf2_sha256_of(password: Seq<u8>, salt: Seq<u8>, rounds: u32) -> Seq<u8>;

/// `pbkdf2::pbkdf2_hmac::<Sha256>` into 32 bytes.
#[verifier::external_body]
pub(crate) fn pbkdf2_sha256(password: &[u8], salt: &[u8], rounds: u32) -> (r: [u8; 32])
    ensures
        r@ == pbkdf2_sha256_of(password@, salt@, rounds),
{
    let mut out = [0u8; 32];
    pbkdf2::pbkdf2_hmac::<sha2::Sha256>(password, salt, rounds, &mut out);
    out
}

/// AES-256-GCM ciphertext with its 16-byte tag.
pub uninterp spec fn aes256gcm_seal_of(key: Seq<u8>, nonce: Seq<u8>, aad: Seq<u8>, pt: Seq<u8>) -> Seq<u8>;

/// AES-256-GCM decryption: the plaintext, or `None` when the tag fails.
pub uninterp spec fn aes256gcm_open_of(key: Seq<u8>, nonce: Seq<u8>, aad: Seq<u8>, ct: Seq<u8>) -> Option<Seq<u8>>;

/// `Aes256Gcm::encrypt` with a payload of message and associated data.  It
/// fails only above 2^36 bytes of either, which `requires` excludes; what it
/// seals opens again under the same key, nonce and associated data.
#[verifier::external_body]
pub(crate) fn aes256gcm_encrypt(key: &[u8; 32], nonce: &[u8; 12], aad: &[u8], pt: &[u8]) -> (r: Vec<u8>)
    requires
        pt@.len() <= 0x10_0000_0000,
        aad@.len() <= 0x10_0000_0000,
    ensures
        r@ == aes256gcm_seal_of(key@, nonce@, aad@, pt@),
        r@.len() == pt@.len() + 16,
        aes256gcm_open_of(key@, nonce@, aad@, r@) == Some(pt@),
{
    let cipher = aes_gcm::Aes256Gcm::new(key.into());
    cipher.encrypt(nonce.into(), aead::Payload { msg: pt, aad }).unwrap()
}

/// `Aes256Gcm::decrypt` with a payload of ciphertext and associated data;
/// the error becomes `None`.
#[verifier::external_body]
pub(crate) fn aes256gcm_decrypt(key: &[u8; 32], nonce: &[u8; 12], aad: &[u8], ct: &[u8]) -> (r: Option<Vec<u8>>)
    ensures
        match r {
            Some(p) => aes256gcm_open_of(key@, nonce@, aad@, ct@) == Some(p@),
            None => aes256gcm_open_of(key@, nonce@, aad@, ct@) is None,
        },
{
    let cipher = aes_gcm::Aes256Gcm::new(key.into());
    cipher.decrypt(nonce.into(), aead::Payload { msg: ct, aad }).ok()
}

/// XChaCha20-Poly1305 ciphertext with its 16-byte tag.
pub uninterp spec fn xchacha_seal_of(key: Seq<u8>, nonce: Seq<u8>, aad: Seq<u8>, pt: Seq<u8>) -> Seq<u8>;

/// XChaCha20-Poly1305 decryption: the plaintext, or `None` when it fails.
pub uninterp spec fn xchacha_open_of(key: Seq<u8>, nonce: Seq<u8>, aad: Seq<u8>, ct: Seq<u8>) -> Option<Seq<u8>>;

/// `XChaCha20Poly1305::encrypt` with a payload; the crate refuses messages
/// of `u32::MAX` blocks of 64 bytes or more.  What it seals opens again.
#[verifier::external_body]
pub(crate) fn xchacha_encrypt(key: &[u8; 32], nonce: &[u8; 24], aad: &[u8], pt: &[u8]) -> (r: Option<Vec<u8>>)
    ensures
        r is None <==> pt@.len() / 64 >= 0xffff_ffff,
        r matches Some(c) ==> c@ == xchacha_seal_of(key@, nonce@, aad@, pt@)
            && xchacha_open_of(key@, nonce@, aad@, c@) == Some(pt@),
{
    let cipher = chacha20poly1305::XChaCha20Poly1305::new(key.into());
    cipher.encrypt(nonce.into(), aead::Payload { msg: pt, aad }).ok()
}

/// `XChaCha20Poly1305::decrypt` with a payload; the error becomes `None`.
#[verifier::external_body]
pub(crate) fn xchacha_decrypt(key: &[u8; 32], nonce: &[u8; 24], aad: &[u8], ct: &[u8]) -> (r: Option<Vec<u8>>)
    ensures
        match r {
            Some(p) => xchacha_open_of(key@, nonce@, aad@, ct@) == Some(p@),
            None => xchacha_open_of(key@, nonce@, aad@, ct@) is None,
        },
{
    let cipher = chacha20poly1305::XChaCha20Poly1305::new(key.into());
    cipher.decrypt(nonce.into(), aead::Payload { msg: ct, aad }).ok()
}

/// Whether bytes are a P-256 secret scalar that `SecretKey::from_slice` accepts.
pub uninterp spec fn p256_secret_valid(secret: Seq<u8>) -> bool;

/// Display text of the error of `p256::SecretKey::from_slice`.
pub uninterp spec fn p256_secret_error_of(secret: Seq<u8>) -> Seq<char>;

/// Uncompressed SEC1 encoding of the public key of a P-256 secret.
pub uninterp spec fn p256_public_of(secret: Seq<u8>) -> Seq<u8>;

/// Whether bytes parse as a SEC1 `EncodedPoint`.
pub uninterp spec fn p256_point_encoded(point: Seq<u8>) -> bool;

/// Display text of the error of `p256::EncodedPoint::from_bytes`.
pub uninterp spec fn p256_point_error_of(point: Seq<u8>) -> Seq<char>;

/// Whether an encoded point is a P-256 public key (on the curve, not identity).
pub uninterp spec fn p256_point_on_curve(point: Seq<u8>) -> bool;

/// Raw ECDH shared secret of a P-256 secret and a peer's public point.
pub uninterp spec fn p256_ecdh_of(secret: Seq<u8>, point: Seq<u8>) -> Seq<u8>;

/// `signature::Signer::sign` of a P-256 signing key made from a valid
/// secret, DER-encoded: a well-formed signature that the secret's public
/// key accepts.  (Which of the valid signatures comes out is left open.)
#[verifier::external_body]
pub(crate) fn p256_sign(secret: &[u8], msg: &[u8]) -> (r: Vec<u8>)
    requires
        p256_secret_valid(secret@),
    ensures
        p256_der_parses(r@),
        p256_accepts(p256_public_of(secret@), msg@, r@),
{
    let sk = p256::ecdsa::SigningKey::from(p256::SecretKey::from_slice(secret).unwrap());
    let sig: p256::ecdsa::Signature = sk.sign(msg);
    sig.to_der().as_bytes().to_vec()
}

/// `signature::Verifier::verify` of the verifying key of an encoded P-256
/// public point on a DER signature.
#[verifier::external_body]
pub(crate) fn p256_verify_point(point: &[u8], msg: &[u8], der: &[u8]) -> (r: bool)
    requires
        p256_point_encoded(point@),
        p256_point_on_curve(point@),
        p256_der_parses(der@),
    ensures
        r == p256_accepts(point@, msg@, der@),
{
    let ep = p256::EncodedPoint::from_bytes(point).unwrap();
    let pk = p256::PublicKey::from_encoded_point(&ep).unwrap();
    let key = p256::ecdsa::VerifyingKey::from(pk);
    let sig = p256::ecdsa::Signature::from_der(der).unwrap();
    key.verify(msg, &sig).is_ok()
}

/// `p256::SecretKey::random(&mut OsRng).to_bytes()`: a fresh secret, which
/// `from_slice` accepts again.
#[verifier::external_body]
pub(crate) fn p256_random_secret() -> (r: [u8; 32])
    ensures
        p256_secret_valid(r@),
{
    p256::SecretKey::random(&mut rand_core::OsRng).to_bytes().into()
}

/// `p256::SecretKey::from_slice`, keeping whether it accepts and the error.
#[verifier::external_body]
pub(crate) fn p256_secret_check(secret: &[u8]) -> (r: Result<(), String>)
    ensures
        match r {
            Ok(()) => p256_secret_valid(secret@),
            Err(e) => !p256_secret_valid(secret@) && e@ == p256_secret_error_of(secret@),
        },
{
    p256::SecretKey::from_slice(secret).map(|_| ()).map_err(|e| e.to_string())
}

/// `SecretKey::public_key().to_encoded_point(false)`: the uncompressed
/// public point (the tag byte and both 32-byte coordinates), a valid public
/// key.
#[verifier::external_body]
pub(crate) fn p256_public_sec1(secret: &[u8]) -> (r: Vec<u8>)
    requires
        p256_secret_valid(secret@),
    ensures
        r@ == p256_public_of(secret@),
        r@.len() == 65,
        p256_point_encoded(r@),
        p256_point_on_curve(r@),
{
    let sk = p256::SecretKey::from_slice(secret).unwrap();
    sk.public_key().to_encoded_point(false).as_bytes().to_vec()
}

/// `p256::EncodedPoint::from_bytes`, keeping whether it parses and the error.
#[verifier::external_body]
pub(crate) fn p256_point_check(point: &[u8]) -> (r: Result<(), String>)
    ensures
        match r {
            Ok(()) => p256_point_encoded(point@),
            Err(e) => !p256_point_encoded(point@) && e@ == p256_point_error_of(point@),
        },
{
    p256::EncodedPoint::from_bytes(point).map(|_| ()).map_err(|e| e.to_string())
}

/// `p256::PublicKey::from_encoded_point(..).is_some()`.
#[verifier::external_body]
pub(crate) fn p256_point_is_key(point: &[u8]) -> (r: bool)
    requires
        p256_point_encoded(point@),
    ensures
        r == p256_point_on_curve(point@),
{
    let ep = p256::EncodedPoint::from_bytes(point).unwrap();
    bool::from(p256::PublicKey::from_encoded_point(&ep).is_some())
}

/// `p256::ecdh::diffie_hellman(..).raw_secret_bytes()`: 32 bytes, the same
/// from either side of the exchange (the defining property of ECDH).
#[verifier::external_body]
pub(crate) fn p256_ecdh(secret: &[u8], point: &[u8]) -> (r: Vec<u8>)
    requires
        p256_secret_valid(secret@),
        p256_point_encoded(point@),
        p256_point_on_curve(point@),
    ensures
        r@ == p256_ecdh_of(secret@, point@),
        r@.len() == 32,
        ecdh_agrees(secret@, point@, r@),
{
    let sk = p256::SecretKey::from_slice(secret).unwrap();
    let ep = p256::EncodedPoint::from_bytes(point).unwrap();
    let pk = p256::PublicKey::from_encoded_point(&ep).unwrap();
    p256::ecdh::diffie_hellman(sk.to_nonzero_scalar(), pk.as_affine()).raw_secret_bytes().to_vec()
}

/// The peer holding the secret of `point` computes the same shared secret
/// from its side.
pub open spec fn ecdh_agrees(secret: Seq<u8>, point: Seq<u8>, shared: Seq<u8>) -> bool {
    forall|peer: Seq<u8>|
        p256_secret_valid(peer) && point == #[trigger] p256_public_of(peer) ==> p256_ecdh_of(
            peer,
            p256_public_of(secret),
        ) == shared
}

/// Whether a private (PKCS#8 DER) and a public (SPKI DER) RSA key belong
/// together.
pub uninterp spec fn rsa_pair(private_der: Seq<u8>, public_der: Seq<u8>) -> bool;

/// Whether bytes are an SPKI DER RSA public key.
pub uninterp spec fn rsa_public_parses(der: Seq<u8>) -> bool;

/// Display text of the error of `RsaPublicKey::from_public_key_der`.
pub uninterp spec fn rsa_public_error_of(der: Seq<u8>) -> Seq<char>;

/// Modulus length in bytes of an RSA public key.
pub uninterp spec fn rsa_modulus_bytes(der: Seq<u8>) -> nat;

/// Whether bytes are a PKCS#8 DER RSA private key.
pub uninterp spec fn rsa_private_parses(der: Seq<u8>) -> bool;

/// Display text of the error of `RsaPrivateKey::from_pkcs8_der`.
pub uninterp spec fn rsa_private_error_of(der: Seq<u8>) -> Seq<char>;

/// RSA-OAEP-SHA256 decryption under a private key: the message, or `None`.
pub uninterp spec fn rsa_oaep_open_of(private_der: Seq<u8>, ct: Seq<u8>) -> Option<Seq<u8>>;

/// Display text of the error of a failed RSA-OAEP decryption.
pub uninterp spec fn rsa_decrypt_error_of(private_der: Seq<u8>, ct: Seq<u8>) -> Seq<char>;

/// `RsaPrivateKey::new(&mut OsRng, bits)` with its PKCS#8 and SPKI DER
/// encodings; `None` when generation or encoding fails.  The generator
/// retries until the modulus has exactly `bits` bits, so for a whole number
/// of bytes within the size that the public-key parser accepts (4096 bits at
/// most) the two keys belong together, parse again and have a modulus of
/// `bits / 8` bytes.  The public document holds the whole modulus, and the
/// private one the modulus and both primes (each of `bits / 2` bits), so
/// they are longer than `bits / 8` and `bits / 4` bytes.
#[verifier::external_body]
pub(crate) fn rsa_generate(bits: usize) -> (r: Option<(Vec<u8>, Vec<u8>)>)
    requires
        bits % 8 == 0,
        1024 <= bits <= 4096,
    ensures
        r matches Some((private_der, public_der)) ==> rsa_pair(private_der@, public_der@)
            && rsa_private_parses(private_der@) && rsa_public_parses(public_der@)
            && rsa_modulus_bytes(public_der@) == bits / 8 && public_der@.len() > bits / 8
            && private_der@.len() > bits / 4,
{
    let sk = rsa::RsaPrivateKey::new(&mut rand_core::OsRng, bits).ok()?;
    let pk = rsa::RsaPublicKey::from(&sk);
    let private_der = sk.to_pkcs8_der().ok()?.as_bytes().to_vec();
    let public_der = pk.to_public_key_der().ok()?.as_bytes().to_vec();
    Some((private_der, public_der))
}

/// `RsaPublicKey::from_public_key_der`, keeping whether it parses and the
/// error.
#[verifier::external_body]
pub(crate) fn rsa_public_check(der: &[u8]) -> (r: Result<(), String>)
    ensures
        match r {
            Ok(()) => rsa_public_parses(der@),
            Err(e) => !rsa_public_parses(der@) && e@ == rsa_public_error_of(der@),
        },
{
    rsa::RsaPublicKey::from_public_key_der(der).map(|_| ()).map_err(|e| e.to_string())
}

/// `RsaPublicKey::encrypt` with `Oaep::new::<Sha256>()` and `OsRng`.  The
/// padding is random; the message must leave room for it (`k - 66` bytes at
/// most, else `message too long`); the ciphertext is left-padded to the
/// modulus length, and what it encrypts, the matching private key decrypts.
#[verifier::external_body]
pub(crate) fn rsa_oaep_encrypt(der: &[u8], msg: &[u8]) -> (r: Result<Vec<u8>, String>)
    requires
        rsa_public_parses(der@),
    ensures
        r is Err <==> msg@.len() + 66 > rsa_modulus_bytes(der@),
        r matches Err(e) ==> e@ == "message too long"@,
        r matches Ok(c) ==> opens_for_pair(der@, c@, msg@) && c@.len() == rsa_modulus_bytes(der@),
{
    let pk = rsa::RsaPublicKey::from_public_key_der(der).unwrap();
    pk.encrypt(&mut rand_core::OsRng, rsa::Oaep::new::<sha2::Sha256>(), msg).map_err(|e| e.to_string())
}

/// Every private key paired with `public_der` decrypts `ct` to `msg`.
pub open spec fn opens_for_pair(public_der: Seq<u8>, ct: Seq<u8>, msg: Seq<u8>) -> bool {
    forall|private_der: Seq<u8>|
        #[trigger] rsa_pair(private_der, public_der) ==> rsa_oaep_open_of(private_der, ct) == Some(
            msg,
        )
}

/// `RsaPrivateKey::from_pkcs8_der`, keeping whether it parses and the error.
#[verifier::external_body]
pub(crate) fn rsa_private_check(der: &[u8]) -> (r: Result<(), String>)
    ensures
        match r {
            Ok(()) => rsa_private_parses(der@),
            Err(e) => !rsa_private_parses(der@) && e@ == rsa_private_error_of(der@),
        },
{
    rsa::RsaPrivateKey::from_pkcs8_der(der).map(|_| ()).map_err(|e| e.to_string())
}

/// `RsaPrivateKey::decrypt` with `Oaep::new::<Sha256>()`.
#[verifier::external_body]
pub(crate) fn rsa_oaep_decrypt(der: &[u8], ct: &[u8]) -> (r: Result<Vec<u8>, String>)
    requires
        rsa_private_parses(der@),
    ensures
        match r {
            Ok(m) => rsa_oaep_open_of(der@, ct@) == Some(m@),
            Err(e) => rsa_oaep_open_of(der@, ct@) is None && e@ == rsa_decrypt_error_of(der@, ct@),
        },
{
    let sk = rsa::RsaPrivateKey::from_pkcs8_der(der).unwrap();
    sk.decrypt(rsa::Oaep::new::<sha2::Sha256>(), ct).map_err(|e| e.to_string())
}

/// X25519 shared secret of an Ed25519 secret key and an Ed25519 public key,
/// both taken to their Montgomery form.
pub uninterp spec fn x25519_shared_of(secret: Seq<u8>, public: Seq<u8>) -> Seq<u8>;

/// `StaticSecret::from(SigningKey::to_scalar_bytes())` and
/// `PublicKey::from(VerifyingKey::to_montgomery())`, then `diffie_hellman`.
/// The holder of the other secret computes the same value from its side
/// (Diffie-Hellman commutativity).
#[verifier::external_body]
pub(crate) fn x25519_shared(secret: &[u8; 32], public: &[u8; 32]) -> (r: [u8; 32])
    requires
        ed25519_key_decodes(public@),
    ensures
        r@ == x25519_shared_of(secret@, public@),
        x25519_agrees(secret@, public@, r@),
{
    let sk = ed25519_dalek::SigningKey::from_bytes(secret);
    let pk = ed25519_dalek::VerifyingKey::from_bytes(public).unwrap();
    let xs = x25519_dalek::StaticSecret::from(sk.to_scalar_bytes());
    let xp = x25519_dalek::PublicKey::from(pk.to_montgomery().to_bytes());
    xs.diffie_hellman(&xp).to_bytes()
}

/// Every holder of a secret whose public key is `public` computes `shared`
/// with the public key of `secret`.
pub open spec fn x25519_agrees(secret: Seq<u8>, public: Seq<u8>, shared: Seq<u8>) -> bool {
    forall|peer: Seq<u8>|
        peer.len() == 32 && public == #[trigger] ed25519_public_of(peer) ==> x25519_shared_of(
            peer,
            ed25519_public_of(secret),
        ) == shared
}

/// `SystemTime::now().duration_since(UNIX_EPOCH)` in whole seconds; the
/// error (a clock before the epoch) is given by its display text.  Nothing
/// is promised of the value: it is the machine's clock.
#[verifier::external_body]
pub(crate) fn unix_time_secs() -> (r: Result<u64, String>) {
    std::time::SystemTime::now()
        .duration_since(std::time::UNIX_EPOCH)
        .map(|d| d.as_secs())
        .map_err(|e| e.to_string())
}

/// `SystemTime::now().duration_since(UNIX_EPOCH)` in whole milliseconds;
/// the error (a clock before the epoch) is given by its display text.
/// Nothing is promised of the value: it is the machine's clock.
#[verifier::external_body]
pub(crate) fn unix_time_millis() -> (r: Result<u128, String>) {
    std::time::SystemTime::now()
        .duration_since(std::time::UNIX_EPOCH)
        .map(|d| d.as_millis())
        .map_err(|e| e.to_string())
}

/// Display text of the error `VerifyingKey::verify` reports for a signature
/// it rejects.
pub uninterp spec fn ed25519_verify_error_of(public: Seq<u8>, msg: Seq<u8>, sig: Seq<u8>) -> Seq<char>;

/// `VerifyingKey::verify` of a key that decodes, keeping the error's text.
#[verifier::external_body]
pub(crate) fn ed25519_verify_checked(public: &[u8; 32], msg: &[u8], sig: &[u8; 64]) -> (r: Result<(), String>)
    requires
        ed25519_key_decodes(public@),
    ensures
        match r {
            Ok(()) => ed25519_accepts(public@, msg@, sig@),
            Err(e) => !ed25519_accepts(public@, msg@, sig@) && e@ == ed25519_verify_error_of(
                public@,
                msg@,
                sig@,
            ),
        },
{
    let key = ed25519_dalek::VerifyingKey::from_bytes(public).unwrap();
    key.verify(msg, &ed25519_dalek::Signature::from_bytes(sig)).map_err(|e| e.to_string())
}

/// PBKDF2-HMAC-SHA384 key of 32 bytes.
pub uninterp spec fn pbkdf2_sha384_of(password: Seq<u8>, salt: Seq<u8>, rounds: u32) -> Seq<u8>;

/// `pbkdf2::pbkdf2_hmac::<Sha384>` into 32 bytes.
#[verifier::external_body]
pub(crate) fn pbkdf2_sha384(password: &[u8], salt: &[u8], rounds: u32) -> (r: [u8; 32])
    ensures
        r@ == pbkdf2_sha384_of(password@, salt@, rounds),
{
    let mut out = [0u8; 32];
    pbkdf2::pbkdf2_hmac::<sha2::Sha384>(password, salt, rounds, &mut out);
    out
}

/// PBKDF2-HMAC-SHA512 key of 32 bytes.
pub uninterp spec fn pbkdf2_sha512_of(password: Seq<u8>, salt: Seq<u8>, rounds: u32) -> Seq<u8>;

/// `pbkdf2::pbkdf2_hmac::<Sha512>` into 32 bytes.
#[verifier::external_body]
pub(crate) fn pbkdf2_sha512(password: &[u8], salt: &[u8], rounds: u32) -> (r: [u8; 32])
    ensures
        r@ == pbkdf2_sha512_of(password@, salt@, rounds),
{
    let mut out = [0u8; 32];
    pbkdf2::pbkdf2_hmac::<sha2::Sha512>(password, salt, rounds, &mut out);
    out
}

/// SHA-256 digest.
pub uninterp spec fn sha256_of(data: Seq<u8>) -> Seq<u8>;

/// `sha2::Sha256::digest`: 32 bytes.
#[verifier::external_body]
pub(crate) fn sha256_digest(data: &[u8]) -> (r: Vec<u8>)
    ensures
        r@ == sha256_of(data@),
        r@.len() == 32,
{
    sha2::Sha256::digest(data).to_vec()
}

/// SHA-384 digest.
pub uninterp spec fn sha384_of(data: Seq<u8>) -> Seq<u8>;

/// `sha2::Sha384::digest`: 48 bytes.
#[verifier::external_body]
pub(crate) fn sha384_digest(data: &[u8]) -> (r: Vec<u8>)
    ensures
        r@ == sha384_of(data@),
        r@.len() == 48,
{
    sha2::Sha384::digest(data).to_vec()
}

/// SHA-512 digest.
pub uninterp spec fn sha512_of(data: Seq<u8>) -> Seq<u8>;

/// `sha2::Sha512::digest`: 64 bytes.
#[verifier::external_body]
pub(crate) fn sha512_digest(data: &[u8]) -> (r: Vec<u8>)
    ensures
        r@ == sha512_of(data@),
        r@.len() == 64,
{
    sha2::Sha512::digest(data).to_vec()
}

/// Keyed BLAKE3 hash (`keyed_hash` mode) of `data` under a 32-byte key.
pub uninterp spec fn blake3_keyed_of(key: Seq<u8>, data: Seq<u8>) -> Seq<u8>;

/// `blake3::keyed_hash`.
#[verifier::external_body]
pub(crate) fn blake3_keyed_hash(key: &[u8; 32], data: &[u8]) -> (r: [u8; 32])
    ensures
        r@ == blake3_keyed_of(key@, data@),
{
    *blake3::keyed_hash(key, data).as_bytes()
}

/// BLAKE3 key derivation (`derive_key` mode) under a context string.
pub uninterp spec fn blake3_derive_key_of(context: Seq<char>, material: Seq<u8>) -> Seq<u8>;

/// `blake3::derive_key`.
#[verifier::external_body]
pub(crate) fn blake3_derive_key(context: &str, material: &[u8]) -> (r: [u8; 32])
    ensures
        r@ == blake3_derive_key_of(context@, material@),
{
    blake3::derive_key(context, material)
}

/// `chrono::Utc::now().to_rfc3339_opts(SecondsFormat::Millis, true)`: the
/// current UTC time in RFC 3339 with milliseconds.  The writer puts `T`
/// between date and time and, for the zero offset with `use_z`, ends with
/// `Z`; the time itself is the machine's clock and is not stated.
#[verifier::external_body]
pub(crate) fn utc_timestamp_millis() -> (r: String)
    ensures
        r@.len() > 0,
        r@.last() == 'Z',
        r@.contains('T'),
{
    chrono::Utc::now().to_rfc3339_opts(chrono::SecondsFormat::Millis, true)
}

/// JSON string literal that `serde_json` writes for a text.
pub uninterp spec fn json_string_of(s: Seq<char>) -> Seq<char>;

/// Characters that `serde_json` writes inside a string unescaped: all but
/// `"`, `\` and control characters below U+0020.
pub open spec fn json_plain(s: Seq<char>) -> bool {
    forall|i: int| 0 <= i < s.len() ==> s[i] != '"' && s[i] != '\\' && s[i] >= ' '
}

/// `serde_json::to_string` of a string: the quoted, escaped literal.  Text
/// with nothing to escape is only quoted.
#[verifier::external_body]
pub(crate) fn json_string(s: &str) -> (r: String)
    ensures
        r@ == json_string_of(s@),
        json_plain(s@) ==> r@ == seq!['"'] + s@ + seq!['"'],
{
    serde_json::to_string(s).unwrap()
}

/// An optional text, by its characters.
pub open spec fn opt_text(o: Option<String>) -> Option<Seq<char>> {
    match o {
        Some(s) => Some(s@),
        None => None,
    }
}

/// Metadata members read, as the result of a parse.
pub open spec fn meta_parsed(m: KeyFileMeta) -> Result<
    (Option<Seq<char>>, Option<Seq<char>>, Option<u64>),
    Seq<char>,
> {
    Ok((opt_text(m.salt), opt_text(m.nonce), m.iterations))
}

/// A parse error's text, as the result of a parse.
pub open spec fn meta_failed(e: String) -> Result<
    (Option<Seq<char>>, Option<Seq<char>>, Option<u64>),
    Seq<char>,
> {
    Err(e@)
}

/// A metadata text written as a key file writes it, with strings that need
/// no escaping, reads back to its members.
pub open spec fn written_meta_reads_back(text: Seq<char>, r: Result<KeyFileMeta, String>) -> bool {
    forall|salt: Seq<char>, nonce: Seq<char>, it: u64|
        json_plain(salt) && json_plain(nonce) && text == key_meta_text(salt, nonce, it) ==> (
        r matches Ok(m) && opt_text(m.salt) == Some(salt) && opt_text(m.nonce) == Some(nonce)
            && m.iterations == Some(it))
}

/// What `serde_json` reads from a key file's metadata text: the string
/// members `salt` and `nonce` and the unsigned member `iterations` (each
/// `None` when absent or of another kind), or the parse error's text.
pub uninterp spec fn key_file_meta_of(text: Seq<char>) -> Result<
    (Option<Seq<char>>, Option<Seq<char>>, Option<u64>),
    Seq<char>,
>;

/// `serde_json::from_str::<Value>` of a key file's metadata line, keeping the
/// members `salt`, `nonce` (`Value::as_str`) and `iterations`
/// (`Value::as_u64`).  An object written as the key file writes it, with
/// strings that need no escaping, reads back to its members.
#[verifier::external_body]
pub(crate) fn parse_key_file_meta(text: &str) -> (r: Result<KeyFileMeta, String>)
    ensures
        r matches Ok(m) ==> key_file_meta_of(text@) == meta_parsed(m),
        r matches Err(e) ==> key_file_meta_of(text@) == meta_failed(e),
        written_meta_reads_back(text@, r),
{
    match serde_json::from_str::<serde_json::Value>(text) {
        Ok(v) => Ok(KeyFileMeta {
            salt: v["salt"].as_str().map(|x| x.to_string()),
            nonce: v["nonce"].as_str().map(|x| x.to_string()),
            iterations: v["iterations"].as_u64(),
        }),
        Err(e) => Err(e.to_string()),
    }
}

/// Text that `String::from_utf8_lossy` makes of bytes: each invalid sequence
/// becomes U+FFFD.
pub uninterp spec fn utf8_lossy_of(bytes: Seq<u8>) -> Seq<char>;

/// `String::from_utf8_lossy`, owned.  On valid UTF-8 it is the decoding.
#[verifier::external_body]
pub(crate) fn utf8_lossy(bytes: &[u8]) -> (r: String)
    ensures
        r@ == utf8_lossy_of(bytes@),
        vstd::utf8::valid_utf8(bytes@) ==> r@ == vstd::utf8::decode_utf8(bytes@),
{
    String::from_utf8_lossy(bytes).into_owned()
}

/// `String::push`.
#[verifier::external_body]
pub(crate) fn string_push(s: &mut String, c: char)
    ensures
        final(s)@ == old(s)@.push(c),
{
    s.push(c)
}

/// `String::from_utf8`, with the error mapped to `None`: succeeds exactly
/// on valid UTF-8 and then holds the characters the bytes encode.
#[verifier::external_body]
pub(crate) fn string_from_utf8(bytes: Vec<u8>) -> (r: Option<String>)
    ensures
        match r {
            Some(s) => vstd::utf8::valid_utf8(bytes@) && s@ == vstd::utf8::decode_utf8(bytes@),
            None => !vstd::utf8::valid_utf8(bytes@),
        },
{
    String::from_utf8(bytes).ok()
}

} // verus!
