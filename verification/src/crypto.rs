//! Device keys, segment encryption and manifest signatures.
//!
//! A device key is an Ed25519 secret; its public text is `ed25519:` and the
//! base64 of the public key.  Segments are sealed with XChaCha20-Poly1305
//! under a key derived from the device secret.  A secret key can be stored
//! encrypted under a passphrase in the `TRUSTEDGE-KEY-V1` file format:
//! a header line, a JSON metadata line and the AES-256-GCM ciphertext.

use crate::codec::{find_byte, find_byte_from, lemma_find_byte_at, push_all, read_array, slice_to_vec, starts_with, tail_from};
use crate::error::CryptoError;
use crate::primitives::{
    aes256gcm_decrypt, aes256gcm_encrypt, aes256gcm_open_of, aes256gcm_seal_of, base64_bytes_of,
    base64_char, base64_decode, base64_encode, base64_error_of, base64_text_of,
    ed25519_accepts, ed25519_key_check, ed25519_key_decodes, ed25519_key_error_of,
    ed25519_public_key, ed25519_public_of, ed25519_sign, ed25519_signature_of, ed25519_verify,
    hex_decode, hex_error_of, hkdf_sha256, hkdf_sha256_of, json_string, json_string_of,
    key_file_meta_of, p256_accepts, p256_der_check, p256_der_error_of, p256_der_parses,
    p256_key_check, p256_key_error_of, p256_key_parses, p256_verify, parse_key_file_meta,
    pbkdf2_sha256, pbkdf2_sha256_of, random_bytes, string_from_utf8, xchacha_decrypt,
    xchacha_encrypt, xchacha_open_of, xchacha_seal_of,
};
use crate::primitives::{json_plain, opt_text};
use crate::text::{
    bytes_equal, concat_str, decimal, hex_bytes_of, hex_text, lemma_decimal_digits, push_decimal,
    str_with_decimal,
};
use vstd::prelude::*;
use vstd::string::*;
use vstd::utf8::{decode_utf8, encode_utf8, valid_utf8};

verus! {

/// Minimum PBKDF2-HMAC-SHA256 iterations accepted in an encrypted key file.
pub const PBKDF2_MIN_ITERATIONS: u32 = 600_000;

/// What went wrong, by the kind of [`CryptoError`] and its message.
pub enum CryptoFault {
    KeyFormat(Seq<char>),
    SignatureFormat(Seq<char>),
    Encryption(Seq<char>),
    Decryption(Seq<char>),
    NonceFormat(Seq<char>),
}

/// An error carries a fault: the same kind, the same message.
pub open spec fn error_is(e: CryptoError, f: CryptoFault) -> bool {
    match (e, f) {
        (CryptoError::InvalidKeyFormat(m), CryptoFault::KeyFormat(n)) => m@ == n,
        (CryptoError::InvalidSignatureFormat(m), CryptoFault::SignatureFormat(n)) => m@ == n,
        (CryptoError::EncryptionFailed(m), CryptoFault::Encryption(n)) => m@ == n,
        (CryptoError::DecryptionFailed(m), CryptoFault::Decryption(n)) => m@ == n,
        (CryptoError::InvalidNonceFormat(m), CryptoFault::NonceFormat(n)) => m@ == n,
        _ => false,
    }
}

/// The bytes of `ed25519:`.
pub open spec fn ed25519_tag() -> Seq<u8> {
    seq![101u8, 100u8, 50u8, 53u8, 53u8, 49u8, 57u8, 58u8]
}

/// The bytes of `ecdsa-p256:`.
pub open spec fn p256_tag() -> Seq<u8> {
    seq![101u8, 99u8, 100u8, 115u8, 97u8, 45u8, 112u8, 50u8, 53u8, 54u8, 58u8]
}

/// The bytes of `xchacha20:`.
pub open spec fn xchacha_tag() -> Seq<u8> {
    seq![120u8, 99u8, 104u8, 97u8, 99u8, 104u8, 97u8, 50u8, 48u8, 58u8]
}

/// The bytes of `TRUSTEDGE-KEY-V1`.
pub open spec fn key_header() -> Seq<u8> {
    seq![
        84u8, 82u8, 85u8, 83u8, 84u8, 69u8, 68u8, 71u8, 69u8, 45u8, 75u8, 69u8, 89u8, 45u8, 86u8,
        49u8,
    ]
}

/// The HKDF info of chunk keys, `TRUSTEDGE_TRST_CHUNK_KEY`.
pub open spec fn chunk_key_info() -> Seq<u8> {
    seq![
        84u8, 82u8, 85u8, 83u8, 84u8, 69u8, 68u8, 71u8, 69u8, 95u8, 84u8, 82u8, 83u8, 84u8, 95u8,
        67u8, 72u8, 85u8, 78u8, 75u8, 95u8, 75u8, 69u8, 89u8,
    ]
}

fn ed25519_tag_bytes() -> (r: Vec<u8>)
    ensures
        r@ == ed25519_tag(),
{
    let r = vec![101u8, 100u8, 50u8, 53u8, 53u8, 49u8, 57u8, 58u8];
    assert(r@ =~= ed25519_tag());
    r
}

fn p256_tag_bytes() -> (r: Vec<u8>)
    ensures
        r@ == p256_tag(),
{
    let r = vec![101u8, 99u8, 100u8, 115u8, 97u8, 45u8, 112u8, 50u8, 53u8, 54u8, 58u8];
    assert(r@ =~= p256_tag());
    r
}

fn xchacha_tag_bytes() -> (r: Vec<u8>)
    ensures
        r@ == xchacha_tag(),
{
    let r = vec![120u8, 99u8, 104u8, 97u8, 99u8, 104u8, 97u8, 50u8, 48u8, 58u8];
    assert(r@ =~= xchacha_tag());
    r
}

fn key_header_bytes() -> (r: Vec<u8>)
    ensures
        r@ == key_header(),
{
    let r = vec![
        84u8, 82u8, 85u8, 83u8, 84u8, 69u8, 68u8, 71u8, 69u8, 45u8, 75u8, 69u8, 89u8, 45u8, 86u8,
        49u8,
    ];
    assert(r@ =~= key_header());
    r
}

/// `ed25519:` followed by the base64 of `bytes`.
pub open spec fn ed25519_text(bytes: Seq<u8>) -> Seq<char> {
    "ed25519:"@ + base64_text_of(bytes)
}

/// Base64 text that decodes back to what it encodes.
pub open spec fn base64_roundtrips(bytes: Seq<u8>) -> bool {
    base64_bytes_of(encode_utf8(base64_text_of(bytes))) == Some(bytes)
        && vstd::utf8::is_ascii_chars(base64_text_of(bytes))
        && forall|i: int|
        0 <= i < base64_text_of(bytes).len() ==> base64_char(#[trigger] base64_text_of(bytes)[i])
}

fn tagged_base64(tag: &str, bytes: &[u8]) -> (r: String)
    ensures
        r@ == tag@ + base64_text_of(bytes@),
        base64_roundtrips(bytes@),
{
    let b = base64_encode(bytes);
    concat_str(tag, b.as_str())
}

/// An Ed25519 public key that decodes to a curve point.
pub struct VerifyingKeyBytes {
    pub bytes: [u8; 32],
}

impl VerifyingKeyBytes {
    /// The 32 key bytes.
    pub fn as_bytes(&self) -> (r: &[u8; 32])
        ensures
            r@ == self.bytes@,
    {
        &self.bytes
    }
}

/// A 32-byte secret key; its bytes are reached only through the keypair.
pub struct SecretKey32 {
    bytes: [u8; 32],
}

impl View for SecretKey32 {
    type V = Seq<u8>;

    closed spec fn view(&self) -> Seq<u8> {
        self.bytes@
    }
}

/// Ed25519 device keypair: the public text and the 32-byte secret.
pub struct DeviceKeypair {
    pub public: String,
    pub secret: SecretKey32,
}

impl DeviceKeypair {
    /// The secret key bytes.
    pub open spec fn secret_key(&self) -> Seq<u8> {
        self.secret@
    }

    /// The public text belongs to the secret, and its key decodes.
    pub open spec fn well_formed(&self) -> bool {
        &&& self.secret_key().len() == 32
        &&& self.public@ == ed25519_text(ed25519_public_of(self.secret_key()))
        &&& base64_roundtrips(ed25519_public_of(self.secret_key()))
        &&& ed25519_key_decodes(ed25519_public_of(self.secret_key()))
        &&& ed25519_public_of(self.secret_key()).len() == 32
    }

    fn from_secret(secret: [u8; 32]) -> (r: DeviceKeypair)
        ensures
            r.secret_key() == secret@,
            r.well_formed(),
    {
        let pk = ed25519_public_key(&secret);
        let public = tagged_base64("ed25519:", pk.as_slice());
        DeviceKeypair { public, secret: SecretKey32 { bytes: secret } }
    }

    /// A fresh random keypair.
    pub fn generate() -> (r: Result<DeviceKeypair, CryptoError>)
        ensures
            r matches Ok(k) && k.well_formed(),
    {
        let secret: [u8; 32] = random_bytes::<32>();
        Ok(DeviceKeypair::from_secret(secret))
    }

    /// The secret as `ed25519:` and base64.
    pub fn export_secret(&self) -> (r: String)
        requires
            self.well_formed(),
        ensures
            r@ == ed25519_text(self.secret_key()),
            secret_import_outcome(encode_utf8(r@)) == Ok::<_, CryptoFault>(self.secret_key()),
    {
        let r = tagged_base64("ed25519:", self.secret.bytes.as_slice());
        proof {
            reveal_strlit("ed25519:");
            lemma_tagged_text_bytes("ed25519:"@, ed25519_tag(), self.secret_key());
        }
        r
    }

    /// The raw 32-byte secret.
    pub fn secret_bytes(&self) -> (r: &[u8; 32])
        ensures
            r@ == self.secret_key(),
    {
        &self.secret.bytes
    }

    /// Imports a keypair from `ed25519:` and base64, or from 64 hex digits.
    pub fn import_secret(secret_str: &str) -> (r: Result<DeviceKeypair, CryptoError>)
        ensures
            match r {
                Ok(k) => secret_import_outcome(encode_utf8(secret_str@)) == Ok::<_, CryptoFault>(
                    k.secret_key(),
                ) && k.well_formed(),
                Err(e) => secret_import_outcome(encode_utf8(secret_str@)) matches Err(f)
                    && error_is(e, f),
            },
    {
        let b = secret_str.as_bytes();
        let tag = ed25519_tag_bytes();
        let decoded = if starts_with(b, tag.as_slice()) {
            let rest = tail_from(b, 8);
            match base64_decode(rest.as_slice()) {
                Ok(v) => v,
                Err(e) => {
                    return Err(CryptoError::InvalidKeyFormat(concat_str("Invalid base64: ", e.as_str())));
                },
            }
        } else if b.len() == 64 {
            match hex_decode(b) {
                Ok(v) => v,
                Err(e) => {
                    return Err(CryptoError::InvalidKeyFormat(concat_str("Invalid hex: ", e.as_str())));
                },
            }
        } else {
            return Err(
                CryptoError::InvalidKeyFormat(String::from_str("Must be ed25519:BASE64 or 64-char hex")),
            );
        };
        if decoded.len() != 32 {
            return Err(CryptoError::InvalidKeyFormat(String::from_str("Secret key must be 32 bytes")));
        }
        let secret: [u8; 32] = read_array::<32>(decoded.as_slice(), 0);
        assert(decoded@.subrange(0, 32) =~= decoded@);
        Ok(DeviceKeypair::from_secret(secret))
    }

    /// Parses an `ed25519:` public text into a key that decodes.
    pub fn from_public(public_str: &str) -> (r: Result<VerifyingKeyBytes, CryptoError>)
        ensures
            match r {
                Ok(k) => public_import_outcome(encode_utf8(public_str@)) == Ok::<_, CryptoFault>(
                    k.bytes@,
                ),
                Err(e) => public_import_outcome(encode_utf8(public_str@)) matches Err(f)
                    && error_is(e, f),
            },
    {
        let b = public_str.as_bytes();
        let tag = ed25519_tag_bytes();
        if !starts_with(b, tag.as_slice()) {
            return Err(
                CryptoError::InvalidKeyFormat(String::from_str("Public key must start with 'ed25519:'")),
            );
        }
        let rest = tail_from(b, 8);
        let pub_bytes = match base64_decode(rest.as_slice()) {
            Ok(v) => v,
            Err(e) => {
                return Err(CryptoError::InvalidKeyFormat(concat_str("Invalid base64: ", e.as_str())));
            },
        };
        if pub_bytes.len() != 32 {
            return Err(CryptoError::InvalidKeyFormat(String::from_str("Public key must be 32 bytes")));
        }
        let key: [u8; 32] = read_array::<32>(pub_bytes.as_slice(), 0);
        assert(pub_bytes@.subrange(0, 32) =~= pub_bytes@);
        match ed25519_key_check(&key) {
            Ok(()) => Ok(VerifyingKeyBytes { bytes: key }),
            Err(e) => Err(CryptoError::InvalidKeyFormat(concat_str("Invalid public key: ", e.as_str()))),
        }
    }
}

/// The public text of a well-formed keypair parses back to its public key.
pub proof fn law_public_text_parses(kp: DeviceKeypair)
    requires
        kp.well_formed(),
    ensures
        public_import_outcome(encode_utf8(kp.public@)) == Ok::<_, CryptoFault>(
            ed25519_public_of(kp.secret_key()),
        ),
{
    reveal_strlit("ed25519:");
    lemma_tagged_text_bytes("ed25519:"@, ed25519_tag(), ed25519_public_of(kp.secret_key()));
}

/// What importing a secret from the bytes of its text gives: the secret, or
/// the fault.
pub open spec fn secret_import_outcome(b: Seq<u8>) -> Result<Seq<u8>, CryptoFault> {
    let decoded: Result<Seq<u8>, CryptoFault> = if b.len() >= 8 && b.subrange(0, 8) == ed25519_tag() {
        let rest = b.subrange(8, b.len() as int);
        match base64_bytes_of(rest) {
            Some(v) => Ok(v),
            None => Err(CryptoFault::KeyFormat("Invalid base64: "@ + base64_error_of(rest))),
        }
    } else if b.len() == 64 {
        match hex_bytes_of(b) {
            Some(v) => Ok(v),
            None => Err(CryptoFault::KeyFormat("Invalid hex: "@ + hex_error_of(b))),
        }
    } else {
        Err(CryptoFault::KeyFormat("Must be ed25519:BASE64 or 64-char hex"@))
    };
    match decoded {
        Ok(v) => if v.len() == 32 {
            Ok(v)
        } else {
            Err(CryptoFault::KeyFormat("Secret key must be 32 bytes"@))
        },
        Err(f) => Err(f),
    }
}

/// The 64-digit hexadecimal text of a 32-byte secret imports as that
/// secret (see [`DeviceKeypair::import_secret`]).
pub proof fn law_import_hex_secret(secret: Seq<u8>)
    requires
        secret.len() == 32,
    ensures
        secret_import_outcome(encode_utf8(hex_text(secret))) == Ok::<_, CryptoFault>(secret),
{
    let b = encode_utf8(hex_text(secret));
    crate::text::law_hex_text_reads_back(secret);
    crate::text::lemma_hex_text_bytes(secret);
    assert(crate::text::hex_digit_value(b[7]) is Some);
    assert(ed25519_tag()[7] == 58u8);
    assert(b.subrange(0, 8)[7] == b[7]);
    assert(b.subrange(0, 8) != ed25519_tag());
}

/// What parsing a public text (its bytes) gives: the key bytes, or the fault.
pub open spec fn public_import_outcome(b: Seq<u8>) -> Result<Seq<u8>, CryptoFault> {
    if !(b.len() >= 8 && b.subrange(0, 8) == ed25519_tag()) {
        Err(CryptoFault::KeyFormat("Public key must start with 'ed25519:'"@))
    } else {
        let rest = b.subrange(8, b.len() as int);
        match base64_bytes_of(rest) {
            None => Err(CryptoFault::KeyFormat("Invalid base64: "@ + base64_error_of(rest))),
            Some(v) => if v.len() != 32 {
                Err(CryptoFault::KeyFormat("Public key must be 32 bytes"@))
            } else if !ed25519_key_decodes(v) {
                Err(CryptoFault::KeyFormat("Invalid public key: "@ + ed25519_key_error_of(v)))
            } else {
                Ok(v)
            },
        }
    }
}

/// The chunk encryption key of a device: HKDF-SHA256 of the device secret
/// with no salt and the info `TRUSTEDGE_TRST_CHUNK_KEY`.
pub fn derive_chunk_key(device_secret_bytes: &[u8; 32]) -> (r: [u8; 32])
    ensures
        r@ == hkdf_sha256_of(None, device_secret_bytes@, chunk_key_info(), 32),
{
    let info = vec![
        84u8, 82u8, 85u8, 83u8, 84u8, 69u8, 68u8, 71u8, 69u8, 95u8, 84u8, 82u8, 83u8, 84u8, 95u8,
        67u8, 72u8, 85u8, 78u8, 75u8, 95u8, 75u8, 69u8, 89u8,
    ];
    assert(info@ =~= chunk_key_info());
    hkdf_sha256::<32>(None, device_secret_bytes.as_slice(), info.as_slice())
}

/// A fresh random 24-byte XChaCha20 nonce.
pub fn generate_nonce24() -> (r: [u8; 24]) {
    random_bytes::<24>()
}

/// A nonce in manifest notation: `xchacha20:` and base64.
pub fn format_nonce(nonce: &[u8; 24]) -> (r: String)
    ensures
        r@ == "xchacha20:"@ + base64_text_of(nonce@),
        nonce_outcome(encode_utf8(r@)) == Ok::<_, CryptoFault>(nonce@),
{
    let r = tagged_base64("xchacha20:", nonce.as_slice());
    proof {
        reveal_strlit("xchacha20:");
        lemma_tagged_text_bytes("xchacha20:"@, xchacha_tag(), nonce@);
    }
    r
}

/// What parsing a nonce's text (its bytes) gives.
pub open spec fn nonce_outcome(b: Seq<u8>) -> Result<Seq<u8>, CryptoFault> {
    if !(b.len() >= 10 && b.subrange(0, 10) == xchacha_tag()) {
        Err(CryptoFault::NonceFormat("Nonce must start with 'xchacha20:'"@))
    } else {
        let rest = b.subrange(10, b.len() as int);
        match base64_bytes_of(rest) {
            None => Err(CryptoFault::NonceFormat("Invalid base64: "@ + base64_error_of(rest))),
            Some(v) => if v.len() != 24 {
                Err(CryptoFault::NonceFormat("Nonce must be 24 bytes"@))
            } else {
                Ok(v)
            },
        }
    }
}

/// Parses a nonce in manifest notation.
pub fn parse_nonce(nonce_str: &str) -> (r: Result<[u8; 24], CryptoError>)
    ensures
        match r {
            Ok(n) => nonce_outcome(encode_utf8(nonce_str@)) == Ok::<_, CryptoFault>(n@),
            Err(e) => nonce_outcome(encode_utf8(nonce_str@)) matches Err(f) && error_is(e, f),
        },
{
    let b = nonce_str.as_bytes();
    let tag = xchacha_tag_bytes();
    if !starts_with(b, tag.as_slice()) {
        return Err(
            CryptoError::InvalidNonceFormat(String::from_str("Nonce must start with 'xchacha20:'")),
        );
    }
    let rest = tail_from(b, 10);
    let bytes = match base64_decode(rest.as_slice()) {
        Ok(v) => v,
        Err(e) => {
            return Err(CryptoError::InvalidNonceFormat(concat_str("Invalid base64: ", e.as_str())));
        },
    };
    if bytes.len() != 24 {
        return Err(CryptoError::InvalidNonceFormat(String::from_str("Nonce must be 24 bytes")));
    }
    let n: [u8; 24] = read_array::<24>(bytes.as_slice(), 0);
    assert(bytes@.subrange(0, 24) =~= bytes@);
    Ok(n)
}

/// Seals a segment with XChaCha20-Poly1305 under associated data.  What it
/// seals, [`decrypt_segment`] opens again with the same key, nonce and data.
pub fn encrypt_segment(key: &[u8; 32], nonce24: &[u8; 24], plaintext: &[u8], aad: &[u8]) -> (r: Result<
    Vec<u8>,
    CryptoError,
>)
    ensures
        match r {
            Ok(c) => c@ == xchacha_seal_of(key@, nonce24@, aad@, plaintext@) && xchacha_open_of(
                key@,
                nonce24@,
                aad@,
                c@,
            ) == Some(plaintext@),
            Err(e) => plaintext@.len() / 64 >= 0xffff_ffff && error_is(
                e,
                CryptoFault::Encryption("XChaCha20Poly1305 encryption failed: aead::Error"@),
            ),
        },
        r is Err <==> plaintext@.len() / 64 >= 0xffff_ffff,
{
    match xchacha_encrypt(key, nonce24, aad, plaintext) {
        Some(c) => Ok(c),
        None => Err(
            CryptoError::EncryptionFailed(
                String::from_str("XChaCha20Poly1305 encryption failed: aead::Error"),
            ),
        ),
    }
}

/// Opens a segment sealed by [`encrypt_segment`].
pub fn decrypt_segment(key: &[u8; 32], nonce24: &[u8; 24], ciphertext: &[u8], aad: &[u8]) -> (r:
    Result<Vec<u8>, CryptoError>)
    ensures
        match r {
            Ok(p) => xchacha_open_of(key@, nonce24@, aad@, ciphertext@) == Some(p@),
            Err(e) => xchacha_open_of(key@, nonce24@, aad@, ciphertext@) is None && error_is(
                e,
                CryptoFault::Decryption("XChaCha20Poly1305 decryption failed: aead::Error"@),
            ),
        },
{
    match xchacha_decrypt(key, nonce24, aad, ciphertext) {
        Some(p) => Ok(p),
        None => Err(
            CryptoError::DecryptionFailed(
                String::from_str("XChaCha20Poly1305 decryption failed: aead::Error"),
            ),
        ),
    }
}

/// The associated data of a segment: a compact JSON object of the header
/// fields, keys in sorted order.
pub open spec fn aad_text(
    trst_version: Seq<char>,
    profile: Seq<char>,
    device_id: Seq<char>,
    started_at: Seq<char>,
) -> Seq<char> {
    "{\"capture.started_at\":"@ + json_string_of(started_at) + ",\"device.id\":"@ + json_string_of(
        device_id,
    ) + ",\"profile\":"@ + json_string_of(profile) + ",\"trst_version\":"@ + json_string_of(
        trst_version,
    ) + "}"@
}

/// Builds the associated data of a segment from its header fields.
pub fn generate_aad(trst_version: &str, profile: &str, device_id: &str, started_at: &str) -> (r: Vec<
    u8,
>)
    ensures
        r@ == encode_utf8(aad_text(trst_version@, profile@, device_id@, started_at@)),
{
    let mut s = String::from_str("{\"capture.started_at\":");
    s.append(json_string(started_at).as_str());
    s.append(",\"device.id\":");
    s.append(json_string(device_id).as_str());
    s.append(",\"profile\":");
    s.append(json_string(profile).as_str());
    s.append(",\"trst_version\":");
    s.append(json_string(trst_version).as_str());
    s.append("}");
    let b = s.as_str().as_bytes();
    slice_to_vec(b, 0, b.len())
}

/// Whether bytes begin with the encrypted key file header and its newline.
pub fn is_encrypted_key_file(data: &[u8]) -> (r: bool)
    ensures
        r == (data@.len() >= 17 && data@.subrange(0, 17) == key_header().push(10u8)),
{
    let mut h = key_header_bytes();
    h.push(10u8);
    starts_with(data, h.as_slice())
}

/// Signs canonical manifest bytes: `ed25519:` and the base64 signature.
/// The result verifies under the keypair's public text.
pub fn sign_manifest(device_keypair: &DeviceKeypair, canonical_bytes: &[u8]) -> (r: Result<
    String,
    CryptoError,
>)
    requires
        device_keypair.well_formed(),
    ensures
        r matches Ok(s) && s@ == ed25519_text(
            ed25519_signature_of(device_keypair.secret_key(), canonical_bytes@),
        ),
        r matches Ok(s) && manifest_verdict(
            encode_utf8(device_keypair.public@),
            canonical_bytes@,
            encode_utf8(s@),
        ) == Ok::<bool, CryptoFault>(true),
{
    let sig = ed25519_sign(&device_keypair.secret.bytes, canonical_bytes);
    let s = tagged_base64("ed25519:", sig.as_slice());
    proof {
        reveal_strlit("ed25519:");
        lemma_tagged_text_bytes("ed25519:"@, ed25519_tag(), sig@);
        lemma_tagged_text_bytes(
            "ed25519:"@,
            ed25519_tag(),
            ed25519_public_of(device_keypair.secret_key()),
        );
    }
    Ok(s)
}

/// The bytes of `tag` followed by the base64 text of `bytes` split back into
/// the tag and base64 text that decodes to `bytes`.
proof fn lemma_tagged_text_bytes(tag: Seq<char>, tag_bytes: Seq<u8>, bytes: Seq<u8>)
    requires
        tag.len() == tag_bytes.len(),
        forall|i: int| 0 <= i < tag.len() ==> tag[i] as u8 == tag_bytes[i] && '\0' <= #[trigger] tag[i]
            <= '\u{7f}',
        base64_roundtrips(bytes),
    ensures
        ({
            let b = encode_utf8(tag + base64_text_of(bytes));
            &&& b.len() >= tag_bytes.len()
            &&& b.subrange(0, tag_bytes.len() as int) == tag_bytes
            &&& base64_bytes_of(b.subrange(tag_bytes.len() as int, b.len() as int)) == Some(bytes)
        }),
{
    let t = base64_text_of(bytes);
    let cs = tag + t;
    assert(vstd::utf8::is_ascii_chars(cs)) by {
        assert forall|i: int| 0 <= i < cs.len() implies '\0' <= #[trigger] cs[i] <= '\u{7f}' by {
            if i < tag.len() {
                assert(cs[i] == tag[i]);
            } else {
                assert(cs[i] == t[i - tag.len()]);
            }
        }
    }
    vstd::utf8::is_ascii_chars_encode_utf8(cs);
    vstd::utf8::is_ascii_chars_encode_utf8(t);
    let b = encode_utf8(cs);
    assert(b.subrange(0, tag_bytes.len() as int) =~= tag_bytes) by {
        assert forall|i: int| 0 <= i < tag_bytes.len() implies b.subrange(
            0,
            tag_bytes.len() as int,
        )[i] == tag_bytes[i] by {
            assert(cs[i] == tag[i]);
        }
    }
    assert(b.subrange(tag_bytes.len() as int, b.len() as int) =~= encode_utf8(t)) by {
        assert forall|i: int| 0 <= i < t.len() implies b.subrange(
            tag_bytes.len() as int,
            b.len() as int,
        )[i] == encode_utf8(t)[i] by {
            assert(cs[i + tag.len()] == t[i]);
        }
    }
}

/// What verifying a manifest signature gives, from the bytes of the device
/// public text, the message and the bytes of the signature text.
pub open spec fn manifest_verdict(pk: Seq<u8>, msg: Seq<u8>, sig: Seq<u8>) -> Result<bool, CryptoFault> {
    if sig.len() >= 8 && sig.subrange(0, 8) == ed25519_tag() {
        match public_import_outcome(pk) {
            Err(f) => Err(f),
            Ok(key) => {
                let rest = sig.subrange(8, sig.len() as int);
                match base64_bytes_of(rest) {
                    None => Err(
                        CryptoFault::SignatureFormat("Invalid base64: "@ + base64_error_of(rest)),
                    ),
                    Some(s) => if s.len() != 64 {
                        Err(CryptoFault::SignatureFormat("Ed25519 signature must be 64 bytes"@))
                    } else {
                        Ok(ed25519_accepts(key, msg, s))
                    },
                }
            },
        }
    } else if sig.len() >= 11 && sig.subrange(0, 11) == p256_tag() {
        if !(pk.len() >= 11 && pk.subrange(0, 11) == p256_tag()) {
            Err(CryptoFault::KeyFormat("ECDSA P-256 public key must start with 'ecdsa-p256:'"@))
        } else {
            let pk_rest = pk.subrange(11, pk.len() as int);
            match base64_bytes_of(pk_rest) {
                None => Err(
                    CryptoFault::KeyFormat(
                        "Invalid base64 in public key: "@ + base64_error_of(pk_rest),
                    ),
                ),
                Some(key) => if !p256_key_parses(key) {
                    Err(CryptoFault::KeyFormat("Invalid P-256 public key: "@ + p256_key_error_of(key)))
                } else {
                    let sig_rest = sig.subrange(11, sig.len() as int);
                    match base64_bytes_of(sig_rest) {
                        None => Err(
                            CryptoFault::SignatureFormat(
                                "Invalid base64 in signature: "@ + base64_error_of(sig_rest),
                            ),
                        ),
                        Some(der) => if !p256_der_parses(der) {
                            Err(
                                CryptoFault::SignatureFormat(
                                    "Invalid P-256 DER signature: "@ + p256_der_error_of(der),
                                ),
                            )
                        } else {
                            Ok(p256_accepts(key, msg, der))
                        },
                    }
                },
            }
        }
    } else {
        Err(
            CryptoFault::SignatureFormat(
                "Unsupported signature algorithm. Expected ed25519: or ecdsa-p256: prefix"@,
            ),
        )
    }
}

/// Verifies a manifest signature, dispatching on its prefix: `ed25519:`
/// with an `ed25519:` public text, or `ecdsa-p256:` with an `ecdsa-p256:`
/// SEC1 public key and a DER signature.  `Ok(false)` is a well-formed
/// signature that does not verify.
pub fn verify_manifest(device_public: &str, canonical_bytes: &[u8], signature_str: &str) -> (r:
    Result<bool, CryptoError>)
    ensures
        match r {
            Ok(v) => manifest_verdict(
                encode_utf8(device_public@),
                canonical_bytes@,
                encode_utf8(signature_str@),
            ) == Ok::<bool, CryptoFault>(v),
            Err(e) => manifest_verdict(
                encode_utf8(device_public@),
                canonical_bytes@,
                encode_utf8(signature_str@),
            ) matches Err(f) && error_is(e, f),
        },
{
    let sig = signature_str.as_bytes();
    let ed_tag = ed25519_tag_bytes();
    let p_tag = p256_tag_bytes();
    if starts_with(sig, ed_tag.as_slice()) {
        let key = match DeviceKeypair::from_public(device_public) {
            Ok(k) => k,
            Err(e) => {
                return Err(e);
            },
        };
        let rest = tail_from(sig, 8);
        let sig_bytes = match base64_decode(rest.as_slice()) {
            Ok(v) => v,
            Err(e) => {
                return Err(CryptoError::InvalidSignatureFormat(concat_str("Invalid base64: ", e.as_str())));
            },
        };
        if sig_bytes.len() != 64 {
            return Err(
                CryptoError::InvalidSignatureFormat(
                    String::from_str("Ed25519 signature must be 64 bytes"),
                ),
            );
        }
        let s: [u8; 64] = read_array::<64>(sig_bytes.as_slice(), 0);
        assert(sig_bytes@.subrange(0, 64) =~= sig_bytes@);
        match ed25519_verify(&key.bytes, canonical_bytes, &s) {
            Some(ok) => Ok(ok),
            None => Ok(false),
        }
    } else if starts_with(sig, p_tag.as_slice()) {
        verify_manifest_ecdsa_p256(device_public, canonical_bytes, sig)
    } else {
        Err(
            CryptoError::InvalidSignatureFormat(
                String::from_str(
                    "Unsupported signature algorithm. Expected ed25519: or ecdsa-p256: prefix",
                ),
            ),
        )
    }
}

fn verify_manifest_ecdsa_p256(device_public: &str, canonical_bytes: &[u8], sig: &[u8]) -> (r: Result<
    bool,
    CryptoError,
>)
    requires
        sig@.len() >= 11 && sig@.subrange(0, 11) == p256_tag(),
        !(sig@.len() >= 8 && sig@.subrange(0, 8) == ed25519_tag()),
    ensures
        match r {
            Ok(v) => manifest_verdict(encode_utf8(device_public@), canonical_bytes@, sig@) == Ok::<
                bool,
                CryptoFault,
            >(v),
            Err(e) => manifest_verdict(encode_utf8(device_public@), canonical_bytes@, sig@) matches Err(
                f,
            ) && error_is(e, f),
        },
{
    let pk = device_public.as_bytes();
    let p_tag = p256_tag_bytes();
    if !starts_with(pk, p_tag.as_slice()) {
        return Err(
            CryptoError::InvalidKeyFormat(
                String::from_str("ECDSA P-256 public key must start with 'ecdsa-p256:'"),
            ),
        );
    }
    let pk_rest = tail_from(pk, 11);
    let key = match base64_decode(pk_rest.as_slice()) {
        Ok(v) => v,
        Err(e) => {
            return Err(
                CryptoError::InvalidKeyFormat(concat_str("Invalid base64 in public key: ", e.as_str())),
            );
        },
    };
    match p256_key_check(key.as_slice()) {
        Ok(()) => {},
        Err(e) => {
            return Err(CryptoError::InvalidKeyFormat(concat_str("Invalid P-256 public key: ", e.as_str())));
        },
    }
    let sig_rest = tail_from(sig, 11);
    let der = match base64_decode(sig_rest.as_slice()) {
        Ok(v) => v,
        Err(e) => {
            return Err(
                CryptoError::InvalidSignatureFormat(
                    concat_str("Invalid base64 in signature: ", e.as_str()),
                ),
            );
        },
    };
    match p256_der_check(der.as_slice()) {
        Ok(()) => {},
        Err(e) => {
            return Err(
                CryptoError::InvalidSignatureFormat(
                    concat_str("Invalid P-256 DER signature: ", e.as_str()),
                ),
            );
        },
    }
    Ok(p256_verify(key.as_slice(), canonical_bytes, der.as_slice()))
}

/// Members of a key file's metadata that import reads: `salt` and `nonce`
/// as text and `iterations` as an unsigned number, each when present.
pub struct KeyFileMeta {
    pub salt: Option<String>,
    pub nonce: Option<String>,
    pub iterations: Option<u64>,
}

/// The metadata line of an encrypted key file, as written: a compact JSON
/// object with its members in sorted order.
pub open spec fn key_meta_text(salt_b64: Seq<char>, nonce_b64: Seq<char>, iterations: u64) -> Seq<
    char,
> {
    "{\"iterations\":"@ + decimal(iterations as nat) + ",\"nonce\":\""@ + nonce_b64
        + "\",\"salt\":\""@ + salt_b64 + "\",\"version\":1}"@
}

/// An encrypted key file: header line, metadata line, then the ciphertext.
pub open spec fn key_file_bytes(salt: Seq<u8>, nonce: Seq<u8>, ct: Seq<u8>) -> Seq<u8> {
    key_header().push(10u8) + encode_utf8(
        key_meta_text(base64_text_of(salt), base64_text_of(nonce), 600_000),
    ).push(10u8) + ct
}

/// The ciphertext of a secret under a passphrase, salt and nonce.
pub open spec fn sealed_secret(secret: Seq<u8>, passphrase: Seq<u8>, salt: Seq<u8>, nonce: Seq<u8>) -> Seq<
    u8,
> {
    aes256gcm_seal_of(pbkdf2_sha256_of(passphrase, salt, 600_000), nonce, Seq::empty(), secret)
}

/// The encrypted key file of a secret for a given salt and nonce: the
/// secret sealed with AES-256-GCM under the PBKDF2-HMAC-SHA256 key (600 000
/// iterations) of the passphrase.
pub fn encrypted_key_file(secret: &[u8; 32], passphrase: &str, salt: &[u8; 32], nonce: &[u8; 12]) -> (r:
    Vec<u8>)
    ensures
        written_key_file(r@, encode_utf8(passphrase@), salt@, nonce@, secret@),
{
    let key = pbkdf2_sha256(passphrase.as_bytes(), salt.as_slice(), PBKDF2_MIN_ITERATIONS);
    let empty: Vec<u8> = Vec::new();
    let ct = aes256gcm_encrypt(&key, nonce, empty.as_slice(), secret.as_slice());
    let salt_b64 = base64_encode(salt.as_slice());
    let nonce_b64 = base64_encode(nonce.as_slice());
    let mut meta = String::from_str("{\"iterations\":");
    push_decimal(&mut meta, 600_000u64);
    meta.append(",\"nonce\":\"");
    meta.append(nonce_b64.as_str());
    meta.append("\",\"salt\":\"");
    meta.append(salt_b64.as_str());
    meta.append("\",\"version\":1}");
    let mut out = key_header_bytes();
    out.push(10u8);
    push_all(&mut out, meta.as_str().as_bytes());
    out.push(10u8);
    push_all(&mut out, ct.as_slice());
    assert(out@ =~= key_file_bytes(
        salt@,
        nonce@,
        sealed_secret(secret@, encode_utf8(passphrase@), salt@, nonce@),
    ));
    out
}

impl DeviceKeypair {
    /// Exports the secret encrypted under a passphrase, with a fresh random
    /// salt and nonce; see [`encrypted_key_file`].
    pub fn export_secret_encrypted(&self, passphrase: &str) -> (r: Result<Vec<u8>, CryptoError>)
        requires
            self.well_formed(),
        ensures
            r matches Ok(v) && exported_key_file(v@, encode_utf8(passphrase@), self.secret_key()),
    {
        let salt: [u8; 32] = random_bytes::<32>();
        let nonce: [u8; 12] = random_bytes::<12>();
        let v = encrypted_key_file(&self.secret.bytes, passphrase, &salt, &nonce);
        assert(written_key_file(v@, encode_utf8(passphrase@), salt@, nonce@, self.secret_key()));
        Ok(v)
    }
}

/// What the metadata and ciphertext of a key file give under a passphrase:
/// the secret, or the fault.
pub open spec fn key_meta_outcome(
    meta: Result<(Option<Seq<char>>, Option<Seq<char>>, Option<u64>), Seq<char>>,
    ct: Seq<u8>,
    pass: Seq<u8>,
) -> Result<Seq<u8>, CryptoFault> {
    match meta {
        Err(e) => Err(CryptoFault::KeyFormat("Invalid JSON metadata: "@ + e)),
        Ok((salt_t, nonce_t, iters)) => match salt_t {
            None => Err(CryptoFault::KeyFormat("Missing salt"@)),
            Some(st) => match base64_bytes_of(encode_utf8(st)) {
                None => Err(
                    CryptoFault::KeyFormat(
                        "Invalid salt base64: "@ + base64_error_of(encode_utf8(st)),
                    ),
                ),
                Some(salt) => match nonce_t {
                    None => Err(CryptoFault::KeyFormat("Missing nonce"@)),
                    Some(nt) => match base64_bytes_of(encode_utf8(nt)) {
                        None => Err(
                            CryptoFault::KeyFormat(
                                "Invalid nonce base64: "@ + base64_error_of(encode_utf8(nt)),
                            ),
                        ),
                        Some(nonce) => match iters {
                            None => Err(CryptoFault::KeyFormat("Missing iterations"@)),
                            Some(it) => key_decrypt_outcome(salt, nonce, it as u32, ct, pass),
                        },
                    },
                },
            },
        },
    }
}

/// The last steps of a key file import: the iteration floor, the nonce
/// length, decryption and the secret's length.
pub open spec fn key_decrypt_outcome(salt: Seq<u8>, nonce: Seq<u8>, it: u32, ct: Seq<u8>, pass: Seq<u8>) -> Result<
    Seq<u8>,
    CryptoFault,
> {
    if it < 600_000 {
        Err(
            CryptoFault::KeyFormat(
                "Key file uses "@ + decimal(it as nat) + " PBKDF2 iterations, minimum is 600000"@,
            ),
        )
    } else if nonce.len() != 12 {
        Err(CryptoFault::KeyFormat("Nonce must be 12 bytes"@))
    } else {
        match aes256gcm_open_of(pbkdf2_sha256_of(pass, salt, it), nonce, Seq::empty(), ct) {
            None => Err(CryptoFault::Decryption("Wrong passphrase or corrupted key file"@)),
            Some(pt) => if pt.len() != 32 {
                Err(CryptoFault::KeyFormat("Decrypted key must be 32 bytes"@))
            } else {
                Ok(pt)
            },
        }
    }
}

/// What importing an encrypted key file under a passphrase (its bytes)
/// gives: the secret, or the fault.
pub open spec fn key_file_outcome(data: Seq<u8>, pass: Seq<u8>) -> Result<Seq<u8>, CryptoFault> {
    let h = find_byte(data, 0, 10u8);
    if h >= data.len() {
        Err(CryptoFault::KeyFormat("Missing header line"@))
    } else if !valid_utf8(data.subrange(0, h)) {
        Err(CryptoFault::KeyFormat("Invalid UTF-8 header"@))
    } else if data.subrange(0, h) != key_header() {
        Err(
            CryptoFault::KeyFormat(
                "Expected header 'TRUSTEDGE-KEY-V1', got '"@ + decode_utf8(data.subrange(0, h))
                    + "'"@,
            ),
        )
    } else {
        let me = find_byte(data, h + 1, 10u8);
        if me >= data.len() {
            Err(CryptoFault::KeyFormat("Missing metadata line"@))
        } else if !valid_utf8(data.subrange(h + 1, me)) {
            Err(CryptoFault::KeyFormat("Invalid UTF-8 metadata"@))
        } else {
            key_meta_outcome(
                key_file_meta_of(decode_utf8(data.subrange(h + 1, me))),
                data.subrange(me + 1, data.len() as int),
                pass,
            )
        }
    }
}

/// What [`encrypted_key_file`] promises of a file it wrote for a secret,
/// passphrase (its bytes), salt and nonce.
pub open spec fn written_key_file(
    data: Seq<u8>,
    pass: Seq<u8>,
    salt: Seq<u8>,
    nonce: Seq<u8>,
    secret: Seq<u8>,
) -> bool {
    &&& salt.len() == 32
    &&& nonce.len() == 12
    &&& secret.len() == 32
    &&& base64_roundtrips(salt)
    &&& base64_roundtrips(nonce)
    &&& aes256gcm_open_of(
        pbkdf2_sha256_of(pass, salt, 600_000),
        nonce,
        Seq::empty(),
        sealed_secret(secret, pass, salt, nonce),
    ) == Some(secret)
    &&& data == key_file_bytes(salt, nonce, sealed_secret(secret, pass, salt, nonce))
}

/// A key file written for a secret and passphrase with some salt and nonce.
pub open spec fn exported_key_file(data: Seq<u8>, pass: Seq<u8>, secret: Seq<u8>) -> bool {
    exists|salt: Seq<u8>, nonce: Seq<u8>|
        #![trigger written_key_file(data, pass, salt, nonce, secret)]
        written_key_file(data, pass, salt, nonce, secret)
}

/// Printable ASCII, space to tilde.
spec fn printable(s: Seq<char>) -> bool {
    forall|i: int| 0 <= i < s.len() ==> ' ' <= #[trigger] s[i] <= '~'
}

proof fn lemma_printable_concat(a: Seq<char>, b: Seq<char>)
    requires
        printable(a),
        printable(b),
    ensures
        printable(a + b),
{
    assert forall|i: int| 0 <= i < (a + b).len() implies ' ' <= #[trigger] (a + b)[i] <= '~' by {
        if i < a.len() {
            assert((a + b)[i] == a[i]);
        } else {
            assert((a + b)[i] == b[i - a.len()]);
        }
    }
}

proof fn lemma_printable_bytes(s: Seq<char>)
    requires
        printable(s),
    ensures
        vstd::utf8::is_ascii_chars(s),
        encode_utf8(s).len() == s.len(),
        forall|i: int| 0 <= i < s.len() ==> #[trigger] encode_utf8(s)[i] != 10u8,
        valid_utf8(encode_utf8(s)),
        decode_utf8(encode_utf8(s)) == s,
{
    assert(vstd::utf8::is_ascii_chars(s));
    vstd::utf8::is_ascii_chars_encode_utf8(s);
    vstd::utf8::encode_utf8_valid_utf8(s);
    vstd::utf8::encode_utf8_decode_utf8(s);
    assert forall|i: int| 0 <= i < s.len() implies #[trigger] encode_utf8(s)[i] != 10u8 by {
        assert(s[i] as u8 == encode_utf8(s)[i]);
    }
}

proof fn lemma_written_key_file(data: Seq<u8>, pass: Seq<u8>, salt: Seq<u8>, nonce: Seq<u8>, secret: Seq<u8>)
    requires
        written_key_file(data, pass, salt, nonce, secret),
    ensures
        find_byte(data, 0, 10u8) == 16,
        valid_utf8(data.subrange(0, 16)),
        data.subrange(0, 16) == key_header(),
        json_plain(base64_text_of(salt)),
        json_plain(base64_text_of(nonce)),
        ({
            let mt = key_meta_text(base64_text_of(salt), base64_text_of(nonce), 600_000);
            let me: int = 17 + mt.len() as int;
            &&& encode_utf8(mt).len() == mt.len()
            &&& me < data.len()
            &&& find_byte(data, 17, 10u8) == me
            &&& valid_utf8(data.subrange(17, me))
            &&& decode_utf8(data.subrange(17, me)) == mt
            &&& data.subrange(me + 1, data.len() as int) == sealed_secret(secret, pass, salt, nonce)
        }),
{
    let st = base64_text_of(salt);
    let nt = base64_text_of(nonce);
    let mt = key_meta_text(st, nt, 600_000);
    let ct = sealed_secret(secret, pass, salt, nonce);
    reveal_strlit("{\"iterations\":");
    reveal_strlit(",\"nonce\":\"");
    reveal_strlit("\",\"salt\":\"");
    reveal_strlit("\",\"version\":1}");
    reveal_strlit("TRUSTEDGE-KEY-V1");
    lemma_decimal_digits(600_000);
    assert(printable(st));
    assert(printable(nt));
    assert(printable(decimal(600_000)));
    assert(printable("{\"iterations\":"@));
    assert(printable(",\"nonce\":\""@));
    assert(printable("\",\"salt\":\""@));
    assert(printable("\",\"version\":1}"@));
    lemma_printable_concat("{\"iterations\":"@, decimal(600_000));
    lemma_printable_concat("{\"iterations\":"@ + decimal(600_000), ",\"nonce\":\""@);
    lemma_printable_concat("{\"iterations\":"@ + decimal(600_000) + ",\"nonce\":\""@, nt);
    lemma_printable_concat(
        "{\"iterations\":"@ + decimal(600_000) + ",\"nonce\":\""@ + nt,
        "\",\"salt\":\""@,
    );
    lemma_printable_concat(
        "{\"iterations\":"@ + decimal(600_000) + ",\"nonce\":\""@ + nt + "\",\"salt\":\""@,
        st,
    );
    lemma_printable_concat(
        "{\"iterations\":"@ + decimal(600_000) + ",\"nonce\":\""@ + nt + "\",\"salt\":\""@ + st,
        "\",\"version\":1}"@,
    );
    lemma_printable_bytes(mt);
    let hc = "TRUSTEDGE-KEY-V1"@;
    assert(printable(hc));
    lemma_printable_bytes(hc);
    assert(encode_utf8(hc) =~= key_header()) by {
        assert forall|i: int| 0 <= i < 16 implies encode_utf8(hc)[i] == key_header()[i] by {
            vstd::utf8::is_ascii_chars_encode_utf8(hc);
            assert(hc[i] as u8 == encode_utf8(hc)[i]);
        }
    }
    let m = encode_utf8(mt);
    let me: int = 17 + mt.len() as int;
    assert(data =~= key_header().push(10u8) + m.push(10u8) + ct);
    assert(data.subrange(0, 16) =~= key_header());
    assert forall|j: int| 0 <= j < 16 implies data[j] != 10u8 by {
        assert(data[j] == key_header()[j]);
    }
    lemma_find_byte_at(data, 0, 16, 10u8);
    assert forall|j: int| 17 <= j < me implies data[j] != 10u8 by {
        assert(data[j] == m[j - 17]);
    }
    assert(data[me] == 10u8);
    lemma_find_byte_at(data, 17, me, 10u8);
    assert(data.subrange(17, me) =~= m);
    assert(data.subrange(me + 1, data.len() as int) =~= ct);
}

fn key_format(msg: &str) -> (r: CryptoError)
    ensures
        error_is(r, CryptoFault::KeyFormat(msg@)),
{
    CryptoError::InvalidKeyFormat(String::from_str(msg))
}

impl DeviceKeypair {
    /// Imports a keypair from an encrypted key file and its passphrase.  A
    /// file written by [`encrypted_key_file`] under the same passphrase
    /// imports back to its secret.
    pub fn import_secret_encrypted(data: &[u8], passphrase: &str) -> (r: Result<
        DeviceKeypair,
        CryptoError,
    >)
        ensures
            match r {
                Ok(k) => key_file_outcome(data@, encode_utf8(passphrase@)) == Ok::<_, CryptoFault>(
                    k.secret_key(),
                ) && k.well_formed(),
                Err(e) => key_file_outcome(data@, encode_utf8(passphrase@)) matches Err(f)
                    && error_is(e, f),
            },
            forall|salt: Seq<u8>, nonce: Seq<u8>, secret: Seq<u8>|
                #![trigger written_key_file(data@, encode_utf8(passphrase@), salt, nonce, secret)]
                written_key_file(data@, encode_utf8(passphrase@), salt, nonce, secret) ==> (r matches Ok(
                    k,
                ) && k.secret_key() == secret),
    {
        let ghost pass = encode_utf8(passphrase@);
        proof {
            assert forall|salt: Seq<u8>, nonce: Seq<u8>, secret: Seq<u8>|
                #![trigger written_key_file(data@, pass, salt, nonce, secret)]
                written_key_file(data@, pass, salt, nonce, secret) implies {
                    let mt = key_meta_text(base64_text_of(salt), base64_text_of(nonce), 600_000);
                    let me: int = 17 + mt.len() as int;
                    &&& find_byte(data@, 0, 10u8) == 16
                    &&& valid_utf8(data@.subrange(0, 16))
                    &&& data@.subrange(0, 16) == key_header()
                    &&& me < data@.len()
                    &&& find_byte(data@, 17, 10u8) == me
                    &&& valid_utf8(data@.subrange(17, me))
                } by {
                lemma_written_key_file(data@, pass, salt, nonce, secret);
            }
        }
        let h = find_byte_from(data, 0, 10u8);
        if h >= data.len() {
            return Err(key_format("Missing header line"));
        }
        let header_bytes = slice_to_vec(data, 0, h);
        let same = bytes_equal(header_bytes.as_slice(), key_header_bytes().as_slice());
        let header = match string_from_utf8(header_bytes) {
            Some(t) => t,
            None => {
                return Err(key_format("Invalid UTF-8 header"));
            },
        };
        if !same {
            let mut m = String::from_str("Expected header 'TRUSTEDGE-KEY-V1', got '");
            m.append(header.as_str());
            m.append("'");
            return Err(CryptoError::InvalidKeyFormat(m));
        }
        let ms = h + 1;
        let me = find_byte_from(data, ms, 10u8);
        if me >= data.len() {
            return Err(key_format("Missing metadata line"));
        }
        let meta_str = match string_from_utf8(slice_to_vec(data, ms, me - ms)) {
            Some(t) => t,
            None => {
                return Err(key_format("Invalid UTF-8 metadata"));
            },
        };
        let parsed = parse_key_file_meta(meta_str.as_str());
        proof {
            assert forall|salt: Seq<u8>, nonce: Seq<u8>, secret: Seq<u8>|
                #![trigger written_key_file(data@, pass, salt, nonce, secret)]
                written_key_file(data@, pass, salt, nonce, secret) implies parsed matches Ok(m) && (
                opt_text(m.salt), opt_text(m.nonce), m.iterations) == (
                Some(base64_text_of(salt)),
                Some(base64_text_of(nonce)),
                Some(600_000u64),
            ) && data@.subrange(me + 1, data@.len() as int) == sealed_secret(secret, pass, salt, nonce) by {
                lemma_written_key_file(data@, pass, salt, nonce, secret);
                let st = base64_text_of(salt);
                let nt = base64_text_of(nonce);
                assert(meta_str@ == key_meta_text(st, nt, 600_000));
                assert(crate::primitives::written_meta_reads_back(meta_str@, parsed));
            }
        }
        let meta = match parsed {
            Ok(m) => m,
            Err(e) => {
                return Err(CryptoError::InvalidKeyFormat(concat_str("Invalid JSON metadata: ", e.as_str())));
            },
        };
        let ghost fields = (opt_text(meta.salt), opt_text(meta.nonce), meta.iterations);
        let ct = tail_from(data, me + 1);
        let r = DeviceKeypair::import_from_meta(meta, ct.as_slice(), passphrase);
        proof {
            assert forall|salt: Seq<u8>, nonce: Seq<u8>, secret: Seq<u8>|
                #![trigger written_key_file(data@, pass, salt, nonce, secret)]
                written_key_file(data@, pass, salt, nonce, secret) implies r matches Ok(k)
                && k.secret_key() == secret by {
                assert(key_meta_outcome(Ok(fields), ct@, pass) == Ok::<_, CryptoFault>(secret));
            }
        }
        r
    }

    fn import_from_meta(meta: KeyFileMeta, ct: &[u8], passphrase: &str) -> (r: Result<
        DeviceKeypair,
        CryptoError,
    >)
        ensures
            match r {
                Ok(k) => key_meta_outcome(
                    Ok((opt_text(meta.salt), opt_text(meta.nonce), meta.iterations)),
                    ct@,
                    encode_utf8(passphrase@),
                ) == Ok::<_, CryptoFault>(k.secret_key()) && k.well_formed(),
                Err(e) => key_meta_outcome(
                    Ok((opt_text(meta.salt), opt_text(meta.nonce), meta.iterations)),
                    ct@,
                    encode_utf8(passphrase@),
                ) matches Err(f) && error_is(e, f),
            },
    {
        let salt = match meta.salt {
            None => {
                return Err(key_format("Missing salt"));
            },
            Some(st) => match base64_decode(st.as_str().as_bytes()) {
                Ok(v) => v,
                Err(e) => {
                    return Err(CryptoError::InvalidKeyFormat(concat_str("Invalid salt base64: ", e.as_str())));
                },
            },
        };
        let nonce = match meta.nonce {
            None => {
                return Err(key_format("Missing nonce"));
            },
            Some(nt) => match base64_decode(nt.as_str().as_bytes()) {
                Ok(v) => v,
                Err(e) => {
                    return Err(
                        CryptoError::InvalidKeyFormat(concat_str("Invalid nonce base64: ", e.as_str())),
                    );
                },
            },
        };
        let iterations: u32 = match meta.iterations {
            None => {
                return Err(key_format("Missing iterations"));
            },
            Some(x) => x as u32,
        };
        if iterations < PBKDF2_MIN_ITERATIONS {
            let mut m = str_with_decimal("Key file uses ", iterations as u64);
            m.append(" PBKDF2 iterations, minimum is 600000");
            return Err(CryptoError::InvalidKeyFormat(m));
        }
        if nonce.len() != 12 {
            return Err(key_format("Nonce must be 12 bytes"));
        }
        let key = pbkdf2_sha256(passphrase.as_bytes(), salt.as_slice(), iterations);
        let n12: [u8; 12] = read_array::<12>(nonce.as_slice(), 0);
        assert(nonce@.subrange(0, 12) =~= nonce@);
        let empty: Vec<u8> = Vec::new();
        let pt = match aes256gcm_decrypt(&key, &n12, empty.as_slice(), ct) {
            Some(p) => p,
            None => {
                return Err(
                    CryptoError::DecryptionFailed(
                        String::from_str("Wrong passphrase or corrupted key file"),
                    ),
                );
            },
        };
        if pt.len() != 32 {
            return Err(key_format("Decrypted key must be 32 bytes"));
        }
        let secret: [u8; 32] = read_array::<32>(pt.as_slice(), 0);
        assert(pt@.subrange(0, 32) =~= pt@);
        Ok(DeviceKeypair::from_secret(secret))
    }
}

} // verus!
