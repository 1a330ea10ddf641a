//! End-to-end encryption of sync blobs.
//!
//! A passphrase and a per-Tome salt give a 32-byte key through Argon2id
//! (`m = 64 MiB, t = 3, p = 1`); every blob is sealed with
//! ChaCha20-Poly1305 under a fresh random 12-byte nonce and travels as
//! `nonce (12) || ciphertext || tag (16)`.

use chacha20poly1305::aead::{Aead, KeyInit};
use rand::RngCore;
use vstd::prelude::*;

verus! {

pub const SALT_LEN: usize = 16;

pub const NONCE_LEN: usize = 12;

pub const KEY_LEN: usize = 32;

/// Why a key could not be derived or a blob could not be sealed or opened.
#[derive(Debug)]
pub enum CryptoError {
    /// The key derivation refused its inputs; the text says why.
    Kdf(String),
    /// The plaintext is too long for one ChaCha20 stream.
    Encrypt,
    /// Authentication failed: wrong key or tampered ciphertext.
    Decrypt,
    /// The blob is shorter than a nonce.
    Malformed,
}

/// The text of a crypto error.
pub open spec fn crypto_error_text(e: CryptoError) -> Seq<char> {
    match e {
        CryptoError::Kdf(m) => "argon2 error: "@ + m@,
        CryptoError::Encrypt => "encryption failed"@,
        CryptoError::Decrypt => "decryption failed (wrong passphrase or tampered ciphertext)"@,
        CryptoError::Malformed => "ciphertext too short to contain a nonce"@,
    }
}

impl CryptoError {
    /// The error as text.
    pub fn describe(&self) -> (r: String)
        ensures
            r@ == crypto_error_text(*self),
    {
        match self {
            CryptoError::Kdf(m) => crate::text::cat("argon2 error: ", m.as_str()),
            CryptoError::Encrypt => crate::text::owned("encryption failed"),
            CryptoError::Decrypt => crate::text::owned("decryption failed (wrong passphrase or tampered ciphertext)"),
            CryptoError::Malformed => crate::text::owned("ciphertext too short to contain a nonce"),
        }
    }
}

// ---------------------------------------------------------------------------
// Argon2id
// ---------------------------------------------------------------------------

/// The 32 bytes that Argon2id (version 0x13, memory `m_kib` KiB, `t`
/// passes, `p` lanes, no secret, no associated data) computes from
/// `password` and `salt`.
pub uninterp spec fn argon2id_digest(m_kib: u32, t: u32, p: u32, password: Seq<u8>, salt: Seq<u8>) -> Seq<u8>;

/// `None` when Argon2id accepts these parameters and inputs; otherwise the
/// text of the error it reports, checked in the order the `argon2` crate
/// checks them.
pub open spec fn argon2_refusal(m_kib: u32, t: u32, p: u32, password_len: nat, salt_len: nat) -> Option<Seq<char>> {
    if m_kib < 8 || m_kib < 8 * p {
        Some("memory cost is too small"@)
    } else if t < 1 {
        Some("time cost is too small"@)
    } else if password_len > 0xFFFF_FFFF {
        Some("password is too long"@)
    } else if salt_len < 8 {
        Some("salt is too short"@)
    } else if salt_len > 0xFFFF_FFFF {
        Some("salt is too long"@)
    } else {
        None
    }
}

/// `argon2::Params::new` followed by `Argon2::hash_password_into` with
/// Argon2id v0x13 and a 32-byte output. Following the crate's source, it
/// fails exactly when `argon2_refusal` names an error, with that error's
/// text, and otherwise yields `argon2id_digest` of its arguments.
#[verifier::external_body]
pub(crate) fn argon2id_hash(m_kib: u32, t: u32, p: u32, password: &[u8], salt: &[u8]) -> (r: Result<[u8; 32], String>)
    requires
        1 <= p <= 0xFF_FFFF,
    ensures
        match r {
            Ok(k) => argon2_refusal(m_kib, t, p, password@.len(), salt@.len()) is None
                && k@ == argon2id_digest(m_kib, t, p, password@, salt@),
            Err(e) => argon2_refusal(m_kib, t, p, password@.len(), salt@.len()) == Some(e@),
        },
{
    let params = argon2::Params::new(m_kib, t, p, Some(32)).map_err(|e| e.to_string())?;
    let hasher = argon2::Argon2::new(argon2::Algorithm::Argon2id, argon2::Version::V0x13, params);
    let mut out = [0u8; 32];
    hasher.hash_password_into(password, salt, &mut out).map_err(|e| e.to_string())?;
    Ok(out)
}

// ---------------------------------------------------------------------------
// ChaCha20-Poly1305
// ---------------------------------------------------------------------------

/// Ciphertext and 16-byte tag that ChaCha20-Poly1305 produces for
/// `plaintext` under `key` and `nonce`, with no associated data.
pub uninterp spec fn chacha20poly1305_seal(key: Seq<u8>, nonce: Seq<u8>, plaintext: Seq<u8>) -> Seq<u8>;

/// What ChaCha20-Poly1305 decryption gives for `ciphertext` (tag included)
/// under `key` and `nonce`: the plaintext, or `None` when authentication
/// fails.
pub uninterp spec fn chacha20poly1305_open(key: Seq<u8>, nonce: Seq<u8>, ciphertext: Seq<u8>) -> Option<Seq<u8>>;

/// `ChaCha20Poly1305::encrypt`. It fails only when the message has
/// `u32::MAX` or more 64-byte blocks; the ciphertext is as long as the
/// plaintext plus the 16-byte tag, and decrypting it under the same key and
/// nonce gives the plaintext back (the AEAD's correctness).
#[verifier::external_body]
fn chacha_seal(key: &[u8; 32], nonce: &[u8; 12], plaintext: &[u8]) -> (r: Option<Vec<u8>>)
    ensures
        r is Some <==> plaintext@.len() / 64 < 0xFFFF_FFFF,
        r matches Some(ct) ==> {
            &&& ct@ == chacha20poly1305_seal(key@, nonce@, plaintext@)
            &&& ct@.len() == plaintext@.len() + 16
            &&& chacha20poly1305_open(key@, nonce@, ct@) == Some(plaintext@)
        },
{
    let cipher = chacha20poly1305::ChaCha20Poly1305::new(chacha20poly1305::Key::from_slice(key));
    cipher.encrypt(chacha20poly1305::Nonce::from_slice(nonce), plaintext).ok()
}

/// `ChaCha20Poly1305::decrypt` with a 12-byte nonce.
#[verifier::external_body]
fn chacha_open(key: &[u8; 32], nonce: &[u8], ciphertext: &[u8]) -> (r: Option<Vec<u8>>)
    requires
        nonce@.len() == 12,
    ensures
        match r {
            Some(pt) => chacha20poly1305_open(key@, nonce@, ciphertext@) == Some(pt@),
            None => chacha20poly1305_open(key@, nonce@, ciphertext@) is None,
        },
{
    let cipher = chacha20poly1305::ChaCha20Poly1305::new(chacha20poly1305::Key::from_slice(key));
    cipher.decrypt(chacha20poly1305::Nonce::from_slice(nonce), ciphertext).ok()
}

/// `rand::thread_rng().fill_bytes`: fills `buf` with random bytes. Nothing is
/// promised of which bytes.
#[verifier::external_body]
fn fill_random<const N: usize>(buf: &mut [u8; N]) {
    rand::thread_rng().fill_bytes(buf);
}

// ---------------------------------------------------------------------------
// Keys
// ---------------------------------------------------------------------------

/// A 32-byte symmetric key derived from a passphrase and a per-Tome salt.
pub struct KeyMaterial {
    bytes: [u8; KEY_LEN],
}

impl View for KeyMaterial {
    type V = Seq<u8>;

    closed spec fn view(&self) -> Seq<u8> {
        self.bytes@
    }
}

impl KeyMaterial {
    /// Derive a key from `passphrase` and `salt` with Argon2id
    /// (`m = 64 MiB, t = 3, p = 1`). The same inputs always give the same
    /// key.
    pub fn derive(passphrase: &str, salt: &[u8]) -> (r: Result<KeyMaterial, CryptoError>)
        ensures
            match r {
                Ok(k) => argon2_refusal(65536, 3, 1, vstd::utf8::encode_utf8(passphrase@).len(), salt@.len()) is None
                    && k@ == argon2id_digest(65536, 3, 1, vstd::utf8::encode_utf8(passphrase@), salt@),
                Err(e) => exists|msg: String|
                    e == CryptoError::Kdf(msg)
                        && argon2_refusal(65536, 3, 1, vstd::utf8::encode_utf8(passphrase@).len(), salt@.len()) == Some(msg@),
            },
    {
        match argon2id_hash(65536, 3, 1, passphrase.as_bytes(), salt) {
            Ok(bytes) => Ok(KeyMaterial { bytes }),
            Err(msg) => Err(CryptoError::Kdf(msg)),
        }
    }

    /// The raw key bytes.
    pub fn as_bytes(&self) -> (r: &[u8; KEY_LEN])
        ensures
            r@ == self@,
    {
        &self.bytes
    }
}

/// What one device seals, another opens, when both derived their key from
/// the same passphrase and salt: the two derivations give one key, and the
/// blob opens under it to the same plaintext.
pub proof fn lemma_same_passphrase_opens(
    passphrase: Seq<char>,
    salt: Seq<u8>,
    sealing_key: Seq<u8>,
    opening_key: Seq<u8>,
    plaintext: Seq<u8>,
    blob: Seq<u8>,
)
    requires
        sealing_key == argon2id_digest(65536, 3, 1, vstd::utf8::encode_utf8(passphrase), salt),
        opening_key == argon2id_digest(65536, 3, 1, vstd::utf8::encode_utf8(passphrase), salt),
        open_blob(sealing_key, blob) == Ok::<Seq<u8>, CryptoError>(plaintext),
    ensures
        opening_key == sealing_key,
        open_blob(opening_key, blob) == Ok::<Seq<u8>, CryptoError>(plaintext),
{
}

/// A fresh random salt for a new Tome's key derivation.
pub fn generate_salt() -> (r: [u8; SALT_LEN])
    ensures
        r@.len() == SALT_LEN,
{
    let mut salt: [u8; SALT_LEN] = [0u8; 16];
    fill_random(&mut salt);
    salt
}

// ---------------------------------------------------------------------------
// Blobs
// ---------------------------------------------------------------------------

/// `blob` is `plaintext` sealed under `key`: some nonce, then the
/// ChaCha20-Poly1305 ciphertext of `plaintext` under that nonce.
pub open spec fn sealed_blob(key: Seq<u8>, plaintext: Seq<u8>, blob: Seq<u8>) -> bool {
    &&& blob.len() == NONCE_LEN + plaintext.len() + 16
    &&& blob.skip(NONCE_LEN as int) == chacha20poly1305_seal(key, blob.take(NONCE_LEN as int), plaintext)
}

/// What opening `blob` under `key` gives.
pub open spec fn open_blob(key: Seq<u8>, blob: Seq<u8>) -> Result<Seq<u8>, CryptoError> {
    if blob.len() < NONCE_LEN {
        Err(CryptoError::Malformed)
    } else {
        match chacha20poly1305_open(key, blob.take(NONCE_LEN as int), blob.skip(NONCE_LEN as int)) {
            Some(pt) => Ok(pt),
            None => Err(CryptoError::Decrypt),
        }
    }
}

/// Seal `plaintext` under `key` with a fresh random nonce. The blob is
/// `nonce || ciphertext || tag`, and opening it with the same key gives
/// `plaintext` back.
pub fn encrypt(key: &KeyMaterial, plaintext: &[u8]) -> (r: Result<Vec<u8>, CryptoError>)
    ensures
        match r {
            Ok(blob) => {
                &&& plaintext@.len() / 64 < 0xFFFF_FFFF
                &&& sealed_blob(key@, plaintext@, blob@)
                &&& open_blob(key@, blob@) == Ok::<Seq<u8>, CryptoError>(plaintext@)
            },
            Err(e) => plaintext@.len() / 64 >= 0xFFFF_FFFF && e == CryptoError::Encrypt,
        },
{
    let mut nonce: [u8; NONCE_LEN] = [0u8; 12];
    fill_random(&mut nonce);
    let sealed = chacha_seal(key.as_bytes(), &nonce, plaintext);
    match sealed {
        None => Err(CryptoError::Encrypt),
        Some(ct) => {
            let mut out: Vec<u8> = Vec::new();
            out.extend_from_slice(&nonce);
            out.extend_from_slice(ct.as_slice());
            proof {
                assert(out@.take(12) =~= nonce@);
                assert(out@.skip(12) =~= ct@);
            }
            Ok(out)
        },
    }
}

/// Open a `nonce || ciphertext || tag` blob with `key`.
pub fn decrypt(key: &KeyMaterial, blob: &[u8]) -> (r: Result<Vec<u8>, CryptoError>)
    ensures
        match r {
            Ok(pt) => open_blob(key@, blob@) == Ok::<Seq<u8>, CryptoError>(pt@),
            Err(e) => open_blob(key@, blob@) == Err::<Seq<u8>, CryptoError>(e),
        },
{
    if blob.len() < NONCE_LEN {
        return Err(CryptoError::Malformed);
    }
    let (nonce, ciphertext) = blob.split_at(NONCE_LEN);
    match chacha_open(key.as_bytes(), nonce, ciphertext) {
        Some(pt) => Ok(pt),
        None => Err(CryptoError::Decrypt),
    }
}

} // verus!
