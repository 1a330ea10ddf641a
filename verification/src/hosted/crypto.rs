//! Account-level key derivation for Vaelorium Cloud.
//!
//! The server never sees the password. Argon2id runs on the password with
//! the account's salt followed by a context string: `"auth"` gives the hash
//! sent at sign-in, `"crypt"` the key that unwraps the server-held account
//! key, `"recov"` the recovery key. The account key travels wrapped with
//! XChaCha20-Poly1305 as `nonce (24) || ciphertext || tag (16)`.

use chacha20poly1305::aead::{Aead, KeyInit};
use vstd::prelude::*;

use crate::crypto::{argon2_refusal, argon2id_digest, argon2id_hash};

verus! {

/// Argon2id memory cost in KiB (64 MiB). Shared with the server.
pub const ARGON2_MEM_KIB: u32 = 65_536;

/// Argon2id passes. Shared with the server.
pub const ARGON2_TIME_COST: u32 = 3;

/// Argon2id lanes. Shared with the server.
pub const ARGON2_PARALLELISM: u32 = 1;

pub const KDF_OUTPUT_LEN: usize = 32;

pub const XCHACHA_NONCE_LEN: usize = 24;

/// Why an account key could not be derived or unwrapped.
#[derive(Debug)]
pub enum CloudCryptoError {
    /// Argon2id refused its inputs; the text says why.
    Argon2(String),
    /// The wrapped key is shorter than a nonce and a tag; holds its length.
    WrappedTooShort(usize),
    /// Authentication failed: wrong password or corrupted wrap.
    UnwrapFailed,
    /// The unwrapped key does not have 32 bytes; holds its length.
    WrongUnwrapLen(usize),
}

/// The text of a cloud crypto error.
pub open spec fn crypto_error_text(e: CloudCryptoError) -> Seq<char> {
    match e {
        CloudCryptoError::Argon2(m) => "argon2 hash failure: "@ + m@,
        CloudCryptoError::WrappedTooShort(n) => "wrapped account_key too short: "@
            + crate::text::decimal(n as nat) + " bytes (need at least 24 + tag)"@,
        CloudCryptoError::UnwrapFailed => "account_key wrap failed to decrypt \u{2014} wrong password or corrupted"@,
        CloudCryptoError::WrongUnwrapLen(n) => "account_key unwrap produced "@
            + crate::text::decimal(n as nat) + " bytes, expected 32"@,
    }
}

impl CloudCryptoError {
    /// The error as text.
    pub fn describe(&self) -> (r: String)
        ensures
            r@ == crypto_error_text(*self),
            r@ == match self {
                CloudCryptoError::Argon2(m) => "argon2 hash failure: "@ + m@,
                CloudCryptoError::WrappedTooShort(n) => "wrapped account_key too short: "@
                    + crate::text::decimal(*n as nat) + " bytes (need at least 24 + tag)"@,
                CloudCryptoError::UnwrapFailed => "account_key wrap failed to decrypt \u{2014} wrong password or corrupted"@,
                CloudCryptoError::WrongUnwrapLen(n) => "account_key unwrap produced "@
                    + crate::text::decimal(*n as nat) + " bytes, expected 32"@,
            },
    {
        match self {
            CloudCryptoError::Argon2(m) => crate::text::cat("argon2 hash failure: ", m.as_str()),
            CloudCryptoError::WrappedTooShort(n) => {
                let d = crate::text::string_of(&crate::text::decimal_chars(*n as u64));
                let a = crate::text::cat("wrapped account_key too short: ", d.as_str());
                crate::text::cat(a.as_str(), " bytes (need at least 24 + tag)")
            },
            CloudCryptoError::UnwrapFailed => crate::text::owned("account_key wrap failed to decrypt \u{2014} wrong password or corrupted"),
            CloudCryptoError::WrongUnwrapLen(n) => {
                let d = crate::text::string_of(&crate::text::decimal_chars(*n as u64));
                let a = crate::text::cat("account_key unwrap produced ", d.as_str());
                crate::text::cat(a.as_str(), " bytes, expected 32")
            },
        }
    }
}

/// What the account KDF gives for `password`, the account salt and a
/// context string: the 32-byte digest, or the text of Argon2id's refusal.
pub open spec fn account_kdf(password: Seq<char>, salt: Seq<u8>, context: Seq<char>) -> Result<Seq<u8>, Seq<char>> {
    let pw = vstd::utf8::encode_utf8(password);
    let s = salt + vstd::utf8::encode_utf8(context);
    match argon2_refusal(ARGON2_MEM_KIB, ARGON2_TIME_COST, ARGON2_PARALLELISM, pw.len(), s.len()) {
        Some(msg) => Err(msg),
        None => Ok(argon2id_digest(ARGON2_MEM_KIB, ARGON2_TIME_COST, ARGON2_PARALLELISM, pw, s)),
    }
}

/// The outcome of a derivation seen as plain values; `None` for an error
/// that derivation never produces.
pub open spec fn kdf_outcome(r: Result<[u8; KDF_OUTPUT_LEN], CloudCryptoError>) -> Option<Result<Seq<u8>, Seq<char>>> {
    match r {
        Ok(k) => Some(Ok(k@)),
        Err(CloudCryptoError::Argon2(msg)) => Some(Err(msg@)),
        Err(_) => None,
    }
}

fn argon2_raw(password: &[u8], salt: &[u8]) -> (r: Result<[u8; KDF_OUTPUT_LEN], CloudCryptoError>)
    ensures
        kdf_outcome(r) == Some(
            match argon2_refusal(ARGON2_MEM_KIB, ARGON2_TIME_COST, ARGON2_PARALLELISM, password@.len(), salt@.len()) {
                Some(msg) => Err::<Seq<u8>, Seq<char>>(msg),
                None => Ok(argon2id_digest(ARGON2_MEM_KIB, ARGON2_TIME_COST, ARGON2_PARALLELISM, password@, salt@)),
            },
        ),
{
    match argon2id_hash(ARGON2_MEM_KIB, ARGON2_TIME_COST, ARGON2_PARALLELISM, password, salt) {
        Ok(k) => Ok(k),
        Err(msg) => Err(CloudCryptoError::Argon2(msg)),
    }
}

/// The account salt followed directly by the UTF-8 bytes of `context`: no
/// separator, no terminator, no length prefix.
pub fn ctx_salt(kdf_salt_bytes: &[u8], context: &str) -> (r: Vec<u8>)
    ensures
        r@ == kdf_salt_bytes@ + vstd::utf8::encode_utf8(context@),
{
    let mut out: Vec<u8> = Vec::new();
    out.extend_from_slice(kdf_salt_bytes);
    out.extend_from_slice(context.as_bytes());
    proof {
        assert(out@ =~= kdf_salt_bytes@ + vstd::utf8::encode_utf8(context@));
    }
    out
}

/// Argon2id(password, salt || "auth"): the hash sent to the server at
/// sign-in.
pub fn derive_auth_hash(password: &str, kdf_salt_bytes: &[u8]) -> (r: Result<[u8; KDF_OUTPUT_LEN], CloudCryptoError>)
    ensures
        kdf_outcome(r) == Some(account_kdf(password@, kdf_salt_bytes@, "auth"@)),
{
    let salt = ctx_salt(kdf_salt_bytes, "auth");
    argon2_raw(password.as_bytes(), salt.as_slice())
}

/// Argon2id(password, salt || "crypt"): the key that unwraps the account
/// key. Never sent to the server.
pub fn derive_enc_key(password: &str, kdf_salt_bytes: &[u8]) -> (r: Result<[u8; KDF_OUTPUT_LEN], CloudCryptoError>)
    ensures
        kdf_outcome(r) == Some(account_kdf(password@, kdf_salt_bytes@, "crypt"@)),
{
    let salt = ctx_salt(kdf_salt_bytes, "crypt");
    argon2_raw(password.as_bytes(), salt.as_slice())
}

/// Argon2id(phrase, salt || "recov"): the recovery key.
pub fn derive_recovery_key(phrase: &str, kdf_salt_bytes: &[u8]) -> (r: Result<[u8; KDF_OUTPUT_LEN], CloudCryptoError>)
    ensures
        kdf_outcome(r) == Some(account_kdf(phrase@, kdf_salt_bytes@, "recov"@)),
{
    let salt = ctx_salt(kdf_salt_bytes, "recov");
    argon2_raw(phrase.as_bytes(), salt.as_slice())
}

/// The three contexts give three different Argon2id salts for every
/// account salt, so the auth hash, the encryption key and the recovery key
/// are computed from different inputs.
pub proof fn lemma_context_salts_differ(salt: Seq<u8>)
    ensures
        salt + vstd::utf8::encode_utf8("auth"@) != salt + vstd::utf8::encode_utf8("crypt"@),
        salt + vstd::utf8::encode_utf8("auth"@) != salt + vstd::utf8::encode_utf8("recov"@),
        salt + vstd::utf8::encode_utf8("crypt"@) != salt + vstd::utf8::encode_utf8("recov"@),
{
    reveal_strlit("auth");
    reveal_strlit("crypt");
    reveal_strlit("recov");
    vstd::utf8::is_ascii_chars_encode_utf8("auth"@);
    vstd::utf8::is_ascii_chars_encode_utf8("crypt"@);
    vstd::utf8::is_ascii_chars_encode_utf8("recov"@);
    let a = salt + vstd::utf8::encode_utf8("auth"@);
    let c = salt + vstd::utf8::encode_utf8("crypt"@);
    let r = salt + vstd::utf8::encode_utf8("recov"@);
    assert(a.len() != c.len());
    assert(a.len() != r.len());
    assert(c[salt.len() as int] != r[salt.len() as int]);
}

/// What XChaCha20-Poly1305 decryption gives for `ciphertext` (tag included)
/// under `key` and a 24-byte `nonce`: the plaintext, or `None` when
/// authentication fails.
pub uninterp spec fn xchacha20poly1305_open(key: Seq<u8>, nonce: Seq<u8>, ciphertext: Seq<u8>) -> Option<Seq<u8>>;

/// `XChaCha20Poly1305::decrypt` with a 24-byte nonce.
#[verifier::external_body]
fn xchacha_open(key: &[u8; 32], nonce: &[u8], ciphertext: &[u8]) -> (r: Option<Vec<u8>>)
    requires
        nonce@.len() == 24,
    ensures
        match r {
            Some(pt) => xchacha20poly1305_open(key@, nonce@, ciphertext@) == Some(pt@),
            None => xchacha20poly1305_open(key@, nonce@, ciphertext@) is None,
        },
{
    let cipher = chacha20poly1305::XChaCha20Poly1305::new(chacha20poly1305::Key::from_slice(key));
    cipher.decrypt(chacha20poly1305::XNonce::from_slice(nonce), ciphertext).ok()
}

/// What unwrapping `wrapped` with `enc_key` gives.
pub open spec fn unwrap_outcome(wrapped: Seq<u8>, enc_key: Seq<u8>) -> Result<Seq<u8>, CloudCryptoError> {
    if wrapped.len() < XCHACHA_NONCE_LEN + 16 {
        Err(CloudCryptoError::WrappedTooShort(wrapped.len() as usize))
    } else {
        match xchacha20poly1305_open(enc_key, wrapped.take(XCHACHA_NONCE_LEN as int), wrapped.skip(XCHACHA_NONCE_LEN as int)) {
            None => Err(CloudCryptoError::UnwrapFailed),
            Some(pt) => if pt.len() == KDF_OUTPUT_LEN {
                Ok(pt)
            } else {
                Err(CloudCryptoError::WrongUnwrapLen(pt.len() as usize))
            },
        }
    }
}

/// Unwrap the account key from `nonce (24) || ciphertext || tag (16)`.
pub fn unwrap_account_key(wrapped: &[u8], enc_key: &[u8; KDF_OUTPUT_LEN]) -> (r: Result<[u8; KDF_OUTPUT_LEN], CloudCryptoError>)
    ensures
        match r {
            Ok(k) => unwrap_outcome(wrapped@, enc_key@) == Ok::<Seq<u8>, CloudCryptoError>(k@),
            Err(e) => unwrap_outcome(wrapped@, enc_key@) == Err::<Seq<u8>, CloudCryptoError>(e),
        },
{
    if wrapped.len() < XCHACHA_NONCE_LEN + 16 {
        return Err(CloudCryptoError::WrappedTooShort(wrapped.len()));
    }
    let (nonce, ciphertext) = wrapped.split_at(XCHACHA_NONCE_LEN);
    let plaintext = match xchacha_open(enc_key, nonce, ciphertext) {
        Some(pt) => pt,
        None => return Err(CloudCryptoError::UnwrapFailed),
    };
    if plaintext.len() != KDF_OUTPUT_LEN {
        return Err(CloudCryptoError::WrongUnwrapLen(plaintext.len()));
    }
    let mut out: [u8; KDF_OUTPUT_LEN] = [0u8; 32];
    let mut i: usize = 0;
    while i < KDF_OUTPUT_LEN
        invariant
            i <= KDF_OUTPUT_LEN,
            plaintext@.len() == KDF_OUTPUT_LEN,
            out@.len() == KDF_OUTPUT_LEN,
            forall|j: int| 0 <= j < i ==> out@[j] == plaintext@[j],
        decreases KDF_OUTPUT_LEN - i,
    {
        out[i] = plaintext[i];
        i = i + 1;
    }
    proof {
        assert(out@ =~= plaintext@);
    }
    Ok(out)
}

} // verus!
