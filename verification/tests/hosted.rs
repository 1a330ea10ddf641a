use chacha20poly1305::aead::{Aead, KeyInit};
use chacha20poly1305::{XChaCha20Poly1305, XNonce};
use vaelorium::backend::BackendError;
use vaelorium::hosted::crypto::{
    ctx_salt, derive_auth_hash, derive_enc_key, derive_recovery_key, unwrap_account_key, CloudCryptoError,
    XCHACHA_NONCE_LEN,
};
use vaelorium::hosted::protocol::{hyphenate_uuid, map_auth_status, object_url};

#[test]
fn hyphenates_simple_form() {
    assert_eq!(
        hyphenate_uuid("abcdef0123456789abcdef0123456789"),
        "abcdef01-2345-6789-abcd-ef0123456789"
    );
}

#[test]
fn preserves_hyphenated_form() {
    let s = "abcdef01-2345-6789-abcd-ef0123456789";
    assert_eq!(hyphenate_uuid(s), s);
}

#[test]
fn lowercases_uppercase_input() {
    assert_eq!(
        hyphenate_uuid("ABCDEF0123456789ABCDEF0123456789"),
        "abcdef01-2345-6789-abcd-ef0123456789"
    );
}

#[test]
fn passes_through_invalid_shapes_for_server_rejection() {
    assert_eq!(hyphenate_uuid("not-a-uuid"), "not-a-uuid");
}

#[test]
fn hyphenate_uuid_is_idempotent_on_examples() {
    for raw in ["abcdef0123456789abcdef0123456789", "ABCDEF01-2345-6789-ABCD-EF0123456789", "xyz", ""] {
        let once = hyphenate_uuid(raw);
        assert_eq!(hyphenate_uuid(&once), once);
    }
}

#[test]
fn context_salt_has_no_separator() {
    let salt = [0x11u8; 16];
    let out = ctx_salt(&salt, "auth");
    assert_eq!(out.len(), 16 + 4);
    assert_eq!(&out[..16], &salt);
    assert_eq!(&out[16..], b"auth");
}

#[test]
fn derive_auth_hash_is_deterministic() {
    let salt = [0u8; 16];
    let a = derive_auth_hash("correct horse battery staple", &salt).unwrap();
    let b = derive_auth_hash("correct horse battery staple", &salt).unwrap();
    assert_eq!(a, b);
}

#[test]
fn derive_auth_hash_differs_from_enc_key() {
    let salt = [0u8; 16];
    let auth = derive_auth_hash("password", &salt).unwrap();
    let enc = derive_enc_key("password", &salt).unwrap();
    assert_ne!(auth, enc, "context strings must separate the outputs");
}

#[test]
fn derive_auth_hash_differs_from_recovery() {
    let salt = [0u8; 16];
    let auth = derive_auth_hash("password", &salt).unwrap();
    let recov = derive_recovery_key("password", &salt).unwrap();
    assert_ne!(auth, recov);
}

#[test]
fn different_passwords_yield_different_auth_hashes() {
    let salt = [0u8; 16];
    let a = derive_auth_hash("pw1", &salt).unwrap();
    let b = derive_auth_hash("pw2", &salt).unwrap();
    assert_ne!(a, b);
}

#[test]
fn different_salts_yield_different_auth_hashes() {
    let a = derive_auth_hash("pw", &[1u8; 16]).unwrap();
    let b = derive_auth_hash("pw", &[2u8; 16]).unwrap();
    assert_ne!(a, b);
}

#[test]
fn short_salt_is_refused_with_the_kdf_message() {
    // Argon2 refuses salts shorter than 8 bytes; the context string is
    // appended first, so a 2-byte salt with "auth" is 6 bytes.
    let r = derive_auth_hash("pw", &[1u8; 2]);
    assert!(matches!(r, Err(CloudCryptoError::Argon2(_))));
}

fn wrap(key: &[u8; 32], nonce: &[u8; XCHACHA_NONCE_LEN], account_key: &[u8]) -> Vec<u8> {
    let cipher = XChaCha20Poly1305::new(key.into());
    let ct = cipher.encrypt(XNonce::from_slice(nonce), account_key).unwrap();
    let mut wrapped = nonce.to_vec();
    wrapped.extend_from_slice(&ct);
    wrapped
}

#[test]
fn xchacha_roundtrip_with_derived_key() {
    let enc_key = derive_enc_key("pw", &[0u8; 16]).unwrap();
    let account_key = [42u8; 32];
    let nonce = [9u8; XCHACHA_NONCE_LEN];
    let wrapped = wrap(&enc_key, &nonce, &account_key);
    let unwrapped = unwrap_account_key(&wrapped, &enc_key).unwrap();
    assert_eq!(unwrapped, account_key);
}

#[test]
fn wrong_key_fails_unwrap() {
    let right = derive_enc_key("right", &[0u8; 16]).unwrap();
    let wrong = derive_enc_key("wrong", &[0u8; 16]).unwrap();
    let account_key = [7u8; 32];
    let nonce = [3u8; XCHACHA_NONCE_LEN];
    let wrapped = wrap(&right, &nonce, &account_key);
    assert!(matches!(
        unwrap_account_key(&wrapped, &wrong),
        Err(CloudCryptoError::UnwrapFailed)
    ));
}

#[test]
fn truncated_wrap_rejected() {
    let key = [0u8; 32];
    let out = unwrap_account_key(&[0u8; 10], &key);
    assert!(matches!(out, Err(CloudCryptoError::WrappedTooShort(10))));
}

#[test]
fn unwrap_of_wrong_length_key_is_reported() {
    let key = [5u8; 32];
    let nonce = [1u8; XCHACHA_NONCE_LEN];
    let wrapped = wrap(&key, &nonce, &[1u8; 16]);
    assert!(matches!(
        unwrap_account_key(&wrapped, &key),
        Err(CloudCryptoError::WrongUnwrapLen(16))
    ));
}

#[test]
fn cloud_crypto_errors_describe_themselves() {
    assert_eq!(
        CloudCryptoError::WrappedTooShort(10).describe(),
        "wrapped account_key too short: 10 bytes (need at least 24 + tag)"
    );
    assert_eq!(
        CloudCryptoError::WrongUnwrapLen(16).describe(),
        "account_key unwrap produced 16 bytes, expected 32"
    );
    assert_eq!(
        CloudCryptoError::UnwrapFailed.describe(),
        "account_key wrap failed to decrypt \u{2014} wrong password or corrupted"
    );
}

#[test]
fn object_url_preserves_slashes_in_key() {
    let url = object_url(
        "https://example.com",
        "00000000-0000-0000-0000-000000000000",
        "snapshots/abc.snap.enc",
    );
    assert_eq!(
        url,
        "https://example.com/v1/tomes/00000000-0000-0000-0000-000000000000/object/snapshots/abc.snap.enc"
    );
}

#[test]
fn object_url_percent_encodes_within_segments() {
    let url = object_url("https://example.com", "uuid", "snap shots/a b.enc");
    assert!(url.contains("/snap%20shots/a%20b.enc"), "got: {url}");
}

#[test]
fn auth_401_maps_to_unauthorized() {
    let r = map_auth_status(401);
    assert!(matches!(r, Err(BackendError::Unauthorized(_))));
}

#[test]
fn auth_402_maps_to_payment_required() {
    let r = map_auth_status(402);
    assert!(matches!(r, Err(BackendError::PaymentRequired(_))));
}

#[test]
fn auth_500_maps_to_other() {
    let r = map_auth_status(500);
    assert!(matches!(r, Err(BackendError::Other(_))));
}

#[test]
fn auth_success_returns_ok() {
    assert!(map_auth_status(200).is_ok());
}

use vaelorium::hosted::protocol::{
    check_hosted_swap_key, list_page_url, next_list_cursor, salt_url, storage_error, ErrorBody, ListResponse,
};

#[test]
fn auth_refusal_texts() {
    assert!(matches!(map_auth_status(401), Err(BackendError::Unauthorized(ref m)) if m == "invalid_credentials"));
    assert!(matches!(map_auth_status(402), Err(BackendError::PaymentRequired(ref m)) if m == "subscription not active"));
    assert!(matches!(map_auth_status(500), Err(BackendError::Other(ref m)) if m == "auth HTTP 500 Internal Server Error"));
    assert!(map_auth_status(204).is_ok());
}

fn body(error: &str, code: &str) -> Option<ErrorBody> {
    Some(ErrorBody { error: Some(error.to_string()), code: Some(code.to_string()) })
}

#[test]
fn storage_errors_map_by_status() {
    assert!(matches!(storage_error(404, None, "k"), BackendError::NotFound(ref k) if k == "k"));
    assert!(matches!(storage_error(401, body("bad token", "auth"), "k"), BackendError::Unauthorized(ref m) if m == "bad token"));
    assert!(matches!(storage_error(402, body("lapsed", "sub"), "k"), BackendError::PaymentRequired(ref m) if m == "lapsed"));
    assert!(matches!(
        storage_error(412, None, "sync-meta.json"),
        BackendError::EtagMismatch { ref key, ref expected, ref found } if key == "sync-meta.json" && expected.is_empty() && found.is_empty()
    ));
    assert!(matches!(storage_error(413, body("over quota", "quota_exceeded"), "k"), BackendError::QuotaExceeded(ref m) if m == "over quota"));
    assert!(matches!(storage_error(413, body("too many", "tome_limit_exceeded"), "k"), BackendError::QuotaExceeded(ref m) if m == "too many"));
    assert!(matches!(storage_error(413, body("big", "other"), "k"), BackendError::QuotaExceeded(ref m) if m == "payload too large: big"));
    assert!(matches!(storage_error(500, body("boom", "x"), "k"), BackendError::Other(ref m) if m == "cloud 500: boom"));
    assert!(matches!(storage_error(503, body("later", "busy"), "k"), BackendError::Other(ref m) if m == "cloud HTTP 503 Service Unavailable: later (busy)"));
    assert!(matches!(storage_error(500, None, "k"), BackendError::Other(ref m) if m == "cloud 500: "));
}

#[test]
fn list_pagination_follows_cursor_until_complete() {
    let more = ListResponse { objects: Vec::new(), truncated: true, cursor: Some("c2".to_string()) };
    assert_eq!(next_list_cursor(&more), Some("c2".to_string()));
    let done = ListResponse { objects: Vec::new(), truncated: false, cursor: Some("ignored".to_string()) };
    assert_eq!(next_list_cursor(&done), None);
    let odd = ListResponse { objects: Vec::new(), truncated: true, cursor: None };
    assert_eq!(next_list_cursor(&odd), None);
}

#[test]
fn hosted_swap_only_on_sync_meta() {
    assert!(check_hosted_swap_key("sync-meta.json").is_ok());
    assert!(check_hosted_swap_key("sync-meta").is_ok());
    assert!(matches!(
        check_hosted_swap_key("snapshots/a.snap.enc"),
        Err(BackendError::Other(ref m)) if m == "hosted backend only supports atomic_swap on sync-meta, got: snapshots/a.snap.enc"
    ));
}

#[test]
fn salt_and_list_urls() {
    assert_eq!(
        salt_url("https://example.com", "a+b@x.org"),
        "https://example.com/api/auth/salt?email=a%2Bb%40x.org"
    );
    assert_eq!(
        list_page_url("https://example.com", "u", "journal", None),
        "https://example.com/v1/tomes/u/list?prefix=journal"
    );
    assert_eq!(
        list_page_url("https://example.com", "u", "tomes/a b", Some("c 1")),
        "https://example.com/v1/tomes/u/list?prefix=tomes%2Fa%20b&cursor=c%201"
    );
}
