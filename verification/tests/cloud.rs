use base64::Engine;
use chacha20poly1305::aead::{Aead, KeyInit};
use chacha20poly1305::{XChaCha20Poly1305, XNonce};
use vaelorium::backend::BackendError;
use vaelorium::cloud::{
    settle_signin,
    build_usage_from_account, build_usage_from_signin, cloud_status_info, decode_kdf_salt, device_token_from,
    refreshed_account_info, signin_account_info, signin_account_key, signin_email, signin_error_text, signin_keys,
    signout_token, stash_signin, CloudSigninInput,
};
use vaelorium::hosted::crypto::derive_enc_key;
use vaelorium::hosted::protocol::{AccountInfoResponse, SigninResponse};
use vaelorium::keychain::{
    cloud_value_of, deletion_of, passphrase_of, retrieve_cloud, settle_cloud_store, CloudFallback, KeychainError,
    KeyringFailure, CLOUD_KEY_EMAIL,
};

fn input(email: &str, password: &str) -> CloudSigninInput {
    CloudSigninInput { email: email.to_string(), password: password.to_string(), device_name: None }
}

#[test]
fn signin_form_checks() {
    assert_eq!(signin_email(&input("  ", "pw")), Err("email is required".to_string()));
    assert_eq!(signin_email(&input("a@b.c", "")), Err("password is required".to_string()));
    assert_eq!(signin_email(&input("  a@b.c ", "pw")), Ok("a@b.c".to_string()));
}

#[test]
fn signin_errors_hide_credential_details() {
    assert_eq!(signin_error_text(&BackendError::Unauthorized("x".into())), "email or password is incorrect");
    assert_eq!(signin_error_text(&BackendError::Other("boom".into())), "backend internal error: boom");
}

#[test]
fn salt_decoding() {
    assert_eq!(decode_kdf_salt("AAECAw==").unwrap(), vec![0, 1, 2, 3]);
    assert!(decode_kdf_salt("not base64!").unwrap_err().starts_with("salt decode: "));
}

#[test]
fn signin_keys_encode_auth_hash() {
    let (auth_b64, enc) = signin_keys("pw", &[0u8; 16]).unwrap();
    let auth = vaelorium::hosted::crypto::derive_auth_hash("pw", &[0u8; 16]).unwrap();
    assert_eq!(auth_b64, base64::engine::general_purpose::STANDARD.encode(auth));
    assert_eq!(enc, derive_enc_key("pw", &[0u8; 16]).unwrap());
    assert!(signin_keys("pw", &[0u8; 1]).is_err());
}

#[test]
fn account_key_unwraps_from_signin_response() {
    let enc = derive_enc_key("pw", &[0u8; 16]).unwrap();
    let nonce = [4u8; 24];
    let ct = XChaCha20Poly1305::new((&enc).into()).encrypt(XNonce::from_slice(&nonce), &[8u8; 32][..]).unwrap();
    let mut wrapped = nonce.to_vec();
    wrapped.extend_from_slice(&ct);
    let b64 = base64::engine::general_purpose::STANDARD;
    let key_b64 = signin_account_key(&b64.encode(&wrapped), &enc).unwrap();
    assert_eq!(key_b64, b64.encode([8u8; 32]));
    assert!(signin_account_key("@@@", &enc).unwrap_err().starts_with("wrapped decode: "));
    let wrong = derive_enc_key("other", &[0u8; 16]).unwrap();
    assert!(signin_account_key(&b64.encode(&wrapped), &wrong).unwrap_err().starts_with("unwrap account_key: "));
}

fn signin_response(status: Option<&str>) -> SigninResponse {
    SigninResponse {
        account_id: "acc".to_string(),
        email: "me@x.org".to_string(),
        device_token: "tok".to_string(),
        kdf_salt_b64: "AAAA".to_string(),
        wrapped_by_password_b64: String::new(),
        tier: Some("pro".to_string()),
        subscription_status: status.map(|s| s.to_string()),
        tome_count: Some(3),
        tome_limit: None,
        quota_bytes: None,
        bytes_used: Some(10),
    }
}

#[test]
fn usage_needs_a_subscription_status() {
    let u = build_usage_from_signin(&signin_response(Some("active"))).unwrap();
    assert_eq!(u.subscription_status, "active");
    assert_eq!(u.tome_count, 3);
    assert_eq!(u.quota_bytes, 0);
    assert_eq!(u.bytes_used, 10);
    assert!(u.tome_limit.is_none());
    assert!(build_usage_from_signin(&signin_response(None)).is_none());
    let acct = AccountInfoResponse {
        account_id: "a".to_string(),
        email: "e".to_string(),
        tier: None,
        subscription_status: Some("trialing".to_string()),
        tome_count: None,
        tome_limit: Some(5),
        quota_bytes: Some(100),
        bytes_used: None,
    };
    let u = build_usage_from_account(&acct).unwrap();
    assert_eq!((u.tome_count, u.tome_limit, u.quota_bytes, u.bytes_used), (0, Some(5), 100, 0));
    let info = refreshed_account_info(&acct, Some(u));
    assert_eq!(info.account_id, "a");
    assert!(info.signed_in_at.is_none());
}

#[test]
fn stash_keeps_or_hands_over_each_entry() {
    let mut fb = CloudFallback::new();
    let resp = signin_response(Some("active"));
    assert!(stash_signin(&mut fb, &resp, "KEY", Some("{\"x\":1}")).is_ok());
    match retrieve_cloud(&fb, CLOUD_KEY_EMAIL).unwrap() {
        Some(e) => assert_eq!(e, "me@x.org"),
        None => {}
    }
    let info = signin_account_info(&resp, None, "2024-05-05T00:00:00Z");
    assert_eq!(info.email, "me@x.org");
    assert_eq!(info.signed_in_at.as_deref(), Some("2024-05-05T00:00:00Z"));
}

#[test]
fn status_requires_a_token() {
    assert!(cloud_status_info(None, Some("e".into()), None, None).is_none());
    assert!(cloud_status_info(Some(String::new()), Some("e".into()), None, None).is_none());
    let s = cloud_status_info(Some("t".into()), None, Some("pro".into()), None).unwrap();
    assert_eq!(s.email, "");
    assert_eq!(s.account_id, "");
    assert_eq!(s.tier.as_deref(), Some("pro"));
}

#[test]
fn device_token_sources() {
    assert_eq!(device_token_from(Some("k".into()), Some("c".into())), Ok("k".to_string()));
    assert_eq!(device_token_from(Some(String::new()), Some("c".into())), Ok("c".to_string()));
    assert_eq!(
        device_token_from(None, Some(String::new())),
        Err("not signed in to Vaelorium Cloud \u{2014} sign in from Settings \u{2192} Backup".to_string())
    );
    assert_eq!(signout_token(None, Some("c".into())), Some("c".to_string()));
    assert_eq!(signout_token(Some(String::new()), Some("c".into())), Some(String::new()));
}

#[test]
fn keychain_outcomes_are_read_exactly() {
    assert!(matches!(passphrase_of(Ok("pw".to_string())), Ok(Some(ref p)) if p == "pw"));
    assert!(matches!(passphrase_of(Err(KeyringFailure::NoEntry)), Ok(None)));
    assert!(matches!(passphrase_of(Err(KeyringFailure::Other("locked".into()))), Err(KeychainError::Unavailable(ref m)) if m == "locked"));
    assert!(deletion_of(Ok(())).is_ok());
    assert!(deletion_of(Err(KeyringFailure::NoEntry)).is_ok());
    assert!(matches!(deletion_of(Err(KeyringFailure::Other("denied".into()))), Err(KeychainError::Unavailable(ref m)) if m == "denied"));
}

#[test]
fn cloud_fallback_is_settled_by_the_keychain_outcome() {
    let mut fb = CloudFallback::new();
    settle_cloud_store(&mut fb, "email", "a@b.c", false);
    assert_eq!(fb.get("email").as_deref(), Some("a@b.c"));
    assert_eq!(cloud_value_of(Err(KeyringFailure::NoEntry), &fb, "email").as_deref(), Some("a@b.c"));
    assert_eq!(cloud_value_of(Ok("os@b.c".into()), &fb, "email").as_deref(), Some("os@b.c"));
    assert_eq!(cloud_value_of(Err(KeyringFailure::Other("x".into())), &fb, "tier"), None);
    settle_cloud_store(&mut fb, "email", "a@b.c", true);
    assert_eq!(fb.get("email"), None);

    let resp = signin_response(None);
    let mut fb = CloudFallback::new();
    settle_signin(&mut fb, &resp, "KEY", Some("{}"), [true, false, true, false, false, true]);
    assert_eq!(fb.get("device-token"), None);
    assert_eq!(fb.get("account-key").as_deref(), Some("KEY"));
    assert_eq!(fb.get("kdf-salt"), None);
    assert_eq!(fb.get("email").as_deref(), Some("me@x.org"));
    assert_eq!(fb.get("tier").as_deref(), Some("pro"));
    assert_eq!(fb.get("usage"), None);
}
