//! Vaelorium Cloud sign-in, sign-out and account status.
//!
//! The password never leaves the device: Argon2id turns it into the hash
//! sent at sign-in and the key that unwraps the server-held account key.
//! Only the device token, the account key and the account salt and email
//! are kept, in the keychain. The network calls are the application's;
//! every step between them is here.

use vstd::prelude::*;

use crate::backend::{backend_error_text, error_view, BackendError};
use crate::codec::{b64_decode, base64_encode, base64_std};
use crate::hosted::crypto::{
    crypto_error_text,
    account_kdf, derive_auth_hash, derive_enc_key, kdf_outcome, unwrap_account_key, unwrap_outcome,
    CloudCryptoError, KDF_OUTPUT_LEN,
};
use crate::hosted::protocol::{AccountInfoResponse, SigninResponse};
use crate::keychain::{
    os_secret_set, settle_cloud_store, settled, CloudFallback, CLOUD_SERVICE, CLOUD_KEY_ACCOUNT_KEY, CLOUD_KEY_DEVICE_TOKEN, CLOUD_KEY_EMAIL,
    CLOUD_KEY_KDF_SALT, CLOUD_KEY_TIER, CLOUD_KEY_USAGE,
};
use crate::text::{cat, chars_of, owned, string_opt, trim, trim_chars, string_of};

verus! {

/// What the sign-in form sends.
pub struct CloudSigninInput {
    pub email: String,
    pub password: String,
    pub device_name: Option<String>,
}

/// The account's usage as last reported.
pub struct UsagePayload {
    pub bytes_used: u64,
    pub tome_count: u32,
    pub quota_bytes: u64,
    pub tome_limit: Option<u32>,
    pub subscription_status: String,
}

/// The signed-in account as the settings screen shows it.
pub struct CloudAccountInfo {
    pub email: String,
    pub account_id: String,
    pub tier: Option<String>,
    pub signed_in_at: Option<String>,
    pub usage: Option<UsagePayload>,
}

/// Told when the server refuses the credentials.
pub open spec fn bad_credentials_text() -> Seq<char> {
    "email or password is incorrect"@
}

/// The email a sign-in uses, or why the form is refused: the email
/// trimmed must not be empty, nor the password.
pub fn signin_email(input: &CloudSigninInput) -> (r: Result<String, String>)
    ensures
        trim(input.email@).len() == 0 ==> (r matches Err(m) && m@ == "email is required"@),
        trim(input.email@).len() > 0 && input.password@.len() == 0 ==> (r matches Err(m) && m@
            == "password is required"@),
        trim(input.email@).len() > 0 && input.password@.len() > 0 ==> (r matches Ok(e) && e@ == trim(
            input.email@,
        )),
{
    let email = trim_chars(&chars_of(input.email.as_str()));
    if email.len() == 0 {
        return Err(owned("email is required"));
    }
    if input.password.as_str().is_empty() {
        return Err(owned("password is required"));
    }
    Ok(string_of(&email))
}

/// What the user is told when the salt or sign-in request fails: a
/// refusal of the credentials says so, anything else is described.
pub fn signin_error_text(e: &BackendError) -> (r: String)
    ensures
        r@ == match e {
            BackendError::Unauthorized(_) => bad_credentials_text(),
            _ => backend_error_text(error_view(*e)),
        },
{
    match e {
        BackendError::Unauthorized(_) => owned("email or password is incorrect"),
        _ => e.describe(),
    }
}

/// The account salt sent by the server, decoded from standard Base64.
pub fn decode_kdf_salt(kdf_salt_b64: &str) -> (r: Result<Vec<u8>, String>)
    ensures
        r matches Ok(b) ==> base64_std(b@) == kdf_salt_b64@,
        (exists|b: Seq<u8>| base64_std(b) == kdf_salt_b64@) ==> r is Ok,
        r matches Err(m) ==> m@ == "salt decode: "@ + crate::codec::base64_error_text(kdf_salt_b64@),
{
    match b64_decode(kdf_salt_b64) {
        Ok(b) => Ok(b),
        Err(e) => Err(cat("salt decode: ", e.as_str())),
    }
}

/// The two keys a password gives for an account salt: the auth hash (to be
/// sent in Base64) and the key that unwraps the account key.
pub fn signin_keys(password: &str, kdf_salt: &[u8]) -> (r: Result<(String, [u8; KDF_OUTPUT_LEN]), String>)
    ensures
        match r {
            Ok((auth_b64, enc_key)) => {
                &&& account_kdf(password@, kdf_salt@, "auth"@) matches Ok(h) && auth_b64@ == base64_std(h)
                &&& account_kdf(password@, kdf_salt@, "crypt"@) == Ok::<Seq<u8>, Seq<char>>(enc_key@)
            },
            Err(m) => match account_kdf(password@, kdf_salt@, "auth"@) {
                Err(e) => m@ == "argon2 hash failure: "@ + e,
                Ok(_) => account_kdf(password@, kdf_salt@, "crypt"@) matches Err(e) && m@ == "argon2 hash failure: "@ + e,
            },
        },
{
    let auth = match derive_auth_hash(password, kdf_salt) {
        Ok(h) => h,
        Err(e) => return Err(e.describe()),
    };
    let enc = match derive_enc_key(password, kdf_salt) {
        Ok(k) => k,
        Err(e) => return Err(e.describe()),
    };
    Ok((base64_encode(&auth), enc))
}

/// The account key, unwrapped from the sign-in response's Base64 wrap and
/// re-encoded in Base64 for the keychain.
pub fn signin_account_key(wrapped_b64: &str, enc_key: &[u8; KDF_OUTPUT_LEN]) -> (r: Result<String, String>)
    ensures
        match crate::codec::base64_decoded(wrapped_b64@) {
            None => r matches Err(m) && m@ == "wrapped decode: "@ + crate::codec::base64_error_text(wrapped_b64@),
            Some(w) => match unwrap_outcome(w, enc_key@) {
                Ok(key) => r matches Ok(k) && k@ == base64_std(key),
                Err(e) => r matches Err(m) && m@ == "unwrap account_key: "@ + crypto_error_text(e),
            },
        },
{
    let wrapped = match b64_decode(wrapped_b64) {
        Ok(w) => w,
        Err(e) => return Err(cat("wrapped decode: ", e.as_str())),
    };
    proof {
        crate::codec::lemma_base64_decoded(wrapped_b64@, wrapped@);
    }
    match unwrap_account_key(wrapped.as_slice(), enc_key) {
        Ok(k) => Ok(base64_encode(&k)),
        Err(e) => {
            let d = e.describe();
            Err(cat("unwrap account_key: ", d.as_str()))
        },
    }
}

/// Usage as reported in a response: present when the response names the
/// subscription status; missing counts read as zero.
pub open spec fn usage_from(
    status: Option<String>,
    bytes_used: Option<u64>,
    tome_count: Option<u32>,
    quota_bytes: Option<u64>,
    tome_limit: Option<u32>,
    u: Option<UsagePayload>,
) -> bool {
    match status {
        None => u is None,
        Some(st) => u matches Some(p) && p.subscription_status@ == st@
            && p.bytes_used == (match bytes_used { Some(b) => b, None => 0 })
            && p.tome_count == (match tome_count { Some(c) => c, None => 0 })
            && p.quota_bytes == (match quota_bytes { Some(q) => q, None => 0 })
            && p.tome_limit == tome_limit,
    }
}

fn clone_opt(o: &Option<String>) -> (r: Option<String>)
    ensures
        string_opt(r) == string_opt(*o),
{
    match o {
        Some(s) => Some(s.clone()),
        None => None,
    }
}

fn make_usage(
    status: &Option<String>,
    bytes_used: Option<u64>,
    tome_count: Option<u32>,
    quota_bytes: Option<u64>,
    tome_limit: Option<u32>,
) -> (r: Option<UsagePayload>)
    ensures
        usage_from(*status, bytes_used, tome_count, quota_bytes, tome_limit, r),
{
    match status {
        None => None,
        Some(st) => Some(UsagePayload {
            bytes_used: match bytes_used { Some(b) => b, None => 0 },
            tome_count: match tome_count { Some(c) => c, None => 0 },
            quota_bytes: match quota_bytes { Some(q) => q, None => 0 },
            tome_limit: tome_limit,
            subscription_status: st.clone(),
        }),
    }
}

/// The usage embedded in a sign-in response.
pub fn build_usage_from_signin(resp: &SigninResponse) -> (r: Option<UsagePayload>)
    ensures
        usage_from(resp.subscription_status, resp.bytes_used, resp.tome_count, resp.quota_bytes, resp.tome_limit, r),
{
    make_usage(&resp.subscription_status, resp.bytes_used, resp.tome_count, resp.quota_bytes, resp.tome_limit)
}

/// The usage in an account response.
pub fn build_usage_from_account(resp: &AccountInfoResponse) -> (r: Option<UsagePayload>)
    ensures
        usage_from(resp.subscription_status, resp.bytes_used, resp.tome_count, resp.quota_bytes, resp.tome_limit, r),
{
    make_usage(&resp.subscription_status, resp.bytes_used, resp.tome_count, resp.quota_bytes, resp.tome_limit)
}

/// A value that may be absent settled: an absent one leaves the store as
/// it is.
pub open spec fn settled_opt(m: Map<Seq<char>, Seq<char>>, stored: bool, key: Seq<char>, value: Option<Seq<char>>) -> Map<Seq<char>, Seq<char>> {
    match value {
        Some(v) => settled(m, stored, key, v),
        None => m,
    }
}

/// The fallback after a sign-in's session is stored, from `m` and whether
/// the OS keychain took each value (`stored[0..6]`): device token, account
/// key, account salt and email in turn, then the tier and the usage
/// snapshot when there are any.
pub open spec fn signin_settled(
    m: Map<Seq<char>, Seq<char>>,
    stored: Seq<bool>,
    device_token: Seq<char>,
    account_key_b64: Seq<char>,
    kdf_salt_b64: Seq<char>,
    email: Seq<char>,
    tier: Option<Seq<char>>,
    usage_json: Option<Seq<char>>,
) -> Map<Seq<char>, Seq<char>> {
    let m1 = settled(m, stored[0], CLOUD_KEY_DEVICE_TOKEN@, device_token);
    let m2 = settled(m1, stored[1], CLOUD_KEY_ACCOUNT_KEY@, account_key_b64);
    let m3 = settled(m2, stored[2], CLOUD_KEY_KDF_SALT@, kdf_salt_b64);
    let m4 = settled(m3, stored[3], CLOUD_KEY_EMAIL@, email);
    let m5 = settled_opt(m4, stored[4], CLOUD_KEY_TIER@, tier);
    settled_opt(m5, stored[5], CLOUD_KEY_USAGE@, usage_json)
}

/// Settle the fallback once the OS keychain has or has not taken each
/// value of a sign-in's session (`stored`, in the order of
/// `signin_settled`).
pub fn settle_signin(
    fallback: &mut CloudFallback,
    resp: &SigninResponse,
    account_key_b64: &str,
    usage_json: Option<&str>,
    stored: [bool; 6],
)
    requires
        old(fallback).wf(),
    ensures
        final(fallback).wf(),
        final(fallback).view() == signin_settled(
            old(fallback).view(),
            stored@,
            resp.device_token@,
            account_key_b64@,
            resp.kdf_salt_b64@,
            resp.email@,
            string_opt(resp.tier),
            crate::text::str_opt(usage_json),
        ),
{
    settle_cloud_store(fallback, CLOUD_KEY_DEVICE_TOKEN, resp.device_token.as_str(), stored[0]);
    settle_cloud_store(fallback, CLOUD_KEY_ACCOUNT_KEY, account_key_b64, stored[1]);
    settle_cloud_store(fallback, CLOUD_KEY_KDF_SALT, resp.kdf_salt_b64.as_str(), stored[2]);
    settle_cloud_store(fallback, CLOUD_KEY_EMAIL, resp.email.as_str(), stored[3]);
    if let Some(t) = &resp.tier {
        settle_cloud_store(fallback, CLOUD_KEY_TIER, t.as_str(), stored[4]);
    }
    if let Some(u) = usage_json {
        settle_cloud_store(fallback, CLOUD_KEY_USAGE, u, stored[5]);
    }
}

fn keychain_took(key: &str, value: &str) -> (r: bool) {
    match os_secret_set(CLOUD_SERVICE, key, value) {
        Ok(()) => true,
        Err(_) => false,
    }
}

/// Keep the session a sign-in produced: device token, account key, account
/// salt and email, then the tier and the usage snapshot (as JSON) when
/// there are any, each in the OS keychain when it takes it and otherwise
/// in the fallback (settled by `settle_signin`). Storing never fails.
pub fn stash_signin(
    fallback: &mut CloudFallback,
    resp: &SigninResponse,
    account_key_b64: &str,
    usage_json: Option<&str>,
) -> (r: Result<(), String>)
    requires
        old(fallback).wf(),
    ensures
        r is Ok,
        final(fallback).wf(),
        exists|stored: Seq<bool>|
            stored.len() == 6 && final(fallback).view() == #[trigger] signin_settled(
                old(fallback).view(),
                stored,
                resp.device_token@,
                account_key_b64@,
                resp.kdf_salt_b64@,
                resp.email@,
                string_opt(resp.tier),
                crate::text::str_opt(usage_json),
            ),
{
    let s0 = keychain_took(CLOUD_KEY_DEVICE_TOKEN, resp.device_token.as_str());
    let s1 = keychain_took(CLOUD_KEY_ACCOUNT_KEY, account_key_b64);
    let s2 = keychain_took(CLOUD_KEY_KDF_SALT, resp.kdf_salt_b64.as_str());
    let s3 = keychain_took(CLOUD_KEY_EMAIL, resp.email.as_str());
    let s4 = match &resp.tier {
        Some(t) => keychain_took(CLOUD_KEY_TIER, t.as_str()),
        None => false,
    };
    let s5 = match usage_json {
        Some(u) => keychain_took(CLOUD_KEY_USAGE, u),
        None => false,
    };
    let stored = [s0, s1, s2, s3, s4, s5];
    settle_signin(fallback, resp, account_key_b64, usage_json, stored);
    Ok(())
}

/// The account as shown right after signing in at `now`.
pub fn signin_account_info(resp: &SigninResponse, usage: Option<UsagePayload>, now: &str) -> (r: CloudAccountInfo)
    ensures
        r.email@ == resp.email@,
        r.account_id@ == resp.account_id@,
        string_opt(r.tier) == string_opt(resp.tier),
        string_opt(r.signed_in_at) == Some(now@),
        r.usage == usage,
{
    CloudAccountInfo {
        email: resp.email.clone(),
        account_id: resp.account_id.clone(),
        tier: clone_opt(&resp.tier),
        signed_in_at: Some(owned(now)),
        usage,
    }
}

/// The account as refreshed from `/api/account`.
pub fn refreshed_account_info(resp: &AccountInfoResponse, usage: Option<UsagePayload>) -> (r: CloudAccountInfo)
    ensures
        r.email@ == resp.email@,
        r.account_id@ == resp.account_id@,
        string_opt(r.tier) == string_opt(resp.tier),
        r.signed_in_at is None,
        r.usage == usage,
{
    CloudAccountInfo {
        email: resp.email.clone(),
        account_id: resp.account_id.clone(),
        tier: clone_opt(&resp.tier),
        signed_in_at: None,
        usage,
    }
}

/// The sign-in state the keychain holds: signed in when it has a non-empty
/// device token; the email defaults to empty and the account id is not
/// kept.
pub fn cloud_status_info(
    token: Option<String>,
    email: Option<String>,
    tier: Option<String>,
    usage: Option<UsagePayload>,
) -> (r: Option<CloudAccountInfo>)
    ensures
        match token {
            Some(t) if t@.len() > 0 => r matches Some(info) && info.email@ == (match email {
                Some(e) => e@,
                None => Seq::<char>::empty(),
            }) && info.account_id@.len() == 0 && string_opt(info.tier) == string_opt(tier)
                && info.signed_in_at is None && info.usage == usage,
            _ => r is None,
        },
{
    match token {
        Some(t) => {
            if t.as_str().is_empty() {
                return None;
            }
            Some(CloudAccountInfo {
                email: match email {
                    Some(e) => e,
                    None => String::new(),
                },
                account_id: String::new(),
                tier,
                signed_in_at: None,
                usage,
            })
        },
        None => None,
    }
}

/// The device token an authenticated request uses: the keychain's when it
/// is not empty, else the one saved in the backend configuration when that
/// is not empty; otherwise the user must sign in.
pub fn device_token_from(keychain: Option<String>, config: Option<String>) -> (r: Result<String, String>)
    ensures
        match keychain {
            Some(t) if t@.len() > 0 => r matches Ok(x) && x@ == t@,
            _ => match config {
                Some(c) if c@.len() > 0 => r matches Ok(x) && x@ == c@,
                _ => r matches Err(m) && m@ == "not signed in to Vaelorium Cloud \u{2014} sign in from Settings \u{2192} Backup"@,
            },
        },
{
    if let Some(t) = keychain {
        if !t.as_str().is_empty() {
            return Ok(t);
        }
    }
    if let Some(c) = config {
        if !c.as_str().is_empty() {
            return Ok(c);
        }
    }
    Err(owned("not signed in to Vaelorium Cloud \u{2014} sign in from Settings \u{2192} Backup"))
}

/// The token a sign-out tells the server about: the keychain's, else the
/// backend configuration's (empty ones included).
pub fn signout_token(keychain: Option<String>, config: Option<String>) -> (r: Option<String>)
    ensures
        string_opt(r) == match keychain {
            Some(t) => Some(t@),
            None => string_opt(config),
        },
{
    match keychain {
        Some(t) => Some(t),
        None => config,
    }
}

} // verus!
