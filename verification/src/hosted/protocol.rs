//! The Vaelorium Cloud HTTPS protocol: request URLs, response shapes, and
//! how status codes and error bodies become backend errors.
//!
//! The HTTP client itself lives with the application; everything it needs
//! to decide is here.

use vstd::prelude::*;

use crate::backend::{error_view, BackendError, BackendErrorView, ObjectInfo};
use crate::codec::{percent_encoded, url_encode};
use crate::text::{
    all_hex, all_hex_chars, chars_eq, chars_of, concat, count_char, count_chars, ends_with,
    ends_with_chars, is_hex, lemma_count_concat, lemma_hex_no_hyphen, lemma_lower_counts, lemma_lower_idempotent,
    lemma_lower_trimmed, lemma_lower_utf8_len, lemma_lower_ws, lemma_trim_of_trimmed, lemma_trim_shape, lower,
    lower_char, lower_chars, owned, split_char, split_chars, str_eq, string_of, sub_chars, trim, trim_chars,
    trimmed_shape, views,
};

verus! {

/// Cloud base URL used when none is configured.
pub const DEFAULT_BASE_URL: &'static str = "https://cloud.vaelorium.com";

/// Request timeout in seconds.
pub const DEFAULT_TIMEOUT_SECS: u64 = 30;

/// Account usage as the cloud reports it on sign-in and after every
/// mutation.
pub struct CloudUsage {
    pub bytes_used: u64,
    pub tome_count: u32,
    pub quota_bytes: u64,
    /// `None` on the unlimited tier.
    pub tome_limit: Option<u32>,
    pub subscription_status: String,
}

/// The signed-in account as the application shows it.
pub struct CloudAccountInfo {
    pub email: String,
    pub account_id: String,
    pub tier: Option<String>,
    /// RFC 3339 time of the sign-in that produced the device token.
    pub signed_in_at: Option<String>,
    pub usage: Option<CloudUsage>,
}

/// Body of a successful sign-in.
pub struct SigninResponse {
    pub account_id: String,
    pub email: String,
    pub device_token: String,
    pub kdf_salt_b64: String,
    pub wrapped_by_password_b64: String,
    pub tier: Option<String>,
    pub subscription_status: Option<String>,
    pub tome_count: Option<u32>,
    pub tome_limit: Option<u32>,
    pub quota_bytes: Option<u64>,
    pub bytes_used: Option<u64>,
}

/// One Tome of the account, as `GET /v1/tomes` lists it.
pub struct AccountTomeSummary {
    pub tome_uuid: String,
    pub snapshot_count: u32,
    /// ULID of the newest snapshot; `None` for a Tome with only a journal.
    pub latest_snapshot_id: Option<String>,
    pub size_bytes: u64,
    pub last_modified_ms: i64,
}

/// Body of `GET /api/account`.
pub struct AccountInfoResponse {
    pub account_id: String,
    pub email: String,
    pub tier: Option<String>,
    pub subscription_status: Option<String>,
    pub tome_count: Option<u32>,
    pub tome_limit: Option<u32>,
    pub quota_bytes: Option<u64>,
    pub bytes_used: Option<u64>,
}

/// Object metadata returned by PUT, HEAD and list.
pub struct ObjectMeta {
    pub size: u64,
    pub etag: String,
    /// Milliseconds since the Unix epoch.
    pub last_modified: i64,
    pub key: Option<String>,
    pub usage: Option<CloudUsage>,
}

/// One page of a listing.
pub struct ListResponse {
    pub objects: Vec<ObjectMeta>,
    pub truncated: bool,
    pub cursor: Option<String>,
}

/// The JSON body of a storage error, `{ error, code }`.
pub struct ErrorBody {
    pub error: Option<String>,
    pub code: Option<String>,
}

// ---------------------------------------------------------------------------
// URLs
// ---------------------------------------------------------------------------

/// `parts` joined with `/`.
pub open spec fn join_slash(parts: Seq<Seq<char>>) -> Seq<char>
    decreases parts.len(),
{
    if parts.len() == 0 {
        Seq::empty()
    } else if parts.len() == 1 {
        parts[0]
    } else {
        join_slash(parts.drop_last()) + seq!['/'] + parts.last()
    }
}

/// Each `/`-separated segment of `key` percent-encoded, the slashes kept.
pub open spec fn encoded_path(key: Seq<char>) -> Seq<char> {
    join_slash(split_char(key, '/').map_values(|seg: Seq<char>| percent_encoded(vstd::utf8::encode_utf8(seg))))
}

/// URL of an object of a Tome.
pub open spec fn object_url_of(base_url: Seq<char>, tome_uuid: Seq<char>, key: Seq<char>) -> Seq<char> {
    base_url + "/v1/tomes/"@ + tome_uuid + "/object/"@ + encoded_path(key)
}

fn encoded_path_chars(key: &str) -> (r: Vec<char>)
    ensures
        r@ == encoded_path(key@),
{
    let k = chars_of(key);
    let parts = split_chars(&k, '/');
    let ghost encs = views(parts@).map_values(|seg: Seq<char>| percent_encoded(vstd::utf8::encode_utf8(seg)));
    let mut out: Vec<char> = Vec::new();
    let mut i: usize = 0;
    while i < parts.len()
        invariant
            i <= parts@.len(),
            encs == views(parts@).map_values(|seg: Seq<char>| percent_encoded(vstd::utf8::encode_utf8(seg))),
            out@ == join_slash(encs.take(i as int)),
        decreases parts@.len() - i,
    {
        let seg = string_of(&parts[i]);
        let enc = url_encode(seg.as_str());
        let e = chars_of(enc.as_str());
        proof {
            assert(views(parts@)[i as int] == parts@[i as int]@);
            assert(encs[i as int] == e@);
            assert(encs.take(i + 1).drop_last() =~= encs.take(i as int));
        }
        if i > 0 {
            out.push('/');
        }
        let ghost pre = out@;
        out = concat(&out, &e);
        proof {
            if i == 0 {
                assert(out@ =~= e@);
            } else {
                assert(out@ =~= join_slash(encs.take(i as int)) + seq!['/'] + e@);
            }
        }
        i = i + 1;
    }
    proof {
        assert(encs.take(parts@.len() as int) =~= encs);
        assert(views(parts@) == split_char(key@, '/'));
    }
    out
}

/// URL of the object `key` of a Tome. Each path segment is
/// percent-encoded; the slashes between segments stay.
pub fn object_url(base_url: &str, tome_uuid: &str, key: &str) -> (r: String)
    ensures
        r@ == object_url_of(base_url@, tome_uuid@, key@),
{
    let a = chars_of(base_url);
    let b = chars_of("/v1/tomes/");
    let c = chars_of(tome_uuid);
    let d = chars_of("/object/");
    let e = encoded_path_chars(key);
    let ab = concat(&a, &b);
    let abc = concat(&ab, &c);
    let abcd = concat(&abc, &d);
    string_of(&concat(&abcd, &e))
}

/// URL that asks for the KDF salt of `email`.
pub fn salt_url(base_url: &str, email: &str) -> (r: String)
    ensures
        r@ == base_url@ + "/api/auth/salt?email="@ + percent_encoded(vstd::utf8::encode_utf8(email@)),
{
    let a = chars_of(base_url);
    let b = chars_of("/api/auth/salt?email=");
    let enc = url_encode(email);
    let c = chars_of(enc.as_str());
    let ab = concat(&a, &b);
    string_of(&concat(&ab, &c))
}

/// URL of one page of a listing under `prefix`, continuing at `cursor`.
pub fn list_page_url(base_url: &str, tome_uuid: &str, prefix: &str, cursor: Option<&str>) -> (r: String)
    ensures
        r@ == base_url@ + "/v1/tomes/"@ + tome_uuid@ + "/list?prefix="@ + percent_encoded(vstd::utf8::encode_utf8(prefix@))
            + match cursor {
            Some(c) => "&cursor="@ + percent_encoded(vstd::utf8::encode_utf8(c@)),
            None => Seq::<char>::empty(),
        },
{
    let a = chars_of(base_url);
    let b = chars_of("/v1/tomes/");
    let c = chars_of(tome_uuid);
    let d = chars_of("/list?prefix=");
    let pe = url_encode(prefix);
    let e = chars_of(pe.as_str());
    let ab = concat(&a, &b);
    let abc = concat(&ab, &c);
    let abcd = concat(&abc, &d);
    let base = concat(&abcd, &e);
    match cursor {
        Some(cur) => {
            let f = chars_of("&cursor=");
            let ce = url_encode(cur);
            let g = chars_of(ce.as_str());
            let fg = concat(&f, &g);
            let all = concat(&base, &fg);
            proof {
                assert(all@ =~= base@ + ("&cursor="@ + g@));
            }
            string_of(&all)
        },
        None => {
            proof {
                assert(base@ + Seq::<char>::empty() =~= base@);
            }
            string_of(&base)
        },
    }
}

/// Where a paginated listing goes next: the cursor of a truncated page, or
/// `None` when the listing is complete (a truncated page without a cursor
/// also ends it).
pub fn next_list_cursor(page: &ListResponse) -> (r: Option<String>)
    ensures
        match r {
            Some(c) => page.truncated && (page.cursor matches Some(pc) && pc@ == c@),
            None => !page.truncated || page.cursor is None,
        },
{
    if !page.truncated {
        return None;
    }
    match &page.cursor {
        Some(c) => Some(owned(c.as_str())),
        None => None,
    }
}

// ---------------------------------------------------------------------------
// Status codes
// ---------------------------------------------------------------------------

/// How `reqwest::StatusCode` displays the code: the number and its
/// canonical reason phrase.
pub uninterp spec fn http_status_text(code: u16) -> Seq<char>;

/// `StatusCode::from_u16(code)` displayed with `to_string`.
#[verifier::external_body]
fn status_display(code: u16) -> (r: String)
    requires
        100 <= code <= 999,
    ensures
        r@ == http_status_text(code),
{
    match reqwest::StatusCode::from_u16(code) {
        Ok(s) => s.to_string(),
        Err(_) => String::new(),
    }
}

/// A 2xx status.
pub open spec fn is_success(code: u16) -> bool {
    200 <= code <= 299
}

/// What an authentication endpoint's status means: success; 401 wrong
/// credentials; 402 no active subscription; anything else an error that
/// names the status.
pub fn map_auth_status(status: u16) -> (r: Result<(), BackendError>)
    requires
        100 <= status <= 999,
    ensures
        is_success(status) <==> r is Ok,
        !is_success(status) ==> match r {
            Err(BackendError::Unauthorized(m)) => status == 401 && m@ == "invalid_credentials"@,
            Err(BackendError::PaymentRequired(m)) => status == 402 && m@ == "subscription not active"@,
            Err(BackendError::Other(m)) => status != 401 && status != 402 && m@ == "auth HTTP "@ + http_status_text(status),
            _ => false,
        },
{
    if 200 <= status && status <= 299 {
        return Ok(());
    }
    if status == 401 {
        Err(BackendError::Unauthorized(owned("invalid_credentials")))
    } else if status == 402 {
        Err(BackendError::PaymentRequired(owned("subscription not active")))
    } else {
        let a = chars_of("auth HTTP ");
        let s = status_display(status);
        let b = chars_of(s.as_str());
        Err(BackendError::Other(string_of(&concat(&a, &b))))
    }
}

/// The error message and code of an error body, empty when absent.
pub open spec fn body_fields(body: Option<ErrorBody>) -> (Seq<char>, Seq<char>) {
    match body {
        Some(b) => (
            match b.error {
                Some(e) => e@,
                None => Seq::empty(),
            },
            match b.code {
                Some(c) => c@,
                None => Seq::empty(),
            },
        ),
        None => (Seq::empty(), Seq::empty()),
    }
}

/// The backend error that a failed storage request reports, from its
/// status, its parsed error body (if it had one) and the key it was about.
pub open spec fn storage_error_of(status: u16, body: Option<ErrorBody>, key_hint: Seq<char>) -> BackendErrorView {
    let (msg, code) = body_fields(body);
    if status == 404 {
        BackendErrorView::NotFound(key_hint)
    } else if status == 401 {
        BackendErrorView::Unauthorized(msg)
    } else if status == 402 {
        BackendErrorView::PaymentRequired(msg)
    } else if status == 412 {
        BackendErrorView::EtagMismatch(key_hint, Seq::empty(), Seq::empty())
    } else if status == 413 {
        BackendErrorView::QuotaExceeded(
            if code == "quota_exceeded"@ || code == "tome_limit_exceeded"@ {
                msg
            } else {
                "payload too large: "@ + msg
            },
        )
    } else if status == 500 {
        BackendErrorView::Other("cloud 500: "@ + msg)
    } else {
        BackendErrorView::Other("cloud HTTP "@ + http_status_text(status) + ": "@ + msg + " ("@ + code + ")"@)
    }
}

fn opt_chars(o: &Option<String>) -> (r: Vec<char>)
    ensures
        r@ == match o {
            Some(s) => s@,
            None => Seq::<char>::empty(),
        },
{
    match o {
        Some(s) => chars_of(s.as_str()),
        None => Vec::new(),
    }
}

/// Map a failed storage response to a backend error.
pub fn storage_error(status: u16, body: Option<ErrorBody>, key_hint: &str) -> (r: BackendError)
    requires
        100 <= status <= 999,
    ensures
        error_view(r) == storage_error_of(status, body, key_hint@),
{
    let ghost body_v = body;
    let (msg, code) = match &body {
        Some(b) => (opt_chars(&b.error), opt_chars(&b.code)),
        None => (Vec::new(), Vec::new()),
    };
    proof {
        assert(msg@ == body_fields(body_v).0);
        assert(code@ == body_fields(body_v).1);
    }
    if status == 404 {
        BackendError::NotFound(owned(key_hint))
    } else if status == 401 {
        BackendError::Unauthorized(string_of(&msg))
    } else if status == 402 {
        BackendError::PaymentRequired(string_of(&msg))
    } else if status == 412 {
        BackendError::EtagMismatch { key: owned(key_hint), expected: String::new(), found: String::new() }
    } else if status == 413 {
        let quota = chars_of("quota_exceeded");
        let limit = chars_of("tome_limit_exceeded");
        if chars_eq(&code, &quota) || chars_eq(&code, &limit) {
            BackendError::QuotaExceeded(string_of(&msg))
        } else {
            let p = chars_of("payload too large: ");
            BackendError::QuotaExceeded(string_of(&concat(&p, &msg)))
        }
    } else if status == 500 {
        let p = chars_of("cloud 500: ");
        BackendError::Other(string_of(&concat(&p, &msg)))
    } else {
        let p = chars_of("cloud HTTP ");
        let st = status_display(status);
        let s = chars_of(st.as_str());
        let colon = chars_of(": ");
        let open = chars_of(" (");
        let close = chars_of(")");
        let t1 = concat(&p, &s);
        let t2 = concat(&t1, &colon);
        let t3 = concat(&t2, &msg);
        let t4 = concat(&t3, &open);
        let t5 = concat(&t4, &code);
        BackendError::Other(string_of(&concat(&t5, &close)))
    }
}

/// The hosted store supports compare-and-swap on the sync metadata only.
pub fn check_hosted_swap_key(key: &str) -> (r: Result<(), BackendError>)
    ensures
        (ends_with(key@, "sync-meta.json"@) || key@ == "sync-meta"@) <==> r is Ok,
        r matches Err(e) ==> e matches BackendError::Other(m)
            && m@ == "hosted backend only supports atomic_swap on sync-meta, got: "@ + key@,
{
    let k = chars_of(key);
    let suffix = chars_of("sync-meta.json");
    if ends_with_chars(&k, &suffix) || str_eq(key, "sync-meta") {
        Ok(())
    } else {
        let p = chars_of("hosted backend only supports atomic_swap on sync-meta, got: ");
        Err(BackendError::Other(string_of(&concat(&p, &k))))
    }
}

/// Object metadata from the cloud as an object listing entry; a missing
/// key is taken as `fallback_key`.
pub fn object_info_of(meta: &ObjectMeta, fallback_key: &str) -> (r: ObjectInfo)
    ensures
        r.key@ == match meta.key {
            Some(k) => k@,
            None => fallback_key@,
        },
        r.size == meta.size,
        r.etag@ == meta.etag@,
        r.last_modified == meta.last_modified,
{
    let key = match &meta.key {
        Some(k) => owned(k.as_str()),
        None => owned(fallback_key),
    };
    ObjectInfo { key, size: meta.size, etag: owned(meta.etag.as_str()), last_modified: meta.last_modified }
}

// ---------------------------------------------------------------------------
// Tome UUIDs
// ---------------------------------------------------------------------------

/// `s` with hyphens inserted at 8-4-4-4-12.
pub open spec fn hyphenated(s: Seq<char>) -> Seq<char> {
    s.subrange(0, 8) + seq!['-'] + s.subrange(8, 12) + seq!['-'] + s.subrange(12, 16) + seq!['-']
        + s.subrange(16, 20) + seq!['-'] + s.subrange(20, 32)
}

/// The canonical form the cloud expects of a Tome UUID: a trimmed,
/// lower-cased 36-byte form with four hyphens is kept; 32 hex digits are
/// lower-cased and hyphenated 8-4-4-4-12; anything else is trimmed and
/// lower-cased and left for the server to reject.
pub open spec fn canonical_uuid(raw: Seq<char>) -> Seq<char> {
    let t = trim(raw);
    if vstd::utf8::encode_utf8(t).len() as usize == 36 && count_char(t, '-') == 4 {
        lower(t)
    } else if vstd::utf8::encode_utf8(t).len() as usize == 32 && all_hex(t) {
        hyphenated(lower(t))
    } else {
        lower(t)
    }
}

/// Accept either UUID form and give the canonical hyphenated one.
pub fn hyphenate_uuid(raw: &str) -> (r: String)
    ensures
        r@ == canonical_uuid(raw@),
{
    let v = chars_of(raw);
    let t = trim_chars(&v);
    let ts = string_of(&t);
    let byte_len = ts.as_str().len();
    assert(byte_len == vstd::utf8::encode_utf8(t@).len() as usize);
    if byte_len == 36 && count_chars(&t, '-') == 4 {
        return string_of(&lower_chars(&t));
    }
    if byte_len == 32 && all_hex_chars(&t) {
        let s = lower_chars(&t);
        proof {
            // All-hex text is ASCII, one byte per character.
            lemma_hex_is_ascii(t@);
            vstd::utf8::is_ascii_chars_encode_utf8(t@);
            assert(s@.len() == 32);
        }
        let mut out = sub_chars(&s, 0, 8);
        out.push('-');
        out = concat(&out, &sub_chars(&s, 8, 12));
        out.push('-');
        out = concat(&out, &sub_chars(&s, 12, 16));
        out.push('-');
        out = concat(&out, &sub_chars(&s, 16, 20));
        out.push('-');
        out = concat(&out, &sub_chars(&s, 20, 32));
        proof {
            assert(out@ =~= hyphenated(s@));
        }
        return string_of(&out);
    }
    string_of(&lower_chars(&t))
}

/// Hexadecimal digits are ASCII.
pub proof fn lemma_hex_is_ascii(s: Seq<char>)
    requires
        all_hex(s),
    ensures
        vstd::utf8::is_ascii_chars(s),
{
    assert forall|i: int| 0 <= i < s.len() implies '\0' <= #[trigger] s[i] <= '\u{7f}' by {
        assert(crate::text::is_hex(s[i]));
    }
}

/// The hyphenated form of (the first 32 of) at least 32 hex digits is
/// kept by trimming and lower-casing, has 36 bytes and four hyphens.
pub proof fn lemma_hyphenated_form_fixed(t: Seq<char>)
    requires
        t.len() >= 32,
        all_hex(t),
    ensures
        trim(hyphenated(lower(t))) == hyphenated(lower(t)),
        vstd::utf8::encode_utf8(hyphenated(lower(t))).len() == 36,
        count_char(hyphenated(lower(t)), '-') == 4,
        lower(hyphenated(lower(t))) == hyphenated(lower(t)),
{
    lemma_lower_counts(t);
    let lt = lower(t);
    let h = hyphenated(lt);
    assert(all_hex(lt));
    let p0 = lt.subrange(0, 8);
    let p1 = lt.subrange(8, 12);
    let p2 = lt.subrange(12, 16);
    let p3 = lt.subrange(16, 20);
    let p4 = lt.subrange(20, 32);
    assert forall|i: int| 0 <= i < h.len() implies (h[i] == '-' || is_hex(#[trigger] h[i])) && lower_char(h[i]) == h[i] by {
        if i < 8 {
            assert(h[i] == lt[i]);
        } else if 8 < i < 13 {
            assert(h[i] == lt[i - 1]);
        } else if 13 < i < 18 {
            assert(h[i] == lt[i - 2]);
        } else if 18 < i < 23 {
            assert(h[i] == lt[i - 3]);
        } else if 23 < i {
            assert(h[i] == lt[i - 4]);
        }
        if h[i] != '-' {
            lemma_lower_ws(h[i]);
        }
    }
    assert(trimmed_shape(h)) by {
        assert(h[0] == lt[0]);
        assert(h.last() == lt[31]);
        assert(lt.len() >= 32);
    }
    lemma_trim_of_trimmed(h);
    assert forall|i: int| 0 <= i < h.len() implies '\0' <= #[trigger] h[i] <= '\u{7f}' by {
        assert(h[i] == '-' || is_hex(h[i]));
    }
    vstd::utf8::is_ascii_chars_encode_utf8(h);
    for_hyphens(lt, p0, p1, p2, p3, p4);
    assert(lower(h) =~= h);
}

/// The canonical form is a fixed point: canonicalising a canonical UUID
/// (or a rejected text already passed through) changes nothing.
pub proof fn lemma_canonical_uuid_idempotent(raw: Seq<char>)
    ensures
        canonical_uuid(canonical_uuid(raw)) == canonical_uuid(raw),
{
    let t = trim(raw);
    lemma_trim_shape(raw);
    lemma_lower_trimmed(t);
    lemma_lower_counts(t);
    lemma_lower_utf8_len(t);
    lemma_lower_idempotent(t);
    let lt = lower(t);
    if vstd::utf8::encode_utf8(t).len() as usize == 32 && all_hex(t) && !(vstd::utf8::encode_utf8(t).len() as usize == 36 && count_char(t, '-') == 4) {
        lemma_hex_is_ascii(t);
        vstd::utf8::is_ascii_chars_encode_utf8(t);
        if t.len() < 32 {
            assert(t.len() as usize == t.len());
        }
        lemma_hyphenated_form_fixed(t);
    } else {
        lemma_trim_of_trimmed(lt);
    }
}

/// 32 hex digits (after trimming) become 36 characters with hyphens at
/// 8, 13, 18 and 23 and nowhere else; removing them gives the digits
/// lower-cased.
pub proof fn lemma_canonical_uuid_hyphenates(raw: Seq<char>)
    requires
        vstd::utf8::encode_utf8(trim(raw)).len() == 32,
        all_hex(trim(raw)),
    ensures
        canonical_uuid(raw) == hyphenated(lower(trim(raw))),
        canonical_uuid(raw).len() == 36,
        canonical_uuid(raw)[8] == '-' && canonical_uuid(raw)[13] == '-',
        canonical_uuid(raw)[18] == '-' && canonical_uuid(raw)[23] == '-',
        count_char(canonical_uuid(raw), '-') == 4,
        canonical_uuid(raw).subrange(0, 8) + canonical_uuid(raw).subrange(9, 13) + canonical_uuid(raw).subrange(14, 18)
            + canonical_uuid(raw).subrange(19, 23) + canonical_uuid(raw).subrange(24, 36) == lower(trim(raw)),
{
    let t = trim(raw);
    lemma_hex_is_ascii(t);
    vstd::utf8::is_ascii_chars_encode_utf8(t);
    assert(t.len() == 32);
    lemma_hyphenated_form_fixed(t);
    let h = hyphenated(lower(t));
    let lt = lower(t);
    assert(h.subrange(0, 8) + h.subrange(9, 13) + h.subrange(14, 18) + h.subrange(19, 23) + h.subrange(24, 36) =~= lt);
}

proof fn for_hyphens(lt: Seq<char>, p0: Seq<char>, p1: Seq<char>, p2: Seq<char>, p3: Seq<char>, p4: Seq<char>)
    requires
        lt.len() >= 32,
        all_hex(lt),
        p0 == lt.subrange(0, 8),
        p1 == lt.subrange(8, 12),
        p2 == lt.subrange(12, 16),
        p3 == lt.subrange(16, 20),
        p4 == lt.subrange(20, 32),
    ensures
        count_char(hyphenated(lt), '-') == 4,
{
    let d = seq!['-'];
    assert(count_char(d, '-') == 1) by {
        assert(d.drop_last() =~= Seq::<char>::empty());
        reveal_with_fuel(count_char, 2);
    }
    lemma_hex_no_hyphen(p0);
    lemma_hex_no_hyphen(p1);
    lemma_hex_no_hyphen(p2);
    lemma_hex_no_hyphen(p3);
    lemma_hex_no_hyphen(p4);
    lemma_count_concat(p0, d, '-');
    lemma_count_concat(p0 + d, p1, '-');
    lemma_count_concat(p0 + d + p1, d, '-');
    lemma_count_concat(p0 + d + p1 + d, p2, '-');
    lemma_count_concat(p0 + d + p1 + d + p2, d, '-');
    lemma_count_concat(p0 + d + p1 + d + p2 + d, p3, '-');
    lemma_count_concat(p0 + d + p1 + d + p2 + d + p3, d, '-');
    lemma_count_concat(p0 + d + p1 + d + p2 + d + p3 + d, p4, '-');
}

} // verus!
