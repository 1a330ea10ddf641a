//! The app-global backup destination: device naming, the status shown in
//! settings, how a restored Tome is named on disk, and the choices made
//! while configuring, unlocking, restoring and deleting.

use vstd::prelude::*;

use crate::backend::ObjectInfo;
use crate::codec::{b64_decode, base64_encode, base64_std};
use crate::s3::{trim_char, trim_char_chars, S3Config};
use crate::state::{backend_name, BackendKind};
use crate::text::{
    all_hex, chars_of, concat, contains_chars, contains_sub, decimal, decimal_chars, hex_digit, is_hex, is_ws,
    is_ws_char, lemma_trim_of_trimmed, lemma_trim_shape, owned, str_contains, str_eq, string_of, string_opt,
    trim, trim_chars, trimmed_shape,
};

verus! {

// ---------------------------------------------------------------------------
// Device names
// ---------------------------------------------------------------------------

/// Index of the last `c` in `s`, or -1.
pub open spec fn last_index_of(s: Seq<char>, c: char) -> int
    decreases s.len(),
{
    if s.len() == 0 {
        -1
    } else if s.last() == c {
        s.len() - 1
    } else {
        last_index_of(s.drop_last(), c)
    }
}

/// `t` already ends with a parenthesised stub of four hex digits: the text
/// after its last `(` is four hex digits and `)`.
pub open spec fn has_stub(t: Seq<char>) -> bool {
    let p = last_index_of(t, '(');
    &&& p >= 0
    &&& t.skip(p + 1).len() == 5
    &&& t.last() == ')'
    &&& all_hex(t.subrange(p + 1, t.len() - 1))
}

/// The first four hex digits of a 128-bit device id in its 32-digit form.
pub open spec fn id_stub(device_id: u128) -> Seq<char> {
    seq![
        hex_digit((device_id / 0x1000_0000_0000_0000_0000_0000_0000_0000) as nat),
        hex_digit(((device_id / 0x100_0000_0000_0000_0000_0000_0000_0000) % 16) as nat),
        hex_digit(((device_id / 0x10_0000_0000_0000_0000_0000_0000_0000) % 16) as nat),
        hex_digit(((device_id / 0x1_0000_0000_0000_0000_0000_0000_0000) % 16) as nat),
    ]
}

/// A device name made distinguishable: the trimmed name, followed by
/// ` (xxxx)` from the device id unless it already ends with such a stub.
pub open spec fn stubbed_name(name: Seq<char>, device_id: u128) -> Seq<char> {
    let t = trim(name);
    if has_stub(t) {
        t
    } else {
        t + " ("@ + id_stub(device_id) + ")"@
    }
}

fn last_index_of_exec(v: &Vec<char>, c: char) -> (r: Option<usize>)
    ensures
        match r {
            Some(i) => i < v@.len() && last_index_of(v@, c) == i as int,
            None => last_index_of(v@, c) == -1,
        },
{
    let mut n = v.len();
    assert(v@.take(n as int) =~= v@);
    while n > 0
        invariant
            n <= v.len(),
            last_index_of(v@, c) == last_index_of(v@.take(n as int), c),
        decreases n,
    {
        assert(v@.take(n as int).drop_last() =~= v@.take(n - 1));
        if v[n - 1] == c {
            return Some(n - 1);
        }
        n = n - 1;
    }
    None
}

fn hex_digit_exec(d: u128) -> (r: char)
    requires
        d < 16,
    ensures
        r == hex_digit(d as nat),
{
    if d < 10 {
        let x = (48 + d) as u8;
        x as char
    } else {
        let x = (87 + d) as u8;
        x as char
    }
}

fn has_stub_exec(t: &Vec<char>) -> (r: bool)
    ensures
        r == has_stub(t@),
{
    match last_index_of_exec(t, '(') {
        None => false,
        Some(p) => {
            if t.len() - (p + 1) != 5 || t[t.len() - 1] != ')' {
                return false;
            }
            let inner = crate::text::sub_chars(t, p + 1, t.len() - 1);
            crate::text::all_hex_chars(&inner)
        },
    }
}

/// Give a device name a 4-hex-digit stub from its id, unless it already
/// has one, so two devices called "My Laptop" stay distinguishable.
pub fn ensure_device_name_stub(name: &str, device_id: u128) -> (r: String)
    ensures
        r@ == stubbed_name(name@, device_id),
{
    let t = trim_chars(&chars_of(name));
    if has_stub_exec(&t) {
        return string_of(&t);
    }
    let mut out = t;
    out.push(' ');
    out.push('(');
    out.push(hex_digit_exec(device_id / 0x1000_0000_0000_0000_0000_0000_0000_0000));
    out.push(hex_digit_exec((device_id / 0x100_0000_0000_0000_0000_0000_0000_0000) % 16));
    out.push(hex_digit_exec((device_id / 0x10_0000_0000_0000_0000_0000_0000_0000) % 16));
    out.push(hex_digit_exec((device_id / 0x1_0000_0000_0000_0000_0000_0000_0000) % 16));
    out.push(')');
    proof {
        reveal_strlit(" (");
        reveal_strlit(")");
        assert(out@ =~= trim(name@) + " ("@ + id_stub(device_id) + ")"@);
    }
    string_of(&out)
}

proof fn lemma_last_index_at(s: Seq<char>, c: char, k: int)
    requires
        0 <= k < s.len(),
        s[k] == c,
        forall|j: int| k < j < s.len() ==> s[j] != c,
    ensures
        last_index_of(s, c) == k,
    decreases s.len(),
{
    if s.last() != c {
        lemma_last_index_at(s.drop_last(), c, k);
    }
}

/// Renaming is stable: stubbing an already stubbed name changes nothing,
/// whatever device id the second call gets. Holds for every name that is
/// not blank (a blank name stubs to ` (xxxx)`, which trims differently).
pub proof fn lemma_device_name_stub_idempotent(name: Seq<char>, a: u128, b: u128)
    requires
        trim(name).len() > 0,
    ensures
        stubbed_name(stubbed_name(name, a), b) == stubbed_name(name, a),
{
    let t = trim(name);
    lemma_trim_shape(name);
    if has_stub(t) {
        lemma_trim_of_trimmed(t);
    } else {
        reveal_strlit(" (");
        reveal_strlit(")");
        let s4 = id_stub(a);
        let r = t + " ("@ + s4 + ")"@;
        assert(r.len() == t.len() + 7);
        assert(r[0] == t[0]);
        assert(r.last() == ')');
        assert(trimmed_shape(r));
        lemma_trim_of_trimmed(r);
        let p: int = t.len() as int + 1;
        assert(r[p] == '(');
        assert forall|j: int| p < j < r.len() implies r[j] != '(' by {
            if j < r.len() - 1 {
                assert(r[j] == s4[j - p - 1]);
            }
        }
        lemma_last_index_at(r, '(', p);
        assert(r.subrange(p + 1, r.len() - 1) =~= s4);
        assert(all_hex(s4));
    }
}

// ---------------------------------------------------------------------------
// File names of restored Tomes
// ---------------------------------------------------------------------------

/// `char::is_control`: the Unicode `Cc` category.
pub open spec fn is_control(c: char) -> bool {
    (c as u32) < 0x20 || (0x7f <= (c as u32) && (c as u32) < 0xa0)
}

/// A character that cannot stand in a file name on some platform.
pub open spec fn unsafe_file_char(c: char) -> bool {
    c == '/' || c == '\\' || c == ':' || c == '*' || c == '?' || c == '"' || c == '<' || c == '>' || c == '|'
        || is_control(c)
}

/// Each unsafe character replaced by `_`.
pub open spec fn replace_unsafe(s: Seq<char>) -> Seq<char> {
    s.map_values(|c: char| if unsafe_file_char(c) { '_' } else { c })
}

/// A Tome name made safe as a file name: unsafe characters replaced by
/// `_`, surrounding whitespace and then dots removed, `Restored Tome` when
/// nothing is left.
pub open spec fn sanitized(name: Seq<char>) -> Seq<char> {
    let t = trim_char(trim(replace_unsafe(name)), '.');
    if t.len() == 0 {
        "Restored Tome"@
    } else {
        t
    }
}

fn is_unsafe_file_char(c: char) -> (r: bool)
    ensures
        r == unsafe_file_char(c),
{
    let n = c as u32;
    c == '/' || c == '\\' || c == ':' || c == '*' || c == '?' || c == '"' || c == '<' || c == '>' || c == '|'
        || n < 0x20 || (0x7f <= n && n < 0xa0)
}

/// A Tome name as a safe file name.
pub fn sanitize_filename(name: &str) -> (r: String)
    ensures
        r@ == sanitized(name@),
{
    let v = chars_of(name);
    let mut cleaned: Vec<char> = Vec::new();
    let mut i: usize = 0;
    while i < v.len()
        invariant
            i <= v.len(),
            cleaned@ == replace_unsafe(v@.take(i as int)),
        decreases v.len() - i,
    {
        let c = v[i];
        if is_unsafe_file_char(c) {
            cleaned.push('_');
        } else {
            cleaned.push(c);
        }
        i = i + 1;
        assert(cleaned@ =~= replace_unsafe(v@.take(i as int)));
    }
    assert(v@.take(v.len() as int) =~= v@);
    let t = trim_char_chars(&trim_chars(&cleaned), '.');
    if t.len() == 0 {
        owned("Restored Tome")
    } else {
        string_of(&t)
    }
}

proof fn lemma_trim_start_char_suffix(s: Seq<char>, c: char)
    ensures
        exists|k: int| 0 <= k <= s.len() && trim_start_char_of(s, c) == s.skip(k),
        trim_start_char_of(s, c).len() == 0 || trim_start_char_of(s, c)[0] != c,
    decreases s.len(),
{
    if s.len() > 0 && s[0] == c {
        lemma_trim_start_char_suffix(s.drop_first(), c);
        let k = choose|k: int| 0 <= k <= s.drop_first().len() && trim_start_char_of(s.drop_first(), c) == s.drop_first().skip(k);
        assert(s.drop_first().skip(k) =~= s.skip(k + 1));
    } else {
        assert(s.skip(0) =~= s);
    }
}

spec fn trim_start_char_of(s: Seq<char>, c: char) -> Seq<char> {
    crate::s3::trim_start_char(s, c)
}

proof fn lemma_trim_end_char_prefix(s: Seq<char>, c: char)
    ensures
        exists|k: int| 0 <= k <= s.len() && crate::s3::trim_end_char(s, c) == s.take(k),
        crate::s3::trim_end_char(s, c).len() == 0 || crate::s3::trim_end_char(s, c).last() != c,
    decreases s.len(),
{
    if s.len() > 0 && s.last() == c {
        lemma_trim_end_char_prefix(s.drop_last(), c);
        let k = choose|k: int| 0 <= k <= s.drop_last().len() && crate::s3::trim_end_char(s.drop_last(), c) == s.drop_last().take(k);
        assert(s.drop_last().take(k) =~= s.take(k));
    } else {
        assert(s.take(s.len() as int) =~= s);
    }
}

proof fn lemma_trim_sub(s: Seq<char>)
    ensures
        exists|a: int, b: int| 0 <= a <= b <= s.len() && trim(s) == s.subrange(a, b),
{
    lemma_trim_start_sub(s);
    let a = choose|a: int| 0 <= a <= s.len() && crate::text::trim_start(s) == s.skip(a);
    let u = crate::text::trim_start(s);
    lemma_trim_end_sub(u);
    let k = choose|k: int| 0 <= k <= u.len() && crate::text::trim_end(u) == u.take(k);
    assert(u.take(k) =~= s.subrange(a, a + k));
}

proof fn lemma_trim_start_sub(s: Seq<char>)
    ensures
        exists|a: int| 0 <= a <= s.len() && crate::text::trim_start(s) == s.skip(a),
    decreases s.len(),
{
    if s.len() > 0 && is_ws(s[0]) {
        lemma_trim_start_sub(s.drop_first());
        let a = choose|a: int| 0 <= a <= s.drop_first().len() && crate::text::trim_start(s.drop_first()) == s.drop_first().skip(a);
        assert(s.drop_first().skip(a) =~= s.skip(a + 1));
    } else {
        assert(s.skip(0) =~= s);
    }
}

proof fn lemma_trim_end_sub(s: Seq<char>)
    ensures
        exists|k: int| 0 <= k <= s.len() && crate::text::trim_end(s) == s.take(k),
    decreases s.len(),
{
    if s.len() > 0 && is_ws(s.last()) {
        lemma_trim_end_sub(s.drop_last());
        let k = choose|k: int| 0 <= k <= s.drop_last().len() && crate::text::trim_end(s.drop_last()) == s.drop_last().take(k);
        assert(s.drop_last().take(k) =~= s.take(k));
    } else {
        assert(s.take(s.len() as int) =~= s);
    }
}

/// A sanitised name is a usable file name: not empty, free of characters
/// that some platform refuses, and neither starting nor ending with a dot.
pub proof fn lemma_sanitized_is_safe(name: Seq<char>)
    ensures
        sanitized(name).len() > 0,
        forall|i: int| 0 <= i < sanitized(name).len() ==> !unsafe_file_char(#[trigger] sanitized(name)[i]),
        sanitized(name)[0] != '.',
        sanitized(name).last() != '.',
{
    let m = replace_unsafe(name);
    let t0 = trim(m);
    let t = trim_char(t0, '.');
    lemma_trim_sub(m);
    let (a, b) = choose|a: int, b: int| 0 <= a <= b <= m.len() && trim(m) == m.subrange(a, b);
    lemma_trim_start_char_suffix(t0, '.');
    let u = trim_start_char_of(t0, '.');
    let k1 = choose|k: int| 0 <= k <= t0.len() && trim_start_char_of(t0, '.') == t0.skip(k);
    lemma_trim_end_char_prefix(u, '.');
    let k2 = choose|k: int| 0 <= k <= u.len() && crate::s3::trim_end_char(u, '.') == u.take(k);
    if t.len() == 0 {
        reveal_strlit("Restored Tome");
        assert forall|i: int| 0 <= i < sanitized(name).len() implies !unsafe_file_char(#[trigger] sanitized(name)[i]) by {
            assert(sanitized(name) == "Restored Tome"@);
        }
    } else {
        assert(t == u.take(k2));
        assert forall|i: int| 0 <= i < t.len() implies !unsafe_file_char(#[trigger] t[i]) by {
            assert(t[i] == u[i]);
            assert(u[i] == t0[k1 + i]);
            assert(t0[k1 + i] == m[a + k1 + i]);
        }
        if k2 > 0 {
            assert(t[0] == u[0]);
        }
        assert(t.last() != '.');
    }
}

/// File name of a restored Tome: `<name>.tome`, or `<name> (n).tome` for
/// the `n`-th attempt when that name was taken.
pub fn restored_file_name(safe_name: &str, attempt: u64) -> (r: String)
    ensures
        r@ == if attempt == 0 {
            safe_name@ + ".tome"@
        } else {
            safe_name@ + " ("@ + decimal(attempt as nat) + ").tome"@
        },
{
    let base = chars_of(safe_name);
    if attempt == 0 {
        return string_of(&concat(&base, &chars_of(".tome")));
    }
    let open = chars_of(" (");
    let n = decimal_chars(attempt);
    let close = chars_of(").tome");
    string_of(&concat(&concat(&concat(&base, &open), &n), &close))
}

/// One step of finding a free name for a restored Tome: when the name of
/// attempt `attempt` is `taken`, the next attempt and its name; `None` when
/// that name is free and is the one to use.
pub fn next_restore_name(safe_name: &str, attempt: u64, taken: bool) -> (r: Option<(u64, String)>)
    requires
        taken ==> attempt < u64::MAX,
    ensures
        match r {
            None => !taken,
            Some((n, name)) => taken && n == attempt + 1 && name@ == safe_name@ + " ("@ + decimal(n as nat)
                + ").tome"@,
        },
{
    if taken {
        let n = attempt + 1;
        Some((n, restored_file_name(safe_name, n)))
    } else {
        None
    }
}

/// What a failed restore tells the user: a decryption failure means the
/// passphrase is wrong; anything else is passed on.
pub fn restore_error_text(msg: &str) -> (r: String)
    ensures
        r@ == if contains_sub(msg@, "crypto"@) {
            "wrong passphrase — could not decrypt snapshot"@
        } else {
            msg@
        },
{
    if str_contains(msg, "crypto") {
        owned("wrong passphrase — could not decrypt snapshot")
    } else {
        owned(msg)
    }
}

// ---------------------------------------------------------------------------
// Status and configuration
// ---------------------------------------------------------------------------

/// What the settings screen shows about the backup destination.
pub struct BackupStatusPayload {
    /// A destination is configured.
    pub configured: bool,
    /// Configured, but no key is unlocked in this session.
    pub locked: bool,
    pub backend_kind: Option<String>,
    /// Short description: the folder, the bucket, or the cloud account.
    pub backend_summary: Option<String>,
    pub device_name: Option<String>,
}

/// The string fields of a destination's settings that the logic reads
/// (each `None` when absent or not a string).
pub struct BackendConfigFields {
    pub path: Option<String>,
    pub region: Option<String>,
    pub bucket: Option<String>,
    pub access_key: Option<String>,
    pub secret_key: Option<String>,
    pub endpoint: Option<String>,
    pub prefix: Option<String>,
    pub email: Option<String>,
    pub tier: Option<String>,
}

/// Text of an optional setting, or `default`.
pub open spec fn or_default(o: Option<String>, default: Seq<char>) -> Seq<char> {
    match o {
        Some(s) => s@,
        None => default,
    }
}

/// The summary line of a destination.
pub open spec fn summary_of(kind: BackendKind, cfg: BackendConfigFields) -> Seq<char> {
    match kind {
        BackendKind::Filesystem => or_default(cfg.path, Seq::empty()),
        BackendKind::S3 => or_default(cfg.bucket, Seq::empty()) + " on "@ + or_default(cfg.endpoint, "AWS"@),
        BackendKind::Hosted => {
            let email = or_default(cfg.email, "Vaelorium Cloud"@);
            let tier = or_default(cfg.tier, Seq::empty());
            if tier.len() == 0 {
                "Cloud — "@ + email
            } else {
                "Cloud "@ + tier + " — "@ + email
            }
        },
    }
}

fn opt_or(o: &Option<String>, default: &str) -> (r: Vec<char>)
    ensures
        r@ == match o {
            Some(s) => s@,
            None => default@,
        },
{
    match o {
        Some(s) => chars_of(s.as_str()),
        None => chars_of(default),
    }
}

/// The summary line of a destination.
pub fn backend_summary(kind: BackendKind, cfg: &BackendConfigFields) -> (r: String)
    ensures
        r@ == summary_of(kind, *cfg),
{
    proof {
        reveal_strlit("");
    }
    match kind {
        BackendKind::Filesystem => string_of(&opt_or(&cfg.path, "")),
        BackendKind::S3 => {
            let b = opt_or(&cfg.bucket, "");
            let e = opt_or(&cfg.endpoint, "AWS");
            string_of(&concat(&concat(&b, &chars_of(" on ")), &e))
        },
        BackendKind::Hosted => {
            let email = opt_or(&cfg.email, "Vaelorium Cloud");
            let tier = opt_or(&cfg.tier, "");
            if tier.len() == 0 {
                string_of(&concat(&chars_of("Cloud — "), &email))
            } else {
                let head = concat(&chars_of("Cloud "), &tier);
                string_of(&concat(&concat(&head, &chars_of(" — ")), &email))
            }
        },
    }
}

/// The status of the backup: `dest` is the configured destination (kind,
/// settings, device name), `unlocked` whether a key is cached.
pub fn backup_status_payload(dest: Option<(BackendKind, &BackendConfigFields, &str)>, unlocked: bool) -> (r: BackupStatusPayload)
    ensures
        r.configured == (dest is Some),
        r.locked == (dest is Some && !unlocked),
        match dest {
            Some((kind, cfg, name)) => {
                &&& r.backend_kind matches Some(k) && k@ == backend_name(kind)
                &&& r.backend_summary matches Some(s) && s@ == summary_of(kind, *cfg)
                &&& r.device_name matches Some(d) && d@ == name@
            },
            None => r.backend_kind is None && r.backend_summary is None && r.device_name is None,
        },
{
    match dest {
        Some((kind, cfg, name)) => BackupStatusPayload {
            configured: true,
            locked: !unlocked,
            backend_kind: Some(owned(kind.as_str())),
            backend_summary: Some(backend_summary(kind, cfg)),
            device_name: Some(owned(name)),
        },
        None => BackupStatusPayload {
            configured: false,
            locked: false,
            backend_kind: None,
            backend_summary: None,
            device_name: None,
        },
    }
}

/// The settings stored for a cloud destination: the account's email and
/// tier, each only when not empty.
pub fn hosted_config_fields(email: Option<String>, tier: Option<String>) -> (r: BackendConfigFields)
    ensures
        r.email == (match email {
            Some(e) => if e@.len() > 0 { Some(e) } else { None },
            None => None::<String>,
        }),
        r.tier == (match tier {
            Some(t) => if t@.len() > 0 { Some(t) } else { None },
            None => None::<String>,
        }),
        r.path is None && r.region is None && r.bucket is None && r.access_key is None,
        r.secret_key is None && r.endpoint is None && r.prefix is None,
{
    let email = match email {
        Some(e) => if e.as_str().is_empty() { None } else { Some(e) },
        None => None,
    };
    let tier = match tier {
        Some(t) => if t.as_str().is_empty() { None } else { Some(t) },
        None => None,
    };
    BackendConfigFields {
        path: None,
        region: None,
        bucket: None,
        access_key: None,
        secret_key: None,
        endpoint: None,
        prefix: None,
        email,
        tier,
    }
}

fn required(v: &Option<String>, name: &str) -> (r: Result<String, String>)
    ensures
        match r {
            Ok(s) => v matches Some(x) && x@ == s@,
            Err(m) => v is None && m@ == "s3 backend requires `"@ + name@ + "`"@,
        },
{
    match v {
        Some(s) => Ok(owned(s.as_str())),
        None => {
            let m = concat(&concat(&chars_of("s3 backend requires `"), &chars_of(name)), &chars_of("`"));
            Err(string_of(&m))
        },
    }
}

fn non_empty(v: &Option<String>) -> (r: Option<String>)
    ensures
        match v {
            Some(s) => if s@.len() > 0 { r matches Some(x) && x@ == s@ } else { r is None },
            None => r is None,
        },
{
    match v {
        Some(s) => if s.as_str().is_empty() { None } else { Some(owned(s.as_str())) },
        None => None,
    }
}

/// The S3 settings of a destination. Region, bucket and both keys are
/// required, checked in that order; an empty endpoint or folder counts as
/// none.
pub fn parse_s3_config(cfg: &BackendConfigFields) -> (r: Result<S3Config, String>)
    ensures
        r is Ok <==> (cfg.region is Some && cfg.bucket is Some && cfg.access_key is Some && cfg.secret_key is Some),
        r matches Ok(c) ==> {
            &&& c.region@ == cfg.region->0@
            &&& c.bucket@ == cfg.bucket->0@
            &&& c.access_key@ == cfg.access_key->0@
            &&& c.secret_key@ == cfg.secret_key->0@
            &&& match cfg.endpoint {
                Some(e) => if e@.len() > 0 { c.endpoint matches Some(x) && x@ == e@ } else { c.endpoint is None },
                None => c.endpoint is None,
            }
            &&& match cfg.prefix {
                Some(p) => if p@.len() > 0 { c.prefix matches Some(x) && x@ == p@ } else { c.prefix is None },
                None => c.prefix is None,
            }
        },
        r matches Err(m) ==> m@ == "s3 backend requires `"@ + (if cfg.region is None {
            "region"@
        } else if cfg.bucket is None {
            "bucket"@
        } else if cfg.access_key is None {
            "access_key"@
        } else {
            "secret_key"@
        }) + "`"@,
{
    let endpoint = non_empty(&cfg.endpoint);
    let region = required(&cfg.region, "region")?;
    let bucket = required(&cfg.bucket, "bucket")?;
    let access_key = required(&cfg.access_key, "access_key")?;
    let secret_key = required(&cfg.secret_key, "secret_key")?;
    let prefix = non_empty(&cfg.prefix);
    Ok(S3Config { endpoint, region, bucket, access_key, secret_key, prefix })
}

/// The folder of a filesystem destination.
pub fn filesystem_path(cfg: &BackendConfigFields) -> (r: Result<String, String>)
    ensures
        match r {
            Ok(p) => cfg.path matches Some(x) && x@ == p@,
            Err(m) => cfg.path is None && m@ == "filesystem backend requires `path`"@,
        },
{
    match &cfg.path {
        Some(p) => Ok(owned(p.as_str())),
        None => Err(owned("filesystem backend requires `path`")),
    }
}

/// The device name to record: the one given, else the one already
/// configured, else the host name, else `Vaelorium Device`.
pub fn choose_device_name(input: Option<String>, existing: Option<String>, hostname: Option<String>) -> (r: String)
    ensures
        r@ == match input {
            Some(n) => n@,
            None => match existing {
                Some(e) => e@,
                None => match hostname {
                    Some(h) => h@,
                    None => "Vaelorium Device"@,
                },
            },
        },
{
    match input {
        Some(n) => n,
        None => match existing {
            Some(e) => e,
            None => match hostname {
                Some(h) => h,
                None => owned("Vaelorium Device"),
            },
        },
    }
}

/// An object that proves the passphrase: a snapshot or an op.
pub open spec fn is_probe_key(key: Seq<char>) -> bool {
    contains_sub(key, ".snap.enc"@) || contains_sub(key, ".op.enc"@)
}

/// The first object of a listing that can check a passphrase.
pub fn find_probe(infos: &Vec<ObjectInfo>) -> (r: Option<usize>)
    ensures
        match r {
            Some(i) => i < infos@.len() && is_probe_key(infos@[i as int].key@)
                && forall|j: int| 0 <= j < i ==> !is_probe_key(#[trigger] infos@[j].key@),
            None => forall|j: int| 0 <= j < infos@.len() ==> !is_probe_key(#[trigger] infos@[j].key@),
        },
{
    let mut i: usize = 0;
    while i < infos.len()
        invariant
            i <= infos@.len(),
            forall|j: int| 0 <= j < i ==> !is_probe_key(#[trigger] infos@[j].key@),
        decreases infos.len() - i,
    {
        let k = chars_of(infos[i].key.as_str());
        if contains_chars(&k, &chars_of(".snap.enc")) || contains_chars(&k, &chars_of(".op.enc")) {
            return Some(i);
        }
        i = i + 1;
    }
    None
}

/// The bucket-root metadata object that carries the passphrase salt, so
/// every device derives the same key.
pub struct RemoteMeta {
    pub version: u32,
    /// Base64 of the Argon2id salt.
    pub salt_b64: String,
    /// The Tome that first enabled sync against this bucket.
    pub tome_id: String,
    /// RFC 3339 creation time.
    pub created_at: String,
}

pub const META_KEY: &'static str = "sync-meta.json";

pub const META_VERSION: u32 = 1;

impl RemoteMeta {
    /// Metadata for a new bucket.
    pub fn new(salt: &[u8], tome_id: &str, created_at: &str) -> (r: RemoteMeta)
        ensures
            r.version == META_VERSION,
            r.salt_b64@ == base64_std(salt@),
            r.tome_id@ == tome_id@,
            r.created_at@ == created_at@,
    {
        RemoteMeta { version: META_VERSION, salt_b64: base64_encode(salt), tome_id: owned(tome_id), created_at: owned(created_at) }
    }

    /// The salt. The stored text must be canonical base64; otherwise the
    /// object is reported corrupt.
    pub fn salt(&self) -> (r: Result<Vec<u8>, String>)
        ensures
            r matches Ok(b) ==> base64_std(b@) == self.salt_b64@,
            (exists|b: Seq<u8>| base64_std(b) == self.salt_b64@) ==> r is Ok,
            r matches Err(m) ==> m@ == "corrupt sync-meta.json (bad salt_b64): "@ + crate::codec::base64_error_text(
                self.salt_b64@,
            ),
    {
        match b64_decode(self.salt_b64.as_str()) {
            Ok(b) => Ok(b),
            Err(e) => {
                let head = chars_of("corrupt sync-meta.json (bad salt_b64): ");
                let all = concat(&head, &chars_of(e.as_str()));
                Err(string_of(&all))
            },
        }
    }
}

/// A salt survives the round trip through the metadata object.
pub proof fn lemma_meta_salt_roundtrip(salt: Seq<u8>, stored: Seq<char>, decoded: Seq<u8>)
    requires
        stored == base64_std(salt),
        base64_std(decoded) == stored,
    ensures
        decoded == salt,
{
    crate::codec::lemma_base64_injective(decoded, salt);
}

// ---------------------------------------------------------------------------
// Restore and delete
// ---------------------------------------------------------------------------

/// A Tome that can be restored, as listed to the user.
pub struct RestorableTome {
    pub tome_uuid: String,
    pub snapshot_id: String,
    pub name: String,
    pub description: Option<String>,
    pub size_bytes: u64,
    /// RFC 3339.
    pub last_modified: String,
}

/// Where a restored Tome was put.
pub struct RestoredTome {
    pub path: String,
    pub name: String,
    pub tome_uuid: String,
    /// A non-fatal problem met while restoring.
    pub warning: Option<String>,
}

pub struct RestoreInput {
    pub tome_uuid: String,
}

pub struct DeleteTomeInput {
    pub tome_uuid: String,
}

pub struct DeviceNameInput {
    pub device_name: String,
}

/// What removing a Tome from the backup removed.
pub struct DeleteTomeResult {
    pub deleted_objects: u64,
    pub deleted_bytes: u64,
}

impl DeleteTomeResult {
    pub fn new() -> (r: DeleteTomeResult)
        ensures
            r.deleted_objects == 0 && r.deleted_bytes == 0,
    {
        DeleteTomeResult { deleted_objects: 0, deleted_bytes: 0 }
    }

    /// Count one deleted object of `size` bytes.
    pub fn record(&mut self, size: u64)
        requires
            old(self).deleted_objects < u64::MAX,
            old(self).deleted_bytes + size <= u64::MAX,
        ensures
            final(self).deleted_objects == old(self).deleted_objects + 1,
            final(self).deleted_bytes == old(self).deleted_bytes + size,
    {
        self.deleted_objects = self.deleted_objects + 1;
        self.deleted_bytes = self.deleted_bytes + size;
    }
}

/// `label` is `Tome` and the text of the first eight bytes of `uuid`,
/// marked when the Tome has no snapshot yet.
pub open spec fn is_fallback_label(label: Seq<char>, uuid: Seq<char>, no_snapshot: bool) -> bool {
    exists|head: Seq<char>| {
        &&& #[trigger] vstd::utf8::encode_utf8(head) == vstd::utf8::encode_utf8(uuid).subrange(0, 8)
        &&& label == "Tome "@ + head + if no_snapshot { " (no snapshot yet)"@ } else { Seq::<char>::empty() }
    }
}

/// The label of a Tome whose name could not be read: `Tome` and the first
/// eight bytes of its uuid, marked when it has no snapshot yet.
pub fn fallback_tome_label(tome_uuid: &str, no_snapshot: bool) -> (r: String)
    requires
        vstd::utf8::is_char_boundary(vstd::utf8::encode_utf8(tome_uuid@), 8),
    ensures
        is_fallback_label(r@, tome_uuid@, no_snapshot),
{
    let (head, _) = tome_uuid.split_at(8);
    let mut out = concat(&chars_of("Tome "), &chars_of(head));
    if no_snapshot {
        out = concat(&out, &chars_of(" (no snapshot yet)"));
    } else {
        assert(out@ + Seq::<char>::empty() =~= out@);
    }
    string_of(&out)
}

/// Position of the summary of `tome_uuid`, if the listing has one.
pub fn find_tome_summary(summaries: &Vec<crate::snapshot::TomeSnapshotSummary>, tome_uuid: &str) -> (r: Option<usize>)
    ensures
        match r {
            Some(i) => i < summaries@.len() && summaries@[i as int].tome_uuid@ == tome_uuid@
                && forall|j: int| 0 <= j < i ==> #[trigger] summaries@[j].tome_uuid@ != tome_uuid@,
            None => forall|j: int| 0 <= j < summaries@.len() ==> #[trigger] summaries@[j].tome_uuid@ != tome_uuid@,
        },
{
    let mut i: usize = 0;
    while i < summaries.len()
        invariant
            i <= summaries@.len(),
            forall|j: int| 0 <= j < i ==> #[trigger] summaries@[j].tome_uuid@ != tome_uuid@,
        decreases summaries.len() - i,
    {
        if str_eq(summaries[i].tome_uuid.as_str(), tome_uuid) {
            return Some(i);
        }
        i = i + 1;
    }
    None
}

// ---------------------------------------------------------------------------
// Connecting and unlocking
// ---------------------------------------------------------------------------

/// This device's identity after connecting: the id it already had (else
/// `fresh_id`), and the chosen name (given, else the one it had, else the
/// host name, else `Vaelorium Device`) with the id's stub.
pub fn configure_device(
    input_name: Option<String>,
    existing: Option<(String, u128)>,
    hostname: Option<String>,
    fresh_id: u128,
) -> (r: (String, u128))
    ensures
        r.1 == match existing {
            Some((_, id)) => id,
            None => fresh_id,
        },
        r.0@ == stubbed_name(
            match input_name {
                Some(n) => n@,
                None => match existing {
                    Some((e, _)) => e@,
                    None => match hostname {
                        Some(h) => h@,
                        None => "Vaelorium Device"@,
                    },
                },
            },
            r.1,
        ),
{
    let (existing_name, device_id) = match existing {
        Some((n, id)) => (Some(n), id),
        None => (None, fresh_id),
    };
    let raw = choose_device_name(input_name, existing_name, hostname);
    (ensure_device_name_stub(raw.as_str(), device_id), device_id)
}

/// Check a derived key against an existing blob of the destination.
/// `unlocking` picks the message of the unlock screen.
pub fn backup_probe_check(key: &crate::crypto::KeyMaterial, blob: &[u8], unlocking: bool) -> (r: Result<(), String>)
    ensures
        crate::crypto::open_blob(key@, blob@) is Ok ==> r is Ok,
        crate::crypto::open_blob(key@, blob@) is Err ==> (r matches Err(m) && m@ == (if unlocking {
            "wrong passphrase \u{2014} could not decrypt existing backup data"@
        } else {
            "passphrase does not match the existing backup data \u{2014} the passphrase is wrong."@
        })),
{
    match crate::crypto::decrypt(key, blob) {
        Ok(_) => Ok(()),
        Err(_) => {
            if unlocking {
                Err(owned("wrong passphrase \u{2014} could not decrypt existing backup data"))
            } else {
                Err(owned("passphrase does not match the existing backup data \u{2014} the passphrase is wrong."))
            }
        },
    }
}

/// The salt kept in the app configuration, decoded; `context` heads the
/// message when it is not canonical Base64.
pub fn config_salt(salt_b64: &str, context: &str) -> (r: Result<Vec<u8>, String>)
    ensures
        r matches Ok(b) ==> base64_std(b@) == salt_b64@,
        (exists|b: Seq<u8>| base64_std(b) == salt_b64@) ==> r is Ok,
        r matches Err(m) ==> m@ == context@ + ": "@ + crate::codec::base64_error_text(salt_b64@),
{
    match b64_decode(salt_b64) {
        Ok(b) => Ok(b),
        Err(e) => {
            let head = concat(&chars_of(context), &chars_of(": "));
            let all = concat(&head, &chars_of(e.as_str()));
            Err(string_of(&all))
        },
    }
}

/// The salt a cloud backup unlocks with: the account's, cached in the
/// keychain at sign-in, when there is one; the locally kept one otherwise.
pub fn hosted_unlock_salt(local_b64: String, canonical_b64: Option<String>) -> (r: String)
    ensures
        r@ == match canonical_b64 {
            Some(c) => c@,
            None => local_b64@,
        },
{
    match canonical_b64 {
        Some(c) => c,
        None => local_b64,
    }
}

/// The folder of a Tome in a shared folder or bucket, which deleting the
/// Tome empties.
pub fn tome_folder(tome_uuid: &str) -> (r: String)
    ensures
        r@ == "tomes/"@ + tome_uuid@,
{
    string_of(&concat(&chars_of("tomes/"), &chars_of(tome_uuid)))
}

} // verus!
