//! The object-store model that the sync engine writes through: errors,
//! object metadata, per-Tome key prefixes, content etags and the
//! compare-and-swap rule.
//!
//! Backends are passive stores of ciphertext addressed by `/`-separated
//! keys. The stores themselves (a directory, an S3 bucket, the hosted
//! service) do I/O and live with the application; what they decide is here.

use vstd::prelude::*;

use crate::text::{
    chars_of, concat, contains_chars, contains_sub, hex_lower, hex_lower_chars, lemma_hex_lower_len,
    owned, starts_with, starts_with_chars, str_opt, string_of, sub_chars,
};

verus! {

/// Why a backend operation failed.
#[derive(Debug)]
pub enum BackendError {
    /// No object under the key; holds the key.
    NotFound(String),
    /// A compare-and-swap found another etag than the one expected.
    EtagMismatch { key: String, expected: String, found: String },
    /// Local I/O failed; holds the error text.
    Io(String),
    /// The hosted service refused the credentials.
    Unauthorized(String),
    /// The hosted account has no active subscription.
    PaymentRequired(String),
    /// The hosted account is over its storage or Tome quota.
    QuotaExceeded(String),
    /// Anything else; holds a description.
    Other(String),
}

/// The text of a backend error.
pub open spec fn backend_error_text(v: BackendErrorView) -> Seq<char> {
    match v {
        BackendErrorView::NotFound(k) => "object not found: "@ + k,
        BackendErrorView::EtagMismatch(k, e, f) => "etag mismatch on atomic swap (key "@ + k
            + ", expected "@ + e + ", found "@ + f + ")"@,
        BackendErrorView::Io(m) => "io error: "@ + m,
        BackendErrorView::Unauthorized(m) => "unauthorized: "@ + m,
        BackendErrorView::PaymentRequired(m) => "payment required: "@ + m,
        BackendErrorView::QuotaExceeded(m) => "quota exceeded: "@ + m,
        BackendErrorView::Other(m) => "backend internal error: "@ + m,
    }
}

impl BackendError {
    /// The error as text.
    pub fn describe(&self) -> (r: String)
        ensures
            r@ == backend_error_text(error_view(*self)),
    {
        match self {
            BackendError::NotFound(k) => crate::text::cat("object not found: ", k.as_str()),
            BackendError::EtagMismatch { key, expected, found } => {
                let a = crate::text::cat("etag mismatch on atomic swap (key ", key.as_str());
                let b = crate::text::cat(a.as_str(), ", expected ");
                let c = crate::text::cat(b.as_str(), expected.as_str());
                let d = crate::text::cat(c.as_str(), ", found ");
                let e = crate::text::cat(d.as_str(), found.as_str());
                crate::text::cat(e.as_str(), ")")
            },
            BackendError::Io(m) => crate::text::cat("io error: ", m.as_str()),
            BackendError::Unauthorized(m) => crate::text::cat("unauthorized: ", m.as_str()),
            BackendError::PaymentRequired(m) => crate::text::cat("payment required: ", m.as_str()),
            BackendError::QuotaExceeded(m) => crate::text::cat("quota exceeded: ", m.as_str()),
            BackendError::Other(m) => crate::text::cat("backend internal error: ", m.as_str()),
        }
    }
}

/// A backend error as plain character sequences.
pub enum BackendErrorView {
    NotFound(Seq<char>),
    EtagMismatch(Seq<char>, Seq<char>, Seq<char>),
    Io(Seq<char>),
    Unauthorized(Seq<char>),
    PaymentRequired(Seq<char>),
    QuotaExceeded(Seq<char>),
    Other(Seq<char>),
}

/// The plain view of a backend error.
pub open spec fn error_view(e: BackendError) -> BackendErrorView {
    match e {
        BackendError::NotFound(k) => BackendErrorView::NotFound(k@),
        BackendError::EtagMismatch { key, expected, found } => BackendErrorView::EtagMismatch(key@, expected@, found@),
        BackendError::Io(m) => BackendErrorView::Io(m@),
        BackendError::Unauthorized(m) => BackendErrorView::Unauthorized(m@),
        BackendError::PaymentRequired(m) => BackendErrorView::PaymentRequired(m@),
        BackendError::QuotaExceeded(m) => BackendErrorView::QuotaExceeded(m@),
        BackendError::Other(m) => BackendErrorView::Other(m@),
    }
}

/// Metadata of one stored object.
#[derive(Debug)]
pub struct ObjectInfo {
    pub key: String,
    pub size: u64,
    pub etag: String,
    /// Last modification, in milliseconds since the Unix epoch.
    pub last_modified: i64,
}

impl Clone for ObjectInfo {
    fn clone(&self) -> (r: ObjectInfo)
        ensures
            r.key@ == self.key@,
            r.size == self.size,
            r.etag@ == self.etag@,
            r.last_modified == self.last_modified,
    {
        ObjectInfo {
            key: self.key.clone(),
            size: self.size,
            etag: self.etag.clone(),
            last_modified: self.last_modified,
        }
    }
}

// ---------------------------------------------------------------------------
// Per-Tome prefixes
// ---------------------------------------------------------------------------

/// `s` without its trailing slashes.
pub open spec fn trim_trailing_slashes(s: Seq<char>) -> Seq<char>
    decreases s.len(),
{
    if s.len() > 0 && s.last() == '/' {
        trim_trailing_slashes(s.drop_last())
    } else {
        s
    }
}

/// The key under `prefix` that names `key`.
pub open spec fn prefixed_key(prefix: Seq<char>, key: Seq<char>) -> Seq<char> {
    if prefix.len() == 0 {
        key
    } else {
        prefix + seq!['/'] + key
    }
}

/// `key` with `prefix/` removed from its front when it is there.
pub open spec fn unprefixed_key(prefix: Seq<char>, key: Seq<char>) -> Seq<char> {
    if prefix.len() == 0 {
        key
    } else if starts_with(key, prefix + seq!['/']) {
        key.skip(prefix.len() as int + 1)
    } else {
        key
    }
}

/// A namespace inside a shared store: every key is written as
/// `prefix/key` and listed back without the prefix, so several Tomes share
/// one bucket without their keys colliding.
pub struct KeyPrefix {
    prefix: String,
}

impl View for KeyPrefix {
    type V = Seq<char>;

    closed spec fn view(&self) -> Seq<char> {
        self.prefix@
    }
}

impl KeyPrefix {
    /// The prefix with its trailing slashes removed.
    pub fn new(prefix: &str) -> (r: KeyPrefix)
        ensures
            r@ == trim_trailing_slashes(prefix@),
    {
        let v = chars_of(prefix);
        let mut n = v.len();
        assert(v@.take(n as int) =~= v@);
        while n > 0 && v[n - 1] == '/'
            invariant
                n <= v.len(),
                trim_trailing_slashes(v@) == trim_trailing_slashes(v@.take(n as int)),
            decreases n,
        {
            proof {
                assert(v@.take(n as int).drop_last() =~= v@.take(n - 1));
            }
            n = n - 1;
        }
        proof {
            if n == v.len() {
                assert(v@.take(n as int) =~= v@);
            }
        }
        let kept = sub_chars(&v, 0, n);
        proof {
            assert(kept@ =~= v@.take(n as int));
        }
        KeyPrefix { prefix: string_of(&kept) }
    }

    /// The full key that `key` is stored under.
    pub fn full(&self, key: &str) -> (r: String)
        ensures
            r@ == prefixed_key(self@, key@),
    {
        if self.prefix.as_str().is_empty() {
            return crate::text::owned(key);
        }
        let mut p = chars_of(self.prefix.as_str());
        p.push('/');
        let k = chars_of(key);
        let joined = concat(&p, &k);
        string_of(&joined)
    }

    /// `key` as seen inside this namespace.
    pub fn strip(&self, key: &str) -> (r: String)
        ensures
            r@ == unprefixed_key(self@, key@),
    {
        let k = chars_of(key);
        if self.prefix.as_str().is_empty() {
            return string_of(&k);
        }
        let mut p = chars_of(self.prefix.as_str());
        p.push('/');
        assert(p@ =~= self@ + seq!['/']);
        if starts_with_chars(&k, &p) {
            let rest = sub_chars(&k, p.len(), k.len());
            proof {
                assert(rest@ =~= k@.skip(self@.len() as int + 1));
            }
            string_of(&rest)
        } else {
            string_of(&k)
        }
    }

    /// Listing what was written gives back the key that was written:
    /// stripping the prefix from a full key yields the key.
    pub proof fn lemma_strip_full(self, key: Seq<char>)
        ensures
            unprefixed_key(self@, prefixed_key(self@, key)) == key,
    {
        if self@.len() > 0 {
            let p = self@ + seq!['/'];
            let f = p + key;
            assert(f.subrange(0, p.len() as int) =~= p);
            assert(f.skip(p.len() as int) =~= key);
        }
    }
}

/// A normalised prefix never ends with a slash.
pub proof fn lemma_trimmed_has_no_trailing_slash(s: Seq<char>)
    ensures
        trim_trailing_slashes(s).len() == 0 || trim_trailing_slashes(s).last() != '/',
    decreases s.len(),
{
    if s.len() > 0 && s.last() == '/' {
        lemma_trimmed_has_no_trailing_slash(s.drop_last());
    }
}

// ---------------------------------------------------------------------------
// SHA-256 etags and Tome prefixes
// ---------------------------------------------------------------------------

/// The SHA-256 digest of `data`.
pub uninterp spec fn sha256_digest(data: Seq<u8>) -> Seq<u8>;

/// `sha2::Sha256::digest`: the 32-byte SHA-256 digest of `data`.
#[verifier::external_body]
fn sha256(data: &[u8]) -> (r: [u8; 32])
    ensures
        r@ == sha256_digest(data@),
{
    let digest = <sha2::Sha256 as sha2::Digest>::digest(data);
    let mut out = [0u8; 32];
    out.copy_from_slice(digest.as_slice());
    out
}

/// The etag of an object's contents: SHA-256 in lower-case hexadecimal.
pub open spec fn content_etag(data: Seq<u8>) -> Seq<char> {
    hex_lower(sha256_digest(data))
}

/// Etag of `data`: 64 lower-case hex digits of its SHA-256. Equal contents
/// give equal etags.
pub fn etag_of(data: &[u8]) -> (r: String)
    ensures
        r@ == content_etag(data@),
        r@.len() == 64,
{
    let digest = sha256(data);
    let hex = hex_lower_chars(&digest, 32);
    proof {
        assert(digest@.take(32) =~= digest@);
        lemma_hex_lower_len(digest@);
    }
    string_of(&hex)
}

/// The bucket folder of a Tome: `tomes/` and the first 8 bytes of the
/// SHA-256 of its local id in hexadecimal.
pub open spec fn tome_prefix_of(tome_id: Seq<char>) -> Seq<char> {
    "tomes/"@ + hex_lower(sha256_digest(vstd::utf8::encode_utf8(tome_id)).take(8))
}

/// The canonical per-Tome prefix. The local id (a file path) is hashed so
/// the bucket never sees the user's directory layout.
pub fn tome_prefix(tome_id: &str) -> (r: String)
    ensures
        r@ == tome_prefix_of(tome_id@),
        r@.len() == 22,
{
    let digest = sha256(tome_id.as_bytes());
    let hex = hex_lower_chars(&digest, 8);
    let head = chars_of("tomes/");
    let joined = concat(&head, &hex);
    proof {
        reveal_strlit("tomes/");
        lemma_hex_lower_len(digest@.take(8));
    }
    string_of(&joined)
}

// ---------------------------------------------------------------------------
// Compare-and-swap
// ---------------------------------------------------------------------------

/// What a compare-and-swap decides from the etag of the object now stored
/// (`None`: no object) and the etag the writer expects (`None`: expects no
/// object): `None` to go ahead, or the mismatch to report.
pub open spec fn swap_refusal(key: Seq<char>, current: Option<Seq<char>>, expected: Option<Seq<char>>) -> Option<(Seq<char>, Seq<char>, Seq<char>)> {
    match (current, expected) {
        (None, None) => None,
        (Some(c), Some(e)) => if c == e {
            None
        } else {
            Some((key, e, c))
        },
        (Some(c), None) => Some((key, "(absent)"@, c)),
        (None, Some(e)) => Some((key, e, "(absent)"@)),
    }
}

/// The compare-and-swap rule: write only when the stored etag is the one
/// expected, or when no object exists and none is expected.
pub fn check_swap(key: &str, current: Option<&str>, expected: Option<&str>) -> (r: Result<(), BackendError>)
    ensures
        match r {
            Ok(()) => swap_refusal(key@, str_opt(current), str_opt(expected)) is None,
            Err(BackendError::EtagMismatch { key: k, expected: e, found: f }) =>
                swap_refusal(key@, str_opt(current), str_opt(expected)) == Some((k@, e@, f@)),
            Err(_) => false,
        },
{
    match (current, expected) {
        (None, None) => Ok(()),
        (Some(c), Some(e)) => {
            if crate::text::str_eq(c, e) {
                Ok(())
            } else {
                Err(BackendError::EtagMismatch {
                    key: crate::text::owned(key),
                    expected: crate::text::owned(e),
                    found: crate::text::owned(c),
                })
            }
        },
        (Some(c), None) => Err(BackendError::EtagMismatch {
            key: crate::text::owned(key),
            expected: crate::text::owned("(absent)"),
            found: crate::text::owned(c),
        }),
        (None, Some(e)) => Err(BackendError::EtagMismatch {
            key: crate::text::owned(key),
            expected: crate::text::owned(e),
            found: crate::text::owned("(absent)"),
        }),
    }
}

/// A file name of an interrupted write (`<name>.tmp.<ulid>`), which
/// listings skip.
pub fn is_temp_file_name(name: &str) -> (r: bool)
    ensures
        r == contains_sub(name@, ".tmp."@),
{
    let v = chars_of(name);
    let pat = chars_of(".tmp.");
    contains_chars(&v, &pat)
}

// ---------------------------------------------------------------------------
// Folder destinations
// ---------------------------------------------------------------------------

/// `Path::join` on `/`-separated paths: `name` itself when it is absolute,
/// otherwise `name` after `base` and one `/` (none added when `base` is
/// empty or already ends with one).
pub open spec fn path_join(base: Seq<char>, name: Seq<char>) -> Seq<char> {
    if name.len() > 0 && name[0] == '/' {
        name
    } else if base.len() == 0 || base.last() == '/' {
        base + name
    } else {
        base + seq!['/'] + name
    }
}

/// `base` joined with `name`.
pub fn join_path(base: &str, name: &str) -> (r: String)
    ensures
        r@ == path_join(base@, name@),
{
    let b = chars_of(base);
    let n = chars_of(name);
    if n.len() > 0 && n[0] == '/' {
        string_of(&n)
    } else if b.len() == 0 || b[b.len() - 1] == '/' {
        string_of(&concat(&b, &n))
    } else {
        let mut head = b.clone();
        head.push('/');
        assert(head@ == b@ + seq!['/']);
        string_of(&concat(&head, &n))
    }
}

/// A destination that is a folder: objects are files under its root, at
/// the path their key names.
pub struct FilesystemBackend {
    root: String,
}

impl FilesystemBackend {
    /// The folder that holds the objects.
    pub closed spec fn root_path(&self) -> Seq<char> {
        self.root@
    }

    /// A destination rooted at `root` (the application creates the folder).
    pub fn new(root: &str) -> (r: FilesystemBackend)
        ensures
            r.root_path() == root@,
    {
        FilesystemBackend { root: owned(root) }
    }

    /// Where the object under `key` is stored.
    pub fn path_for(&self, key: &str) -> (r: String)
        ensures
            r@ == path_join(self.root_path(), key@),
    {
        join_path(self.root.as_str(), key)
    }

    /// The key of a file found under the root while listing: its path
    /// after the root, with `\` turned into `/`. Paths are those that
    /// `path_for` builds from this root; any other is refused.
    pub fn key_of(&self, path: &str) -> (r: Result<String, BackendError>)
        ensures
            match r {
                Ok(k) => exists|rel: Seq<char>| #[trigger] path_join(self.root_path(), rel) == path@
                    && (rel.len() == 0 || rel[0] != '/')
                    && k@ == rel.map_values(|c: char| if c == '\\' { '/' } else { c }),
                Err(e) => e is Other,
            },
    {
        let b = chars_of(self.root.as_str());
        let p = chars_of(path);
        let mut head = b.clone();
        if !(b.len() == 0 || b[b.len() - 1] == '/') {
            head.push('/');
        }
        if head.len() <= p.len() && starts_with_chars(&p, &head) {
            let rel = sub_chars(&p, head.len(), p.len());
            if rel.len() > 0 && rel[0] == '/' {
                return Err(BackendError::Other(owned("prefix not found")));
            }
            let mut out: Vec<char> = Vec::new();
            let mut i: usize = 0;
            while i < rel.len()
                invariant
                    i <= rel.len(),
                    out@ == rel@.take(i as int).map_values(|c: char| if c == '\\' { '/' } else { c }),
                decreases rel.len() - i,
            {
                let c = rel[i];
                out.push(if c == '\\' { '/' } else { c });
                assert(rel@.take(i + 1).map_values(|c: char| if c == '\\' { '/' } else { c })
                    =~= rel@.take(i as int).map_values(|c: char| if c == '\\' { '/' } else { c }).push(
                    if c == '\\' { '/' } else { c }));
                i = i + 1;
            }
            assert(rel@.take(i as int) =~= rel@);
            proof {
                assert(p@ =~= head@ + rel@);
                if b.len() == 0 || b@.last() == '/' {
                    assert(head@ == b@);
                } else {
                    assert(head@ == b@ + seq!['/']);
                }
                assert(path_join(self.root_path(), rel@) == path@);
            }
            Ok(string_of(&out))
        } else {
            Err(BackendError::Other(owned("prefix not found")))
        }
    }
}

} // verus!
