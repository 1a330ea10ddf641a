//! The decisions of the S3-compatible store: where keys go inside the
//! bucket, how etags are normalised, and how the SDK's failures are
//! classified. The SDK calls themselves belong to the application.

use vstd::prelude::*;

use crate::backend::{error_view, BackendError, BackendErrorView};
use crate::text::{chars_of, concat, contains_chars, contains_sub, owned, starts_with, starts_with_chars, string_of, sub_chars};

verus! {

/// Connection settings of an S3-compatible bucket.
pub struct S3Config {
    /// `None` for the AWS default endpoint.
    pub endpoint: Option<String>,
    pub region: String,
    pub bucket: String,
    pub access_key: String,
    pub secret_key: String,
    /// Folder inside the bucket.
    pub prefix: Option<String>,
}

/// `s` without the character `c` at its end, however many times it is
/// there (`str::trim_end_matches`).
pub open spec fn trim_end_char(s: Seq<char>, c: char) -> Seq<char>
    decreases s.len(),
{
    if s.len() > 0 && s.last() == c {
        trim_end_char(s.drop_last(), c)
    } else {
        s
    }
}

/// `s` without the character `c` at its start, however many times.
pub open spec fn trim_start_char(s: Seq<char>, c: char) -> Seq<char>
    decreases s.len(),
{
    if s.len() > 0 && s[0] == c {
        trim_start_char(s.drop_first(), c)
    } else {
        s
    }
}

/// `str::trim_matches` with one character.
pub open spec fn trim_char(s: Seq<char>, c: char) -> Seq<char> {
    trim_end_char(trim_start_char(s, c), c)
}

pub fn trim_end_char_chars(v: &Vec<char>, c: char) -> (r: Vec<char>)
    ensures
        r@ == trim_end_char(v@, c),
{
    let mut n = v.len();
    assert(v@.take(n as int) =~= v@);
    while n > 0 && v[n - 1] == c
        invariant
            n <= v.len(),
            trim_end_char(v@, c) == trim_end_char(v@.take(n as int), c),
        decreases n,
    {
        assert(v@.take(n as int).drop_last() =~= v@.take(n - 1));
        n = n - 1;
    }
    let r = sub_chars(v, 0, n);
    assert(r@ =~= v@.take(n as int));
    r
}

pub fn trim_char_chars(v: &Vec<char>, c: char) -> (r: Vec<char>)
    ensures
        r@ == trim_char(v@, c),
{
    let mut lo: usize = 0;
    assert(v@.skip(0) =~= v@);
    while lo < v.len() && v[lo] == c
        invariant
            lo <= v.len(),
            trim_start_char(v@, c) == trim_start_char(v@.skip(lo as int), c),
        decreases v.len() - lo,
    {
        assert(v@.skip(lo as int).drop_first() =~= v@.skip(lo + 1));
        lo = lo + 1;
    }
    let rest = sub_chars(v, lo, v.len());
    assert(rest@ =~= v@.skip(lo as int));
    trim_end_char_chars(&rest, c)
}

/// Where a key is stored in the bucket, given the configured folder
/// (already without empty values).
pub open spec fn s3_full_key(prefix: Option<Seq<char>>, key: Seq<char>) -> Seq<char> {
    match prefix {
        Some(p) => trim_end_char(p, '/') + seq!['/'] + key,
        None => key,
    }
}

/// A stored key as seen by the engine, the folder removed when present.
pub open spec fn s3_stripped_key(prefix: Option<Seq<char>>, full_key: Seq<char>) -> Seq<char> {
    match prefix {
        Some(p) => {
            let head = trim_end_char(p, '/') + seq!['/'];
            if starts_with(full_key, head) {
                full_key.skip(head.len() as int)
            } else {
                full_key
            }
        },
        None => full_key,
    }
}

/// The key space of a bucket: an optional folder that every key lives
/// under.
pub struct S3KeySpace {
    prefix: Option<String>,
}

impl S3KeySpace {
    pub closed spec fn folder(&self) -> Option<Seq<char>> {
        match self.prefix {
            Some(p) => Some(p@),
            None => None,
        }
    }

    /// The key space of `config`; an empty folder means none.
    pub fn new(config: &S3Config) -> (r: S3KeySpace)
        ensures
            r.folder() == match config.prefix {
                Some(p) => if p@.len() == 0 {
                    None
                } else {
                    Some(p@)
                },
                None => None::<Seq<char>>,
            },
    {
        let prefix = match &config.prefix {
            Some(p) => if p.as_str().is_empty() {
                None
            } else {
                Some(owned(p.as_str()))
            },
            None => None,
        };
        S3KeySpace { prefix }
    }

    /// The bucket key that `key` is stored under.
    pub fn full_key(&self, key: &str) -> (r: String)
        ensures
            r@ == s3_full_key(self.folder(), key@),
    {
        match &self.prefix {
            Some(p) => {
                let mut head = trim_end_char_chars(&chars_of(p.as_str()), '/');
                head.push('/');
                string_of(&concat(&head, &chars_of(key)))
            },
            None => owned(key),
        }
    }

    /// The engine's key for a bucket key.
    pub fn strip_prefix(&self, full_key: &str) -> (r: String)
        ensures
            r@ == s3_stripped_key(self.folder(), full_key@),
    {
        let k = chars_of(full_key);
        match &self.prefix {
            Some(p) => {
                let mut head = trim_end_char_chars(&chars_of(p.as_str()), '/');
                let ghost pre_head = head@;
                head.push('/');
                assert(head@ =~= pre_head + seq!['/']);
                let ghost hv = head@;
                assert(hv == trim_end_char(p@, '/') + seq!['/']);
                if starts_with_chars(&k, &head) {
                    let rest = sub_chars(&k, head.len(), k.len());
                    assert(rest@ =~= k@.skip(hv.len() as int));
                    string_of(&rest)
                } else {
                    string_of(&k)
                }
            },
            None => string_of(&k),
        }
    }

    /// Stripping the folder from a stored key gives back the key.
    pub proof fn lemma_strip_full(self, key: Seq<char>)
        ensures
            s3_stripped_key(self.folder(), s3_full_key(self.folder(), key)) == key,
    {
        if let Some(p) = self.folder() {
            let head = trim_end_char(p, '/') + seq!['/'];
            let f = head + key;
            assert(f.subrange(0, head.len() as int) =~= head);
            assert(f.skip(head.len() as int) =~= key);
        }
    }
}

/// An S3 etag without its surrounding quotes; empty when absent.
pub fn clean_etag(etag: Option<String>) -> (r: String)
    ensures
        r@ == trim_char(
            match etag {
                Some(e) => e@,
                None => Seq::<char>::empty(),
            },
            '"',
        ),
{
    let v = match &etag {
        Some(e) => chars_of(e.as_str()),
        None => Vec::new(),
    };
    string_of(&trim_char_chars(&v, '"'))
}

/// The error that an SDK failure with text `msg`, during `context`,
/// becomes: a missing bucket, rejected credentials and an unreachable
/// endpoint get a short explanation; a failed precondition is an etag
/// mismatch; anything else keeps the SDK's text.
pub open spec fn sdk_error_of(msg: Seq<char>, context: Seq<char>) -> BackendErrorView {
    if contains_sub(msg, "NoSuchBucket"@) {
        BackendErrorView::Other("bucket not found (during "@ + context + ")"@)
    } else if contains_sub(msg, "InvalidAccessKeyId"@) || contains_sub(msg, "SignatureDoesNotMatch"@) {
        BackendErrorView::Other("authentication failed (during "@ + context + ")"@)
    } else if contains_sub(msg, "dispatch failure"@) || contains_sub(msg, "dns error"@) || contains_sub(msg, "Connection"@) {
        BackendErrorView::Other("endpoint unreachable (during "@ + context + ")"@)
    } else if contains_sub(msg, "PreconditionFailed"@) {
        BackendErrorView::EtagMismatch(context, "(condition)"@, "(actual differed)"@)
    } else {
        BackendErrorView::Other(context + ": "@ + msg)
    }
}

/// Classify an SDK failure.
pub fn to_backend_error(msg: &str, context: &str) -> (r: BackendError)
    ensures
        error_view(r) == sdk_error_of(msg@, context@),
{
    let m = chars_of(msg);
    let c = chars_of(context);
    let close = chars_of(")");
    if contains_chars(&m, &chars_of("NoSuchBucket")) {
        let head = chars_of("bucket not found (during ");
        BackendError::Other(string_of(&concat(&concat(&head, &c), &close)))
    } else if contains_chars(&m, &chars_of("InvalidAccessKeyId")) || contains_chars(&m, &chars_of("SignatureDoesNotMatch")) {
        let head = chars_of("authentication failed (during ");
        BackendError::Other(string_of(&concat(&concat(&head, &c), &close)))
    } else if contains_chars(&m, &chars_of("dispatch failure")) || contains_chars(&m, &chars_of("dns error"))
        || contains_chars(&m, &chars_of("Connection")) {
        let head = chars_of("endpoint unreachable (during ");
        BackendError::Other(string_of(&concat(&concat(&head, &c), &close)))
    } else if contains_chars(&m, &chars_of("PreconditionFailed")) {
        BackendError::EtagMismatch {
            key: owned(context),
            expected: owned("(condition)"),
            found: owned("(actual differed)"),
        }
    } else {
        let sep = chars_of(": ");
        BackendError::Other(string_of(&concat(&concat(&c, &sep), &m)))
    }
}

/// A failed download means a missing object when the SDK says `NoSuchKey`
/// (typed or in its text) or the response was a 404.
pub fn get_error(no_such_key: bool, http_status: Option<u16>, msg: &str, full_key: &str) -> (r: BackendError)
    ensures
        (no_such_key || http_status == Some(404u16) || contains_sub(msg@, "NoSuchKey"@)) ==> error_view(r) == BackendErrorView::NotFound(full_key@),
        !(no_such_key || http_status == Some(404u16) || contains_sub(msg@, "NoSuchKey"@)) ==>
            error_view(r) == sdk_error_of(msg@, "get_object "@ + full_key@),
{
    let m = chars_of(msg);
    let is_404 = match http_status {
        Some(s) => s == 404,
        None => false,
    };
    if no_such_key || is_404 || contains_chars(&m, &chars_of("NoSuchKey")) {
        BackendError::NotFound(owned(full_key))
    } else {
        let ctx = string_of(&concat(&chars_of("get_object "), &chars_of(full_key)));
        to_backend_error(msg, ctx.as_str())
    }
}

/// Whether a failed delete is really a success: the object was already
/// gone.
pub fn delete_already_gone(msg: &str) -> (r: bool)
    ensures
        r == contains_sub(msg@, "NoSuchKey"@),
{
    contains_chars(&chars_of(msg), &chars_of("NoSuchKey"))
}

/// Whether a failed metadata read means a missing object.
pub fn head_not_found(msg: &str) -> (r: bool)
    ensures
        r == (contains_sub(msg@, "NotFound"@) || contains_sub(msg@, "NoSuchKey"@)),
{
    let m = chars_of(msg);
    contains_chars(&m, &chars_of("NotFound")) || contains_chars(&m, &chars_of("NoSuchKey"))
}

/// The `If-Match` value of a conditional write: the etag in quotes.
pub fn if_match_value(etag: &str) -> (r: String)
    ensures
        r@ == seq!['"'] + trim_char(etag@, '"') + seq!['"'],
{
    let mut out: Vec<char> = Vec::new();
    out.push('"');
    let mut out = concat(&out, &trim_char_chars(&chars_of(etag), '"'));
    out.push('"');
    string_of(&out)
}

/// The error of a rejected conditional write.
pub fn swap_error(msg: &str, full_key: &str, expected: Option<&str>) -> (r: BackendError)
    ensures
        (contains_sub(msg@, "PreconditionFailed"@) || contains_sub(msg@, "412"@)) ==> error_view(r) == BackendErrorView::EtagMismatch(
            full_key@,
            match expected {
                Some(x) => x@,
                None => "(absent)"@,
            },
            "(precondition failed)"@,
        ),
        !(contains_sub(msg@, "PreconditionFailed"@) || contains_sub(msg@, "412"@)) ==>
            error_view(r) == sdk_error_of(msg@, "atomic_swap "@ + full_key@),
{
    let m = chars_of(msg);
    if contains_chars(&m, &chars_of("PreconditionFailed")) || contains_chars(&m, &chars_of("412")) {
        let e = match expected {
            Some(x) => owned(x),
            None => owned("(absent)"),
        };
        BackendError::EtagMismatch { key: owned(full_key), expected: e, found: owned("(precondition failed)") }
    } else {
        let ctx = string_of(&concat(&chars_of("atomic_swap "), &chars_of(full_key)));
        to_backend_error(msg, ctx.as_str())
    }
}

/// A listed object's size; the SDK reports a signed number.
pub fn listed_size(size: Option<i64>) -> (r: u64)
    ensures
        r == match size {
            Some(s) => if s > 0 {
                s as u64
            } else {
                0u64
            },
            None => 0u64,
        },
{
    match size {
        Some(s) => if s > 0 {
            s as u64
        } else {
            0
        },
        None => 0,
    }
}

} // verus!
