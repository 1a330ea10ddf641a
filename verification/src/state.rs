//! Per-Tome sync runtime state and backend kinds.

use vstd::prelude::*;
use crate::text::{str_eq, owned};

verus! {

#[derive(Debug, Clone, Copy, PartialEq, Eq, Structural)]
pub enum BackendKind {
    Filesystem,
    S3,
    Hosted,
}

pub open spec fn backend_name(k: BackendKind) -> Seq<char> {
    match k {
        BackendKind::Filesystem => "filesystem"@,
        BackendKind::S3 => "s3"@,
        BackendKind::Hosted => "hosted"@,
    }
}

pub open spec fn backend_of_name(s: Seq<char>) -> Option<BackendKind> {
    if s == "filesystem"@ {
        Some(BackendKind::Filesystem)
    } else if s == "s3"@ {
        Some(BackendKind::S3)
    } else if s == "hosted"@ {
        Some(BackendKind::Hosted)
    } else {
        None
    }
}

impl BackendKind {
    pub fn as_str(&self) -> (r: &'static str)
        ensures
            r@ == backend_name(*self),
    {
        match self {
            BackendKind::Filesystem => "filesystem",
            BackendKind::S3 => "s3",
            BackendKind::Hosted => "hosted",
        }
    }

    pub fn from_str(s: &str) -> (r: Option<BackendKind>)
        ensures
            r == backend_of_name(s@),
    {
        if str_eq(s, "filesystem") {
            Some(BackendKind::Filesystem)
        } else if str_eq(s, "s3") {
            Some(BackendKind::S3)
        } else if str_eq(s, "hosted") {
            Some(BackendKind::Hosted)
        } else {
            None
        }
    }
}

/// A kind's name parses back to the kind, and a parsed name is the name of
/// the kind it parses to.
pub proof fn lemma_backend_kind_roundtrip(k: BackendKind, s: Seq<char>)
    ensures
        backend_of_name(backend_name(k)) == Some(k),
        backend_of_name(s) matches Some(j) ==> backend_name(j) == s,
{
    reveal_strlit("filesystem");
    reveal_strlit("s3");
    reveal_strlit("hosted");
    assert("filesystem"@.len() == 10);
    assert("s3"@.len() == 2);
    assert("hosted"@.len() == 6);
}

/// Engine-managed state of one Tome: where it stands in the journal exchange.
/// Op and snapshot ids are ULID texts; `last_sync_at` is RFC 3339 text.
pub struct SyncRuntimeState {
    pub tome_id: String,
    pub last_uploaded_op_id: Option<String>,
    pub last_applied_op_id: Option<String>,
    pub last_snapshot_id: Option<String>,
    pub last_sync_at: Option<String>,
    pub last_error: Option<String>,
}

impl SyncRuntimeState {
    /// The state of a Tome that has never synced.
    pub fn fresh(tome_id: &str) -> (r: SyncRuntimeState)
        ensures
            r.tome_id@ == tome_id@,
            r.last_uploaded_op_id is None,
            r.last_applied_op_id is None,
            r.last_snapshot_id is None,
            r.last_sync_at is None,
            r.last_error is None,
    {
        SyncRuntimeState {
            tome_id: owned(tome_id),
            last_uploaded_op_id: None,
            last_applied_op_id: None,
            last_snapshot_id: None,
            last_sync_at: None,
            last_error: None,
        }
    }
}

/// The destination kind of a stored sync configuration.
pub fn sync_config_kind(backend_type: &str) -> (r: Result<BackendKind, crate::errors::SyncError>)
    ensures
        match backend_of_name(backend_type@) {
            Some(k) => r == Ok::<BackendKind, crate::errors::SyncError>(k),
            None => r matches Err(crate::errors::SyncError::Journal(m)) && m@ == "unknown backend_type: "@ + backend_type@,
        },
{
    match BackendKind::from_str(backend_type) {
        Some(k) => Ok(k),
        None => Err(crate::errors::SyncError::Journal(crate::text::cat("unknown backend_type: ", backend_type))),
    }
}

/// The error of a stored time that is not RFC 3339 text.
pub open spec fn bad_timestamp(s: Seq<char>, e: Seq<char>) -> Seq<char> {
    "bad timestamp '"@ + s + "': "@ + e
}

fn check_time(s: &str) -> (r: Result<(), crate::errors::SyncError>)
    ensures
        match crate::ids::rfc3339_decode_error(s@) {
            None => r is Ok,
            Some(e) => r matches Err(crate::errors::SyncError::Journal(m)) && m@ == bad_timestamp(s@, e),
        },
{
    match crate::ids::rfc3339_parse_error(s) {
        None => Ok(()),
        Some(e) => {
            let a = crate::text::cat("bad timestamp '", s);
            let b = crate::text::cat(a.as_str(), "': ");
            Err(crate::errors::SyncError::Journal(crate::text::cat(b.as_str(), e.as_str())))
        },
    }
}

/// The device id and times of a stored sync configuration, checked in
/// that order: the device must be a UUID, the times RFC 3339 text.
pub fn sync_config_checks(device_id: &str, created_at: &str, updated_at: &str) -> (r: Result<(), crate::errors::SyncError>)
    ensures
        match crate::ids::uuid_decode_error(device_id@) {
            Some(e) => r matches Err(crate::errors::SyncError::Journal(m)) && m@ == "bad device_id: "@ + e,
            None => match crate::ids::rfc3339_decode_error(created_at@) {
                Some(e) => r matches Err(crate::errors::SyncError::Journal(m)) && m@ == bad_timestamp(created_at@, e),
                None => match crate::ids::rfc3339_decode_error(updated_at@) {
                    Some(e) => r matches Err(crate::errors::SyncError::Journal(m)) && m@ == bad_timestamp(updated_at@, e),
                    None => r is Ok,
                },
            },
        },
{
    if let Some(e) = crate::ids::uuid_parse_error(device_id) {
        return Err(crate::errors::SyncError::Journal(crate::text::cat("bad device_id: ", e.as_str())));
    }
    check_time(created_at)?;
    check_time(updated_at)
}

/// The last sync time of a stored runtime state: kept when it is RFC 3339
/// text, dropped otherwise.
pub fn stored_sync_time(last_sync_at: Option<String>) -> (r: Option<String>)
    ensures
        match last_sync_at {
            Some(t) => if crate::ids::rfc3339_decode_error(t@) is None {
                r == Some(t)
            } else {
                r is None
            },
            None => r is None,
        },
{
    match last_sync_at {
        Some(t) => {
            if crate::ids::rfc3339_parse_error(t.as_str()).is_none() {
                Some(t)
            } else {
                None
            }
        },
        None => None,
    }
}

} // verus!
