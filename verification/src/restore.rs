//! Restoring a Tome from the backup: which snapshot is fetched, how the
//! restored Tome is named, and how the restorable Tomes are listed. The
//! downloads and the files are the application's.

use vstd::prelude::*;

use crate::backup::{fallback_tome_label, is_fallback_label, RestorableTome};
use crate::hosted::protocol::AccountTomeSummary;
use crate::snapshot::TomeSnapshotSummary;
use crate::text::{cat, owned, str_eq, string_opt};

verus! {

/// Name of a restored Tome whose metadata holds none.
pub const UNTITLED_TOME: &'static str = "Untitled Tome";

/// The name a restored Tome goes by: the one in its metadata, else
/// `Untitled Tome`.
pub fn restored_tome_name(name: Option<String>) -> (r: String)
    ensures
        r@ == match name {
            Some(n) => n@,
            None => UNTITLED_TOME@,
        },
{
    match name {
        Some(n) => n,
        None => owned(UNTITLED_TOME),
    }
}

/// The file a snapshot is downloaded to before it is moved into place.
pub fn staging_file_name(tome_uuid: &str) -> (r: String)
    ensures
        r@ == tome_uuid@ + ".tome"@,
{
    cat(tome_uuid, ".tome")
}

/// The snapshot to restore from a folder or bucket: the newest of the
/// Tome, by the listing of all Tomes' snapshots.
pub fn raw_restore_key(summaries: &Vec<TomeSnapshotSummary>, tome_uuid: &str) -> (r: Result<String, String>)
    ensures
        match r {
            Ok(k) => exists|i: int|
                0 <= i < summaries@.len() && #[trigger] summaries@[i].tome_uuid@ == tome_uuid@ && (forall|j: int|
                    0 <= j < i ==> #[trigger] summaries@[j].tome_uuid@ != tome_uuid@) && k@ == "tomes/"@
                    + tome_uuid@ + "/snapshots/"@ + summaries@[i].snapshot_id@ + ".snap.enc"@,
            Err(m) => (forall|j: int| 0 <= j < summaries@.len() ==> #[trigger] summaries@[j].tome_uuid@ != tome_uuid@)
                && m@ == "no snapshots for tome_uuid "@ + tome_uuid@,
        },
{
    match crate::backup::find_tome_summary(summaries, tome_uuid) {
        Some(i) => {
            let s = &summaries[i];
            Ok(crate::snapshot::tome_snapshot_key(s.tome_uuid.as_str(), s.snapshot_id.as_str()))
        },
        None => Err(cat("no snapshots for tome_uuid ", tome_uuid)),
    }
}

/// Told when a cloud Tome has only a journal.
pub open spec fn no_snapshot_text() -> Seq<char> {
    "this Tome has no snapshot yet \u{2014} nothing to restore"@
}

/// The snapshot to restore from the cloud: the latest one the account
/// listing names for the Tome, relative to the Tome's own store.
pub fn hosted_restore_key(summaries: &Vec<AccountTomeSummary>, tome_uuid: &str) -> (r: Result<String, String>)
    ensures
        (forall|j: int| 0 <= j < summaries@.len() ==> #[trigger] summaries@[j].tome_uuid@ != tome_uuid@) ==> (r
            matches Err(m) && m@ == "no Tome with uuid "@ + tome_uuid@),
        forall|i: int|
            0 <= i < summaries@.len() && #[trigger] summaries@[i].tome_uuid@ == tome_uuid@ && (forall|j: int|
                0 <= j < i ==> #[trigger] summaries@[j].tome_uuid@ != tome_uuid@) ==> match summaries@[i].latest_snapshot_id {
                Some(id) => r matches Ok(k) && k@ == "snapshots/"@ + id@ + ".snap.enc"@,
                None => r matches Err(m) && m@ == no_snapshot_text(),
            },
{
    let mut i: usize = 0;
    while i < summaries.len()
        invariant
            i <= summaries@.len(),
            forall|j: int| 0 <= j < i ==> #[trigger] summaries@[j].tome_uuid@ != tome_uuid@,
        decreases summaries.len() - i,
    {
        if str_eq(summaries[i].tome_uuid.as_str(), tome_uuid) {
            return match &summaries[i].latest_snapshot_id {
                Some(id) => Ok(crate::snapshot::snapshot_object_key(id.as_str())),
                None => Err(owned("this Tome has no snapshot yet \u{2014} nothing to restore")),
            };
        }
        i = i + 1;
    }
    Err(cat("no Tome with uuid ", tome_uuid))
}

/// Name for the RFC 3339 text that `chrono` gives for a UTC time in
/// milliseconds since the Unix epoch; `None` outside chrono's range.
pub uninterp spec fn rfc3339_of_millis(ms: i64) -> Option<Seq<char>>;

/// `Utc.timestamp_millis_opt(ms).single()` formatted with `to_rfc3339`.
#[verifier::external_body]
fn millis_to_rfc3339(ms: i64) -> (r: Option<String>)
    ensures
        string_opt(r) == rfc3339_of_millis(ms),
{
    match chrono::TimeZone::timestamp_millis_opt(&chrono::Utc, ms).single() {
        Some(t) => Some(t.to_rfc3339()),
        None => None,
    }
}

/// The time shown for a listed Tome: its modification time, or `now` when
/// that cannot be represented.
pub fn listing_time(ms: i64, now: &str) -> (r: String)
    ensures
        r@ == match rfc3339_of_millis(ms) {
            Some(t) => t,
            None => now@,
        },
{
    match millis_to_rfc3339(ms) {
        Some(t) => t,
        None => owned(now),
    }
}

/// A Tome of a folder or bucket as listed for restore: `meta` is the name
/// and description read from its snapshot, `None` when they could not be
/// read.
pub fn raw_restorable(s: &TomeSnapshotSummary, meta: Option<(String, Option<String>)>, now: &str) -> (r: RestorableTome)
    requires
        meta is None ==> vstd::utf8::is_char_boundary(vstd::utf8::encode_utf8(s.tome_uuid@), 8),
    ensures
        r.tome_uuid@ == s.tome_uuid@,
        r.snapshot_id@ == s.snapshot_id@,
        r.size_bytes == s.size_bytes,
        r.last_modified@ == match rfc3339_of_millis(s.last_modified) {
            Some(t) => t,
            None => now@,
        },
        match meta {
            Some((n, d)) => r.name@ == n@ && string_opt(r.description) == string_opt(d),
            None => is_fallback_label(r.name@, s.tome_uuid@, false) && r.description is None,
        },
{
    let (name, description) = match meta {
        Some((n, d)) => (n, d),
        None => (fallback_tome_label(s.tome_uuid.as_str(), false), None),
    };
    RestorableTome {
        tome_uuid: s.tome_uuid.clone(),
        snapshot_id: s.snapshot_id.clone(),
        name,
        description,
        size_bytes: s.size_bytes,
        last_modified: listing_time(s.last_modified, now),
    }
}

/// A cloud Tome as listed for restore. A Tome with only a journal is
/// listed under a fallback label and no snapshot id; `meta` is what its
/// snapshot says, `None` when it could not be read.
pub fn hosted_restorable(s: &AccountTomeSummary, meta: Option<(String, Option<String>)>, now: &str) -> (r: RestorableTome)
    requires
        s.latest_snapshot_id is None || meta is None ==> vstd::utf8::is_char_boundary(
            vstd::utf8::encode_utf8(s.tome_uuid@),
            8,
        ),
    ensures
        r.tome_uuid@ == s.tome_uuid@,
        r.size_bytes == s.size_bytes,
        r.last_modified@ == match rfc3339_of_millis(s.last_modified_ms) {
            Some(t) => t,
            None => now@,
        },
        match s.latest_snapshot_id {
            None => r.snapshot_id@.len() == 0 && is_fallback_label(r.name@, s.tome_uuid@, true)
                && r.description is None,
            Some(id) => r.snapshot_id@ == id@ && match meta {
                Some((n, d)) => r.name@ == n@ && string_opt(r.description) == string_opt(d),
                None => is_fallback_label(r.name@, s.tome_uuid@, false) && r.description is None,
            },
        },
{
    let (snapshot_id, name, description) = match &s.latest_snapshot_id {
        None => (String::new(), fallback_tome_label(s.tome_uuid.as_str(), true), None),
        Some(id) => match meta {
            Some((n, d)) => (id.clone(), n, d),
            None => (id.clone(), fallback_tome_label(s.tome_uuid.as_str(), false), None),
        },
    };
    RestorableTome {
        tome_uuid: s.tome_uuid.clone(),
        snapshot_id,
        name,
        description,
        size_bytes: s.size_bytes,
        last_modified: listing_time(s.last_modified_ms, now),
    }
}

} // verus!
