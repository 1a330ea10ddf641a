//! The local history of sync cycles: what is recorded of each and how much
//! of it is kept. The table itself is the application's.

use vstd::prelude::*;

use crate::engine::SyncOutcome;
use crate::text::string_opt;

verus! {

/// Rows kept per Tome; older ones are pruned when a row is added.
pub const RETENTION: i64 = 100;

/// One recorded cycle.
pub struct ActivityRow {
    pub id: i64,
    pub tome_id: String,
    /// RFC 3339.
    pub started_at: String,
    pub duration_ms: i64,
    pub ops_uploaded: i64,
    pub ops_applied: i64,
    pub conflicts_created: i64,
    pub snapshot_taken: Option<String>,
    pub outcome: String,
    pub error: Option<String>,
}

/// The figures recorded for a cycle: its counters and snapshot, or zeros
/// and none when it produced no outcome.
pub fn activity_figures(outcome: Option<&SyncOutcome>) -> (r: (i64, i64, i64, Option<String>))
    ensures
        match outcome {
            Some(o) => r.0 == o.ops_uploaded && r.1 == o.ops_applied && r.2 == o.conflicts_created
                && string_opt(r.3) == string_opt(o.snapshot_taken),
            None => r.0 == 0 && r.1 == 0 && r.2 == 0 && r.3 is None,
        },
{
    match outcome {
        Some(o) => (
            o.ops_uploaded as i64,
            o.ops_applied as i64,
            o.conflicts_created as i64,
            match &o.snapshot_taken {
                Some(s) => Some(s.clone()),
                None => None,
            },
        ),
        None => (0, 0, 0, None),
    }
}

/// How many rows a listing asks for: at least one.
pub fn list_limit(limit: i64) -> (r: i64)
    ensures
        r == if limit < 1 { 1 } else { limit },
{
    if limit < 1 {
        1
    } else {
        limit
    }
}

} // verus!
