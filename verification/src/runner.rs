//! The background sync runner's decisions: when it wakes and what it tells
//! the UI. The waiting and the cycle itself are the application's.

use vstd::prelude::*;

use crate::engine::{status_label, SyncOutcome};
use crate::text::{cat, owned, string_opt};

verus! {

/// The slow tick that catches remote-side changes, in seconds.
pub const POLL_INTERVAL_SECS: u64 = 300;

/// How long after a local change the runner waits for more before it
/// syncs, in seconds.
pub const NUDGE_DEBOUNCE_SECS: u64 = 10;

/// A `sync:status` event.
pub struct SyncStatusEvent {
    pub tome_id: String,
    /// `"syncing"`, `"idle"` or `"error"`.
    pub state: &'static str,
    pub ops_uploaded: u32,
    pub ops_applied: u32,
    pub conflicts_created: u32,
    pub error: Option<String>,
}

/// Sent when a cycle starts.
pub fn syncing_event(tome_id: &str) -> (r: SyncStatusEvent)
    ensures
        r.tome_id@ == tome_id@,
        r.state@ == "syncing"@,
        r.ops_uploaded == 0 && r.ops_applied == 0 && r.conflicts_created == 0,
        r.error is None,
{
    SyncStatusEvent {
        tome_id: owned(tome_id),
        state: "syncing",
        ops_uploaded: 0,
        ops_applied: 0,
        conflicts_created: 0,
        error: None,
    }
}

/// Sent when a cycle ends: its counters, and `"error"` with the message
/// when it reported one, `"idle"` otherwise.
pub fn outcome_event(tome_id: &str, outcome: &SyncOutcome) -> (r: SyncStatusEvent)
    ensures
        r.tome_id@ == tome_id@,
        r.state@ == (if outcome.error is Some { "error"@ } else { "idle"@ }),
        r.ops_uploaded == outcome.ops_uploaded,
        r.ops_applied == outcome.ops_applied,
        r.conflicts_created == outcome.conflicts_created,
        string_opt(r.error) == string_opt(outcome.error),
{
    SyncStatusEvent {
        tome_id: owned(tome_id),
        state: status_label(outcome),
        ops_uploaded: outcome.ops_uploaded,
        ops_applied: outcome.ops_applied,
        conflicts_created: outcome.conflicts_created,
        error: match &outcome.error {
            Some(e) => Some(e.clone()),
            None => None,
        },
    }
}

/// Sent when a cycle could not run or failed.
pub fn error_event(tome_id: &str, msg: String) -> (r: SyncStatusEvent)
    ensures
        r.tome_id@ == tome_id@,
        r.state@ == "error"@,
        r.ops_uploaded == 0 && r.ops_applied == 0 && r.conflicts_created == 0,
        string_opt(r.error) == Some(msg@),
{
    SyncStatusEvent {
        tome_id: owned(tome_id),
        state: "error",
        ops_uploaded: 0,
        ops_applied: 0,
        conflicts_created: 0,
        error: Some(msg),
    }
}

/// The message when the destination cannot be opened.
pub fn backend_init_error(msg: &str) -> (r: String)
    ensures
        r@ == "backend init failed: "@ + msg@,
{
    cat("backend init failed: ", msg)
}

/// Time left in the debounce window that the first nudge opened; later
/// nudges do not extend it. Zero once the window has passed.
pub fn debounce_remaining(deadline_ms: u64, now_ms: u64) -> (r: u64)
    ensures
        r == (if now_ms < deadline_ms { deadline_ms - now_ms } else { 0 }),
{
    deadline_ms.saturating_sub(now_ms)
}

/// What wakes the runner.
pub enum Wake {
    /// The slow tick elapsed.
    Tick,
    /// A local change was committed.
    Nudge,
}

/// When the runner may start a cycle after waking at `now_ms`: at once on
/// the tick; after the debounce window on a nudge.
pub fn cycle_start_ms(wake: Wake, now_ms: u64) -> (r: u64)
    ensures
        r == match wake {
            Wake::Tick => now_ms as int,
            Wake::Nudge => if now_ms as int + NUDGE_DEBOUNCE_SECS * 1000 <= u64::MAX {
                now_ms + NUDGE_DEBOUNCE_SECS * 1000
            } else {
                u64::MAX as int
            },
        },
{
    match wake {
        Wake::Tick => now_ms,
        Wake::Nudge => now_ms.saturating_add(NUDGE_DEBOUNCE_SECS * 1000),
    }
}

} // verus!
