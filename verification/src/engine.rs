//! Decisions of one sync cycle.
//!
//! A cycle uploads the local journal, lists the remote journal, fetches the
//! ops it has not applied yet, applies them in op-id order with per-field
//! conflict detection, and may take a snapshot. Storage, database and
//! encryption calls are made by the caller; this module decides what to do
//! with what they return.

use vstd::prelude::*;
use crate::conflict::{Conflict, detect_conflicts, conflicting, ops_wf, records_conflict};
use crate::fields::{FieldMap, names};
use crate::journal::{Op, OpKind, SCHEMA_VERSION};
use crate::state::SyncRuntimeState;
use crate::text::{chars_of, string_of, sub_chars, concat, owned, ends_with, ends_with_chars, lex_lt, lex_le, lex_lt_chars, decimal, decimal_chars, string_opt};
use crate::backend::ObjectInfo;

verus! {

/// Counters reported for one sync cycle.
pub struct SyncOutcome {
    pub ops_uploaded: u32,
    pub ops_applied: u32,
    pub conflicts_created: u32,
    pub snapshot_taken: Option<String>,
    pub error: Option<String>,
}

impl SyncOutcome {
    pub fn new() -> (r: SyncOutcome)
        ensures
            r.ops_uploaded == 0,
            r.ops_applied == 0,
            r.conflicts_created == 0,
            r.snapshot_taken is None,
            r.error is None,
    {
        SyncOutcome {
            ops_uploaded: 0,
            ops_applied: 0,
            conflicts_created: 0,
            snapshot_taken: None,
            error: None,
        }
    }
}

/// The op without the fields named in `exclude`, in both its new and its
/// previous values; everything else is kept.
pub fn filter_fields(op: &Op, exclude: &Vec<String>) -> (r: Op)
    requires
        op.wf(),
    ensures
        r.wf(),
        r.fields@ == op.fields@.remove_keys(names(exclude@)),
        r.prev_fields@ == op.prev_fields@.remove_keys(names(exclude@)),
        r.op_id == op.op_id,
        r.device_id == op.device_id,
        r.table == op.table,
        r.row_id == op.row_id,
        r.kind == op.kind,
        r.schema_version == op.schema_version,
        r.timestamp == op.timestamp,
        r.transaction_id == op.transaction_id,
{
    Op {
        op_id: op.op_id.clone(),
        device_id: op.device_id.clone(),
        table: op.table.clone(),
        row_id: op.row_id.clone(),
        kind: op.kind,
        fields: op.fields.without(exclude),
        prev_fields: op.prev_fields.without(exclude),
        schema_version: op.schema_version,
        timestamp: op.timestamp.clone(),
        transaction_id: op.transaction_id.clone(),
    }
}

/// The field names of a list of conflicts.
pub fn conflict_fields(conflicts: &Vec<Conflict>) -> (r: Vec<String>)
    ensures
        r@.len() == conflicts@.len(),
        forall|i: int| 0 <= i < r@.len() ==> #[trigger] r@[i]@ == conflicts@[i].field@,
{
    let mut out: Vec<String> = Vec::new();
    let mut i: usize = 0;
    while i < conflicts.len()
        invariant
            i <= conflicts@.len(),
            out@.len() == i,
            forall|j: int| 0 <= j < i ==> #[trigger] out@[j]@ == conflicts@[j].field@,
        decreases conflicts@.len() - i,
    {
        out.push(conflicts[i].field.clone());
        i = i + 1;
    }
    out
}

/// An update left with no fields (every field was in conflict) has nothing
/// to apply; every other op is applied.
pub fn needs_apply(op: &Op) -> (r: bool)
    requires
        op.wf(),
    ensures
        r == !(op.kind == OpKind::Update && op.fields@.dom().len() == 0),
{
    !(op.fields.is_empty() && op.kind != OpKind::Delete && op.kind != OpKind::Insert)
}

/// What to do with one remote op, after conflict detection.
pub struct ApplyPlan {
    /// Conflicts to record; their fields are left as they are locally.
    pub conflicts: Vec<Conflict>,
    /// The op without its conflicted fields.
    pub op: Op,
    /// Whether `op` is to be applied.
    pub apply: bool,
}

/// Detect conflicts between `remote` and the unsynced local ops, drop the
/// conflicted fields from it, and decide whether what is left is applied.
pub fn plan_remote_op(local_ops: &Vec<Op>, remote: &Op) -> (r: ApplyPlan)
    requires
        ops_wf(local_ops@),
        remote.wf(),
    ensures
        forall|j: int| 0 <= j < r.conflicts@.len() ==> records_conflict(local_ops@, *remote, #[trigger] r.conflicts@[j]),
        forall|f: Seq<char>|
            conflicting(local_ops@, *remote, f) ==> exists|j: int|
                0 <= j < r.conflicts@.len() && (#[trigger] r.conflicts@[j]).field@ == f,
        forall|a: int, b: int|
            0 <= a < b < r.conflicts@.len() ==> r.conflicts@[a].field@ != r.conflicts@[b].field@,
        r.op.wf(),
        forall|k: Seq<char>|
            #[trigger] r.op.fields@.dom().contains(k) <==> remote.fields@.dom().contains(k)
                && !conflicting(local_ops@, *remote, k),
        forall|k: Seq<char>| #[trigger] r.op.fields@.dom().contains(k) ==> r.op.fields@[k] == remote.fields@[k],
        forall|k: Seq<char>|
            #[trigger] r.op.prev_fields@.dom().contains(k) <==> remote.prev_fields@.dom().contains(k)
                && !conflicting(local_ops@, *remote, k),
        forall|k: Seq<char>| #[trigger] r.op.prev_fields@.dom().contains(k) ==> r.op.prev_fields@[k]
            == remote.prev_fields@[k],
        r.op.kind == remote.kind,
        r.op.table == remote.table,
        r.op.row_id == remote.row_id,
        r.op.op_id == remote.op_id,
        r.op.device_id == remote.device_id,
        r.op.schema_version == remote.schema_version,
        r.op.timestamp == remote.timestamp,
        r.op.transaction_id == remote.transaction_id,
        r.apply == !(r.op.kind == OpKind::Update && r.op.fields@.dom().len() == 0),
{
    let conflicts = detect_conflicts(local_ops, remote);
    let exclude = conflict_fields(&conflicts);
    let op = filter_fields(remote, &exclude);
    proof {
        assert forall|k: Seq<char>|
            names(exclude@).contains(k) <==> conflicting(local_ops@, *remote, k) by {
            if names(exclude@).contains(k) {
                let i = choose|i: int| 0 <= i < exclude@.len() && exclude@[i]@ == k;
                assert(conflicts@[i].field@ == k);
            }
            if conflicting(local_ops@, *remote, k) {
                let j = choose|j: int| 0 <= j < conflicts@.len() && (#[trigger] conflicts@[j]).field@ == k;
                assert(exclude@[j]@ == k);
            }
        }
    }
    let apply = needs_apply(&op);
    ApplyPlan { conflicts, op, apply }
}

/// The last `/`-separated segment of a key.
pub open spec fn last_segment(s: Seq<char>) -> Seq<char>
    decreases s.len(),
{
    if s.len() == 0 {
        s
    } else if s.last() == '/' {
        Seq::empty()
    } else {
        last_segment(s.drop_last()).push(s.last())
    }
}

/// `str::strip_suffix`.
pub open spec fn strip_suffix(s: Seq<char>, suffix: Seq<char>) -> Option<Seq<char>> {
    if ends_with(s, suffix) {
        Some(s.subrange(0, s.len() - suffix.len()))
    } else {
        None
    }
}

pub fn last_segment_chars(v: &Vec<char>) -> (r: Vec<char>)
    ensures
        r@ == last_segment(v@),
{
    let mut start = v.len();
    assert(v@.take(start as int) =~= v@);
    assert(v@.subrange(start as int, v@.len() as int) =~= Seq::<char>::empty());
    assert(last_segment(v@) + Seq::<char>::empty() =~= last_segment(v@));
    while start > 0 && v[start - 1] != '/'
        invariant
            start <= v.len(),
            last_segment(v@) == last_segment(v@.take(start as int)) + v@.subrange(start as int, v@.len() as int),
        decreases start,
    {
        proof {
            let t = v@.take(start as int);
            assert(t.drop_last() =~= v@.take(start - 1));
            assert(v@.subrange(start - 1, v@.len() as int) =~= seq![t.last()] + v@.subrange(start as int, v@.len() as int));
            assert(last_segment(t) == last_segment(t.drop_last()).push(t.last()));
            assert(last_segment(t.drop_last()).push(t.last()) + v@.subrange(start as int, v@.len() as int)
                =~= last_segment(t.drop_last()) + (seq![t.last()] + v@.subrange(start as int, v@.len() as int)));
        }
        start = start - 1;
    }
    proof {
        if start == v.len() {
            assert(v@.take(start as int) =~= v@);
        }
        let t = v@.take(start as int);
        if start > 0 {
            assert(t.last() == '/');
            assert(last_segment(t) =~= Seq::<char>::empty());
        } else {
            assert(last_segment(t) =~= Seq::<char>::empty());
        }
        assert(last_segment(v@) =~= v@.subrange(start as int, v@.len() as int));
    }
    sub_chars(v, start, v.len())
}

pub fn strip_suffix_chars(v: &Vec<char>, suffix: &Vec<char>) -> (r: Option<Vec<char>>)
    ensures
        r matches Some(x) ==> strip_suffix(v@, suffix@) == Some(x@),
        r is None ==> strip_suffix(v@, suffix@) is None,
{
    if ends_with_chars(v, suffix) {
        Some(sub_chars(v, 0, v.len() - suffix.len()))
    } else {
        None
    }
}

/// The op id that a remote journal key `.../<id>.op.enc` names.
pub open spec fn journal_key_id(key: Seq<char>) -> Option<Seq<char>> {
    strip_suffix(last_segment(key), ".op.enc"@)
}

pub fn journal_op_id(key: &str) -> (r: Option<String>)
    ensures
        r matches Some(x) ==> journal_key_id(key@) == Some(x@),
        r is None ==> journal_key_id(key@) is None,
{
    let v = chars_of(key);
    let name = last_segment_chars(&v);
    let suffix = chars_of(".op.enc");
    match strip_suffix_chars(&name, &suffix) {
        Some(id) => Some(string_of(&id)),
        None => None,
    }
}

/// A remote op id still to be applied: after the apply cursor, if any.
pub open spec fn unapplied(id: Seq<char>, last_applied: Option<Seq<char>>) -> bool {
    match last_applied {
        Some(last) => lex_lt(last, id),
        None => true,
    }
}

pub fn is_unapplied(id: &str, last_applied: &Option<String>) -> (r: bool)
    ensures
        r == unapplied(id@, match last_applied {
            Some(s) => Some(s@),
            None => None,
        }),
{
    match last_applied {
        Some(last) => {
            let a = chars_of(last.as_str());
            let b = chars_of(id);
            lex_lt_chars(&a, &b)
        },
        None => true,
    }
}

/// The journal entries of a listing still to be fetched, in listing
/// order: `(op id, key)` for each `<id>.op.enc` key whose id is after the
/// apply cursor.
pub open spec fn to_fetch(infos: Seq<ObjectInfo>, last_applied: Option<Seq<char>>) -> Seq<(Seq<char>, Seq<char>)>
    decreases infos.len(),
{
    if infos.len() == 0 {
        Seq::empty()
    } else {
        let prev = to_fetch(infos.drop_last(), last_applied);
        match journal_key_id(infos.last().key@) {
            Some(id) => if unapplied(id, last_applied) {
                prev.push((id, infos.last().key@))
            } else {
                prev
            },
            None => prev,
        }
    }
}

pub open spec fn id_key_views(v: Seq<(String, String)>) -> Seq<(Seq<char>, Seq<char>)> {
    v.map_values(|p: (String, String)| (p.0@, p.1@))
}

/// Which remote journal entries a cycle fetches.
pub fn fetch_plan(infos: &Vec<ObjectInfo>, last_applied: &Option<String>) -> (r: Vec<(String, String)>)
    ensures
        id_key_views(r@) == to_fetch(infos@, string_opt(*last_applied)),
{
    let ghost la = string_opt(*last_applied);
    let mut out: Vec<(String, String)> = Vec::new();
    let mut i: usize = 0;
    assert(infos@.take(0) =~= Seq::<ObjectInfo>::empty());
    while i < infos.len()
        invariant
            i <= infos@.len(),
            la == string_opt(*last_applied),
            id_key_views(out@) == to_fetch(infos@.take(i as int), la),
        decreases infos.len() - i,
    {
        let ghost t = infos@.take(i + 1);
        assert(t.drop_last() =~= infos@.take(i as int));
        let ghost before = out@;
        match journal_op_id(infos[i].key.as_str()) {
            Some(id) => {
                if is_unapplied(id.as_str(), last_applied) {
                    out.push((id, infos[i].key.clone()));
                    assert(id_key_views(out@) =~= id_key_views(before).push((id@, infos@[i as int].key@)));
                }
            },
            None => {},
        }
        i = i + 1;
    }
    assert(infos@.take(i as int) =~= infos@);
    out
}

/// What to do with a remote op just fetched and decrypted.
#[derive(PartialEq, Eq, Structural)]
pub enum FetchDecision {
    /// One of our own ops: move the apply cursor past it.
    SkipOwn,
    /// Written by a newer client: stop the cycle here, keeping the error.
    Park,
    /// Queue it for conflict detection and applying.
    Queue,
}

/// The error text recorded when a remote op needs a newer schema.
pub open spec fn schema_error(op_id: Seq<char>, version: u32) -> Seq<char> {
    "remote op "@ + op_id + " requires schema v"@ + decimal(version as nat) + ", this client is v"@
        + decimal(SCHEMA_VERSION as nat)
}

pub fn schema_error_text(op_id: &str, version: u32) -> (r: String)
    ensures
        r@ == schema_error(op_id@, version),
{
    let mut v = chars_of("remote op ");
    v = concat(&v, &chars_of(op_id));
    v = concat(&v, &chars_of(" requires schema v"));
    v = concat(&v, &decimal_chars(version as u64));
    v = concat(&v, &chars_of(", this client is v"));
    v = concat(&v, &decimal_chars(SCHEMA_VERSION as u64));
    string_of(&v)
}

/// Decide about a fetched remote op. `is_local` tells whether the op is in
/// our own journal. Own ops advance the apply cursor; ops of a newer schema
/// park the cycle (recording the error and the sync time `now`); the rest
/// are queued, leaving the state as it is.
pub fn on_fetched_op(
    state: &mut SyncRuntimeState,
    outcome: &mut SyncOutcome,
    op: &Op,
    is_local: bool,
    now: &str,
) -> (r: FetchDecision)
    ensures
        (r == FetchDecision::SkipOwn) == is_local,
        (r == FetchDecision::Park) == (!is_local && op.schema_version > SCHEMA_VERSION),
        r == FetchDecision::SkipOwn ==> {
            &&& final(state).last_applied_op_id matches Some(s) && s@ == op.op_id@
            &&& final(state).last_uploaded_op_id == old(state).last_uploaded_op_id
            &&& final(state).last_error == old(state).last_error
            &&& final(state).last_sync_at == old(state).last_sync_at
            &&& final(outcome).error == old(outcome).error
        },
        r == FetchDecision::Park ==> {
            &&& final(state).last_error matches Some(e) && e@ == schema_error(op.op_id@, op.schema_version)
            &&& final(state).last_sync_at matches Some(t) && t@ == now@
            &&& final(outcome).error matches Some(e) && e@ == schema_error(op.op_id@, op.schema_version)
            &&& final(state).last_applied_op_id == old(state).last_applied_op_id
            &&& final(state).last_uploaded_op_id == old(state).last_uploaded_op_id
        },
        r == FetchDecision::Queue ==> *final(state) == *old(state) && *final(outcome) == *old(outcome),
        final(state).tome_id == old(state).tome_id,
        final(state).last_snapshot_id == old(state).last_snapshot_id,
        final(outcome).ops_uploaded == old(outcome).ops_uploaded,
        final(outcome).ops_applied == old(outcome).ops_applied,
        final(outcome).conflicts_created == old(outcome).conflicts_created,
        final(outcome).snapshot_taken == old(outcome).snapshot_taken,
{
    if is_local {
        state.last_applied_op_id = Some(op.op_id.clone());
        return FetchDecision::SkipOwn;
    }
    if op.schema_version > SCHEMA_VERSION {
        let msg = schema_error_text(op.op_id.as_str(), op.schema_version);
        state.last_error = Some(msg.clone());
        state.last_sync_at = Some(owned(now));
        outcome.error = Some(msg);
        return FetchDecision::Park;
    }
    FetchDecision::Queue
}

/// `items` ordered by key (`.0`), each key no greater than the next.
pub open spec fn sorted_by_key<T>(items: Seq<(String, T)>) -> bool {
    forall|i: int, j: int| 0 <= i < j < items.len() ==> lex_le(items[i].0@, items[j].0@)
}

/// Sort `(id, op)` pairs by id, ascending. ULIDs order by time, so this
/// applies remote ops oldest first.
pub fn sort_by_id<T>(items: Vec<(String, T)>) -> (r: Vec<(String, T)>)
    ensures
        sorted_by_key(r@),
        r@.to_multiset() == items@.to_multiset(),
{
    broadcast use vstd::seq_lib::group_to_multiset_ensures;
    let mut rest = items;
    let mut out: Vec<(String, T)> = Vec::new();
    let ghost orig = rest@;
    assert(out@.to_multiset().add(rest@.to_multiset()) =~= orig.to_multiset());
    while rest.len() > 0
        invariant
            sorted_by_key(out@),
            out@.to_multiset().add(rest@.to_multiset()) == orig.to_multiset(),
        decreases rest@.len(),
    {
        let ghost pre_rest = rest@;
        let x = rest.remove(0);
        let key = chars_of(x.0.as_str());
        let mut p: usize = 0;
        while p < out.len() && !lex_lt_chars(&key, &chars_of(out[p].0.as_str()))
            invariant
                p <= out@.len(),
                key@ == x.0@,
                forall|q: int| 0 <= q < p ==> !lex_lt(x.0@, #[trigger] out@[q].0@),
            decreases out@.len() - p,
        {
            p = p + 1;
        }
        let ghost pre_out = out@;
        out.insert(p, x);
        proof {
            assert(pre_out.insert(p as int, x) == out@);
            assert(out@.remove(p as int) =~= pre_out);
            assert(out@[p as int] == x);
            out@.to_multiset_ensures();
            pre_rest.to_multiset_ensures();
            assert(out@.to_multiset().remove(x) == pre_out.to_multiset());
            assert(out@.to_multiset().count(x) > 0) by {
                assert(out@.contains(x));
            }
            assert(out@.to_multiset() =~= pre_out.to_multiset().insert(x));
            assert(pre_rest.remove(0) == rest@);
            assert(rest@.to_multiset() == pre_rest.to_multiset().remove(x));
            assert(pre_rest.to_multiset().count(x) > 0) by {
                assert(pre_rest.contains(x));
            }
            assert(out@.to_multiset().add(rest@.to_multiset()) =~= orig.to_multiset());
            assert forall|i: int, j: int| 0 <= i < j < out@.len() implies lex_le(out@[i].0@, out@[j].0@) by {
                if j < p {
                    assert(out@[i] == pre_out[i] && out@[j] == pre_out[j]);
                } else if j == p {
                    assert(out@[i] == pre_out[i]);
                    assert(!lex_lt(x.0@, pre_out[i].0@));
                    crate::text::lemma_lex_total(x.0@, pre_out[i].0@);
                } else if i == p {
                    assert(out@[j] == pre_out[j - 1]);
                    assert(lex_lt(x.0@, pre_out[p as int].0@));
                    assert(lex_le(pre_out[p as int].0@, pre_out[j - 1].0@) || j - 1 == p);
                    crate::text::lemma_lex_trans(x.0@, pre_out[p as int].0@, pre_out[j - 1].0@);
                } else if i < p {
                    assert(out@[i] == pre_out[i] && out@[j] == pre_out[j - 1]);
                } else {
                    assert(out@[i] == pre_out[i - 1] && out@[j] == pre_out[j - 1]);
                }
            }
        }
    }
    proof {
        assert(rest@ =~= Seq::<(String, T)>::empty());
        assert(out@.to_multiset().add(rest@.to_multiset()) =~= out@.to_multiset());
    }
    out
}

/// State of a status event for an outcome: `"error"` when the cycle
/// reported an error, `"idle"` otherwise.
pub fn status_label(outcome: &SyncOutcome) -> (r: &'static str)
    ensures
        r@ == if outcome.error is Some {
            "error"@
        } else {
            "idle"@
        },
{
    if outcome.error.is_some() {
        "error"
    } else {
        "idle"
    }
}

// ---------------------------------------------------------------------------
// Cycle bookkeeping
// ---------------------------------------------------------------------------

/// Key under which an op is stored in the remote journal.
pub fn journal_object_key(op_id: &str) -> (r: String)
    ensures
        r@ == "journal/"@ + op_id@ + ".op.enc"@,
{
    let a = concat(&chars_of("journal/"), &chars_of(op_id));
    string_of(&concat(&a, &chars_of(".op.enc")))
}

/// `s` holds no `/`.
pub open spec fn no_slash(s: Seq<char>) -> bool {
    forall|i: int| 0 <= i < s.len() ==> s[i] != '/'
}

/// The last segment of a key that ends in a segment without `/` after a
/// `/` is that segment.
pub proof fn lemma_last_segment_after_slash(head: Seq<char>, tail: Seq<char>)
    requires
        no_slash(tail),
    ensures
        last_segment(head + seq!['/'] + tail) == tail,
    decreases tail.len(),
{
    let s = head + seq!['/'] + tail;
    if tail.len() == 0 {
        assert(s.last() == '/');
    } else {
        assert(s.drop_last() =~= head + seq!['/'] + tail.drop_last());
        lemma_last_segment_after_slash(head, tail.drop_last());
        assert(s.last() == tail.last());
        assert(tail.drop_last().push(tail.last()) =~= tail);
    }
}

/// What is uploaded under `journal_object_key(id)` is listed back as the op
/// `id`, for every id without a `/` (ULIDs have none).
pub proof fn lemma_journal_key_roundtrip(op_id: Seq<char>)
    requires
        no_slash(op_id),
    ensures
        journal_key_id("journal/"@ + op_id + ".op.enc"@) == Some(op_id),
{
    reveal_strlit("journal/");
    reveal_strlit(".op.enc");
    let tail = op_id + ".op.enc"@;
    assert(no_slash(tail));
    let head = "journal"@;
    reveal_strlit("journal");
    assert("journal/"@ + op_id + ".op.enc"@ =~= head + seq!['/'] + tail);
    lemma_last_segment_after_slash(head, tail);
    assert(ends_with(tail, ".op.enc"@)) by {
        assert(tail.subrange(tail.len() - 7, tail.len() as int) =~= ".op.enc"@);
    }
    assert(tail.subrange(0, tail.len() - 7) =~= op_id);
}

/// Record that the local op `op_id` was uploaded.
pub fn record_upload(state: &mut SyncRuntimeState, outcome: &mut SyncOutcome, op_id: &str)
    requires
        old(outcome).ops_uploaded < u32::MAX,
    ensures
        final(outcome).ops_uploaded == old(outcome).ops_uploaded + 1,
        final(state).last_uploaded_op_id matches Some(s) && s@ == op_id@,
        final(state).tome_id == old(state).tome_id,
        final(state).last_applied_op_id == old(state).last_applied_op_id,
        final(state).last_snapshot_id == old(state).last_snapshot_id,
        final(state).last_sync_at == old(state).last_sync_at,
        final(state).last_error == old(state).last_error,
        final(outcome).ops_applied == old(outcome).ops_applied,
        final(outcome).conflicts_created == old(outcome).conflicts_created,
        final(outcome).snapshot_taken == old(outcome).snapshot_taken,
        final(outcome).error == old(outcome).error,
{
    outcome.ops_uploaded = outcome.ops_uploaded + 1;
    state.last_uploaded_op_id = Some(owned(op_id));
}

/// Record a remote op as handled: counted as applied when it was, and the
/// apply cursor moved to it either way.
pub fn record_remote_op(state: &mut SyncRuntimeState, outcome: &mut SyncOutcome, op_id: String, applied: bool, conflicts: u32)
    requires
        applied ==> old(outcome).ops_applied < u32::MAX,
        old(outcome).conflicts_created + conflicts <= u32::MAX,
    ensures
        final(outcome).ops_applied == old(outcome).ops_applied + if applied { 1u32 } else { 0u32 },
        final(outcome).conflicts_created == old(outcome).conflicts_created + conflicts,
        final(state).last_applied_op_id == Some(op_id),
        final(state).tome_id == old(state).tome_id,
        final(state).last_uploaded_op_id == old(state).last_uploaded_op_id,
        final(state).last_snapshot_id == old(state).last_snapshot_id,
        final(state).last_sync_at == old(state).last_sync_at,
        final(state).last_error == old(state).last_error,
        final(outcome).ops_uploaded == old(outcome).ops_uploaded,
        final(outcome).snapshot_taken == old(outcome).snapshot_taken,
        final(outcome).error == old(outcome).error,
{
    if applied {
        outcome.ops_applied = outcome.ops_applied + 1;
    }
    outcome.conflicts_created = outcome.conflicts_created + conflicts;
    state.last_applied_op_id = Some(op_id);
}

/// Record a snapshot taken during the cycle.
pub fn record_snapshot(state: &mut SyncRuntimeState, outcome: &mut SyncOutcome, snapshot_id: &str)
    ensures
        final(state).last_snapshot_id matches Some(s) && s@ == snapshot_id@,
        final(outcome).snapshot_taken matches Some(s) && s@ == snapshot_id@,
        final(state).tome_id == old(state).tome_id,
        final(state).last_uploaded_op_id == old(state).last_uploaded_op_id,
        final(state).last_applied_op_id == old(state).last_applied_op_id,
        final(state).last_sync_at == old(state).last_sync_at,
        final(state).last_error == old(state).last_error,
        final(outcome).ops_uploaded == old(outcome).ops_uploaded,
        final(outcome).ops_applied == old(outcome).ops_applied,
        final(outcome).conflicts_created == old(outcome).conflicts_created,
        final(outcome).error == old(outcome).error,
{
    state.last_snapshot_id = Some(owned(snapshot_id));
    outcome.snapshot_taken = Some(owned(snapshot_id));
}

/// Record that a snapshot could not be taken; the cycle goes on.
pub fn record_snapshot_failure(state: &mut SyncRuntimeState, msg: &str)
    ensures
        final(state).last_error matches Some(e) && e@ == "snapshot failed: "@ + msg@,
        final(state).tome_id == old(state).tome_id,
        final(state).last_uploaded_op_id == old(state).last_uploaded_op_id,
        final(state).last_applied_op_id == old(state).last_applied_op_id,
        final(state).last_snapshot_id == old(state).last_snapshot_id,
        final(state).last_sync_at == old(state).last_sync_at,
{
    state.last_error = Some(string_of(&concat(&chars_of("snapshot failed: "), &chars_of(msg))));
}

/// Close a cycle: stamp the sync time and keep the cycle's error (none
/// when it went through).
pub fn finish_cycle(state: &mut SyncRuntimeState, outcome: &SyncOutcome, now: &str)
    ensures
        final(state).last_sync_at matches Some(t) && t@ == now@,
        match outcome.error {
            Some(e) => final(state).last_error matches Some(x) && x@ == e@,
            None => final(state).last_error is None,
        },
        final(state).tome_id == old(state).tome_id,
        final(state).last_uploaded_op_id == old(state).last_uploaded_op_id,
        final(state).last_applied_op_id == old(state).last_applied_op_id,
        final(state).last_snapshot_id == old(state).last_snapshot_id,
{
    state.last_sync_at = Some(owned(now));
    state.last_error = match &outcome.error {
        Some(e) => Some(owned(e.as_str())),
        None => None,
    };
}

/// Record the error of a failed cycle.
pub fn record_cycle_error(state: &mut SyncRuntimeState, msg: String)
    ensures
        final(state).last_error == Some(msg),
        final(state).tome_id == old(state).tome_id,
        final(state).last_uploaded_op_id == old(state).last_uploaded_op_id,
        final(state).last_applied_op_id == old(state).last_applied_op_id,
        final(state).last_snapshot_id == old(state).last_snapshot_id,
        final(state).last_sync_at == old(state).last_sync_at,
{
    state.last_error = Some(msg);
}

/// `Ok` of a result, with a missing object read as the default value.
pub fn ignore_not_found<T: Default>(r: Result<T, crate::backend::BackendError>) -> (out: Result<T, crate::backend::BackendError>)
    ensures
        match r {
            Ok(v) => out == Ok::<T, crate::backend::BackendError>(v),
            Err(crate::backend::BackendError::NotFound(_)) => out is Ok,
            Err(e) => out == Err::<T, crate::backend::BackendError>(e),
        },
{
    match r {
        Ok(v) => Ok(v),
        Err(crate::backend::BackendError::NotFound(_)) => Ok(T::default()),
        Err(e) => Err(e),
    }
}

} // verus!
