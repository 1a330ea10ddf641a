//! Conflict descriptors and per-field conflict detection.
//!
//! When two devices change the same `(table, row, field)` to different values
//! between syncs, neither write wins: both values are kept as a `Conflict`
//! for the user to resolve. Bookkeeping columns are exempt and follow
//! last-write-wins.

use vstd::prelude::*;
use crate::fields::{FieldMap, FieldText, value_view, value_eq, value_clone};
use crate::journal::{Op, OpKind};
use crate::text::str_eq;

verus! {

pub struct Conflict {
    pub conflict_id: String,
    pub table: String,
    pub row_id: String,
    pub field: String,
    /// Value as it stands locally; `None` means the local side cleared it.
    pub local_value: FieldText,
    /// Value the remote op writes.
    pub remote_value: FieldText,
    pub local_op_id: String,
    pub remote_op_id: String,
    pub detected_at: String,
}

/// Columns touched on every write (timestamps, audit identities).
pub open spec fn meta_field(f: Seq<char>) -> bool {
    f == "updated_at"@ || f == "created_at"@ || f == "updated_by"@ || f == "created_by"@
}

pub fn is_meta_field(field: &str) -> (r: bool)
    ensures
        r == meta_field(field@),
{
    str_eq(field, "updated_at") || str_eq(field, "created_at") || str_eq(field, "updated_by")
        || str_eq(field, "created_by")
}

pub open spec fn same_row(op: Op, table: Seq<char>, row_id: Seq<char>) -> bool {
    op.table@ == table && op.row_id@ == row_id
}

/// Keys an op leaves with a definite local value: the keys it writes, plus,
/// for a delete, every key of the deleted row.
pub open spec fn op_keys(op: Op, k: Seq<char>) -> bool {
    op.fields@.dom().contains(k) || (op.kind == OpKind::Delete && op.prev_fields@.dom().contains(k))
}

/// Local value of each field after one op.
pub open spec fn vals_after(m: Map<Seq<char>, Option<Seq<char>>>, op: Op) -> Map<
    Seq<char>,
    Option<Seq<char>>,
> {
    let m1 = m.union_prefer_right(op.fields@);
    if op.kind == OpKind::Delete {
        m1.union_prefer_right(
            Map::new(|k: Seq<char>| op.prev_fields@.dom().contains(k), |k: Seq<char>| None),
        )
    } else {
        m1
    }
}

/// Id of the op that last set each field, after one op.
pub open spec fn ids_after(m: Map<Seq<char>, Option<Seq<char>>>, op: Op) -> Map<
    Seq<char>,
    Option<Seq<char>>,
> {
    let m1 = m.union_prefer_right(
        Map::new(|k: Seq<char>| op.fields@.dom().contains(k), |k: Seq<char>| Some(op.op_id@)),
    );
    if op.kind == OpKind::Delete {
        m1.union_prefer_right(
            Map::new(
                |k: Seq<char>| op.prev_fields@.dom().contains(k),
                |k: Seq<char>| Some(op.op_id@),
            ),
        )
    } else {
        m1
    }
}

/// Local field values of the row, replaying the local ops in order.
pub open spec fn local_vals(ops: Seq<Op>, table: Seq<char>, row_id: Seq<char>) -> Map<
    Seq<char>,
    Option<Seq<char>>,
>
    decreases ops.len(),
{
    if ops.len() == 0 {
        Map::empty()
    } else {
        let m = local_vals(ops.drop_last(), table, row_id);
        if same_row(ops.last(), table, row_id) {
            vals_after(m, ops.last())
        } else {
            m
        }
    }
}

/// For each local field, `Some(id)` of the last local op that set it.
pub open spec fn local_ids(ops: Seq<Op>, table: Seq<char>, row_id: Seq<char>) -> Map<
    Seq<char>,
    Option<Seq<char>>,
>
    decreases ops.len(),
{
    if ops.len() == 0 {
        Map::empty()
    } else {
        let m = local_ids(ops.drop_last(), table, row_id);
        if same_row(ops.last(), table, row_id) {
            ids_after(m, ops.last())
        } else {
            m
        }
    }
}

/// `field` of the remote op conflicts with the local ops: both sides set it,
/// to different values, and it is not a bookkeeping column.
pub open spec fn conflicting(local_ops: Seq<Op>, remote: Op, field: Seq<char>) -> bool {
    let vals = local_vals(local_ops, remote.table@, remote.row_id@);
    &&& remote.fields@.dom().contains(field)
    &&& !meta_field(field)
    &&& vals.dom().contains(field)
    &&& vals[field] != remote.fields@[field]
}

pub open spec fn ops_wf(ops: Seq<Op>) -> bool {
    forall|i: int| 0 <= i < ops.len() ==> (#[trigger] ops[i]).wf()
}

/// The local field state of one row: `(values, ids of the ops that set them)`.
pub fn local_field_state(local_ops: &Vec<Op>, table: &str, row_id: &str) -> (r: (FieldMap, FieldMap))
    requires
        ops_wf(local_ops@),
    ensures
        r.0.wf(),
        r.1.wf(),
        r.0@ == local_vals(local_ops@, table@, row_id@),
        r.1@ == local_ids(local_ops@, table@, row_id@),
{
    let mut vals = FieldMap::new();
    let mut ids = FieldMap::new();
    let mut i: usize = 0;
    while i < local_ops.len()
        invariant
            ops_wf(local_ops@),
            i <= local_ops@.len(),
            vals.wf(),
            ids.wf(),
            vals@ == local_vals(local_ops@.take(i as int), table@, row_id@),
            ids@ == local_ids(local_ops@.take(i as int), table@, row_id@),
        decreases local_ops@.len() - i,
    {
        let op = &local_ops[i];
        proof {
            assert(local_ops@.take(i + 1).drop_last() =~= local_ops@.take(i as int));
            assert(local_ops@.take(i + 1).last() == local_ops@[i as int]);
            assert(op.wf());
        }
        if str_eq(op.table.as_str(), table) && str_eq(op.row_id.as_str(), row_id) {
            vals.merge_from(&op.fields);
            let id: FieldText = Some(op.op_id.clone());
            ids.assign_keys(&op.fields, &id);
            if op.kind == OpKind::Delete {
                vals.assign_keys(&op.prev_fields, &None);
                ids.assign_keys(&op.prev_fields, &id);
            }
            proof {
                assert(vals@ =~= vals_after(local_vals(local_ops@.take(i as int), table@, row_id@), *op));
                assert(ids@ =~= ids_after(local_ids(local_ops@.take(i as int), table@, row_id@), *op));
            }
        }
        i = i + 1;
    }
    proof {
        assert(local_ops@.take(local_ops@.len() as int) =~= local_ops@);
    }
    (vals, ids)
}

pub proof fn lemma_ids_cover_vals(ops: Seq<Op>, table: Seq<char>, row_id: Seq<char>)
    ensures
        local_ids(ops, table, row_id).dom() == local_vals(ops, table, row_id).dom(),
        forall|k: Seq<char>| #[trigger] local_ids(ops, table, row_id).dom().contains(k)
            ==> local_ids(ops, table, row_id)[k] is Some,
    decreases ops.len(),
{
    if ops.len() > 0 {
        lemma_ids_cover_vals(ops.drop_last(), table, row_id);
        assert(local_ids(ops, table, row_id).dom() =~= local_vals(ops, table, row_id).dom());
    } else {
        assert(local_ids(ops, table, row_id).dom() =~= local_vals(ops, table, row_id).dom());
    }
}

/// `c` records a conflict on one of its fields between `remote` and the
/// unsynced local ops: the row, both values (the local one as the local
/// ops left it), the local op that last wrote the field and the remote op,
/// under a fresh 26-character id.
pub open spec fn records_conflict(local_ops: Seq<Op>, remote: Op, c: Conflict) -> bool {
    let ids = local_ids(local_ops, remote.table@, remote.row_id@);
    &&& conflicting(local_ops, remote, c.field@)
    &&& c.table@ == remote.table@
    &&& c.row_id@ == remote.row_id@
    &&& value_view(c.remote_value) == remote.fields@[c.field@]
    &&& value_view(c.local_value) == local_vals(local_ops, remote.table@, remote.row_id@)[c.field@]
    &&& Some(c.local_op_id@) == ids[c.field@]
    &&& c.remote_op_id@ == remote.op_id@
    &&& c.conflict_id@.len() == 26
}

/// Per-field conflicts between an incoming remote op and the unsynced local
/// ops (in op order) touching the same row, one per conflicting field. Each
/// conflict gets a fresh id and the current time.
pub fn detect_conflicts(local_ops: &Vec<Op>, remote: &Op) -> (r: Vec<Conflict>)
    requires
        ops_wf(local_ops@),
        remote.wf(),
    ensures
        forall|j: int| 0 <= j < r@.len() ==> records_conflict(local_ops@, *remote, #[trigger] r@[j]),
        forall|f: Seq<char>|
            conflicting(local_ops@, *remote, f) ==> exists|j: int|
                0 <= j < r@.len() && (#[trigger] r@[j]).field@ == f,
        forall|a: int, b: int| 0 <= a < b < r@.len() ==> r@[a].field@ != r@[b].field@,
{
    let (vals, ids) = local_field_state(local_ops, remote.table.as_str(), remote.row_id.as_str());
    proof {
        lemma_ids_cover_vals(local_ops@, remote.table@, remote.row_id@);
    }
    let now = crate::ids::now_rfc3339();
    let mut out: Vec<Conflict> = Vec::new();
    let mut i: usize = 0;
    while i < remote.fields.entries.len()
        invariant
            remote.wf(),
            vals.wf(),
            ids.wf(),
            vals@ == local_vals(local_ops@, remote.table@, remote.row_id@),
            ids@ == local_ids(local_ops@, remote.table@, remote.row_id@),
            ids@.dom() == vals@.dom(),
            forall|k: Seq<char>| #[trigger] ids@.dom().contains(k) ==> ids@[k] is Some,
            i <= remote.fields.entries@.len(),
            forall|j: int| 0 <= j < out@.len() ==> {
                let c = #[trigger] out@[j];
                &&& conflicting(local_ops@, *remote, c.field@)
                &&& c.table@ == remote.table@
                &&& c.row_id@ == remote.row_id@
                &&& value_view(c.remote_value) == remote.fields@[c.field@]
                &&& value_view(c.local_value) == vals@[c.field@]
                &&& Some(c.local_op_id@) == ids@[c.field@]
                &&& c.remote_op_id@ == remote.op_id@
                &&& c.conflict_id@.len() == 26
                &&& exists|p: int| 0 <= p < i && remote.fields.key_at(p) == c.field@
            },
            forall|p: int|
                0 <= p < i && conflicting(local_ops@, *remote, remote.fields.key_at(p)) ==> exists|
                    j: int,
                | 0 <= j < out@.len() && (#[trigger] out@[j]).field@ == remote.fields.key_at(p),
            forall|a: int, b: int| 0 <= a < b < out@.len() ==> out@[a].field@ != out@[b].field@,
        decreases remote.fields.entries@.len() - i,
    {
        proof {
            remote.fields.lemma_lookup(i as int);
        }
        let field = &remote.fields.entries[i].0;
        let rv = &remote.fields.entries[i].1;
        let ghost old_out = out@;
        if !is_meta_field(field.as_str()) {
            match vals.get(field.as_str()) {
                Some(lv) => {
                    if !value_eq(&lv, rv) {
                        let lid = match ids.get(field.as_str()) {
                            Some(Some(s)) => s,
                            _ => {
                                proof {
                                    assert(false);
                                }
                                String::new()
                            },
                        };
                        let c = Conflict {
                            conflict_id: crate::ids::new_ulid(),
                            table: remote.table.clone(),
                            row_id: remote.row_id.clone(),
                            field: field.clone(),
                            local_value: lv,
                            remote_value: value_clone(rv),
                            local_op_id: lid,
                            remote_op_id: remote.op_id.clone(),
                            detected_at: now.clone(),
                        };
                        proof {
                            assert forall|a: int| 0 <= a < old_out.len() implies old_out[a].field@
                                != field@ by {
                                let p = choose|p: int|
                                    0 <= p < i && remote.fields.key_at(p) == old_out[a].field@;
                                assert(remote.fields.key_at(p) != remote.fields.key_at(i as int));
                            }
                        }
                        out.push(c);
                    }
                },
                None => {},
            }
        }
        proof {
            assert forall|j: int| 0 <= j < out@.len() implies {
                let c = #[trigger] out@[j];
                exists|p: int| 0 <= p < i + 1 && remote.fields.key_at(p) == c.field@
            } by {
                if j < old_out.len() {
                    assert(out@[j] == old_out[j]);
                    let p = choose|p: int| 0 <= p < i && remote.fields.key_at(p) == old_out[j].field@;
                } else {
                    assert(remote.fields.key_at(i as int) == out@[j].field@);
                }
            }
            assert forall|p: int|
                0 <= p < i + 1 && conflicting(local_ops@, *remote, remote.fields.key_at(p)) implies exists|
                j: int,
            | 0 <= j < out@.len() && (#[trigger] out@[j]).field@ == remote.fields.key_at(p) by {
                if p == i as int {
                    let j = out@.len() - 1;
                    assert(out@[j].field@ == remote.fields.key_at(p));
                } else {
                    let j = choose|j: int|
                        0 <= j < old_out.len() && (#[trigger] old_out[j]).field@ == remote.fields.key_at(p);
                    assert(out@[j] == old_out[j]);
                }
            }
        }
        i = i + 1;
    }
    proof {
        assert forall|f: Seq<char>| conflicting(local_ops@, *remote, f) implies exists|j: int|
            0 <= j < out@.len() && (#[trigger] out@[j]).field@ == f by {
            let p = remote.fields.index_of(f);
            assert(remote.fields.key_at(p) == f);
        }
    }
    out
}

// ---------------------------------------------------------------------------
// Laws
// ---------------------------------------------------------------------------

proof fn lemma_untouched_not_local(ops: Seq<Op>, table: Seq<char>, row_id: Seq<char>, f: Seq<char>)
    requires
        forall|i: int| 0 <= i < ops.len() && same_row(#[trigger] ops[i], table, row_id) ==> !op_keys(ops[i], f),
    ensures
        !local_vals(ops, table, row_id).dom().contains(f),
    decreases ops.len(),
{
    if ops.len() > 0 {
        let init = ops.drop_last();
        assert forall|i: int| 0 <= i < init.len() && same_row(#[trigger] init[i], table, row_id) implies !op_keys(init[i], f) by {
            assert(init[i] == ops[i]);
        }
        lemma_untouched_not_local(init, table, row_id, f);
        if same_row(ops.last(), table, row_id) {
            assert(!op_keys(ops[ops.len() - 1], f));
        }
    }
}

/// Edits to different fields merge: a field that no unsynced local op on
/// the row wrote (or deleted) never conflicts, whatever the remote op does.
pub proof fn lemma_untouched_fields_never_conflict(local_ops: Seq<Op>, remote: Op, f: Seq<char>)
    requires
        forall|i: int|
            0 <= i < local_ops.len() && same_row(#[trigger] local_ops[i], remote.table@, remote.row_id@)
                ==> !op_keys(local_ops[i], f),
    ensures
        !conflicting(local_ops, remote, f),
{
    lemma_untouched_not_local(local_ops, remote.table@, remote.row_id@, f);
}

/// No silent last-writer-wins: when the latest unsynced local op on the
/// row set a field (other than a bookkeeping column) to one value and the
/// remote op sets it to another, the field conflicts.
pub proof fn lemma_divergent_edits_conflict(local_ops: Seq<Op>, remote: Op, f: Seq<char>)
    requires
        local_ops.len() > 0,
        same_row(local_ops.last(), remote.table@, remote.row_id@),
        local_ops.last().kind != OpKind::Delete,
        local_ops.last().fields@.dom().contains(f),
        remote.fields@.dom().contains(f),
        !meta_field(f),
        local_ops.last().fields@[f] != remote.fields@[f],
    ensures
        conflicting(local_ops, remote, f),
{
    let vals = local_vals(local_ops, remote.table@, remote.row_id@);
    assert(vals.dom().contains(f));
    assert(vals[f] == local_ops.last().fields@[f]);
}

/// A row deleted locally holds no value: when the latest unsynced local op
/// on the row is a delete, each field of the deleted row stands locally at
/// NULL, last set by that delete, and a remote op that gives such a field
/// (other than a bookkeeping column) a value conflicts with it.
pub proof fn lemma_local_delete_conflicts(local_ops: Seq<Op>, remote: Op, f: Seq<char>)
    requires
        local_ops.len() > 0,
        same_row(local_ops.last(), remote.table@, remote.row_id@),
        local_ops.last().kind == OpKind::Delete,
        local_ops.last().prev_fields@.dom().contains(f),
    ensures
        local_vals(local_ops, remote.table@, remote.row_id@).dom().contains(f),
        local_vals(local_ops, remote.table@, remote.row_id@)[f] == None::<Seq<char>>,
        local_ids(local_ops, remote.table@, remote.row_id@)[f] == Some(local_ops.last().op_id@),
        remote.fields@.dom().contains(f) && remote.fields@[f] is Some && !meta_field(f) ==> conflicting(
            local_ops,
            remote,
            f,
        ),
{
}

/// Agreeing edits merge: a field that the local side already holds at the
/// remote op's value does not conflict.
pub proof fn lemma_agreeing_edits_never_conflict(local_ops: Seq<Op>, remote: Op, f: Seq<char>)
    requires
        local_vals(local_ops, remote.table@, remote.row_id@).dom().contains(f) ==> local_vals(
            local_ops,
            remote.table@,
            remote.row_id@,
        )[f] == remote.fields@[f],
    ensures
        !conflicting(local_ops, remote, f),
{
}

/// Bookkeeping columns (`created_at`, `updated_at`, `created_by`,
/// `updated_by`) never conflict.
pub proof fn lemma_meta_fields_never_conflict(local_ops: Seq<Op>, remote: Op, f: Seq<char>)
    requires
        meta_field(f),
    ensures
        !conflicting(local_ops, remote, f),
{
}

} // verus!
