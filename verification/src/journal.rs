//! Sync journal: typed row mutations.
//!
//! Each op records exactly one row mutation. Edits that touch several rows
//! share one `transaction_id`. Identifiers and timestamps are carried as text
//! (ULIDs, UUIDs and RFC 3339 times).

use vstd::prelude::*;
use crate::fields::{FieldMap, FieldText, value_view, value_eq, value_clone};
use crate::ids::{new_ulid, now_rfc3339};
use serde_json::Value;
use std::collections::BTreeMap;

verus! {

/// Version of the op format this client writes and understands.
pub const SCHEMA_VERSION: u32 = 1;

#[derive(Debug, Clone, Copy, PartialEq, Eq, Structural)]
pub enum OpKind {
    Insert,
    Update,
    Delete,
}

/// The lowercase name of a kind.
pub open spec fn kind_name(k: OpKind) -> Seq<char> {
    match k {
        OpKind::Insert => "insert"@,
        OpKind::Update => "update"@,
        OpKind::Delete => "delete"@,
    }
}

/// The kind whose name is `s`, if any.
pub open spec fn kind_of_name(s: Seq<char>) -> Option<OpKind> {
    if s == "insert"@ {
        Some(OpKind::Insert)
    } else if s == "update"@ {
        Some(OpKind::Update)
    } else if s == "delete"@ {
        Some(OpKind::Delete)
    } else {
        None
    }
}

impl OpKind {
    pub fn as_str(&self) -> (r: &'static str)
        ensures
            r@ == kind_name(*self),
    {
        match self {
            OpKind::Insert => "insert",
            OpKind::Update => "update",
            OpKind::Delete => "delete",
        }
    }

    pub fn from_str(s: &str) -> (r: Option<OpKind>)
        ensures
            r == kind_of_name(s@),
    {
        if crate::text::str_eq(s, "insert") {
            Some(OpKind::Insert)
        } else if crate::text::str_eq(s, "update") {
            Some(OpKind::Update)
        } else if crate::text::str_eq(s, "delete") {
            Some(OpKind::Delete)
        } else {
            None
        }
    }
}

/// A kind's name parses back to the kind, and a parsed name is the name of
/// the kind it parses to.
pub proof fn lemma_op_kind_roundtrip(k: OpKind, s: Seq<char>)
    ensures
        kind_of_name(kind_name(k)) == Some(k),
        kind_of_name(s) matches Some(j) ==> kind_name(j) == s,
{
    reveal_strlit("insert");
    reveal_strlit("update");
    reveal_strlit("delete");
    assert("insert"@[0] == 'i');
    assert("update"@[0] == 'u');
    assert("delete"@[0] == 'd');
}

/// One row-level mutation: the unit of sync exchange.
pub struct Op {
    pub op_id: String,
    pub device_id: String,
    pub table: String,
    pub row_id: String,
    pub kind: OpKind,
    pub fields: FieldMap,
    pub prev_fields: FieldMap,
    pub schema_version: u32,
    pub timestamp: String,
    pub transaction_id: String,
}

impl Op {
    pub open spec fn wf(self) -> bool {
        self.fields.wf() && self.prev_fields.wf()
    }

    /// Every field the op names, new values first: the keys of `fields`,
    /// then those keys of `prev_fields` that `fields` lacks.
    pub fn touched_fields(&self) -> (r: Vec<String>)
        requires
            self.wf(),
        ensures
            r@.len() >= self.fields.entries@.len(),
            forall|i: int|
                0 <= i < self.fields.entries@.len() ==> #[trigger] r@[i]@ == self.fields.key_at(i),
            forall|i: int|
                self.fields.entries@.len() <= i < r@.len() ==> !self.fields@.dom().contains(
                    #[trigger] r@[i]@,
                ) && self.prev_fields@.dom().contains(r@[i]@),
            forall|k: Seq<char>|
                self.fields@.dom().contains(k) || self.prev_fields@.dom().contains(k) ==> exists|
                    i: int,
                | 0 <= i < r@.len() && #[trigger] r@[i]@ == k,
            forall|i: int, j: int| 0 <= i < j < r@.len() ==> r@[i]@ != r@[j]@,
    {
        let mut out = self.fields.key_list();
        let n = out.len();
        let mut i: usize = 0;
        while i < self.prev_fields.entries.len()
            invariant
                self.wf(),
                n == self.fields.entries@.len(),
                i <= self.prev_fields.entries@.len(),
                out@.len() >= n,
                forall|j: int| 0 <= j < n ==> #[trigger] out@[j]@ == self.fields.key_at(j),
                forall|j: int|
                    n <= j < out@.len() ==> !self.fields@.dom().contains(#[trigger] out@[j]@)
                        && self.prev_fields@.dom().contains(out@[j]@),
                forall|j: int|
                    n <= j < out@.len() ==> exists|p: int|
                        0 <= p < i && #[trigger] out@[j]@ == self.prev_fields.key_at(p),
                forall|p: int|
                    0 <= p < i && !self.fields@.dom().contains(self.prev_fields.key_at(p)) ==> exists|
                        j: int,
                    | 0 <= j < out@.len() && #[trigger] out@[j]@ == self.prev_fields.key_at(p),
                forall|a: int, b: int| 0 <= a < b < out@.len() ==> out@[a]@ != out@[b]@,
            decreases self.prev_fields.entries@.len() - i,
        {
            let k = &self.prev_fields.entries[i].0;
            proof {
                self.prev_fields.lemma_lookup(i as int);
            }
            let ghost old_out = out@;
            if !self.fields.contains_key(k.as_str()) {
                proof {
                    assert forall|a: int| 0 <= a < out@.len() implies out@[a]@ != k@ by {
                        if a < n {
                            self.fields.lemma_lookup(a);
                        } else {
                            let p = choose|p: int|
                                0 <= p < i && #[trigger] out@[a]@ == self.prev_fields.key_at(p);
                            assert(self.prev_fields.key_at(p) != self.prev_fields.key_at(i as int));
                        }
                    }
                }
                out.push(k.clone());
                proof {
                    let last = out@.len() - 1;
                    assert(out@[last]@ == self.prev_fields.key_at(i as int));
                }
            }
            proof {
                assert forall|p: int|
                    0 <= p < i + 1 && !self.fields@.dom().contains(self.prev_fields.key_at(p)) implies exists|
                    j: int,
                | 0 <= j < out@.len() && #[trigger] out@[j]@ == self.prev_fields.key_at(p) by {
                    if p == i as int {
                        let last = out@.len() - 1;
                        assert(out@[last]@ == self.prev_fields.key_at(p));
                    } else {
                        let j = choose|j: int|
                            0 <= j < old_out.len() && #[trigger] old_out[j]@ == self.prev_fields.key_at(p);
                        assert(out@[j] == old_out[j]);
                    }
                }
            }
            i = i + 1;
        }
        proof {
            assert forall|k: Seq<char>|
                self.fields@.dom().contains(k) || self.prev_fields@.dom().contains(k) implies exists|
                i: int,
            | 0 <= i < out@.len() && #[trigger] out@[i]@ == k by {
                if self.fields@.dom().contains(k) {
                    let p = self.fields.index_of(k);
                    assert(out@[p]@ == k);
                } else {
                    let p = self.prev_fields.index_of(k);
                    assert(self.prev_fields.key_at(p) == k);
                }
            }
        }
        out
    }
}

/// The value `m` holds for `k`, NULL when `m` lacks `k`.
pub open spec fn get_or_null(m: Map<Seq<char>, Option<Seq<char>>>, k: Seq<char>) -> Option<
    Seq<char>,
> {
    if m.dom().contains(k) {
        m[k]
    } else {
        None
    }
}

/// Keys of `before` or `after` whose value differs between the two.
pub open spec fn changed(
    before: Map<Seq<char>, Option<Seq<char>>>,
    after: Map<Seq<char>, Option<Seq<char>>>,
    k: Seq<char>,
) -> bool {
    (before.dom().contains(k) || after.dom().contains(k)) && get_or_null(before, k)
        != get_or_null(after, k)
}

/// The columns an Update op for the change from `before` to `after`
/// carries: exactly the changed ones, new values in `fields` and old ones
/// in `prev_fields` (what `update_op` returns).
pub open spec fn is_update_of(
    op: Op,
    before: Map<Seq<char>, Option<Seq<char>>>,
    after: Map<Seq<char>, Option<Seq<char>>>,
) -> bool {
    &&& forall|k: Seq<char>| #[trigger] op.fields@.dom().contains(k) <==> changed(before, after, k)
    &&& forall|k: Seq<char>| #[trigger] op.prev_fields@.dom().contains(k) <==> changed(before, after, k)
    &&& forall|k: Seq<char>| op.fields@.dom().contains(k) ==> #[trigger] op.fields@[k] == get_or_null(after, k)
    &&& forall|k: Seq<char>| op.prev_fields@.dom().contains(k) ==> #[trigger] op.prev_fields@[k] == get_or_null(before, k)
}

/// An Update op replays and reverts the change it records: its new values
/// laid over the old row give the new row, and its old values laid over the
/// new row give the old one, column by column (a missing column reads as
/// NULL).
pub proof fn lemma_update_op_replays_and_reverts(
    op: Op,
    before: Map<Seq<char>, Option<Seq<char>>>,
    after: Map<Seq<char>, Option<Seq<char>>>,
    k: Seq<char>,
)
    requires
        is_update_of(op, before, after),
    ensures
        get_or_null(before.union_prefer_right(op.fields@), k) == get_or_null(after, k),
        get_or_null(after.union_prefer_right(op.prev_fields@), k) == get_or_null(before, k),
{
    if op.fields@.dom().contains(k) {
        assert(op.fields@[k] == get_or_null(after, k));
    } else {
        assert(!changed(before, after, k));
    }
    if op.prev_fields@.dom().contains(k) {
        assert(op.prev_fields@[k] == get_or_null(before, k));
    } else {
        assert(!changed(before, after, k));
    }
}

/// Build an Insert op from the fully populated row. The op's id is a fresh
/// ULID and its timestamp the current time.
pub fn insert_op(
    device_id: String,
    transaction_id: String,
    table: String,
    row_id: String,
    fields: FieldMap,
) -> (r: Op)
    requires
        fields.wf(),
    ensures
        r.wf(),
        r.op_id@.len() == 26,
        r.device_id == device_id,
        r.transaction_id == transaction_id,
        r.table == table,
        r.row_id == row_id,
        r.kind == OpKind::Insert,
        r.fields@ == fields@,
        r.prev_fields@ == Map::<Seq<char>, Option<Seq<char>>>::empty(),
        r.schema_version == SCHEMA_VERSION,
{
    Op {
        op_id: new_ulid(),
        device_id,
        table,
        row_id,
        kind: OpKind::Insert,
        fields,
        prev_fields: FieldMap::new(),
        schema_version: SCHEMA_VERSION,
        timestamp: now_rfc3339(),
        transaction_id,
    }
}

/// Build a Delete op carrying the full pre-deletion row in `prev_fields`.
pub fn delete_op(
    device_id: String,
    transaction_id: String,
    table: String,
    row_id: String,
    before: FieldMap,
) -> (r: Op)
    requires
        before.wf(),
    ensures
        r.wf(),
        r.op_id@.len() == 26,
        r.device_id == device_id,
        r.transaction_id == transaction_id,
        r.table == table,
        r.row_id == row_id,
        r.kind == OpKind::Delete,
        r.fields@ == Map::<Seq<char>, Option<Seq<char>>>::empty(),
        r.prev_fields@ == before@,
        r.schema_version == SCHEMA_VERSION,
{
    Op {
        op_id: new_ulid(),
        device_id,
        table,
        row_id,
        kind: OpKind::Delete,
        fields: FieldMap::new(),
        prev_fields: before,
        schema_version: SCHEMA_VERSION,
        timestamp: now_rfc3339(),
        transaction_id,
    }
}

/// The changed fields of two full-row snapshots: `(new values, old values)`.
pub fn diff_fields(before: &FieldMap, after: &FieldMap) -> (r: (FieldMap, FieldMap))
    requires
        before.wf(),
        after.wf(),
    ensures
        r.0.wf(),
        r.1.wf(),
        forall|k: Seq<char>|
            #[trigger] r.0@.dom().contains(k) <==> changed(before@, after@, k),
        forall|k: Seq<char>|
            #[trigger] r.1@.dom().contains(k) <==> changed(before@, after@, k),
        forall|k: Seq<char>|
            r.0@.dom().contains(k) ==> #[trigger] r.0@[k] == get_or_null(after@, k),
        forall|k: Seq<char>|
            r.1@.dom().contains(k) ==> #[trigger] r.1@[k] == get_or_null(before@, k),
{
    let mut fields = FieldMap::new();
    let mut prev = FieldMap::new();
    let mut i: usize = 0;
    while i < before.entries.len()
        invariant
            before.wf(),
            after.wf(),
            fields.wf(),
            prev.wf(),
            i <= before.entries@.len(),
            forall|k: Seq<char>|
                #[trigger] fields@.dom().contains(k) <==> (exists|p: int|
                    0 <= p < i && before.key_at(p) == k) && changed(before@, after@, k),
            forall|k: Seq<char>|
                #[trigger] prev@.dom().contains(k) <==> (exists|p: int|
                    0 <= p < i && before.key_at(p) == k) && changed(before@, after@, k),
            forall|k: Seq<char>|
                fields@.dom().contains(k) ==> #[trigger] fields@[k] == get_or_null(after@, k),
            forall|k: Seq<char>|
                prev@.dom().contains(k) ==> #[trigger] prev@[k] == get_or_null(before@, k),
        decreases before.entries@.len() - i,
    {
        let key = &before.entries[i].0;
        let b = &before.entries[i].1;
        proof {
            before.lemma_lookup(i as int);
        }
        let a: FieldText = match after.get(key.as_str()) {
            Some(v) => v,
            None => None,
        };
        if !value_eq(b, &a) {
            let ghost pf = fields@;
            let ghost pp = prev@;
            fields.insert(key.clone(), a);
            prev.insert(key.clone(), value_clone(b));
            proof {
                assert forall|k: Seq<char>|
                    #[trigger] fields@.dom().contains(k) <==> (exists|p: int|
                        0 <= p < i + 1 && before.key_at(p) == k) && changed(before@, after@, k) by {
                    if k == key@ {
                        assert(before.key_at(i as int) == k);
                    } else if (exists|p: int| 0 <= p < i + 1 && before.key_at(p) == k) {
                        let p = choose|p: int| 0 <= p < i + 1 && before.key_at(p) == k;
                        assert(p < i);
                    }
                }
                assert forall|k: Seq<char>|
                    #[trigger] prev@.dom().contains(k) <==> (exists|p: int|
                        0 <= p < i + 1 && before.key_at(p) == k) && changed(before@, after@, k) by {
                    if k == key@ {
                        assert(before.key_at(i as int) == k);
                    } else if (exists|p: int| 0 <= p < i + 1 && before.key_at(p) == k) {
                        let p = choose|p: int| 0 <= p < i + 1 && before.key_at(p) == k;
                        assert(p < i);
                    }
                }
            }
        } else {
            proof {
                assert forall|k: Seq<char>|
                    #[trigger] fields@.dom().contains(k) <==> (exists|p: int|
                        0 <= p < i + 1 && before.key_at(p) == k) && changed(before@, after@, k) by {
                    if (exists|p: int| 0 <= p < i + 1 && before.key_at(p) == k) && k != key@ {
                        let p = choose|p: int| 0 <= p < i + 1 && before.key_at(p) == k;
                        assert(p < i);
                    }
                }
                assert forall|k: Seq<char>|
                    #[trigger] prev@.dom().contains(k) <==> (exists|p: int|
                        0 <= p < i + 1 && before.key_at(p) == k) && changed(before@, after@, k) by {
                    if (exists|p: int| 0 <= p < i + 1 && before.key_at(p) == k) && k != key@ {
                        let p = choose|p: int| 0 <= p < i + 1 && before.key_at(p) == k;
                        assert(p < i);
                    }
                }
            }
        }
        i = i + 1;
    }
    let mut j: usize = 0;
    while j < after.entries.len()
        invariant
            before.wf(),
            after.wf(),
            fields.wf(),
            prev.wf(),
            j <= after.entries@.len(),
            forall|k: Seq<char>|
                #[trigger] fields@.dom().contains(k) <==> (before@.dom().contains(k) || exists|
                    p: int,
                | 0 <= p < j && after.key_at(p) == k) && changed(before@, after@, k),
            forall|k: Seq<char>|
                #[trigger] prev@.dom().contains(k) <==> (before@.dom().contains(k) || exists|
                    p: int,
                | 0 <= p < j && after.key_at(p) == k) && changed(before@, after@, k),
            forall|k: Seq<char>|
                fields@.dom().contains(k) ==> #[trigger] fields@[k] == get_or_null(after@, k),
            forall|k: Seq<char>|
                prev@.dom().contains(k) ==> #[trigger] prev@[k] == get_or_null(before@, k),
        decreases after.entries@.len() - j,
    {
        let key = &after.entries[j].0;
        let a = &after.entries[j].1;
        proof {
            after.lemma_lookup(j as int);
        }
        if !before.contains_key(key.as_str()) && a.is_some() {
            fields.insert(key.clone(), value_clone(a));
            prev.insert(key.clone(), None);
        }
        proof {
            assert forall|k: Seq<char>|
                #[trigger] fields@.dom().contains(k) <==> (before@.dom().contains(k) || exists|
                    p: int,
                | 0 <= p < j + 1 && after.key_at(p) == k) && changed(before@, after@, k) by {
                if k == key@ {
                    assert(after.key_at(j as int) == k);
                } else if (exists|p: int| 0 <= p < j + 1 && after.key_at(p) == k) {
                    let p = choose|p: int| 0 <= p < j + 1 && after.key_at(p) == k;
                    assert(p < j);
                }
            }
            assert forall|k: Seq<char>|
                #[trigger] prev@.dom().contains(k) <==> (before@.dom().contains(k) || exists|
                    p: int,
                | 0 <= p < j + 1 && after.key_at(p) == k) && changed(before@, after@, k) by {
                if k == key@ {
                    assert(after.key_at(j as int) == k);
                } else if (exists|p: int| 0 <= p < j + 1 && after.key_at(p) == k) {
                    let p = choose|p: int| 0 <= p < j + 1 && after.key_at(p) == k;
                    assert(p < j);
                }
            }
        }
        j = j + 1;
    }
    proof {
        assert forall|k: Seq<char>| #[trigger] fields@.dom().contains(k) <==> changed(before@, after@, k) by {
            if after@.dom().contains(k) {
                let p = after.index_of(k);
                assert(after.key_at(p) == k);
            }
        }
        assert forall|k: Seq<char>| #[trigger] prev@.dom().contains(k) <==> changed(before@, after@, k) by {
            if after@.dom().contains(k) {
                let p = after.index_of(k);
                assert(after.key_at(p) == k);
            }
        }
    }
    (fields, prev)
}

/// Build an Update op holding only the fields that changed between the two
/// full-row snapshots; `None` when nothing changed. A field absent from one
/// side counts as NULL there.
pub fn update_op(
    device_id: String,
    transaction_id: String,
    table: String,
    row_id: String,
    before: &FieldMap,
    after: &FieldMap,
) -> (r: Option<Op>)
    requires
        before.wf(),
        after.wf(),
    ensures
        r is None <==> forall|k: Seq<char>| !changed(before@, after@, k),
        r matches Some(op) ==> {
            &&& op.wf()
            &&& op.op_id@.len() == 26
            &&& op.device_id == device_id
            &&& op.transaction_id == transaction_id
            &&& op.table == table
            &&& op.row_id == row_id
            &&& op.kind == OpKind::Update
            &&& op.schema_version == SCHEMA_VERSION
            &&& is_update_of(op, before@, after@)
        },
{
    let (fields, prev) = diff_fields(before, after);
    if fields.is_empty() {
        proof {
            assert forall|k: Seq<char>| !changed(before@, after@, k) by {
                if changed(before@, after@, k) {
                    assert(fields@.dom().contains(k));
                }
            }
        }
        return None;
    }
    proof {
        if forall|k: Seq<char>| !changed(before@, after@, k) {
            assert(fields@ =~= Map::<Seq<char>, Option<Seq<char>>>::empty());
        }
    }
    Some(Op {
        op_id: new_ulid(),
        device_id,
        table,
        row_id,
        kind: OpKind::Update,
        fields,
        prev_fields: prev,
        schema_version: SCHEMA_VERSION,
        timestamp: now_rfc3339(),
        transaction_id,
    })
}

/// The kind a stored journal row's header gives, or the text of its first
/// problem: the op id, then the transaction id (each a ULID), then the
/// kind's name.
pub open spec fn header_outcome(op_id: Seq<char>, transaction_id: Seq<char>, op_kind: Seq<char>) -> Result<OpKind, Seq<char>> {
    match crate::ids::ulid_decode_error(op_id) {
        Some(e) => Err("bad op_id: "@ + e),
        None => match crate::ids::ulid_decode_error(transaction_id) {
            Some(e) => Err("bad transaction_id: "@ + e),
            None => match kind_of_name(op_kind) {
                Some(k) => Ok(k),
                None => Err("bad op_kind: "@ + op_kind),
            },
        },
    }
}

/// What reading a stored journal row makes of its op id, transaction id
/// and kind, checked in that order: the kind, or the first problem.
pub fn stored_op_header(op_id: &str, transaction_id: &str, op_kind: &str) -> (r: Result<OpKind, crate::errors::SyncError>)
    ensures
        match header_outcome(op_id@, transaction_id@, op_kind@) {
            Ok(k) => r == Ok::<OpKind, crate::errors::SyncError>(k),
            Err(m) => r matches Err(crate::errors::SyncError::Journal(x)) && x@ == m,
        },
{
    if let Some(e) = crate::ids::ulid_parse_error(op_id) {
        return Err(crate::errors::SyncError::Journal(crate::text::cat("bad op_id: ", e.as_str())));
    }
    if let Some(e) = crate::ids::ulid_parse_error(transaction_id) {
        return Err(crate::errors::SyncError::Journal(crate::text::cat("bad transaction_id: ", e.as_str())));
    }
    match OpKind::from_str(op_kind) {
        Some(k) => Ok(k),
        None => Err(crate::errors::SyncError::Journal(crate::text::cat("bad op_kind: ", op_kind))),
    }
}

/// The device of a stored op, which its payload must name as a UUID.
pub fn stored_op_device(device_id: Option<&str>) -> (r: Result<String, crate::errors::SyncError>)
    ensures
        match device_id {
            Some(d) => match crate::ids::uuid_decode_error(d@) {
                None => r matches Ok(x) && x@ == d@,
                Some(e) => r matches Err(crate::errors::SyncError::Journal(m)) && m@ == "bad device_id: "@ + e,
            },
            None => r matches Err(crate::errors::SyncError::Journal(m)) && m@ == "missing device_id in op_data"@,
        },
{
    match device_id {
        Some(d) => match crate::ids::uuid_parse_error(d) {
            None => Ok(crate::text::owned(d)),
            Some(e) => Err(crate::errors::SyncError::Journal(crate::text::cat("bad device_id: ", e.as_str()))),
        },
        None => Err(crate::errors::SyncError::Journal(crate::text::owned("missing device_id in op_data"))),
    }
}

/// A stored op's time, which must be RFC 3339 text.
pub fn stored_op_timestamp(timestamp: &str) -> (r: Result<(), crate::errors::SyncError>)
    ensures
        match crate::ids::rfc3339_decode_error(timestamp@) {
            None => r is Ok,
            Some(e) => r matches Err(crate::errors::SyncError::Journal(m)) && m@ == "bad timestamp: "@ + e,
        },
{
    match crate::ids::rfc3339_parse_error(timestamp) {
        None => Ok(()),
        Some(e) => Err(crate::errors::SyncError::Journal(crate::text::cat("bad timestamp: ", e.as_str()))),
    }
}

/// A member of a stored op's payload that holds fields, as read: absent,
/// its entries (each value as JSON text, `None` for null), or the text of
/// the error that reading it as a map of values gave.
pub enum PayloadMember {
    Missing,
    Entries(Vec<(String, Option<String>)>),
    Invalid(String),
}

/// The payload of a stored op: its `fields` and `prev_fields` members and
/// the `device_id` member when that is a string.
pub struct OpPayload {
    pub fields: PayloadMember,
    pub prev_fields: PayloadMember,
    pub device_id: Option<String>,
}

pub enum PayloadMemberView {
    Missing,
    Entries(Seq<(Seq<char>, Option<Seq<char>>)>),
    Invalid(Seq<char>),
}

pub open spec fn member_view(m: PayloadMember) -> PayloadMemberView {
    match m {
        PayloadMember::Missing => PayloadMemberView::Missing,
        PayloadMember::Entries(es) => PayloadMemberView::Entries(
            es@.map_values(|e: (String, Option<String>)| (e.0@, value_view(e.1))),
        ),
        PayloadMember::Invalid(m) => PayloadMemberView::Invalid(m@),
    }
}

/// A payload, or the text of the error that parsing gave, as plain values.
pub open spec fn payload_view(r: Result<OpPayload, String>) -> Result<(PayloadMemberView, PayloadMemberView, Option<Seq<char>>), Seq<char>> {
    match r {
        Ok(p) => Ok((member_view(p.fields), member_view(p.prev_fields), crate::text::string_opt(p.device_id))),
        Err(e) => Err(e@),
    }
}

/// What `serde_json` makes of a stored op's payload text, as `op_payload`
/// reads it.
pub uninterp spec fn op_payload_of(text: Seq<char>) -> Result<(PayloadMemberView, PayloadMemberView, Option<Seq<char>>), Seq<char>>;

/// `serde_json::from_str::<serde_json::Value>` on the payload text, then
/// for `fields` and `prev_fields` `get` and `serde_json::from_value` into a
/// `BTreeMap<String, Option<Value>>` (each value displayed as JSON text),
/// and the `device_id` member with `as_str`. Errors are passed on as their
/// `Display` text. The result is named.
#[verifier::external_body]
fn op_payload(op_data: &str) -> (r: Result<OpPayload, String>)
    ensures
        payload_view(r) == op_payload_of(op_data@),
{
    let v: Value = serde_json::from_str(op_data).map_err(|e| e.to_string())?;
    let member = |name: &str| match v.get(name).map(|m| serde_json::from_value::<BTreeMap<String, Option<Value>>>(m.clone())) {
        None => PayloadMember::Missing,
        Some(Ok(map)) => PayloadMember::Entries(map.into_iter().map(|(k, x)| (k, x.map(|y| y.to_string()))).collect()),
        Some(Err(e)) => PayloadMember::Invalid(e.to_string()),
    };
    let device_id = v["device_id"].as_str().map(String::from);
    Ok(OpPayload { fields: member("fields"), prev_fields: member("prev_fields"), device_id })
}

/// The map that entries give, a later entry for a key winning.
pub open spec fn entries_map(es: Seq<(Seq<char>, Option<Seq<char>>)>) -> Map<Seq<char>, Option<Seq<char>>>
    decreases es.len(),
{
    if es.len() == 0 {
        Map::empty()
    } else {
        entries_map(es.drop_last()).insert(es.last().0, es.last().1)
    }
}

/// The field map of a payload member: empty when the member is missing.
pub open spec fn member_map(m: PayloadMemberView) -> Map<Seq<char>, Option<Seq<char>>> {
    match m {
        PayloadMemberView::Entries(es) => entries_map(es),
        _ => Map::empty(),
    }
}

fn member_fields(m: PayloadMember) -> (r: FieldMap)
    requires
        !(member_view(m) is Invalid),
    ensures
        r.wf(),
        r@ == member_map(member_view(m)),
{
    let mut out = FieldMap::new();
    match m {
        PayloadMember::Entries(es) => {
            let ghost ev = es@.map_values(|e: (String, Option<String>)| (e.0@, value_view(e.1)));
            let mut i: usize = 0;
            assert(ev.take(0) =~= Seq::<(Seq<char>, Option<Seq<char>>)>::empty());
            while i < es.len()
                invariant
                    i <= es@.len() == ev.len(),
                    ev == es@.map_values(|e: (String, Option<String>)| (e.0@, value_view(e.1))),
                    out.wf(),
                    out@ == entries_map(ev.take(i as int)),
                decreases es.len() - i,
            {
                assert(ev.take(i + 1).drop_last() =~= ev.take(i as int));
                assert(ev[i as int] == (es@[i as int].0@, value_view(es@[i as int].1)));
                out.insert(es[i].0.clone(), value_clone(&es[i].1));
                i = i + 1;
            }
            assert(ev.take(es.len() as int) =~= ev);
        },
        _ => {},
    }
    out
}

/// Reading a stored journal row into an op, checked in order: the op id,
/// the transaction id, the kind, the payload text, its `fields` and
/// `prev_fields` members (a missing one is empty), the device it names and
/// the time; the op, or the first problem.
pub fn decode_stored_op(
    op_id: &str,
    transaction_id: &str,
    table: String,
    row_id: String,
    op_kind: &str,
    op_data: &str,
    schema_version: i64,
    timestamp: &str,
) -> (r: Result<Op, crate::errors::SyncError>)
    ensures
        match header_outcome(op_id@, transaction_id@, op_kind@) {
            Err(m) => r matches Err(crate::errors::SyncError::Journal(x)) && x@ == m,
            Ok(k) => match op_payload_of(op_data@) {
                Err(e) => r matches Err(crate::errors::SyncError::Serde(x)) && x@ == e,
                Ok((f, p, d)) => match (f, p) {
                    (PayloadMemberView::Invalid(e), _) => r matches Err(crate::errors::SyncError::Serde(x)) && x@ == e,
                    (_, PayloadMemberView::Invalid(e)) => r matches Err(crate::errors::SyncError::Serde(x)) && x@ == e,
                    _ => match d {
                        None => r matches Err(crate::errors::SyncError::Journal(x)) && x@ == "missing device_id in op_data"@,
                        Some(dv) => match crate::ids::uuid_decode_error(dv) {
                            Some(e) => r matches Err(crate::errors::SyncError::Journal(x)) && x@ == "bad device_id: "@ + e,
                            None => match crate::ids::rfc3339_decode_error(timestamp@) {
                                Some(e) => r matches Err(crate::errors::SyncError::Journal(x)) && x@ == "bad timestamp: "@ + e,
                                None => r matches Ok(op) && {
                                    &&& op.wf()
                                    &&& op.op_id@ == op_id@
                                    &&& op.device_id@ == dv
                                    &&& op.table == table
                                    &&& op.row_id == row_id
                                    &&& op.kind == k
                                    &&& op.fields@ == member_map(f)
                                    &&& op.prev_fields@ == member_map(p)
                                    &&& op.schema_version == schema_version as u32
                                    &&& op.timestamp@ == timestamp@
                                    &&& op.transaction_id@ == transaction_id@
                                },
                            },
                        },
                    },
                },
            },
        },
{
    let kind = match stored_op_header(op_id, transaction_id, op_kind) {
        Ok(k) => k,
        Err(e) => return Err(e),
    };
    let payload = match op_payload(op_data) {
        Ok(p) => p,
        Err(e) => return Err(crate::errors::SyncError::Serde(e)),
    };
    let OpPayload { fields, prev_fields, device_id } = payload;
    if let PayloadMember::Invalid(e) = fields {
        return Err(crate::errors::SyncError::Serde(e));
    }
    if let PayloadMember::Invalid(e) = prev_fields {
        return Err(crate::errors::SyncError::Serde(e));
    }
    let device = match stored_op_device(match &device_id {
        Some(s) => Some(s.as_str()),
        None => None,
    }) {
        Ok(d) => d,
        Err(e) => return Err(e),
    };
    match stored_op_timestamp(timestamp) {
        Ok(()) => {},
        Err(e) => return Err(e),
    }
    Ok(Op {
        op_id: crate::text::owned(op_id),
        device_id: device,
        table,
        row_id,
        kind,
        fields: member_fields(fields),
        prev_fields: member_fields(prev_fields),
        schema_version: schema_version as u32,
        timestamp: crate::text::owned(timestamp),
        transaction_id: crate::text::owned(transaction_id),
    })
}

/// The sync session of a Tome from its stored configuration row
/// (`tome_id`, `enabled`, `device_id`): the Tome and device when sync is
/// enabled, `None` when it is not configured or disabled; the device must
/// be a UUID.
pub fn sync_session_of(row: Option<(String, i64, String)>) -> (r: Result<Option<(String, String)>, crate::errors::SyncError>)
    ensures
        match row {
            Some((id, enabled, dev)) if enabled != 0 => match crate::ids::uuid_decode_error(dev@) {
                None => r matches Ok(Some((t, d))) && t@ == id@ && d@ == dev@,
                Some(e) => r matches Err(crate::errors::SyncError::Journal(m)) && m@ == "bad device_id: "@ + e,
            },
            _ => r matches Ok(None),
        },
{
    match row {
        Some((id, enabled, dev)) => {
            if enabled != 0 {
                match crate::ids::uuid_parse_error(dev.as_str()) {
                    None => Ok(Some((id, dev))),
                    Some(e) => Err(crate::errors::SyncError::Journal(crate::text::cat("bad device_id: ", e.as_str()))),
                }
            } else {
                Ok(None)
            }
        },
        None => Ok(None),
    }
}

/// The fields of the op that journals a page's saved editor state: its
/// `yjs_state` as a JSON string of the state's Base64 text.
pub fn page_content_fields(yjs_state: &[u8]) -> (r: FieldMap)
    ensures
        r.wf(),
        r@ == Map::<Seq<char>, Option<Seq<char>>>::empty().insert(
            "yjs_state"@,
            Some("\""@ + crate::codec::base64_std(yjs_state@) + "\""@),
        ),
{
    let b64 = crate::codec::base64_encode(yjs_state);
    let quoted = crate::text::cat("\"", b64.as_str());
    let mut r = FieldMap::new();
    r.insert(crate::text::owned("yjs_state"), Some(crate::text::cat(quoted.as_str(), "\"")));
    r
}

/// The op, if any, that a mutation of one row journals, from the row as it
/// was before (for an Update or a Delete) and as it is after (for an
/// Insert or an Update): an Insert carries the new row, a Delete the old
/// one, an Update what changed (nothing is journaled when nothing did).
/// An Update or a Delete without the earlier row is an error.
pub fn row_op(
    kind: OpKind,
    device_id: String,
    transaction_id: String,
    table: String,
    row_id: String,
    before: Option<FieldMap>,
    after: Option<FieldMap>,
) -> (r: Result<Option<Op>, crate::errors::SyncError>)
    requires
        before matches Some(b) ==> b.wf(),
        after matches Some(a) ==> a.wf(),
        kind == OpKind::Insert ==> after is Some,
        kind == OpKind::Update && before is Some ==> after is Some,
    ensures
        kind == OpKind::Insert ==> (r matches Ok(Some(op)) && op.kind == OpKind::Insert && op.wf()
            && op.fields@ == after->0@ && op.prev_fields@.len() == 0
            && op.table == table && op.row_id == row_id && op.device_id == device_id
            && op.transaction_id == transaction_id),
        kind == OpKind::Update && before is None ==> (r matches Err(crate::errors::SyncError::Journal(m))
            && m@ == "emit_for_row(Update) requires before state"@),
        kind == OpKind::Delete && before is None ==> (r matches Err(crate::errors::SyncError::Journal(m))
            && m@ == "emit_for_row(Delete) requires before state"@),
        kind == OpKind::Update && before is Some ==> (r matches Ok(o) && (o is None <==> forall|k: Seq<char>|
            !changed(before->0@, after->0@, k)) && (o matches Some(op) ==> op.kind == OpKind::Update
            && op.wf() && op.table == table && op.row_id == row_id && op.device_id == device_id
            && op.transaction_id == transaction_id
            && is_update_of(op, before->0@, after->0@))),
        kind == OpKind::Delete && before is Some ==> (r matches Ok(Some(op)) && op.kind == OpKind::Delete && op.wf()
            && op.prev_fields@ == before->0@ && op.fields@.len() == 0
            && op.table == table && op.row_id == row_id && op.device_id == device_id
            && op.transaction_id == transaction_id),
{
    match kind {
        OpKind::Insert => {
            let a = after.unwrap();
            Ok(Some(insert_op(device_id, transaction_id, table, row_id, a)))
        },
        OpKind::Update => match before {
            None => Err(crate::errors::SyncError::Journal(crate::text::owned("emit_for_row(Update) requires before state"))),
            Some(b) => {
                let a = after.unwrap();
                Ok(update_op(device_id, transaction_id, table, row_id, &b, &a))
            },
        },
        OpKind::Delete => match before {
            None => Err(crate::errors::SyncError::Journal(crate::text::owned("emit_for_row(Delete) requires before state"))),
            Some(b) => Ok(Some(delete_op(device_id, transaction_id, table, row_id, b))),
        },
    }
}

/// How JSON writes one character inside a string: a quote and a
/// backslash behind a backslash, the five control characters that have a
/// short escape by it, any other control character as `\u00` and two
/// lower-case hex digits, everything else as it is.
pub open spec fn json_escape_char(c: char) -> Seq<char> {
    if c == '"' {
        seq!['\\', '"']
    } else if c == '\\' {
        seq!['\\', '\\']
    } else if c == '\u{8}' {
        seq!['\\', 'b']
    } else if c == '\t' {
        seq!['\\', 't']
    } else if c == '\n' {
        seq!['\\', 'n']
    } else if c == '\u{c}' {
        seq!['\\', 'f']
    } else if c == '\r' {
        seq!['\\', 'r']
    } else if (c as u32) < 0x20 {
        seq!['\\', 'u', '0', '0', crate::text::hex_digit(((c as u32) / 16) as nat), crate::text::hex_digit(((c as u32) % 16) as nat)]
    } else {
        seq![c]
    }
}

/// The characters of `s`, each as JSON writes it inside a string.
pub open spec fn json_escaped(s: Seq<char>) -> Seq<char>
    decreases s.len(),
{
    if s.len() == 0 {
        Seq::empty()
    } else {
        json_escaped(s.drop_last()) + json_escape_char(s.last())
    }
}

/// The text of `s` as a JSON string (`serde_json::Value::String(s)`
/// displayed): quoted, with each character escaped as JSON writes it.
pub open spec fn json_string_text(s: Seq<char>) -> Seq<char> {
    seq!['"'] + json_escaped(s) + seq!['"']
}

/// `serde_json::Value::String` displayed with `to_string`: the compact
/// writer quotes the text and escapes it by its table of escapes.
#[verifier::external_body]
fn json_string(s: &str) -> (r: String)
    ensures
        r@ == json_string_text(s@),
{
    serde_json::Value::String(s.to_string()).to_string()
}

/// The row id a page's tag goes by in ops: the page and the tag joined by
/// `|`.
pub fn page_tag_key(page_id: &str, tag_id: &str) -> (r: String)
    ensures
        r@ == page_id@ + "|"@ + tag_id@,
{
    let a = crate::text::cat(page_id, "|");
    crate::text::cat(a.as_str(), tag_id)
}

/// The fields of the op that tags or untags a page: the page and the tag,
/// each as a JSON string.
pub fn page_tag_fields(page_id: &str, tag_id: &str) -> (r: FieldMap)
    ensures
        r.wf(),
        r@ == Map::<Seq<char>, Option<Seq<char>>>::empty().insert("page_id"@, Some(json_string_text(page_id@))).insert(
            "tag_id"@,
            Some(json_string_text(tag_id@)),
        ),
{
    let mut r = FieldMap::new();
    r.insert(crate::text::owned("page_id"), Some(json_string(page_id)));
    r.insert(crate::text::owned("tag_id"), Some(json_string(tag_id)));
    r
}

} // verus!
