//! What the Settings → Sync screen is told, and the checks made when sync
//! is enabled, unlocked or a conflict is resolved.

use vstd::prelude::*;

use crate::apply::{json_value, json_value_of, JsonScalar, JsonScalarView, SqlArg};
use crate::backend::ObjectInfo;
use crate::crypto::{decrypt, open_blob, KeyMaterial};
use crate::fields::{value_view, FieldMap, FieldText};
use crate::journal::{changed, update_op, Op, OpKind};
use crate::state::{backend_of_name, BackendKind};
use crate::text::{cat, owned, str_eq, string_opt};

verus! {

/// The sync state of the open Tome.
pub struct SyncStatusPayload {
    /// Sync is enabled in the Tome's configuration.
    pub enabled: bool,
    /// Enabled, but no key is unlocked in this session.
    pub locked: bool,
    pub tome_id: Option<String>,
    pub backend_kind: Option<String>,
    pub backend_summary: Option<String>,
    pub device_name: Option<String>,
    pub last_sync_at: Option<String>,
    pub last_error: Option<String>,
    /// Local ops not uploaded yet.
    pub queue_size: i64,
    pub pending_conflicts: i64,
}

/// A recorded conflict as the UI lists it; values are JSON text.
pub struct ConflictPayload {
    pub conflict_id: String,
    pub table_name: String,
    pub row_id: String,
    pub field_name: String,
    pub local_value: Option<String>,
    pub remote_value: Option<String>,
    pub local_op_id: String,
    pub remote_op_id: String,
    pub detected_at: String,
}

/// The user's choice on one conflict.
pub struct ResolveConflictInput {
    pub conflict_id: String,
    pub choose_local: bool,
}

/// The Tome's sync configuration row as the status reads it.
pub struct SyncConfigRow {
    pub tome_id: String,
    pub enabled: i64,
    pub backend_type: String,
    /// The `path` setting of a folder destination, when the stored settings
    /// hold one as a string.
    pub filesystem_path: Option<String>,
    pub device_name: String,
}

/// The summary of a destination on the sync screen: the folder of a
/// filesystem destination (empty when unknown), otherwise the kind's name.
pub open spec fn sync_summary_of(backend_type: Seq<char>, path: Option<String>) -> Seq<char> {
    if backend_type == "filesystem"@ {
        match path {
            Some(p) => p@,
            None => Seq::empty(),
        }
    } else {
        backend_type
    }
}

/// The sync status. The journal figures (`last_sync_at`, `last_error`,
/// `queue_size`, `pending_conflicts`) are those of the configured Tome and
/// are ignored when there is none.
pub fn sync_status_payload(
    row: &Option<SyncConfigRow>,
    session_active: bool,
    last_sync_at: Option<String>,
    last_error: Option<String>,
    queue_size: i64,
    pending_conflicts: i64,
) -> (r: SyncStatusPayload)
    ensures
        match row {
            Some(c) => {
                &&& r.enabled == (c.enabled != 0)
                &&& r.locked == (c.enabled != 0 && !session_active)
                &&& string_opt(r.tome_id) == Some(c.tome_id@)
                &&& string_opt(r.backend_kind) == Some(c.backend_type@)
                &&& string_opt(r.backend_summary) == Some(sync_summary_of(c.backend_type@, c.filesystem_path))
                &&& string_opt(r.device_name) == Some(c.device_name@)
                &&& string_opt(r.last_sync_at) == string_opt(last_sync_at)
                &&& string_opt(r.last_error) == string_opt(last_error)
                &&& r.queue_size == queue_size
                &&& r.pending_conflicts == pending_conflicts
            },
            None => {
                &&& !r.enabled && !r.locked
                &&& r.tome_id is None && r.backend_kind is None && r.backend_summary is None
                &&& r.device_name is None && r.last_sync_at is None && r.last_error is None
                &&& r.queue_size == 0 && r.pending_conflicts == 0
            },
        },
{
    match row {
        Some(c) => {
            let enabled = c.enabled != 0;
            let summary = if str_eq(c.backend_type.as_str(), "filesystem") {
                match &c.filesystem_path {
                    Some(p) => p.clone(),
                    None => String::new(),
                }
            } else {
                c.backend_type.clone()
            };
            SyncStatusPayload {
                enabled,
                locked: enabled && !session_active,
                tome_id: Some(c.tome_id.clone()),
                backend_kind: Some(c.backend_type.clone()),
                backend_summary: Some(summary),
                device_name: Some(c.device_name.clone()),
                last_sync_at,
                last_error,
                queue_size,
                pending_conflicts,
            }
        },
        None => SyncStatusPayload {
            enabled: false,
            locked: false,
            tome_id: None,
            backend_kind: None,
            backend_summary: None,
            device_name: None,
            last_sync_at: None,
            last_error: None,
            queue_size: 0,
            pending_conflicts: 0,
        },
    }
}

/// The destination kind named when sync is enabled.
pub fn enable_backend_kind(name: &str) -> (r: Result<BackendKind, String>)
    ensures
        match backend_of_name(name@) {
            Some(k) => r == Ok::<BackendKind, String>(k),
            None => r matches Err(m) && m@ == "unknown backend_kind: "@ + name@,
        },
{
    match BackendKind::from_str(name) {
        Some(k) => Ok(k),
        None => Err(cat("unknown backend_kind: ", name)),
    }
}

/// The destination kind stored in the configuration, read at unlock.
pub fn unlock_backend_kind(name: &str) -> (r: Result<BackendKind, String>)
    ensures
        match backend_of_name(name@) {
            Some(k) => r == Ok::<BackendKind, String>(k),
            None => r matches Err(m) && m@ == "unknown backend kind "@ + name@,
        },
{
    match BackendKind::from_str(name) {
        Some(k) => Ok(k),
        None => Err(cat("unknown backend kind ", name)),
    }
}

/// The object a passphrase is checked against: the first snapshot, else
/// the first journal entry, of the destination's listings.
pub fn sync_probe_key(snapshots: &Vec<ObjectInfo>, ops: &Vec<ObjectInfo>) -> (r: Option<String>)
    ensures
        match r {
            Some(k) => if snapshots@.len() > 0 {
                k@ == snapshots@[0].key@
            } else {
                ops@.len() > 0 && k@ == ops@[0].key@
            },
            None => snapshots@.len() == 0 && ops@.len() == 0,
        },
{
    if snapshots.len() > 0 {
        Some(snapshots[0].key.clone())
    } else if ops.len() > 0 {
        Some(ops[0].key.clone())
    } else {
        None
    }
}

/// Told when a passphrase does not open the destination's data while
/// enabling sync.
pub open spec fn enable_mismatch_text() -> Seq<char> {
    "passphrase does not match the existing backend data \u{2014} either the passphrase is wrong, or this bucket/folder already contains data from a different sync session"@
}

/// Told when a passphrase does not open the destination's data at unlock.
pub open spec fn unlock_mismatch_text() -> Seq<char> {
    "wrong passphrase \u{2014} could not decrypt existing sync data"@
}

/// Check a derived key against an existing blob of the destination: it
/// must open it. `unlocking` picks the message of the unlock screen.
pub fn confirm_passphrase(key: &KeyMaterial, blob: &[u8], unlocking: bool) -> (r: Result<(), String>)
    ensures
        open_blob(key@, blob@) is Ok ==> r is Ok,
        open_blob(key@, blob@) is Err ==> (r matches Err(m) && m@ == (if unlocking {
            unlock_mismatch_text()
        } else {
            enable_mismatch_text()
        })),
{
    match decrypt(key, blob) {
        Ok(_) => Ok(()),
        Err(_) => {
            if unlocking {
                Err(owned("wrong passphrase \u{2014} could not decrypt existing sync data"))
            } else {
                Err(owned("passphrase does not match the existing backend data \u{2014} either the passphrase is wrong, or this bucket/folder already contains data from a different sync session"))
            }
        },
    }
}

/// The two sides of a conflict as the resolution applies them: the chosen
/// JSON value and the rejected one.
pub fn resolution_sides(choose_local: bool, local_json: Option<String>, remote_json: Option<String>) -> (r: (
    Option<String>,
    Option<String>,
))
    ensures
        (string_opt(r.0), string_opt(r.1)) == (if choose_local {
            (string_opt(local_json), string_opt(remote_json))
        } else {
            (string_opt(remote_json), string_opt(local_json))
        }),
{
    if choose_local {
        (local_json, remote_json)
    } else {
        (remote_json, local_json)
    }
}

/// The statement that writes a chosen value into the row.
pub fn resolution_sql(table: &str, field: &str) -> (r: String)
    ensures
        r@ == "UPDATE "@ + table@ + " SET "@ + field@ + " = ? WHERE id = ?"@,
{
    let a = cat("UPDATE ", table);
    let b = cat(a.as_str(), " SET ");
    let c = cat(b.as_str(), field);
    cat(c.as_str(), " = ? WHERE id = ?")
}

/// The device id kept in the sync configuration, which must be a UUID:
/// the id, or the parser's error text.
pub fn stored_device_id(id: &str) -> (r: Result<String, String>)
    ensures
        match crate::ids::uuid_decode_error(id@) {
            None => r matches Ok(x) && x@ == id@,
            Some(e) => r matches Err(m) && m@ == e,
        },
{
    match crate::ids::uuid_parse_error(id) {
        None => Ok(owned(id)),
        Some(e) => Err(e),
    }
}

/// The parameter that writes the chosen side of a conflict: NULL for no
/// value; a string, an `i64` integer or a boolean as such; the parser's
/// error text for text that is not JSON; any other value refused.
pub fn resolution_arg(field: &str, chosen: Option<&str>) -> (r: Result<SqlArg, String>)
    ensures
        match chosen {
            None => r matches Ok(SqlArg::MaybeText(None)),
            Some(t) => match json_value_of(t@) {
                Err(e) => r matches Err(m) && m@ == e,
                Ok((JsonScalarView::Text(s), _)) => r matches Ok(SqlArg::Text(x)) && x@ == s,
                Ok((JsonScalarView::Number(Some(i), _), _)) => r matches Ok(SqlArg::Int(j)) && j == i,
                Ok((JsonScalarView::Bool(b), _)) => r matches Ok(SqlArg::Bool(c)) && c == b,
                Ok(_) => r matches Err(m) && m@ == "unsupported value type for "@ + field@,
            },
        },
{
    match chosen {
        None => Ok(SqlArg::MaybeText(None)),
        Some(t) => match json_value(t) {
            Err(e) => Err(e),
            Ok((JsonScalar::Text(s), _)) => Ok(SqlArg::Text(s)),
            Ok((JsonScalar::Number(Some(i), _), _)) => Ok(SqlArg::Int(i)),
            Ok((JsonScalar::Bool(b), _)) => Ok(SqlArg::Bool(b)),
            Ok(_) => Err(cat("unsupported value type for ", field)),
        },
    }
}

/// A side of a conflict as the resolution op carries it: its JSON text as
/// `serde_json` writes the parsed value back, or the parser's error text.
pub fn resolution_text(side: Option<&str>) -> (r: Result<FieldText, String>)
    ensures
        match side {
            None => r matches Ok(None),
            Some(t) => match json_value_of(t@) {
                Err(e) => r matches Err(m) && m@ == e,
                Ok((_, c)) => r matches Ok(Some(x)) && x@ == c,
            },
        },
{
    match side {
        None => Ok(None),
        Some(t) => match json_value(t) {
            Err(e) => Err(e),
            Ok((_, c)) => Ok(Some(c)),
        },
    }
}

/// Told when the conflict to resolve is not recorded.
pub fn conflict_not_found_text(conflict_id: &str) -> (r: String)
    ensures
        r@ == "conflict "@ + conflict_id@ + " not found"@,
{
    let a = cat("conflict ", conflict_id);
    cat(a.as_str(), " not found")
}

/// The op that carries a resolution to the other devices: an update of the
/// one field from the rejected value to the chosen one (JSON texts); `None`
/// when the two are the same.
pub fn resolution_op(
    device_id: String,
    transaction_id: String,
    table: String,
    row_id: String,
    field: &str,
    chosen: FieldText,
    rejected: FieldText,
) -> (r: Option<Op>)
    ensures
        r is None <==> value_view(chosen) == value_view(rejected),
        r matches Some(op) ==> {
            &&& op.wf()
            &&& op.device_id == device_id
            &&& op.transaction_id == transaction_id
            &&& op.table == table
            &&& op.row_id == row_id
            &&& op.kind == OpKind::Update
            &&& op.fields@ == map![field@ => value_view(chosen)]
            &&& op.prev_fields@ == map![field@ => value_view(rejected)]
        },
{
    let ghost c = value_view(chosen);
    let ghost d = value_view(rejected);
    let mut before = FieldMap::new();
    before.insert(owned(field), rejected);
    let mut after = FieldMap::new();
    after.insert(owned(field), chosen);
    assert(before@ == map![field@ => d]);
    assert(after@ == map![field@ => c]);
    let r = update_op(device_id, transaction_id, table, row_id, &before, &after);
    proof {
        if c == d {
            assert forall|k: Seq<char>| !changed(before@, after@, k) by {}
        } else {
            assert(changed(before@, after@, field@));
        }
        if r is Some {
            let op = r->0;
            assert(op.fields@ =~= map![field@ => c]) by {
                assert forall|k: Seq<char>| op.fields@.dom().contains(k) <==> k == field@ by {
                    assert(op.fields@.dom().contains(k) <==> changed(before@, after@, k));
                }
            }
            assert(op.prev_fields@ =~= map![field@ => d]) by {
                assert forall|k: Seq<char>| op.prev_fields@.dom().contains(k) <==> k == field@ by {
                    assert(op.prev_fields@.dom().contains(k) <==> changed(before@, after@, k));
                }
            }
        }
    }
    r
}

} // verus!
