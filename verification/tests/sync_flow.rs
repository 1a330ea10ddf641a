use vaelorium::apply::SqlArg;
use vaelorium::activity::{activity_figures, list_limit, RETENTION};
use vaelorium::backend::ObjectInfo;
use vaelorium::crypto::{encrypt, KeyMaterial};
use vaelorium::engine::{
    finish_cycle, journal_object_key, journal_op_id, record_cycle_error, record_remote_op, record_snapshot,
    record_snapshot_failure, record_upload, schema_error_text, sort_by_id, SyncOutcome,
};
use vaelorium::errors::SyncError;
use vaelorium::journal::OpKind;
use vaelorium::model::{next_sort_order, set_children_counts, PageTreeNode};
use vaelorium::runner::{
    backend_init_error, cycle_start_ms, debounce_remaining, error_event, outcome_event, syncing_event, Wake,
    NUDGE_DEBOUNCE_SECS,
};
use vaelorium::state::{BackendKind, SyncRuntimeState};
use vaelorium::sync_commands::{
    resolution_arg, resolution_text, stored_device_id,
    confirm_passphrase, conflict_not_found_text, enable_backend_kind, resolution_op, resolution_sides,
    resolution_sql, sync_probe_key, sync_status_payload, unlock_backend_kind, SyncConfigRow,
};

#[test]
fn journal_keys_roundtrip() {
    let key = journal_object_key("01HABCDEF");
    assert_eq!(key, "journal/01HABCDEF.op.enc");
    assert_eq!(journal_op_id(&key), Some("01HABCDEF".to_string()));
    assert_eq!(journal_op_id("tomes/x/journal/01Z.op.enc"), Some("01Z".to_string()));
    assert_eq!(journal_op_id("journal/readme.txt"), None);
}

#[test]
fn remote_ops_sort_by_id() {
    let sorted = sort_by_id(vec![("03".to_string(), 3), ("01".to_string(), 1), ("02".to_string(), 2)]);
    let ids: Vec<&str> = sorted.iter().map(|p| p.0.as_str()).collect();
    assert_eq!(ids, vec!["01", "02", "03"]);
}

#[test]
fn cycle_bookkeeping() {
    let mut state = SyncRuntimeState::fresh("t");
    let mut outcome = SyncOutcome::new();
    record_upload(&mut state, &mut outcome, "01A");
    record_upload(&mut state, &mut outcome, "01B");
    assert_eq!(outcome.ops_uploaded, 2);
    assert_eq!(state.last_uploaded_op_id.as_deref(), Some("01B"));
    record_remote_op(&mut state, &mut outcome, "01C".to_string(), true, 1);
    record_remote_op(&mut state, &mut outcome, "01D".to_string(), false, 0);
    assert_eq!(outcome.ops_applied, 1);
    assert_eq!(outcome.conflicts_created, 1);
    assert_eq!(state.last_applied_op_id.as_deref(), Some("01D"));
    record_snapshot(&mut state, &mut outcome, "01S");
    assert_eq!(outcome.snapshot_taken.as_deref(), Some("01S"));
    record_snapshot_failure(&mut state, "disk");
    finish_cycle(&mut state, &outcome, "2024-01-01T00:00:00Z");
    assert_eq!(state.last_sync_at.as_deref(), Some("2024-01-01T00:00:00Z"));
    assert!(state.last_error.is_none());
    record_cycle_error(&mut state, "boom".to_string());
    assert_eq!(state.last_error.as_deref(), Some("boom"));
}

#[test]
fn schema_guard_text() {
    assert_eq!(schema_error_text("01X", 3), "remote op 01X requires schema v3, this client is v1");
}

#[test]
fn sync_error_texts() {
    assert_eq!(
        SyncError::SchemaVersionMismatch { op: 2, client: 1 }.describe(),
        "schema version mismatch: op was emitted at v2, this client is v1"
    );
    assert_eq!(SyncError::Journal("bad".into()).describe(), "journal error: bad");
    assert_eq!(
        SyncError::Backend(vaelorium::backend::BackendError::NotFound("k".into())).describe(),
        "backend error: object not found: k"
    );
}

fn row(kind: &str, enabled: i64, path: Option<&str>) -> SyncConfigRow {
    SyncConfigRow {
        tome_id: "tome-1".to_string(),
        enabled,
        backend_type: kind.to_string(),
        filesystem_path: path.map(|p| p.to_string()),
        device_name: "Desk".to_string(),
    }
}

#[test]
fn sync_status_payloads() {
    let p = sync_status_payload(&Some(row("filesystem", 1, Some("/b"))), false, Some("t".into()), None, 3, 1);
    assert!(p.enabled && p.locked);
    assert_eq!(p.backend_summary.as_deref(), Some("/b"));
    assert_eq!(p.queue_size, 3);
    let p = sync_status_payload(&Some(row("s3", 1, None)), true, None, Some("e".into()), 0, 0);
    assert!(!p.locked);
    assert_eq!(p.backend_summary.as_deref(), Some("s3"));
    let p = sync_status_payload(&Some(row("filesystem", 0, None)), false, None, None, 0, 0);
    assert!(!p.enabled && !p.locked);
    assert_eq!(p.backend_summary.as_deref(), Some(""));
    let none = sync_status_payload(&None, false, Some("ignored".into()), None, 9, 9);
    assert!(none.tome_id.is_none() && none.last_sync_at.is_none());
    assert_eq!((none.queue_size, none.pending_conflicts), (0, 0));
}

#[test]
fn backend_kind_errors() {
    assert_eq!(enable_backend_kind("s3"), Ok(BackendKind::S3));
    assert_eq!(enable_backend_kind("ftp"), Err("unknown backend_kind: ftp".to_string()));
    assert_eq!(unlock_backend_kind("ftp"), Err("unknown backend kind ftp".to_string()));
}

fn info(key: &str) -> ObjectInfo {
    ObjectInfo { key: key.to_string(), size: 1, etag: String::new(), last_modified: 0 }
}

#[test]
fn probe_prefers_snapshots() {
    assert_eq!(sync_probe_key(&vec![info("snapshots/a")], &vec![info("journal/b")]), Some("snapshots/a".to_string()));
    assert_eq!(sync_probe_key(&Vec::new(), &vec![info("journal/b")]), Some("journal/b".to_string()));
    assert_eq!(sync_probe_key(&Vec::new(), &Vec::new()), None);
}

#[test]
fn passphrase_confirmation() {
    let key = KeyMaterial::derive("right", &[1u8; 16]).unwrap();
    let blob = encrypt(&key, b"op").unwrap();
    assert!(confirm_passphrase(&key, &blob, true).is_ok());
    let wrong = KeyMaterial::derive("wrong", &[1u8; 16]).unwrap();
    assert_eq!(
        confirm_passphrase(&wrong, &blob, true),
        Err("wrong passphrase \u{2014} could not decrypt existing sync data".to_string())
    );
    assert!(confirm_passphrase(&wrong, &blob, false).unwrap_err().starts_with("passphrase does not match"));
}

#[test]
fn conflict_resolution_pieces() {
    assert_eq!(
        resolution_sides(true, Some("\"L\"".into()), Some("\"R\"".into())),
        (Some("\"L\"".to_string()), Some("\"R\"".to_string()))
    );
    assert_eq!(resolution_sides(false, Some("\"L\"".into()), None), (None, Some("\"L\"".to_string())));
    assert_eq!(resolution_sql("pages", "title"), "UPDATE pages SET title = ? WHERE id = ?");
    assert_eq!(conflict_not_found_text("c1"), "conflict c1 not found");
    let op = resolution_op(
        "dev".into(),
        "tx".into(),
        "pages".into(),
        "p1".into(),
        "title",
        Some("\"L\"".into()),
        Some("\"R\"".into()),
    )
    .unwrap();
    assert_eq!(op.kind, OpKind::Update);
    assert_eq!(op.fields.get("title"), Some(Some("\"L\"".to_string())));
    assert_eq!(op.prev_fields.get("title"), Some(Some("\"R\"".to_string())));
    assert!(resolution_op("d".into(), "t".into(), "pages".into(), "p".into(), "f", None, None).is_none());
}

#[test]
fn runner_events() {
    let e = syncing_event("t");
    assert_eq!(e.state, "syncing");
    let mut outcome = SyncOutcome::new();
    outcome.ops_applied = 2;
    let e = outcome_event("t", &outcome);
    assert_eq!((e.state, e.ops_applied), ("idle", 2));
    outcome.error = Some("remote op needs newer schema".to_string());
    assert_eq!(outcome_event("t", &outcome).state, "error");
    let e = error_event("t", backend_init_error("no such dir"));
    assert_eq!(e.state, "error");
    assert_eq!(e.error.as_deref(), Some("backend init failed: no such dir"));
    assert_eq!(debounce_remaining(10_000, 4_000), 6_000);
    assert_eq!(debounce_remaining(10_000, 12_000), 0);
    assert_eq!(cycle_start_ms(Wake::Tick, 5), 5);
    assert_eq!(cycle_start_ms(Wake::Nudge, 5), 5 + NUDGE_DEBOUNCE_SECS * 1000);
    assert_eq!(cycle_start_ms(Wake::Nudge, u64::MAX), u64::MAX);
}

#[test]
fn activity_rows() {
    let mut o = SyncOutcome::new();
    o.ops_uploaded = 4;
    o.snapshot_taken = Some("01S".into());
    assert_eq!(activity_figures(Some(&o)), (4, 0, 0, Some("01S".to_string())));
    assert_eq!(activity_figures(None), (0, 0, 0, None));
    assert_eq!(list_limit(0), 1);
    assert_eq!(list_limit(-5), 1);
    assert_eq!(list_limit(50), 50);
    assert_eq!(RETENTION, 100);
}

fn node(id: &str) -> PageTreeNode {
    PageTreeNode {
        id: id.to_string(),
        title: id.to_uppercase(),
        icon: None,
        entity_type_id: None,
        parent_id: None,
        sort_order: 0,
        children_count: -1,
    }
}

#[test]
fn page_tree_counts() {
    let mut nodes = vec![node("a"), node("b")];
    set_children_counts(&mut nodes, &vec![("a".to_string(), 2), ("z".to_string(), 7)]);
    assert_eq!(nodes[0].children_count, 2);
    assert_eq!(nodes[1].children_count, 0);
    assert_eq!(nodes[0].title, "A");
    assert_eq!(next_sort_order(Some(4)), 5);
    assert_eq!(next_sort_order(None), 1);
}

#[test]
fn conflict_resolutions_bind_the_chosen_value() {
    assert!(matches!(resolution_arg("title", None), Ok(SqlArg::MaybeText(None))));
    assert!(matches!(resolution_arg("title", Some("\"Dragon\"")), Ok(SqlArg::Text(ref s)) if s == "Dragon"));
    assert!(matches!(resolution_arg("sort_order", Some("42")), Ok(SqlArg::Int(42))));
    assert!(matches!(resolution_arg("flag", Some("true")), Ok(SqlArg::Bool(true))));
    assert!(matches!(resolution_arg("w", Some("1.5")), Err(ref m) if m == "unsupported value type for w"));
    assert!(matches!(resolution_arg("w", Some("null")), Err(ref m) if m == "unsupported value type for w"));
    assert!(resolution_arg("w", Some("{bad")).is_err());
    assert_eq!(resolution_text(Some("{ \"a\" : [1, 2] }")).unwrap().as_deref(), Some("{\"a\":[1,2]}"));
    assert_eq!(resolution_text(None).unwrap(), None);
    assert!(resolution_text(Some("nope")).is_err());
    assert_eq!(stored_device_id("67e55044-10b1-426f-9247-bb680e5fe0c8").unwrap(), "67e55044-10b1-426f-9247-bb680e5fe0c8");
    assert!(stored_device_id("device").is_err());
}
