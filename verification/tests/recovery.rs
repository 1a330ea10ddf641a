use vaelorium::apply::{apply_plan, page_update_statements, SqlArg, SqlValue};
use vaelorium::backend::ObjectInfo;
use vaelorium::backup::{backup_probe_check, config_salt, configure_device, hosted_unlock_salt, tome_folder};
use vaelorium::crypto::{encrypt, KeyMaterial};
use vaelorium::engine::fetch_plan;
use vaelorium::errors::SyncError;
use vaelorium::hosted::protocol::AccountTomeSummary;
use vaelorium::journal::{decode_stored_op, stored_op_device, stored_op_header, OpKind};
use vaelorium::restore::{
    hosted_restorable, hosted_restore_key, listing_time, raw_restorable, raw_restore_key, restored_tome_name,
    staging_file_name,
};
use vaelorium::snapshot::{vacuum_into_sql, TomeSnapshotSummary};

fn summary(uuid: &str, snap: &str) -> TomeSnapshotSummary {
    TomeSnapshotSummary { tome_uuid: uuid.to_string(), snapshot_id: snap.to_string(), size_bytes: 7, last_modified: 0 }
}

fn account_tome(uuid: &str, latest: Option<&str>) -> AccountTomeSummary {
    AccountTomeSummary {
        tome_uuid: uuid.to_string(),
        snapshot_count: 1,
        latest_snapshot_id: latest.map(|s| s.to_string()),
        size_bytes: 99,
        last_modified_ms: 1_700_000_000_000,
    }
}

#[test]
fn restore_keys() {
    let list = vec![summary("aaaa", "01A"), summary("bbbb", "01B")];
    assert_eq!(raw_restore_key(&list, "bbbb"), Ok("tomes/bbbb/snapshots/01B.snap.enc".to_string()));
    assert_eq!(raw_restore_key(&list, "cccc"), Err("no snapshots for tome_uuid cccc".to_string()));
    let hosted = vec![account_tome("u1", Some("01S")), account_tome("u2", None)];
    assert_eq!(hosted_restore_key(&hosted, "u1"), Ok("snapshots/01S.snap.enc".to_string()));
    assert_eq!(
        hosted_restore_key(&hosted, "u2"),
        Err("this Tome has no snapshot yet \u{2014} nothing to restore".to_string())
    );
    assert_eq!(hosted_restore_key(&hosted, "u3"), Err("no Tome with uuid u3".to_string()));
}

#[test]
fn restored_names_and_files() {
    assert_eq!(restored_tome_name(None), "Untitled Tome");
    assert_eq!(restored_tome_name(Some("Saga".into())), "Saga");
    assert_eq!(staging_file_name("u-1"), "u-1.tome");
    assert_eq!(listing_time(0, "now"), "1970-01-01T00:00:00+00:00");
    assert_eq!(listing_time(i64::MAX, "now"), "now");
}

#[test]
fn restorable_listing_entries() {
    let s = summary("abcdef0123456789", "01A");
    let named = raw_restorable(&s, Some(("Saga".into(), Some("desc".into()))), "now");
    assert_eq!(named.name, "Saga");
    assert_eq!(named.description.as_deref(), Some("desc"));
    assert_eq!(named.last_modified, "1970-01-01T00:00:00+00:00");
    let unnamed = raw_restorable(&s, None, "now");
    assert_eq!(unnamed.name, "Tome abcdef01");
    let journal_only = hosted_restorable(&account_tome("abcdef0123456789", None), None, "now");
    assert_eq!(journal_only.name, "Tome abcdef01 (no snapshot yet)");
    assert_eq!(journal_only.snapshot_id, "");
    let unread = hosted_restorable(&account_tome("abcdef0123456789", Some("01S")), None, "now");
    assert_eq!(unread.name, "Tome abcdef01");
    assert_eq!(unread.snapshot_id, "01S");
    assert_eq!(unread.size_bytes, 99);
}

#[test]
fn connecting_keeps_device_identity() {
    let (name, id) = configure_device(None, Some(("Desk (0a0b)".into(), 7)), Some("host".into()), 9);
    assert_eq!(id, 7);
    assert_eq!(name, "Desk (0a0b)");
    let (name, id) = configure_device(Some("  Laptop ".into()), None, None, 0xa3f2u128 << 112);
    assert_eq!(id, 0xa3f2u128 << 112);
    assert_eq!(name, "Laptop (a3f2)");
    let (name, _) = configure_device(None, None, None, 0);
    assert_eq!(name, "Vaelorium Device (0000)");
}

#[test]
fn backup_passphrase_checks() {
    let key = KeyMaterial::derive("right", &[2u8; 16]).unwrap();
    let blob = encrypt(&key, b"x").unwrap();
    assert!(backup_probe_check(&key, &blob, false).is_ok());
    let wrong = KeyMaterial::derive("wrong", &[2u8; 16]).unwrap();
    assert_eq!(
        backup_probe_check(&wrong, &blob, true),
        Err("wrong passphrase \u{2014} could not decrypt existing backup data".to_string())
    );
    assert_eq!(
        backup_probe_check(&wrong, &blob, false),
        Err("passphrase does not match the existing backup data \u{2014} the passphrase is wrong.".to_string())
    );
    assert_eq!(config_salt("AAAA", "corrupt salt in app config").unwrap(), vec![0, 0, 0]);
    assert!(config_salt("A", "corrupt salt in app config").unwrap_err().starts_with("corrupt salt in app config: "));
    assert_eq!(hosted_unlock_salt("local".into(), Some("cloud".into())), "cloud");
    assert_eq!(hosted_unlock_salt("local".into(), None), "local");
    assert_eq!(tome_folder("u"), "tomes/u");
}

fn info(key: &str) -> ObjectInfo {
    ObjectInfo { key: key.to_string(), size: 1, etag: String::new(), last_modified: 0 }
}

#[test]
fn fetch_plan_skips_applied_and_foreign_keys() {
    let infos = vec![info("journal/01A.op.enc"), info("journal/01C.op.enc"), info("journal/notes.txt"), info("journal/01B.op.enc")];
    let plan = fetch_plan(&infos, &Some("01A".to_string()));
    assert_eq!(
        plan,
        vec![
            ("01C".to_string(), "journal/01C.op.enc".to_string()),
            ("01B".to_string(), "journal/01B.op.enc".to_string())
        ]
    );
    assert_eq!(fetch_plan(&infos, &None).len(), 3);
}

#[test]
fn stored_op_rows_are_checked_in_order() {
    let good = "01ARZ3NDEKTSV4RRFFQ69G5FAV";
    assert_eq!(stored_op_header(good, good, "update").unwrap(), OpKind::Update);
    assert!(matches!(stored_op_header("short", "x", "y"), Err(SyncError::Journal(ref m)) if m == "bad op_id: invalid length"));
    assert!(matches!(
        stored_op_header(good, "01ARZ3NDEKTSV4RRFFQ69G5FAU", "update"),
        Err(SyncError::Journal(ref m)) if m == "bad transaction_id: invalid character"
    ));
    assert!(matches!(stored_op_header(good, good, "merge"), Err(SyncError::Journal(ref m)) if m == "bad op_kind: merge"));
    let dev = "67e55044-10b1-426f-9247-bb680e5fe0c8";
    assert_eq!(stored_op_device(Some(dev)).unwrap(), dev);
    assert!(matches!(stored_op_device(Some("dev")), Err(SyncError::Journal(ref m)) if m.starts_with("bad device_id: ")));
    assert!(matches!(stored_op_device(None), Err(SyncError::Journal(ref m)) if m == "missing device_id in op_data"));
}

#[test]
fn remote_page_ops_become_statements() {
    let fields = vec![
        ("title".to_string(), SqlValue::Text("T".into())),
        ("sort_order".to_string(), SqlValue::Int(4)),
        ("visibility".to_string(), SqlValue::Null),
    ];
    let (stmts, err) = apply_plan("pages", OpKind::Insert, "p1", &fields, "NOW");
    assert!(err.is_none());
    assert_eq!(stmts.len(), 1);
    assert!(stmts[0].sql.starts_with("INSERT OR REPLACE INTO pages"));
    assert!(matches!(stmts[0].args[1], SqlArg::Text(ref t) if t == "T"));
    assert!(matches!(stmts[0].args[5], SqlArg::Int(4)));
    assert!(matches!(stmts[0].args[7], SqlArg::Text(ref t) if t == "private"));
    assert!(matches!(stmts[0].args[8], SqlArg::Text(ref t) if t == "NOW"));

    let upd = vec![
        ("title".to_string(), SqlValue::Text("N".into())),
        ("weight".to_string(), SqlValue::Other),
        ("icon".to_string(), SqlValue::Null),
    ];
    let (stmts, err) = page_update_statements("p1", &upd);
    assert_eq!(stmts.len(), 1);
    assert_eq!(stmts[0].sql, "UPDATE pages SET title = ? WHERE id = ?");
    assert!(matches!(err, Some(SyncError::Journal(ref m)) if m == "unsupported field value type for pages.weight"));

    let (stmts, err) = apply_plan("pages", OpKind::Delete, "p1", &Vec::new(), "NOW");
    assert_eq!(stmts[0].sql, "DELETE FROM pages WHERE id = ?");
    assert!(err.is_none());

    let content = vec![("yjs_state".to_string(), SqlValue::Text("AQID".into()))];
    let (stmts, _) = apply_plan("page_content", OpKind::Update, "p1", &content, "NOW");
    assert!(matches!(stmts[0].args[1], SqlArg::Blob(ref b) if b == &vec![1u8, 2, 3]));
    let bad = vec![("yjs_state".to_string(), SqlValue::Text("!!".into()))];
    let (stmts, _) = apply_plan("page_content", OpKind::Insert, "p1", &bad, "NOW");
    assert!(matches!(stmts[0].args[1], SqlArg::Blob(ref b) if b.is_empty()));

    let (stmts, err) = apply_plan("notes", OpKind::Insert, "t", &Vec::new(), "NOW");
    assert!(stmts.is_empty());
    assert!(matches!(err, Some(SyncError::Journal(ref m)) if m == "apply_op: unknown table 'notes' in Phase 2"));
}

#[test]
fn registry_entity_types_op_is_applied() {
    let fields = vec![
        ("id".to_string(), SqlValue::Text("e1".into())),
        ("name".to_string(), SqlValue::Text("Faction".into())),
        ("icon".to_string(), SqlValue::Text("⚔".into())),
        ("is_builtin".to_string(), SqlValue::Bool(false)),
        ("sort_order".to_string(), SqlValue::Int(1)),
        ("bogus".to_string(), SqlValue::Text("x".into())),
    ];
    let (stmts, err) = apply_plan("entity_types", OpKind::Insert, "e1", &fields, "NOW");
    assert!(err.is_none());
    assert_eq!(stmts.len(), 1);
    assert_eq!(stmts[0].sql, "INSERT OR REPLACE INTO entity_types (id, name, icon, is_builtin, sort_order) VALUES (?, ?, ?, ?, ?)");
    assert_eq!(stmts[0].args.len(), 5);
    assert!(matches!(stmts[0].args[0], SqlArg::Text(ref t) if t == "e1"));
    assert!(matches!(stmts[0].args[1], SqlArg::Text(ref t) if t == "Faction"));
    assert!(matches!(stmts[0].args[2], SqlArg::Text(ref t) if t == "⚔"));
    assert!(matches!(stmts[0].args[3], SqlArg::Bool(false)));
    assert!(matches!(stmts[0].args[4], SqlArg::Int(1)));

    let upd = vec![("color".to_string(), SqlValue::Null), ("name".to_string(), SqlValue::Text("Guild".into()))];
    let (stmts, err) = apply_plan("entity_types", OpKind::Update, "e1", &upd, "NOW");
    assert!(err.is_none());
    assert_eq!(stmts.len(), 2);
    assert_eq!(stmts[0].sql, "UPDATE entity_types SET color = ? WHERE id = ?");
    assert!(matches!(stmts[0].args[0], SqlArg::MaybeText(None)));
    assert_eq!(stmts[1].sql, "UPDATE entity_types SET name = ? WHERE id = ?");
    assert!(matches!(stmts[1].args[1], SqlArg::Text(ref t) if t == "e1"));

    let (stmts, err) = apply_plan("entity_types", OpKind::Delete, "e1", &Vec::new(), "NOW");
    assert!(err.is_none());
    assert_eq!(stmts[0].sql, "DELETE FROM entity_types WHERE id = ?");
}

#[test]
fn registry_boards_and_cards_are_applied() {
    let board = vec![("name".to_string(), SqlValue::Text("Plot Board".into())), ("sort_order".to_string(), SqlValue::Int(0))];
    let (stmts, err) = apply_plan("boards", OpKind::Insert, "b1", &board, "NOW");
    assert!(err.is_none());
    assert_eq!(stmts[0].sql, "INSERT OR REPLACE INTO boards (id, name, sort_order) VALUES (?, ?, ?)");

    let card = vec![
        ("board_id".to_string(), SqlValue::Text("b1".into())),
        ("content".to_string(), SqlValue::Text("A clue".into())),
        ("x".to_string(), SqlValue::Number("100.5".into())),
        ("width".to_string(), SqlValue::Int(200)),
        ("page_id".to_string(), SqlValue::Null),
    ];
    let (stmts, err) = apply_plan("board_cards", OpKind::Insert, "c1", &card, "NOW");
    assert!(err.is_none());
    assert_eq!(stmts[0].sql, "INSERT OR REPLACE INTO board_cards (id, board_id, content, x, width, page_id) VALUES (?, ?, ?, ?, ?, ?)");
    assert!(matches!(stmts[0].args[2], SqlArg::Text(ref t) if t == "A clue"));
    assert!(matches!(stmts[0].args[3], SqlArg::Number(ref t) if t == "100.5"));
    assert!(matches!(stmts[0].args[5], SqlArg::MaybeText(None)));

    let bad = vec![("content".to_string(), SqlValue::Text("c".into())), ("color".to_string(), SqlValue::Other)];
    let (stmts, err) = apply_plan("board_cards", OpKind::Insert, "c1", &bad, "NOW");
    assert!(stmts.is_empty());
    assert!(matches!(err, Some(SyncError::Journal(ref m)) if m == "unsupported field value type for board_cards.color"));

    let (stmts, err) = apply_plan("pages", OpKind::Update, "p1", &vec![("sort_order".to_string(), SqlValue::Number("1.5".into()))], "NOW");
    assert!(stmts.is_empty());
    assert!(matches!(err, Some(SyncError::Journal(ref m)) if m == "unsupported field value type for pages.sort_order"));
}

#[test]
fn registry_page_tags_pivot_is_applied() {
    let (stmts, err) = apply_plan("page_tags", OpKind::Insert, "p1|t1", &Vec::new(), "NOW");
    assert!(err.is_none());
    assert_eq!(stmts[0].sql, "INSERT OR IGNORE INTO page_tags (page_id, tag_id) VALUES (?, ?)");
    assert!(matches!(stmts[0].args[0], SqlArg::Text(ref t) if t == "p1"));
    assert!(matches!(stmts[0].args[1], SqlArg::Text(ref t) if t == "t1"));
    let (stmts, err) = apply_plan("page_tags", OpKind::Delete, "p1|t1|x", &Vec::new(), "NOW");
    assert!(err.is_none());
    assert_eq!(stmts[0].sql, "DELETE FROM page_tags WHERE page_id = ? AND tag_id = ?");
    assert!(matches!(stmts[0].args[1], SqlArg::Text(ref t) if t == "t1|x"));
    let (stmts, err) = apply_plan("page_tags", OpKind::Update, "p1|t1", &Vec::new(), "NOW");
    assert!(stmts.is_empty() && err.is_none());
    let (stmts, err) = apply_plan("page_tags", OpKind::Insert, "p1", &Vec::new(), "NOW");
    assert!(stmts.is_empty());
    assert!(matches!(err, Some(SyncError::Journal(ref m)) if m == "apply_op: malformed page_tags row id 'p1'"));
}

#[test]
fn vacuum_statement_quotes_the_path() {
    assert_eq!(vacuum_into_sql("/tmp/snap.db"), "VACUUM INTO '/tmp/snap.db'");
    assert_eq!(vacuum_into_sql("/tmp/o'brien/s.db"), "VACUUM INTO '/tmp/o''brien/s.db'");
}

#[test]
fn stored_journal_rows_decode_in_order() {
    let id = "01ARZ3NDEKTSV4RRFFQ69G5FAV";
    let tx = "01ARZ3NDEKTSV4RRFFQ69G5FAW";
    let dev = "67e55044-10b1-426f-9247-bb680e5fe0c8";
    let ts = "2024-05-01T10:00:00+00:00";
    let data = format!("{{\"fields\":{{\"title\":\"T\",\"icon\":null,\"n\":1.5}},\"device_id\":\"{dev}\"}}");
    let op = decode_stored_op(id, tx, "pages".into(), "p1".into(), "update", &data, 1, ts).unwrap();
    assert_eq!(op.op_id, id);
    assert_eq!(op.transaction_id, tx);
    assert_eq!(op.device_id, dev);
    assert_eq!(op.kind, OpKind::Update);
    assert_eq!(op.table, "pages");
    assert_eq!(op.schema_version, 1);
    assert_eq!(op.timestamp, ts);
    assert_eq!(op.fields.key_list(), vec!["icon".to_string(), "n".to_string(), "title".to_string()]);
    assert_eq!(op.fields.get("title"), Some(Some("\"T\"".to_string())));
    assert_eq!(op.fields.get("icon"), Some(None));
    assert_eq!(op.fields.get("n"), Some(Some("1.5".to_string())));
    assert!(op.prev_fields.is_empty());

    let r = decode_stored_op("bad", tx, "pages".into(), "p1".into(), "update", &data, 1, ts);
    assert!(matches!(r, Err(SyncError::Journal(ref m)) if m.starts_with("bad op_id: ")));
    let r = decode_stored_op(id, tx, "pages".into(), "p1".into(), "merge", &data, 1, ts);
    assert!(matches!(r, Err(SyncError::Journal(ref m)) if m == "bad op_kind: merge"));
    let r = decode_stored_op(id, tx, "pages".into(), "p1".into(), "update", "{not json", 1, ts);
    assert!(matches!(r, Err(SyncError::Serde(_))));
    let r = decode_stored_op(id, tx, "pages".into(), "p1".into(), "update", "{\"fields\":[1],\"device_id\":\"x\"}", 1, ts);
    assert!(matches!(r, Err(SyncError::Serde(_))));
    let r = decode_stored_op(id, tx, "pages".into(), "p1".into(), "update", "{\"fields\":{}}", 1, ts);
    assert!(matches!(r, Err(SyncError::Journal(ref m)) if m == "missing device_id in op_data"));
    let r = decode_stored_op(id, tx, "pages".into(), "p1".into(), "update", "{\"device_id\":\"nope\"}", 1, ts);
    assert!(matches!(r, Err(SyncError::Journal(ref m)) if m.starts_with("bad device_id: ")));
    let good = format!("{{\"device_id\":\"{dev}\"}}");
    let r = decode_stored_op(id, tx, "pages".into(), "p1".into(), "update", &good, 1, "yesterday");
    assert!(matches!(r, Err(SyncError::Journal(ref m)) if m.starts_with("bad timestamp: ")));
    let op = decode_stored_op(id, tx, "pages".into(), "p1".into(), "delete", &good, 7, ts).unwrap();
    assert!(op.fields.is_empty() && op.prev_fields.is_empty());
    assert_eq!(op.schema_version, 7);
}
