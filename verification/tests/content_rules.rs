use vaelorium::apply::{page_content_upsert, sql_value, SqlArg, SqlValue};
use vaelorium::errors::SyncError;
use vaelorium::fields::FieldMap;
use std::collections::BTreeMap;
use vaelorium::journal::{update_op, page_content_fields, page_tag_fields, page_tag_key, row_op, stored_op_timestamp, sync_session_of, OpKind};
use vaelorium::model::{entity_type_deletion, missing_page_error, opened_tome_name, tome_metadata_of};
use vaelorium::registry::tables;
use vaelorium::relations::{page_relations, RelationRow};
use vaelorium::state::{stored_sync_time, sync_config_checks, sync_config_kind, BackendKind};
use vaelorium::statements::{select_row_statement, update_statement};

const DEV: &str = "67e55044-10b1-426f-9247-bb680e5fe0c8";

fn row(id: &str, title: &str, label: Option<&str>) -> RelationRow {
    RelationRow {
        id: id.to_string(),
        page_id: format!("p-{id}"),
        page_title: title.to_string(),
        page_icon: None,
        page_entity_type_id: None,
        relation_type_id: "rt".to_string(),
        label: label.map(|l| l.to_string()),
        description: None,
    }
}

fn fields(pairs: &[(&str, &str)]) -> FieldMap {
    let mut m = FieldMap::new();
    for (k, v) in pairs {
        m.insert(k.to_string(), Some(v.to_string()));
    }
    m
}

#[test]
fn update_sets_only_supplied_columns() {
    let st = update_statement(
        "pages",
        "p1",
        vec![("updated_at", Some(SqlArg::Text("now".into())))],
        vec![
            ("title", Some(SqlArg::Text("New".into()))),
            ("icon", None),
            ("sort_order", Some(SqlArg::Int(3))),
        ],
    )
    .unwrap();
    assert_eq!(st.sql, "UPDATE pages SET updated_at = ?, title = ?, sort_order = ? WHERE id = ?");
    assert_eq!(st.args.len(), 4);
    assert!(matches!(&st.args[0], SqlArg::Text(s) if s == "now"));
    assert!(matches!(&st.args[1], SqlArg::Text(s) if s == "New"));
    assert!(matches!(st.args[2], SqlArg::Int(3)));
    assert!(matches!(&st.args[3], SqlArg::Text(s) if s == "p1"));
}

#[test]
fn update_without_changes_writes_nothing() {
    let r = update_statement("pages", "p1", vec![("updated_at", Some(SqlArg::Text("now".into())))], vec![("title", None)]);
    assert!(r.is_none());
    let st = update_statement("entity_type_fields", "f1", vec![], vec![("is_required", Some(SqlArg::Bool(true)))]).unwrap();
    assert_eq!(st.sql, "UPDATE entity_type_fields SET is_required = ? WHERE id = ?");
    assert!(matches!(st.args[0], SqlArg::Bool(true)));
}

#[test]
fn row_reads_use_the_schema_columns() {
    let t = tables();
    let st = select_row_statement(&t.tags, "t1");
    assert_eq!(st.sql, "SELECT id, name, color FROM tags WHERE id = ?");
    assert!(matches!(&st.args[0], SqlArg::Text(s) if s == "t1"));
}

#[test]
fn relations_are_ordered_by_title_stably() {
    let outgoing = vec![row("a", "Zed", Some("knows")), row("b", "Mia", Some("owns"))];
    let incoming = vec![row("c", "Mia", None), row("d", "Abe", Some("owned by"))];
    let r = page_relations(outgoing, incoming);
    let got: Vec<(&str, &str, &str, &str)> = r
        .iter()
        .map(|p| (p.id.as_str(), p.page_title.as_str(), p.relation_label.as_str(), p.direction.as_str()))
        .collect();
    assert_eq!(
        got,
        vec![
            ("d", "Abe", "owned by", "incoming"),
            ("b", "Mia", "owns", "outgoing"),
            ("c", "Mia", "", "incoming"),
            ("a", "Zed", "knows", "outgoing"),
        ]
    );
    assert_eq!(r[0].page_id, "p-d");
}

#[test]
fn tome_names_and_metadata_have_defaults() {
    assert_eq!(opened_tome_name(Some("Realm".into()), Some("file")), "Realm");
    assert_eq!(opened_tome_name(None, Some("campaign")), "campaign");
    assert_eq!(opened_tome_name(None, None), "Untitled Tome");
    let m = tome_metadata_of(None, Some("d".into()), None, None);
    assert_eq!(m.name, "Untitled Tome");
    assert_eq!(m.description.as_deref(), Some("d"));
    assert_eq!(m.created_at, "");
    let m = tome_metadata_of(Some("N".into()), None, Some("c.png".into()), Some("2024-01-01T00:00:00Z".into()));
    assert_eq!(m.name, "N");
    assert_eq!(m.cover_image.as_deref(), Some("c.png"));
    assert_eq!(m.created_at, "2024-01-01T00:00:00Z");
}

#[test]
fn built_in_entity_types_are_kept() {
    assert_eq!(entity_type_deletion(None), Err("Entity type not found".to_string()));
    assert_eq!(entity_type_deletion(Some(true)), Err("Cannot delete built-in entity types".to_string()));
    assert_eq!(entity_type_deletion(Some(false)), Ok(()));
    assert_eq!(missing_page_error("p9"), "Page 'p9' not found");
}

#[test]
fn saved_content_is_journaled_as_base64() {
    let f = page_content_fields(b"hi");
    assert_eq!(f.entries.len(), 1);
    assert_eq!(f.entries[0].0, "yjs_state");
    assert_eq!(f.entries[0].1.as_deref(), Some("\"aGk=\""));
    let empty = page_content_fields(b"");
    assert_eq!(empty.entries[0].1.as_deref(), Some("\"\""));
}

#[test]
fn row_ops_follow_the_mutation() {
    let after = fields(&[("id", "\"p\""), ("title", "\"T\"")]);
    let op = row_op(OpKind::Insert, DEV.into(), "tx".into(), "pages".into(), "p".into(), None, Some(after)).unwrap().unwrap();
    assert_eq!(op.kind, OpKind::Insert);
    assert_eq!(op.fields.entries.len(), 2);

    let before = fields(&[("id", "\"p\""), ("title", "\"T\"")]);
    let same = fields(&[("id", "\"p\""), ("title", "\"T\"")]);
    let none = row_op(OpKind::Update, DEV.into(), "tx".into(), "pages".into(), "p".into(), Some(before), Some(same)).unwrap();
    assert!(none.is_none());

    let before = fields(&[("id", "\"p\""), ("title", "\"T\"")]);
    let changed = fields(&[("id", "\"p\""), ("title", "\"U\"")]);
    let op = row_op(OpKind::Update, DEV.into(), "tx".into(), "pages".into(), "p".into(), Some(before), Some(changed)).unwrap().unwrap();
    assert_eq!(op.fields.entries.len(), 1);
    assert_eq!(op.fields.entries[0].1.as_deref(), Some("\"U\""));
    assert_eq!(op.prev_fields.entries[0].1.as_deref(), Some("\"T\""));

    assert!(matches!(
        row_op(OpKind::Update, DEV.into(), "tx".into(), "pages".into(), "p".into(), None, None),
        Err(SyncError::Journal(ref m)) if m == "emit_for_row(Update) requires before state"
    ));
    assert!(matches!(
        row_op(OpKind::Delete, DEV.into(), "tx".into(), "pages".into(), "p".into(), None, None),
        Err(SyncError::Journal(ref m)) if m == "emit_for_row(Delete) requires before state"
    ));
    let before = fields(&[("id", "\"p\"")]);
    let op = row_op(OpKind::Delete, DEV.into(), "tx".into(), "pages".into(), "p".into(), Some(before), None).unwrap().unwrap();
    assert_eq!(op.kind, OpKind::Delete);
    assert_eq!(op.prev_fields.entries.len(), 1);
    assert!(op.fields.entries.is_empty());
}

#[test]
fn sync_sessions_need_enabled_rows_and_uuids() {
    assert!(sync_session_of(None).unwrap().is_none());
    assert!(sync_session_of(Some(("t".into(), 0, "x".into()))).unwrap().is_none());
    let (t, d) = sync_session_of(Some(("t".into(), 1, DEV.into()))).unwrap().unwrap();
    assert_eq!((t.as_str(), d.as_str()), ("t", DEV));
    assert!(matches!(sync_session_of(Some(("t".into(), 1, "nope".into()))), Err(SyncError::Journal(ref m)) if m.starts_with("bad device_id: ")));
}

#[test]
fn stored_configs_and_times_are_checked() {
    assert_eq!(sync_config_kind("s3").unwrap(), BackendKind::S3);
    assert!(matches!(sync_config_kind("ftp"), Err(SyncError::Journal(ref m)) if m == "unknown backend_type: ftp"));
    let t = "2024-05-01T10:00:00+00:00";
    assert!(sync_config_checks(DEV, t, t).is_ok());
    assert!(matches!(sync_config_checks("x", t, t), Err(SyncError::Journal(ref m)) if m.starts_with("bad device_id: ")));
    assert!(matches!(sync_config_checks(DEV, "yesterday", t), Err(SyncError::Journal(ref m)) if m.starts_with("bad timestamp 'yesterday': ")));
    assert!(matches!(sync_config_checks(DEV, t, "later"), Err(SyncError::Journal(ref m)) if m.starts_with("bad timestamp 'later': ")));
    assert!(stored_op_timestamp(t).is_ok());
    assert!(matches!(stored_op_timestamp("x"), Err(SyncError::Journal(ref m)) if m.starts_with("bad timestamp: ")));
    assert_eq!(stored_sync_time(Some(t.to_string())).as_deref(), Some(t));
    assert_eq!(stored_sync_time(Some("soon".to_string())), None);
    assert_eq!(stored_sync_time(None), None);
}

#[test]
fn page_tags_are_journaled_by_pair() {
    assert_eq!(page_tag_key("p1", "t1"), "p1|t1");
    let f = page_tag_fields("p1", "t\"1");
    assert_eq!(f.entries.len(), 2);
    assert_eq!(f.entries[0].0, "page_id");
    assert_eq!(f.entries[0].1.as_deref(), Some("\"p1\""));
    assert_eq!(f.entries[1].0, "tag_id");
    assert_eq!(f.entries[1].1.as_deref(), Some("\"t\\\"1\""));
    let g = page_tag_fields("a\\b\n", "x\u{1}\u{7f}é");
    assert_eq!(g.entries[0].1.as_deref(), Some("\"a\\\\b\\n\""));
    assert_eq!(g.entries[1].1.as_deref(), Some("\"x\\u0001\u{7f}é\""));
}

#[test]
fn update_ops_replay_and_revert_the_change() {
    let before = fields(&[("id", "\"p\""), ("title", "\"T\""), ("icon", "\"I\"")]);
    let after = fields(&[("id", "\"p\""), ("title", "\"U\""), ("visibility", "\"public\"")]);
    let op = update_op(DEV.into(), "tx".into(), "pages".into(), "p".into(), &before, &after).unwrap();
    let as_map = |m: &FieldMap| -> BTreeMap<String, Option<String>> { m.entries.iter().cloned().collect() };
    let read = |m: &BTreeMap<String, Option<String>>, k: &str| m.get(k).cloned().flatten();
    let mut replayed = as_map(&before);
    for (k, v) in &op.fields.entries {
        replayed.insert(k.clone(), v.clone());
    }
    let mut reverted = as_map(&after);
    for (k, v) in &op.prev_fields.entries {
        reverted.insert(k.clone(), v.clone());
    }
    for k in ["id", "title", "icon", "visibility"] {
        assert_eq!(read(&replayed, k), read(&as_map(&after), k), "replay {k}");
        assert_eq!(read(&reverted, k), read(&as_map(&before), k), "revert {k}");
    }
    assert_eq!(op.fields.entries.len(), 3);
}

#[test]
fn field_json_becomes_sql_values() {
    let v = |t: &str| sql_value(&Some(t.to_string()));
    assert!(matches!(v("\"Dragon\""), SqlValue::Text(ref s) if s == "Dragon"));
    assert!(matches!(v("\"a\\nb\""), SqlValue::Text(ref s) if s == "a\nb"));
    assert!(matches!(v("42"), SqlValue::Int(42)));
    assert!(matches!(v("-7"), SqlValue::Int(-7)));
    assert!(matches!(v("1.5"), SqlValue::Number(ref t) if t == "1.5"));
    assert!(matches!(v("18446744073709551615"), SqlValue::Number(ref t) if t == "18446744073709551615"));
    assert!(matches!(v("true"), SqlValue::Bool(true)));
    assert!(matches!(v("null"), SqlValue::Null));
    assert!(matches!(v("[1,2]"), SqlValue::Other));
    assert!(matches!(v("{}"), SqlValue::Other));
    assert!(matches!(v("not json"), SqlValue::Other));
    assert!(matches!(sql_value(&None), SqlValue::Null));
}

#[test]
fn saved_content_applies_back_byte_for_byte() {
    let state: Vec<u8> = vec![0, 1, 2, 34, 92, 250, 255];
    let journaled = page_content_fields(&state);
    let fields: Vec<(String, SqlValue)> = journaled.entries.iter().map(|(k, v)| (k.clone(), sql_value(v))).collect();
    let st = page_content_upsert("p1", &fields);
    assert!(matches!(&st.args[1], SqlArg::Blob(b) if *b == state));
}
