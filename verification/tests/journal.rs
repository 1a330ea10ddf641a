use vaelorium::conflict::{detect_conflicts, is_meta_field};
use vaelorium::engine::{filter_fields, needs_apply, plan_remote_op};
use vaelorium::fields::FieldMap;
use vaelorium::journal::{delete_op, insert_op, update_op, OpKind};

fn map(entries: &[(&str, Option<&str>)]) -> FieldMap {
    let mut m = FieldMap::new();
    for (k, v) in entries {
        m.insert(k.to_string(), v.map(|s| s.to_string()));
    }
    m
}

fn s(x: &str) -> String {
    x.to_string()
}

#[test]
fn delete_op_carries_full_prev_state() {
    let prev = map(&[("title", Some("\"doomed\"")), ("icon", Some("\"\u{2620}\""))]);
    let op = delete_op(s("dev"), s("tx"), s("pages"), s("p-1"), prev);
    assert_eq!(op.kind, OpKind::Delete);
    assert!(op.fields.is_empty());
    assert_eq!(op.prev_fields.len(), 2);
    assert_eq!(op.prev_fields.get("title"), Some(Some(s("\"doomed\""))));
    assert_eq!(op.prev_fields.get("icon"), Some(Some(s("\"\u{2620}\""))));
}

#[test]
fn update_op_only_includes_changed_fields() {
    let before = map(&[("title", Some("\"Old\"")), ("icon", Some("\"\u{1f4dc}\"")), ("untouched", Some("\"same\""))]);
    let after = map(&[("title", Some("\"New\"")), ("icon", Some("\"\u{1f4dc}\"")), ("untouched", Some("\"same\""))]);
    let op = update_op(s("dev"), s("tx"), s("pages"), s("p-1"), &before, &after).unwrap();
    assert_eq!(op.fields.len(), 1);
    assert_eq!(op.fields.get("title"), Some(Some(s("\"New\""))));
    assert_eq!(op.prev_fields.get("title"), Some(Some(s("\"Old\""))));
}

#[test]
fn update_op_returns_none_when_nothing_changed() {
    let state = map(&[("title", Some("\"Same\""))]);
    let op = update_op(s("dev"), s("tx"), s("pages"), s("p-1"), &state, &state);
    assert!(op.is_none());
}

#[test]
fn update_op_counts_missing_side_as_null() {
    let before = map(&[("subtitle", None)]);
    let after = map(&[]);
    assert!(update_op(s("d"), s("t"), s("pages"), s("p"), &before, &after).is_none());
    let before = map(&[("subtitle", Some("\"x\""))]);
    let op = update_op(s("d"), s("t"), s("pages"), s("p"), &before, &after).unwrap();
    assert_eq!(op.fields.get("subtitle"), Some(None));
    assert_eq!(op.prev_fields.get("subtitle"), Some(Some(s("\"x\""))));
}

#[test]
fn insert_op_has_fresh_ulid_and_all_fields() {
    let op = insert_op(s("dev"), s("tx"), s("pages"), s("p-1"), map(&[("title", Some("\"T\""))]));
    assert_eq!(op.kind, OpKind::Insert);
    assert_eq!(op.op_id.len(), 26);
    assert_eq!(op.fields.get("title"), Some(Some(s("\"T\""))));
    assert!(op.prev_fields.is_empty());
}

#[test]
fn op_kind_names_roundtrip() {
    for k in [OpKind::Insert, OpKind::Update, OpKind::Delete] {
        assert_eq!(OpKind::from_str(k.as_str()), Some(k));
    }
    assert_eq!(OpKind::Insert.as_str(), "insert");
    assert_eq!(OpKind::from_str("upsert"), None);
}

#[test]
fn meta_fields_never_conflict() {
    assert!(is_meta_field("updated_at"));
    assert!(is_meta_field("created_by"));
    assert!(!is_meta_field("title"));
}

#[test]
fn overlapping_edits_conflict_and_are_filtered() {
    let base = map(&[("title", Some("\"A\"")), ("icon", Some("\"i\""))]);
    let local_after = map(&[("title", Some("\"Laptop\"")), ("icon", Some("\"i\""))]);
    let local = || update_op(s("laptop"), s("t1"), s("pages"), s("p-1"), &base, &local_after).unwrap();
    let remote_after = map(&[("title", Some("\"Desktop\"")), ("icon", Some("\"j\"")), ("updated_at", Some("\"now\""))]);
    let remote = update_op(s("desk"), s("t2"), s("pages"), s("p-1"), &base, &remote_after).unwrap();

    let conflicts = detect_conflicts(&vec![local()], &remote);
    assert_eq!(conflicts.len(), 1);
    assert_eq!(conflicts[0].field, "title");
    assert_eq!(conflicts[0].local_value, Some(s("\"Laptop\"")));
    assert_eq!(conflicts[0].remote_value, Some(s("\"Desktop\"")));

    let plan = plan_remote_op(&vec![local()], &remote);
    assert_eq!(plan.conflicts.len(), 1);
    assert!(plan.apply);
    assert!(plan.op.fields.get("title").is_none());
    assert_eq!(plan.op.fields.get("icon"), Some(Some(s("\"j\""))));
}

#[test]
fn disjoint_edits_do_not_conflict() {
    let base = map(&[("title", Some("\"A\"")), ("icon", Some("\"i\""))]);
    let local = update_op(s("l"), s("t1"), s("pages"), s("p"), &base, &map(&[("title", Some("\"B\"")), ("icon", Some("\"i\""))])).unwrap();
    let remote = update_op(s("r"), s("t2"), s("pages"), s("p"), &base, &map(&[("title", Some("\"A\"")), ("icon", Some("\"k\""))])).unwrap();
    assert!(detect_conflicts(&vec![local], &remote).is_empty());
}

#[test]
fn fully_conflicted_update_is_not_applied() {
    let base = map(&[("title", Some("\"A\""))]);
    let local = update_op(s("l"), s("t1"), s("pages"), s("p"), &base, &map(&[("title", Some("\"B\""))])).unwrap();
    let remote = update_op(s("r"), s("t2"), s("pages"), s("p"), &base, &map(&[("title", Some("\"C\""))])).unwrap();
    let plan = plan_remote_op(&vec![local], &remote);
    assert_eq!(plan.conflicts.len(), 1);
    assert!(!plan.apply);
    let stripped = filter_fields(&remote, &vec![s("title")]);
    assert!(!needs_apply(&stripped));
}

#[test]
fn field_maps_keep_keys_in_ascending_order() {
    let mut m = FieldMap::new();
    m.insert("title".to_string(), Some("\"T\"".to_string()));
    m.insert("icon".to_string(), None);
    m.insert("sort_order".to_string(), Some("3".to_string()));
    m.insert("icon".to_string(), Some("\"i\"".to_string()));
    assert_eq!(m.key_list(), vec!["icon".to_string(), "sort_order".to_string(), "title".to_string()]);
    assert_eq!(m.get("icon"), Some(Some("\"i\"".to_string())));
}
