use vaelorium::app_backend::config_path;
use vaelorium::app_state::{add_recent_tome, new_recent_tome, set_sync_enabled_for_path, AppState, MAX_RECENT_TOMES};
use vaelorium::backend::{
    check_swap, is_temp_file_name, join_path, tome_prefix, BackendError, FilesystemBackend, KeyPrefix,
};
use vaelorium::migrations::split_sql_statements;
use vaelorium::registry::{schema_by_name, tables};
use vaelorium::state::BackendKind;
use vaelorium::tome_identity::{normalize, uuid_to_keep};

#[test]
fn backend_kind_roundtrip() {
    assert_eq!(BackendKind::from_str("filesystem"), Some(BackendKind::Filesystem));
    assert_eq!(BackendKind::from_str("s3"), Some(BackendKind::S3));
    assert_eq!(BackendKind::from_str("nope"), None);
    assert_eq!(BackendKind::Filesystem.as_str(), "filesystem");
    assert_eq!(BackendKind::S3.as_str(), "s3");
}

#[test]
fn hosted_kind_roundtrip() {
    assert_eq!(BackendKind::from_str(BackendKind::Hosted.as_str()), Some(BackendKind::Hosted));
}

#[test]
fn tome_prefix_hashes_and_is_stable() {
    let a = tome_prefix("/home/user/Tomes/My Campaign.tome");
    let b = tome_prefix("/home/user/Tomes/My Campaign.tome");
    let c = tome_prefix("/home/user/Tomes/Other.tome");
    assert_eq!(a, b, "must be deterministic");
    assert_ne!(a, c, "different Tomes must hash differently");
    assert!(a.starts_with("tomes/"));
    assert!(!a.contains(' '));
    assert_eq!(a.matches('/').count(), 1);
}

#[test]
fn tome_prefix_is_first_eight_sha256_bytes_in_hex() {
    // SHA-256("abc") = ba7816bf 8f01cfea ...
    assert_eq!(tome_prefix("abc"), "tomes/ba7816bf8f01cfea");
}

#[test]
fn key_prefix_roundtrip() {
    let p = KeyPrefix::new("tomes/abc//");
    assert_eq!(p.full("journal/1.op.enc"), "tomes/abc/journal/1.op.enc");
    assert_eq!(p.strip("tomes/abc/journal/1.op.enc"), "journal/1.op.enc");
    assert_eq!(p.strip("elsewhere/x"), "elsewhere/x");
}

#[test]
fn compare_and_swap_rule() {
    assert!(check_swap("k", None, None).is_ok());
    assert!(check_swap("k", Some("e1"), Some("e1")).is_ok());
    assert!(matches!(
        check_swap("k", Some("e1"), None),
        Err(BackendError::EtagMismatch { ref expected, ref found, .. }) if expected == "(absent)" && found == "e1"
    ));
    assert!(matches!(
        check_swap("k", None, Some("e2")),
        Err(BackendError::EtagMismatch { ref expected, ref found, .. }) if expected == "e2" && found == "(absent)"
    ));
    assert!(matches!(
        check_swap("k", Some("e1"), Some("e2")),
        Err(BackendError::EtagMismatch { ref expected, ref found, .. }) if expected == "e2" && found == "e1"
    ));
}

#[test]
fn temp_files_are_skipped() {
    assert!(is_temp_file_name("a.op.tmp.01ABC"));
    assert!(!is_temp_file_name("a.op.enc"));
}

#[test]
fn folder_paths_join_like_path_join() {
    assert_eq!(join_path("/data", "sync-backend.json"), "/data/sync-backend.json");
    assert_eq!(join_path("/data/", "x"), "/data/x");
    assert_eq!(join_path("", "x"), "x");
    assert_eq!(join_path("/data", "/abs"), "/abs");
    assert_eq!(config_path("/home/u/.local/share/vaelorium"), "/home/u/.local/share/vaelorium/sync-backend.json");
    let fs = FilesystemBackend::new("/backups");
    let p = fs.path_for("journal/1.op.enc");
    assert_eq!(p, "/backups/journal/1.op.enc");
    assert_eq!(fs.key_of(&p).unwrap(), "journal/1.op.enc");
    assert_eq!(fs.key_of("/backups/a\\b").unwrap(), "a/b");
    assert!(matches!(fs.key_of("/other/x"), Err(BackendError::Other(_))));
}

#[test]
fn backend_errors_describe_themselves() {
    assert_eq!(BackendError::NotFound("k".into()).describe(), "object not found: k");
    assert_eq!(
        BackendError::EtagMismatch { key: "k".into(), expected: "a".into(), found: "b".into() }.describe(),
        "etag mismatch on atomic swap (key k, expected a, found b)"
    );
    assert_eq!(BackendError::Io("disk".into()).describe(), "io error: disk");
    assert_eq!(BackendError::Other("x".into()).describe(), "backend internal error: x");
}

#[test]
fn normalize_tome_uuid_forms() {
    assert_eq!(normalize("ABCDEF0123456789ABCDEF0123456789"), "abcdef01-2345-6789-abcd-ef0123456789");
    assert_eq!(normalize("  ABCDEF01-2345-6789-ABCD-EF0123456789 "), "abcdef01-2345-6789-abcd-ef0123456789");
    assert_eq!(normalize(" legacy-value "), "legacy-value");
    let once = normalize("0123456789abcdef0123456789ABCDEF");
    assert_eq!(normalize(&once), once);
}

#[test]
fn recent_tomes_move_to_front_and_cap() {
    let mut state = AppState::new();
    for i in 0..12 {
        let path = format!("/t/{i}.tome");
        add_recent_tome(&mut state, new_recent_tome(&path, "T", None, None, false, "now"));
    }
    assert_eq!(state.recent_tomes.len(), MAX_RECENT_TOMES);
    assert_eq!(state.recent_tomes[0].path, "/t/11.tome");
    add_recent_tome(&mut state, new_recent_tome("/t/5.tome", "T5", Some("d"), Some("u"), true, "later"));
    assert_eq!(state.recent_tomes.len(), MAX_RECENT_TOMES);
    assert_eq!(state.recent_tomes[0].path, "/t/5.tome");
    assert_eq!(state.recent_tomes.iter().filter(|t| t.path == "/t/5.tome").count(), 1);
    assert_eq!(state.recent_tomes[1].path, "/t/11.tome");
}

#[test]
fn sync_flag_set_by_path() {
    let mut state = AppState::new();
    add_recent_tome(&mut state, new_recent_tome("/a.tome", "A", None, None, false, "now"));
    add_recent_tome(&mut state, new_recent_tome("/b.tome", "B", None, None, false, "now"));
    assert!(set_sync_enabled_for_path(&mut state, "/a.tome", true));
    assert!(state.recent_tomes.iter().find(|t| t.path == "/a.tome").unwrap().sync_enabled);
    assert!(!state.recent_tomes.iter().find(|t| t.path == "/b.tome").unwrap().sync_enabled);
    assert!(!set_sync_enabled_for_path(&mut state, "/missing.tome", true));
}

#[test]
fn sql_split_respects_parentheses_and_comments() {
    let sql = "-- header\nCREATE TABLE a (\n  id TEXT,\n  x INT\n);\n\nINSERT INTO a VALUES ('1', 2);\nCREATE TRIGGER t AFTER INSERT ON a BEGIN\n  SELECT 1;\nEND;";
    let stmts = split_sql_statements(sql);
    assert_eq!(stmts[0], "CREATE TABLE a ( id TEXT, x INT )");
    assert_eq!(stmts[1], "INSERT INTO a VALUES ('1', 2)");
    assert_eq!(stmts.len(), 4);
    assert!(split_sql_statements("  \n-- only a comment\n").is_empty());
}

#[test]
fn registry_knows_tracked_tables() {
    let pages = schema_by_name("pages").unwrap();
    assert_eq!(pages.name, "pages");
    assert_eq!(pages.primary_key, "id");
    assert!(pages.columns.contains(&"title"));
    assert!(schema_by_name("no_such_table").is_none());
    let all = tables();
    assert_eq!(all.pages.name, "pages");
    assert_eq!(schema_by_name("boards").unwrap().columns, vec!["id", "name", "sort_order", "created_at", "updated_at"]);
    assert_eq!(schema_by_name("board_cards").unwrap().columns.len(), 10);
    assert_eq!(all.board_cards.name, "board_cards");
    assert!(schema_by_name("page_tags").is_none());
}

#[test]
fn kept_tome_uuid_is_stable() {
    let (kept, rewrite) = uuid_to_keep("ABCDEF0123456789ABCDEF0123456789");
    assert_eq!(kept, "abcdef01-2345-6789-abcd-ef0123456789");
    assert!(rewrite);
    assert_eq!(uuid_to_keep(&kept), (kept.clone(), false));
}

#[test]
fn sql_split_counts_deep_parentheses() {
    let sql = "CREATE TABLE t (a INT CHECK (a > (0)));\nSELECT 1;";
    assert_eq!(split_sql_statements(sql), vec!["CREATE TABLE t (a INT CHECK (a > (0)))".to_string(), "SELECT 1".to_string()]);
}
