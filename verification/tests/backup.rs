use uuid::Uuid;
use vaelorium::backend::ObjectInfo;
use vaelorium::backup::{
    next_restore_name,
    backend_summary, backup_status_payload, choose_device_name, ensure_device_name_stub, fallback_tome_label,
    filesystem_path, find_probe, hosted_config_fields, parse_s3_config, restore_error_text, restored_file_name,
    sanitize_filename, BackendConfigFields, DeleteTomeResult, RemoteMeta,
};
use vaelorium::state::BackendKind;

fn uuid_from_hex(hex: &str) -> u128 {
    Uuid::parse_str(hex).unwrap().as_u128()
}

#[test]
fn backup_appends_stub_when_missing() {
    let id = uuid_from_hex("a3f2b7c1-0000-0000-0000-000000000000");
    let out = ensure_device_name_stub("My Laptop", id);
    assert_eq!(out, "My Laptop (a3f2)");
}

#[test]
fn backup_preserves_existing_stub() {
    let id = uuid_from_hex("deadbeef-0000-0000-0000-000000000000");
    let out = ensure_device_name_stub("Laptop (a3f2)", id);
    assert_eq!(out, "Laptop (a3f2)");
}

#[test]
fn backup_rejects_non_hex_suffix_as_stub() {
    let id = uuid_from_hex("a3f2b7c1-0000-0000-0000-000000000000");
    let out = ensure_device_name_stub("Thing (home)", id);
    assert_eq!(out, "Thing (home) (a3f2)");
}

#[test]
fn backup_trims_whitespace() {
    let id = uuid_from_hex("a3f2b7c1-0000-0000-0000-000000000000");
    let out = ensure_device_name_stub("  Laptop  ", id);
    assert_eq!(out, "Laptop (a3f2)");
}

#[test]
fn mod_appends_stub_when_missing() {
    let id = uuid_from_hex("a3f2b7c1-0000-0000-0000-000000000000");
    let out = ensure_device_name_stub("My Laptop", id);
    assert_eq!(out, "My Laptop (a3f2)");
}

#[test]
fn mod_preserves_existing_stub() {
    let id = uuid_from_hex("deadbeef-0000-0000-0000-000000000000");
    let out = ensure_device_name_stub("Laptop (a3f2)", id);
    assert_eq!(out, "Laptop (a3f2)");
}

#[test]
fn mod_rejects_non_hex_suffix_as_stub() {
    let id = uuid_from_hex("a3f2b7c1-0000-0000-0000-000000000000");
    let out = ensure_device_name_stub("Thing (home)", id);
    assert_eq!(out, "Thing (home) (a3f2)");
}

#[test]
fn mod_trims_whitespace() {
    let id = uuid_from_hex("a3f2b7c1-0000-0000-0000-000000000000");
    let out = ensure_device_name_stub("  Laptop  ", id);
    assert_eq!(out, "Laptop (a3f2)");
}

#[test]
fn stubbing_twice_changes_nothing() {
    let id = uuid_from_hex("0b1c2d3e-0000-0000-0000-000000000000");
    let once = ensure_device_name_stub("Desk", id);
    assert_eq!(once, "Desk (0b1c)");
    assert_eq!(ensure_device_name_stub(&once, 0), once);
}

#[test]
fn sanitize_filename_replaces_and_trims() {
    assert_eq!(sanitize_filename("My: Campaign?"), "My_ Campaign_");
    assert_eq!(sanitize_filename("  ..hidden..  "), "hidden");
    assert_eq!(sanitize_filename("a/b\\c"), "a_b_c");
    assert_eq!(sanitize_filename("   "), "Restored Tome");
    assert_eq!(sanitize_filename("tab\there"), "tab_here");
}

#[test]
fn sanitized_names_hold_no_reserved_character() {
    for name in ["<>:\"/\\|?*", "ok", "\u{7}bell", " . "] {
        let s = sanitize_filename(name);
        assert!(!s.is_empty());
        assert!(!s.chars().any(|c| "/\\:*?\"<>|".contains(c) || c.is_control()));
    }
}

#[test]
fn restored_file_names_count_attempts() {
    assert_eq!(restored_file_name("Campaign", 0), "Campaign.tome");
    assert_eq!(restored_file_name("Campaign", 2), "Campaign (2).tome");
}

fn fields() -> BackendConfigFields {
    BackendConfigFields {
        path: None,
        region: None,
        bucket: None,
        access_key: None,
        secret_key: None,
        endpoint: None,
        prefix: None,
        email: None,
        tier: None,
    }
}

#[test]
fn summaries_per_backend_kind() {
    let mut f = fields();
    f.path = Some("/backups".to_string());
    assert_eq!(backend_summary(BackendKind::Filesystem, &f), "/backups");
    let mut s = fields();
    s.bucket = Some("b".to_string());
    assert_eq!(backend_summary(BackendKind::S3, &s), "b on AWS");
    s.endpoint = Some("https://minio".to_string());
    assert_eq!(backend_summary(BackendKind::S3, &s), "b on https://minio");
    let h = hosted_config_fields(Some("me@x.org".to_string()), Some("pro".to_string()));
    assert_eq!(backend_summary(BackendKind::Hosted, &h), "Cloud pro \u{2014} me@x.org");
    let h2 = hosted_config_fields(None, None);
    assert_eq!(backend_summary(BackendKind::Hosted, &h2), "Cloud \u{2014} Vaelorium Cloud");
}

#[test]
fn backup_status_locked_only_when_configured() {
    let f = fields();
    let st = backup_status_payload(Some((BackendKind::Filesystem, &f, "Desk")), false);
    assert!(st.configured && st.locked);
    assert_eq!(st.backend_kind.as_deref(), Some("filesystem"));
    assert_eq!(st.device_name.as_deref(), Some("Desk"));
    let none = backup_status_payload(None, false);
    assert!(!none.configured && !none.locked);
    assert!(none.backend_kind.is_none());
}

#[test]
fn s3_config_requires_its_fields() {
    let mut f = fields();
    assert_eq!(parse_s3_config(&f).err(), Some("s3 backend requires `region`".to_string()));
    f.region = Some("eu".to_string());
    f.bucket = Some("b".to_string());
    f.access_key = Some("a".to_string());
    f.secret_key = Some("s".to_string());
    f.endpoint = Some(String::new());
    let cfg = parse_s3_config(&f).unwrap();
    assert_eq!(cfg.region, "eu");
    assert!(cfg.endpoint.is_none());
    assert_eq!(filesystem_path(&fields()).err(), Some("filesystem backend requires `path`".to_string()));
}

#[test]
fn device_name_preference_order() {
    assert_eq!(choose_device_name(Some("a".into()), Some("b".into()), Some("c".into())), "a");
    assert_eq!(choose_device_name(None, Some("b".into()), Some("c".into())), "b");
    assert_eq!(choose_device_name(None, None, Some("c".into())), "c");
    assert_eq!(choose_device_name(None, None, None), "Vaelorium Device");
}

fn info(key: &str) -> ObjectInfo {
    ObjectInfo { key: key.to_string(), size: 1, etag: "e".to_string(), last_modified: 0 }
}

#[test]
fn probe_is_first_snapshot_or_op() {
    let infos = vec![info("sync-meta.json"), info("journal/1.op.enc"), info("snapshots/2.snap.enc")];
    assert_eq!(find_probe(&infos), Some(1));
    assert_eq!(find_probe(&vec![info("sync-meta.json")]), None);
}

#[test]
fn remote_meta_salt_roundtrip() {
    let salt = [7u8; 16];
    let meta = RemoteMeta::new(&salt, "tome-1", "2024-01-01T00:00:00Z");
    assert_eq!(meta.salt().unwrap(), salt.to_vec());
    let bad = RemoteMeta { version: 1, salt_b64: "%%%".to_string(), tome_id: String::new(), created_at: String::new() };
    assert!(bad.salt().is_err());
}

#[test]
fn delete_result_counts() {
    let mut r = DeleteTomeResult::new();
    r.record(10);
    r.record(5);
    assert_eq!(r.deleted_objects, 2);
    assert_eq!(r.deleted_bytes, 15);
}

#[test]
fn fallback_labels() {
    assert_eq!(fallback_tome_label("abcdef0123456789", true), "Tome abcdef01 (no snapshot yet)");
    assert_eq!(fallback_tome_label("abcdef0123456789", false), "Tome abcdef01");
}

#[test]
fn restore_error_prefix() {
    assert_eq!(restore_error_text("disk full"), "disk full");
    assert_eq!(
        restore_error_text("crypto error: decryption failed"),
        "wrong passphrase \u{2014} could not decrypt snapshot"
    );
}

#[test]
fn restored_names_step_to_a_free_one() {
    assert!(next_restore_name("Saga", 0, false).is_none());
    let (n, name) = next_restore_name("Saga", 0, true).unwrap();
    assert_eq!((n, name.as_str()), (1, "Saga (1).tome"));
    let (n, name) = next_restore_name("Saga", 9, true).unwrap();
    assert_eq!((n, name.as_str()), (10, "Saga (10).tome"));
}
