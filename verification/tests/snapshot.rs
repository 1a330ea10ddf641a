use ulid::Ulid;
use vaelorium::backend::ObjectInfo;
use vaelorium::crypto::KeyMaterial;
use vaelorium::snapshot::{
    list_snapshots, list_tome_snapshots, open_snapshot, seal_snapshot, should_snapshot, should_snapshot_at,
    snapshot_object_key, tome_snapshot_key, SNAPSHOT_BYTES_THRESHOLD, SNAPSHOT_MAX_AGE, SNAPSHOT_OPS_THRESHOLD,
};
use vaelorium::state::SyncRuntimeState;

fn now_ms() -> u64 {
    std::time::SystemTime::now().duration_since(std::time::UNIX_EPOCH).unwrap().as_millis() as u64
}

#[test]
fn should_snapshot_first_time_returns_true() {
    let state = SyncRuntimeState::fresh("");
    assert!(should_snapshot(&state, 0, 0));
}

#[test]
fn should_snapshot_under_thresholds_returns_false() {
    let mut state = SyncRuntimeState::fresh("");
    state.last_snapshot_id = Some(Ulid::new().to_string());
    assert!(!should_snapshot(&state, 1000, 10));
}

#[test]
fn should_snapshot_above_size_threshold_returns_true() {
    let mut state = SyncRuntimeState::fresh("");
    state.last_snapshot_id = Some(Ulid::new().to_string());
    assert!(should_snapshot(&state, SNAPSHOT_BYTES_THRESHOLD + 1, 10));
}

#[test]
fn should_snapshot_above_ops_threshold_returns_true() {
    let mut state = SyncRuntimeState::fresh("");
    state.last_snapshot_id = Some(Ulid::new().to_string());
    assert!(should_snapshot(&state, 0, SNAPSHOT_OPS_THRESHOLD));
}

#[test]
fn should_snapshot_weekly_trigger_fires_for_old_snapshot() {
    let mut state = SyncRuntimeState::fresh("");
    let eight_days_ago_ms = now_ms() - 8 * 24 * 3600 * 1000;
    let old_ulid = Ulid::from_parts(eight_days_ago_ms, 0);
    state.last_snapshot_id = Some(old_ulid.to_string());
    assert!(should_snapshot(&state, 100, 1));
}

#[test]
fn should_snapshot_weekly_trigger_does_not_fire_for_recent() {
    let mut state = SyncRuntimeState::fresh("");
    state.last_snapshot_id = Some(Ulid::new().to_string());
    assert!(!should_snapshot(&state, 100, 1));
}

#[test]
fn weekly_trigger_boundary_at_a_fixed_time() {
    let mut state = SyncRuntimeState::fresh("");
    let snap_ms: u64 = 1_700_000_000_000;
    state.last_snapshot_id = Some(Ulid::from_parts(snap_ms, 0).to_string());
    assert!(!should_snapshot_at(&state, 0, 0, snap_ms + SNAPSHOT_MAX_AGE - 1));
    assert!(should_snapshot_at(&state, 0, 0, snap_ms + SNAPSHOT_MAX_AGE));
    // A clock behind the snapshot never triggers.
    assert!(!should_snapshot_at(&state, 0, 0, snap_ms - 5));
    // An id that is not a ULID never triggers the weekly rule.
    state.last_snapshot_id = Some("not-a-ulid".to_string());
    assert!(!should_snapshot_at(&state, 0, 0, u64::MAX));
}

fn info(key: &str, size: u64, last_modified: i64) -> ObjectInfo {
    ObjectInfo { key: key.to_string(), size, etag: "e".to_string(), last_modified }
}

#[test]
fn list_tome_snapshots_groups_by_uuid_and_picks_latest() {
    let uuid_a = "aaaaaaaaaaaaaaaaaaaaaaaaaaaaaaaa";
    let uuid_b = "bbbbbbbbbbbbbbbbbbbbbbbbbbbbbbbb";
    let snap_a_old = Ulid::from_parts(1_000, 1);
    let snap_a_new = Ulid::from_parts(2_000, 1);
    let snap_b = Ulid::from_parts(3_000, 1);
    let infos = vec![
        info(&format!("tomes/{uuid_a}/journal/{snap_a_old}.op.enc"), 1, 0),
        info(&format!("tomes/{uuid_a}/snapshots/{snap_a_new}.snap.enc"), 1, 0),
        info(&format!("tomes/{uuid_a}/snapshots/{snap_a_old}.snap.enc"), 1, 0),
        info(&format!("tomes/{uuid_b}/snapshots/{snap_b}.snap.enc"), 1, 0),
    ];
    let mut summaries = list_tome_snapshots(&infos);
    summaries.sort_by(|a, b| a.tome_uuid.cmp(&b.tome_uuid));
    assert_eq!(summaries.len(), 2);
    assert_eq!(summaries[0].tome_uuid, uuid_a);
    assert_eq!(summaries[0].snapshot_id, snap_a_new.to_string());
    assert_eq!(summaries[1].tome_uuid, uuid_b);
    assert_eq!(summaries[1].snapshot_id, snap_b.to_string());
}

#[test]
fn list_tome_snapshots_returns_empty_for_fresh_backend() {
    let summaries = list_tome_snapshots(&Vec::new());
    assert!(summaries.is_empty());
}

#[test]
fn tome_snapshot_summary_carries_size_and_time() {
    let infos = vec![info("tomes/u/snapshots/01HZZZZZZZZZZZZZZZZZZZZZZZ.snap.enc", 42, 1234)];
    let summaries = list_tome_snapshots(&infos);
    assert_eq!(summaries.len(), 1);
    assert_eq!(summaries[0].tome_uuid, "u");
    assert_eq!(summaries[0].size_bytes, 42);
    assert_eq!(summaries[0].last_modified, 1234);
}

#[test]
fn snapshot_keys() {
    assert_eq!(snapshot_object_key("01ABC"), "snapshots/01ABC.snap.enc");
    assert_eq!(tome_snapshot_key("u-1", "01ABC"), "tomes/u-1/snapshots/01ABC.snap.enc");
    let infos = vec![info("snapshots/01A.snap.enc", 1, 0), info("snapshots/readme.txt", 1, 0), info("x/01B.snap.enc", 1, 0)];
    assert_eq!(list_snapshots(&infos), vec!["01A".to_string(), "01B".to_string()]);
}

#[test]
fn sealed_snapshot_opens_to_the_same_database() {
    let key = KeyMaterial::derive("pw", &[9u8; 16]).unwrap();
    let db = b"SQLite format 3\0 pretend database bytes".repeat(20);
    let blob = seal_snapshot(&key, &db).unwrap();
    assert!(blob.len() < db.len());
    assert_eq!(open_snapshot(&key, &blob).unwrap(), db);
    let other = KeyMaterial::derive("other", &[9u8; 16]).unwrap();
    assert!(open_snapshot(&other, &blob).is_err());
}
