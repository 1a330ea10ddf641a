use vaelorium::backend::BackendError;
use vaelorium::s3::{clean_etag, if_match_value, to_backend_error, S3Config, S3KeySpace};

fn sample_config(prefix: Option<&str>) -> S3Config {
    S3Config {
        endpoint: Some("https://minio.local:9000".to_string()),
        region: "us-east-1".to_string(),
        bucket: "vaelorium-test".to_string(),
        access_key: "AK".to_string(),
        secret_key: "SK".to_string(),
        prefix: prefix.map(|p| p.to_string()),
    }
}

#[test]
fn clean_etag_strips_quotes() {
    assert_eq!(clean_etag(Some(r#""abc123""#.to_string())), "abc123");
    assert_eq!(clean_etag(Some("abc123".to_string())), "abc123");
    assert_eq!(clean_etag(None), "");
}

#[test]
fn to_backend_error_classifies_common_failures() {
    let err = to_backend_error("service error: NoSuchBucket", "test");
    assert!(matches!(err, BackendError::Other(ref m) if m.contains("bucket not found")));
    let err = to_backend_error("service error: InvalidAccessKeyId", "test");
    assert!(matches!(err, BackendError::Other(ref m) if m.contains("authentication failed")));
    let err = to_backend_error("dispatch failure: dns error", "test");
    assert!(matches!(err, BackendError::Other(ref m) if m.contains("endpoint unreachable")));
}

#[test]
fn to_backend_error_exact_texts() {
    assert!(matches!(
        to_backend_error("service error: NoSuchBucket", "put_object a"),
        BackendError::Other(ref m) if m == "bucket not found (during put_object a)"
    ));
    assert!(matches!(
        to_backend_error("SignatureDoesNotMatch", "list"),
        BackendError::Other(ref m) if m == "authentication failed (during list)"
    ));
    assert!(matches!(
        to_backend_error("PreconditionFailed", "sync-meta.json"),
        BackendError::EtagMismatch { ref key, .. } if key == "sync-meta.json"
    ));
    assert!(matches!(
        to_backend_error("weird", "head x"),
        BackendError::Other(ref m) if m == "head x: weird"
    ));
}

#[test]
fn s3_backend_full_key_applies_prefix() {
    let space = S3KeySpace::new(&sample_config(Some("vaelorium")));
    assert_eq!(space.full_key("snapshots/a"), "vaelorium/snapshots/a");
    let slashed = S3KeySpace::new(&sample_config(Some("vaelorium/")));
    assert_eq!(slashed.full_key("snapshots/a"), "vaelorium/snapshots/a");
}

#[test]
fn s3_backend_full_key_no_prefix() {
    let space = S3KeySpace::new(&sample_config(None));
    assert_eq!(space.full_key("snapshots/a"), "snapshots/a");
    let empty = S3KeySpace::new(&sample_config(Some("")));
    assert_eq!(empty.full_key("snapshots/a"), "snapshots/a");
}

#[test]
fn s3_backend_strip_prefix() {
    let space = S3KeySpace::new(&sample_config(Some("vaelorium")));
    assert_eq!(space.strip_prefix("vaelorium/snapshots/a"), "snapshots/a");
    assert_eq!(space.strip_prefix("other/path"), "other/path");
}

#[test]
fn strip_undoes_full_key() {
    let space = S3KeySpace::new(&sample_config(Some("a/b//")));
    for key in ["x", "journal/1.op.enc", ""] {
        assert_eq!(space.strip_prefix(&space.full_key(key)), key);
    }
}

#[test]
fn if_match_is_quoted_once() {
    assert_eq!(if_match_value("abc"), "\"abc\"");
    assert_eq!(if_match_value("\"abc\""), "\"abc\"");
}
