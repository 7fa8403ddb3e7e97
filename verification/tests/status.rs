use gytags_roster::api::health_summary;
use gytags_roster::storage::{
    SystemStatus, StorageError, age_seconds, decode_revision, decode_sync_time, encode_integer,
    next_revision, unix_seconds,
};

#[test]
fn reports_stale_after_source_ttl() {
    let status = SystemStatus {
        revision: 0,
        last_source_sync_at: Some(100),
    };
    assert_eq!(age_seconds(status.last_source_sync_at, 105), Some(5));
    assert_eq!(status.effective_source_status(10, 105), "fresh");
    assert_eq!(status.effective_source_status(10, 111), "stale");
}

#[test]
fn never_synced_source_is_empty() {
    let status = SystemStatus {
        revision: 3,
        last_source_sync_at: None,
    };
    assert_eq!(status.effective_source_status(10, 0), "empty");
    assert_eq!(age_seconds(None, 10), None);
}

#[test]
fn ages_are_never_negative_and_saturate() {
    assert_eq!(age_seconds(Some(200), 100), Some(0));
    assert_eq!(age_seconds(Some(i64::MIN), i64::MAX), Some(i64::MAX));
    let status = SystemStatus {
        revision: 0,
        last_source_sync_at: Some(0),
    };
    assert_eq!(status.effective_source_status(10, 10), "fresh");
    // A TTL beyond i64::MAX wraps to a negative bound, as the cast does.
    assert_eq!(status.effective_source_status(u64::MAX, 0), "stale");
}

#[test]
fn exposes_source_freshness() {
    let status = SystemStatus {
        revision: 1,
        last_source_sync_at: Some(50),
    };
    let health = health_summary(&status, 1, 50);
    assert_eq!(health.status, "ok");
    assert_eq!(health.revision, 1);
    assert_eq!(health.source_status, "fresh");
    assert_eq!(health.source_age_seconds, Some(0));
}

#[test]
fn stored_integers_are_written_in_decimal() {
    assert_eq!(encode_integer(0), "0");
    assert_eq!(encode_integer(1_700_000_000), "1700000000");
    assert_eq!(encode_integer(-42), "-42");
    assert_eq!(encode_integer(i64::MIN), "-9223372036854775808");
    assert_eq!(encode_integer(i64::MAX), "9223372036854775807");
}

#[test]
fn stored_sync_time_reads_back_what_was_written() {
    for t in [0, 7, -7, 1_700_000_000, i64::MIN, i64::MAX] {
        let stored = encode_integer(t);
        assert_eq!(decode_sync_time(Some(stored.clone())).ok(), Some(Some(t)));
        assert_eq!(decode_revision(&stored).ok(), Some(t));
    }
}

#[test]
fn missing_or_empty_sync_time_means_never_synced() {
    assert_eq!(decode_sync_time(None).ok(), Some(None));
    assert_eq!(decode_sync_time(Some(String::new())).ok(), Some(None));
    assert_eq!(decode_sync_time(Some("+15".to_owned())).ok(), Some(Some(15)));
}

#[test]
fn rejects_stored_text_that_is_not_an_integer() {
    match decode_sync_time(Some("soon".to_owned())) {
        Err(StorageError::InvalidTimestamp(text)) => assert_eq!(text, "soon"),
        other => panic!("unexpected {other:?}"),
    }
    assert!(matches!(decode_revision("1x"), Err(StorageError::InvalidRevision(_))));
    assert!(matches!(decode_revision(" 1"), Err(StorageError::InvalidRevision(_))));
    assert!(matches!(decode_revision("9223372036854775808"), Err(StorageError::InvalidRevision(_))));
    match next_revision("-") {
        Err(StorageError::InvalidRevision(text)) => assert_eq!(text, "-"),
        other => panic!("unexpected {other:?}"),
    }
}

#[test]
fn next_revision_is_one_past_the_stored_one() {
    assert_eq!(next_revision("0").ok(), Some(1));
    assert_eq!(next_revision("41").ok(), Some(42));
    assert_eq!(next_revision("-1").ok(), Some(0));
}

#[test]
fn clock_reading_becomes_unix_seconds() {
    assert_eq!(unix_seconds(Some(1_700_000_000)), 1_700_000_000);
    assert_eq!(unix_seconds(None), 0);
    assert_eq!(unix_seconds(Some(u64::MAX)), -1);
}
