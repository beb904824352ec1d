use linear_motion::status::{StatusStore, SyncSourceStatus, SyncStatus, SyncStatusEntry};

#[test]
fn entry_lifecycle_in_progress_then_completed() {
    let mut store = StatusStore::new();
    let entry = store.create_status_entry(String::from("src"), String::from("id-1"), 100);
    assert!(matches!(entry.status, SyncStatus::InProgress));
    assert_eq!(entry.retry_count, 0);
    assert_eq!(entry.id.len(), 36);

    store.mark_completed(&entry.id, String::from("task-1"), 101);
    let got = store.get_status_entry(&entry.id).unwrap();
    assert!(matches!(got.status, SyncStatus::Completed));
    assert_eq!(got.motion_task_id.as_deref(), Some("task-1"));
    assert_eq!(got.error_message, None);
    assert_eq!(got.updated_at, 101);
}

#[test]
fn retry_count_rises_only_with_an_error() {
    let mut store = StatusStore::new();
    let entry = store.create_status_entry(String::from("src"), String::from("id-1"), 100);
    store.update_status(&entry.id, SyncStatus::Paused, None, 101);
    let got = store.get_status_entry(&entry.id).unwrap();
    assert_eq!(got.retry_count, 0);
    assert!(matches!(got.status, SyncStatus::Paused));

    store.mark_failed(&entry.id, String::from("boom"), 102);
    let got = store.get_status_entry(&entry.id).unwrap();
    assert_eq!(got.retry_count, 1);
    assert!(matches!(got.status, SyncStatus::Failed));
    assert_eq!(got.error_message.as_deref(), Some("boom"));

    store.mark_failed(&entry.id, String::from("again"), 103);
    let got = store.get_status_entry(&entry.id).unwrap();
    assert_eq!(got.retry_count, 2);
}

#[test]
fn update_of_unknown_entry_is_a_no_op() {
    let mut store = StatusStore::new();
    store.update_status("missing", SyncStatus::Completed, None, 1);
    assert!(store.get_status_entry("missing").is_none());
}

#[test]
fn listing_by_source_and_failure() {
    let mut store = StatusStore::new();
    let a = store.create_status_entry(String::from("one"), String::from("id-1"), 1);
    let _b = store.create_status_entry(String::from("two"), String::from("id-2"), 2);
    let c = store.create_status_entry(String::from("one"), String::from("id-3"), 3);
    store.mark_failed(&c.id, String::from("boom"), 4);

    assert_eq!(store.list_statuses_by_source("one").len(), 2);
    assert_eq!(store.list_statuses_by_source("two").len(), 1);
    assert_eq!(store.list_statuses_by_source("three").len(), 0);
    let failed = store.list_failed_entries();
    assert_eq!(failed.len(), 1);
    assert_eq!(failed[0].id, c.id);
    assert_ne!(a.id, c.id);
}

#[test]
fn source_stats_partition_counts() {
    // After a run of outcomes the counters partition it.
    let mut store = StatusStore::new();
    for i in 0..7i64 {
        store.update_source_stats("src", true, None, 100 + i);
    }
    for i in 0..3i64 {
        store.update_source_stats("src", false, Some(format!("err {}", i)), 200 + i);
    }
    let s = store.get_source_status("src").unwrap();
    assert_eq!(s.total_issues_processed, 10);
    assert_eq!(s.successful_syncs, 7);
    assert_eq!(s.failed_syncs, 3);
    assert_eq!(s.errors.len(), 3);
    assert_eq!(s.last_sync, Some(202));
    assert!(store.get_source_status("other").is_none());
}

#[test]
fn error_ring_never_exceeds_ten() {
    let mut store = StatusStore::new();
    for i in 0..15i64 {
        store.update_source_stats("src", false, Some(format!("err {}", i)), i);
    }
    let s = store.get_source_status("src").unwrap();
    assert_eq!(s.errors.len(), 10);
    // the oldest five were dropped
    assert_eq!(s.errors[0], "err 5");
    assert_eq!(s.errors[9], "err 14");
}

#[test]
fn fresh_source_status_is_all_zeroes() {
    let s = SyncSourceStatus::new(String::from("src"));
    assert_eq!(s.total_issues_processed, 0);
    assert_eq!(s.successful_syncs, 0);
    assert_eq!(s.failed_syncs, 0);
    assert!(s.errors.is_empty());
    assert_eq!(s.last_sync, None);
}

#[test]
fn fresh_entry_has_distinct_ids() {
    let a = SyncStatusEntry::new(String::from("src"), String::from("id-1"), 1);
    let b = SyncStatusEntry::new(String::from("src"), String::from("id-1"), 1);
    assert_eq!(a.id.len(), 36);
    assert_eq!(b.id.len(), 36);
    assert_ne!(a.id, b.id);
}

#[test]
fn cleanup_removes_only_old_completed_entries() {
    let mut store = StatusStore::new();
    let day: i64 = 86400;
    let now: i64 = 100 * day;

    let old_done = store.create_status_entry(String::from("src"), String::from("id-1"), now - 40 * day);
    store.mark_completed(&old_done.id, String::from("task-1"), now - 40 * day);
    let old_failed = store.create_status_entry(String::from("src"), String::from("id-2"), now - 40 * day);
    store.mark_failed(&old_failed.id, String::from("boom"), now - 40 * day);
    let new_done = store.create_status_entry(String::from("src"), String::from("id-3"), now - day);
    store.mark_completed(&new_done.id, String::from("task-3"), now - day);

    let deleted = store.cleanup_old_entries(30, now);
    assert_eq!(deleted, 1);
    assert!(store.get_status_entry(&old_done.id).is_none());
    assert!(store.get_status_entry(&old_failed.id).is_some());
    assert!(store.get_status_entry(&new_done.id).is_some());
}
