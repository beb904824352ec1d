use linear_motion::db::SyncDatabase;
use linear_motion::issues::{LinearIssue, Team, WorkflowState};
use linear_motion::mapping::{MappingStatus, MappingStore, TaskMapping};

fn issue(id: &str) -> LinearIssue {
    LinearIssue {
        id: String::from(id),
        identifier: String::from("CAR-1"),
        title: String::from("One"),
        description: None,
        state: WorkflowState {
            id: String::from("s"),
            name: String::from("Todo"),
            state_type: String::from("unstarted"),
        },
        assignee: None,
        team: Team {
            id: String::from("t"),
            name: String::from("Team"),
            key: String::from("CAR"),
        },
        project: None,
        priority: None,
        estimate: None,
        created_at: 1,
        updated_at: 2,
        due_date: None,
        completed_at: None,
        labels: Vec::new(),
    }
}

#[test]
fn pending_then_synced_roundtrip() {
    // Creating a pending mapping and then marking it synced yields a synced mapping
    // with a non-empty sink-task id and no error.
    let mut store = MappingStore::new();
    let m = store.create_pending_mapping("src", &issue("id-1"), 100);
    assert!(matches!(m.status, MappingStatus::Pending));
    assert_eq!(m.motion_task_id, None);
    assert_eq!(m.created_at, 100);

    store.mark_synced("src", "id-1", String::from("task-1"), 101);
    let got = store.get_mapping_by_linear_id("src", "id-1").unwrap();
    assert!(matches!(got.status, MappingStatus::Synced));
    assert_eq!(got.motion_task_id.as_deref(), Some("task-1"));
    assert!(!got.motion_task_id.unwrap().is_empty());
    assert_eq!(got.sync_error, None);
    assert_eq!(got.updated_at, 101);
    assert_eq!(got.created_at, 100);
}

#[test]
fn upsert_keeps_one_record_per_key() {
    let mut store = MappingStore::new();
    let _ = store.create_pending_mapping("src", &issue("id-1"), 1);
    let _ = store.create_pending_mapping("src", &issue("id-1"), 2);
    let _ = store.create_pending_mapping("src", &issue("id-2"), 3);
    let _ = store.create_pending_mapping("other", &issue("id-1"), 4);
    assert_eq!(store.list_all_mappings().len(), 3);
    assert_eq!(store.list_mappings_by_source("src").len(), 2);
    assert_eq!(store.list_mappings_by_source("other").len(), 1);
}

#[test]
fn mark_failed_records_error_and_keeps_task_id() {
    let mut store = MappingStore::new();
    let _ = store.create_pending_mapping("src", &issue("id-1"), 1);
    store.mark_synced("src", "id-1", String::from("task-1"), 2);
    store.mark_failed("src", "id-1", String::from("boom"), 3);
    let got = store.get_mapping_by_linear_id("src", "id-1").unwrap();
    assert!(matches!(got.status, MappingStatus::Failed));
    assert_eq!(got.sync_error.as_deref(), Some("boom"));
    assert_eq!(got.last_sync_attempt, Some(3));
    assert_eq!(got.motion_task_id.as_deref(), Some("task-1"));
}

#[test]
fn mark_on_unknown_key_is_a_no_op() {
    let mut store = MappingStore::new();
    store.mark_synced("src", "missing", String::from("task-1"), 2);
    store.mark_failed("src", "missing", String::from("boom"), 3);
    assert!(store.get_mapping_by_linear_id("src", "missing").is_none());
    assert_eq!(store.list_all_mappings().len(), 0);
}

#[test]
fn lookup_by_motion_id_scans() {
    let mut store = MappingStore::new();
    let _ = store.create_pending_mapping("src", &issue("id-1"), 1);
    let _ = store.create_pending_mapping("src", &issue("id-2"), 2);
    store.mark_synced("src", "id-2", String::from("task-2"), 3);
    let got = store.get_mapping_by_motion_id("task-2").unwrap();
    assert_eq!(got.linear_issue_id, "id-2");
    assert!(store.get_mapping_by_motion_id("task-9").is_none());
}

#[test]
fn remove_returns_prior_value() {
    let mut store = MappingStore::new();
    let _ = store.create_pending_mapping("src", &issue("id-1"), 1);
    let removed = store.remove_mapping("src", "id-1").unwrap();
    assert_eq!(removed.linear_issue_id, "id-1");
    assert!(store.remove_mapping("src", "id-1").is_none());
    assert_eq!(store.list_all_mappings().len(), 0);
}

#[test]
fn list_by_status_compares_kind() {
    let mut store = MappingStore::new();
    let _ = store.create_pending_mapping("src", &issue("id-1"), 1);
    let _ = store.create_pending_mapping("src", &issue("id-2"), 1);
    store.mark_synced("src", "id-1", String::from("task-1"), 2);
    assert_eq!(store.list_mappings_by_status(MappingStatus::Pending).len(), 1);
    assert_eq!(store.list_mappings_by_status(MappingStatus::Synced).len(), 1);
    assert_eq!(store.list_mappings_by_status(MappingStatus::Failed).len(), 0);
    assert_eq!(store.list_mappings_by_status(MappingStatus::Stale).len(), 0);
}

#[test]
fn update_issue_data_refreshes_snapshot() {
    let mut store = MappingStore::new();
    let _ = store.create_pending_mapping("src", &issue("id-1"), 1);
    let mut newer = issue("id-1");
    newer.title = String::from("Renamed");
    newer.updated_at = 9;
    store.update_issue_data("src", "id-1", &newer, 5);
    let got = store.get_mapping_by_linear_id("src", "id-1").unwrap();
    let snap = got.linear_issue_data.unwrap();
    assert_eq!(snap.title, "Renamed");
    assert_eq!(snap.updated_at, 9);
    assert_eq!(got.updated_at, 5);
}

#[test]
fn bare_constructor_is_synced_without_snapshot() {
    let m = TaskMapping::new(
        String::from("id-1"),
        String::from("task-1"),
        String::from("src"),
        7,
    );
    assert!(matches!(m.status, MappingStatus::Synced));
    assert!(m.linear_issue_data.is_none());
    assert_eq!(m.last_sync_attempt, Some(7));
}

#[test]
fn database_starts_empty() {
    let db = SyncDatabase::new();
    assert_eq!(db.mappings.list_all_mappings().len(), 0);
    assert_eq!(db.status.list_all_source_stats().len(), 0);
}
