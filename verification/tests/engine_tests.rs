use linear_motion::config::{SyncRules, TimeEstimateStrategy};
use linear_motion::db::SyncDatabase;
use linear_motion::engine::{
    build_create_task, build_update_task, decide_item_action, find_source_config,
    format_description_with_link, plan_item, priority_name, record_create_success,
    record_update_failure, record_update_success, sweep_step, ItemAction, SweepStep,
};
use linear_motion::error::Error;
use linear_motion::issues::{IssueLabel, LinearIssue, Team, WorkflowState};
use linear_motion::mapping::MappingStatus;
use linear_motion::tasks::{Label, MotionTask, MotionWorkspace, TaskDuration};

fn issue(id: &str, identifier: &str, title: &str) -> LinearIssue {
    LinearIssue {
        id: String::from(id),
        identifier: String::from(identifier),
        title: String::from(title),
        description: None,
        state: WorkflowState {
            id: String::from("state-1"),
            name: String::from("Todo"),
            state_type: String::from("unstarted"),
        },
        assignee: None,
        team: Team {
            id: String::from("team-1"),
            name: String::from("Team"),
            key: String::from("CAR"),
        },
        project: None,
        priority: None,
        estimate: None,
        created_at: 1_000,
        updated_at: 2_000,
        due_date: None,
        completed_at: None,
        labels: Vec::new(),
    }
}

fn rules(default_mins: u32) -> SyncRules {
    SyncRules {
        default_task_duration_mins: default_mins,
        completed_linear_tag: String::from("motioned"),
        time_estimate_strategy: TimeEstimateStrategy {
            fibonacci: None,
            tshirt: None,
            linear: None,
            points: None,
            default_duration_mins: None,
        },
    }
}

fn rules_with_tables() -> SyncRules {
    let mut r = rules(60);
    r.time_estimate_strategy.fibonacci = Some(vec![(String::from("3"), 120u32)]);
    r.time_estimate_strategy.tshirt = Some(vec![(String::from("3"), 999u32)]);
    r
}

fn empty_task() -> MotionTask {
    MotionTask::default()
}

#[test]
fn decide_done_label_skips() {
    let it = issue("id-1", "CAR-1", "One");
    let r = decide_item_action(true, &None, &it, false).unwrap();
    assert!(matches!(r, ItemAction::Skip));
}

#[test]
fn decide_new_item_creates() {
    let it = issue("id-1", "CAR-1", "One");
    let r = decide_item_action(false, &None, &it, false).unwrap();
    assert!(matches!(r, ItemAction::Create));
}

#[test]
fn decide_synced_unchanged_skips_and_changed_updates() {
    let it = issue("id-1", "CAR-1", "One");
    let mut db = SyncDatabase::new();
    let now = 10;
    plan_item(&mut db, "src", &it, false, false, now).unwrap();
    record_create_success(&mut db, "src", "id-1", "entry", "task-9", now);
    let stored = db.mappings.get_mapping_by_linear_id("src", "id-1").unwrap();
    assert!(matches!(stored.status, MappingStatus::Synced));

    // unchanged: skip
    let r = decide_item_action(false, &Some(stored.clone()), &it, false).unwrap();
    assert!(matches!(r, ItemAction::Skip));

    // changed title: update with the known task id
    let mut changed = issue("id-1", "CAR-1", "Renamed");
    changed.updated_at = 2_000;
    let r = decide_item_action(false, &Some(stored.clone()), &changed, false).unwrap();
    match r {
        ItemAction::Update(id) => assert_eq!(id, "task-9"),
        _ => panic!("expected an update"),
    }

    // force flag: update even without changes
    let r = decide_item_action(false, &Some(stored), &it, true).unwrap();
    assert!(matches!(r, ItemAction::Update(_)));
}

#[test]
fn decide_synced_without_snapshot_fails() {
    let m = linear_motion::mapping::TaskMapping::new(
        String::from("id-1"),
        String::from("task-1"),
        String::from("src"),
        5,
    );
    let it = issue("id-1", "CAR-1", "One");
    let r = decide_item_action(false, &Some(m), &it, false);
    assert!(matches!(r, Err(Error::Storage(_))));
}

#[test]
fn second_pass_is_idempotent() {
    // After a successful pass, a second pass with no upstream change and
    // no force flag plans zero remote calls.
    let it = issue("id-1", "CAR-1", "One");
    let mut db = SyncDatabase::new();
    let (action, entry) = plan_item(&mut db, "src", &it, false, false, 10).unwrap();
    assert!(matches!(action, ItemAction::Create));
    let entry_id = entry.unwrap();
    record_create_success(&mut db, "src", "id-1", &entry_id, "task-1", 11);

    let (action2, entry2) = plan_item(&mut db, "src", &it, false, false, 12).unwrap();
    assert!(matches!(action2, ItemAction::Skip));
    assert!(entry2.is_none());

    // and after a successful update the same holds
    let mut changed = issue("id-1", "CAR-1", "Renamed");
    changed.updated_at = 3_000;
    let (action3, entry3) = plan_item(&mut db, "src", &changed, false, false, 13).unwrap();
    assert!(matches!(action3, ItemAction::Update(_)));
    record_update_success(&mut db, "src", &changed, &entry3.unwrap(), "task-1", 14);
    let (action4, entry4) = plan_item(&mut db, "src", &changed, false, false, 15).unwrap();
    assert!(matches!(action4, ItemAction::Skip));
    assert!(entry4.is_none());
}

#[test]
fn at_most_one_mapping_per_item() {
    // Many passes over the same item leave a single mapping.
    let it = issue("id-1", "CAR-1", "One");
    let mut db = SyncDatabase::new();
    for pass in 0..5i64 {
        let _ = plan_item(&mut db, "src", &it, false, false, 10 + pass).unwrap();
    }
    let all = db.mappings.list_all_mappings();
    assert_eq!(all.len(), 1);
    assert_eq!(all[0].linear_issue_id, "id-1");
}

#[test]
fn failed_creation_is_retried_as_a_create() {
    let it = issue("id-1", "CAR-1", "One");
    let mut db = SyncDatabase::new();
    let (a1, e1) = plan_item(&mut db, "src", &it, false, false, 10).unwrap();
    assert!(matches!(a1, ItemAction::Create));
    linear_motion::engine::record_create_failure(&mut db, "src", "id-1", &e1.unwrap(), "boom", 11);
    let stored = db.mappings.get_mapping_by_linear_id("src", "id-1").unwrap();
    assert!(matches!(stored.status, MappingStatus::Failed));

    // the failed mapping has no sink-task id, so the retry is a creation
    let (a2, e2) = plan_item(&mut db, "src", &it, false, false, 12).unwrap();
    assert!(matches!(a2, ItemAction::Create));
    assert!(e2.is_some());
}

#[test]
fn update_failure_leaves_mapping_untouched() {
    let it = issue("id-1", "CAR-1", "One");
    let mut db = SyncDatabase::new();
    let (_, entry) = plan_item(&mut db, "src", &it, false, false, 10).unwrap();
    record_create_success(&mut db, "src", "id-1", &entry.unwrap(), "task-1", 11);
    let before = db.mappings.get_mapping_by_linear_id("src", "id-1").unwrap();
    record_update_failure(&mut db, "missing-entry", "boom", 12);
    let after = db.mappings.get_mapping_by_linear_id("src", "id-1").unwrap();
    assert!(matches!(after.status, MappingStatus::Synced));
    assert_eq!(after.motion_task_id, before.motion_task_id);
    assert_eq!(after.sync_error, None);
}

#[test]
fn priority_mapping() {
    assert_eq!(priority_name(&Some(1)), "ASAP");
    assert_eq!(priority_name(&Some(2)), "HIGH");
    assert_eq!(priority_name(&Some(3)), "MEDIUM");
    assert_eq!(priority_name(&Some(4)), "LOW");
    assert_eq!(priority_name(&Some(5)), "LOW");
    assert_eq!(priority_name(&Some(0)), "LOW");
    assert_eq!(priority_name(&None), "MEDIUM");
}

#[test]
fn estimate_precedence() {
    // The fibonacci table wins over the t-shirt table for the same key.
    let r = rules_with_tables();
    let mut it = issue("id-1", "CAR-1", "One");
    it.estimate = Some(String::from("3"));
    let t = build_update_task("task-1", &it, &r, "acme");
    assert!(matches!(t.duration, Some(TaskDuration::Minutes(120))));
}

#[test]
fn estimate_fallback_to_default() {
    let r = rules_with_tables();
    let mut it = issue("id-1", "CAR-1", "One");
    it.estimate = Some(String::from("7"));
    let t = build_update_task("task-1", &it, &r, "acme");
    assert!(matches!(t.duration, Some(TaskDuration::Minutes(60))));
    let no_estimate = issue("id-2", "CAR-2", "Two");
    let t2 = build_update_task("task-2", &no_estimate, &r, "acme");
    assert!(matches!(t2.duration, Some(TaskDuration::Minutes(60))));
}

#[test]
fn task_name_and_description() {
    let mut it = issue("id-1", "CAR-126", "Reach out to dentist");
    let t = build_update_task("task-1", &it, &rules(60), "acme");
    assert_eq!(t.name, "[CAR-126] Reach out to dentist");
    assert_eq!(
        t.description.as_deref(),
        Some("Linear: https://linear.app/acme/issue/CAR-126")
    );

    it.description = Some(String::from("Call them."));
    let d = format_description_with_link(&it, "acme").unwrap();
    assert_eq!(d, "Call them.\n\nLinear: https://linear.app/acme/issue/CAR-126");
}

#[test]
fn due_date_conversion() {
    let mut it = issue("id-1", "CAR-1", "One");
    it.due_date = Some(String::from("2025-01-15"));
    let t = build_update_task("task-1", &it, &rules(60), "acme");
    assert_eq!(t.due_date, Some(1736985599));

    it.due_date = Some(String::from("not-a-date"));
    let t = build_update_task("task-1", &it, &rules(60), "acme");
    assert_eq!(t.due_date, None);

    it.due_date = None;
    let t = build_update_task("task-1", &it, &rules(60), "acme");
    assert_eq!(t.due_date, None);
}

#[test]
fn create_task_defaults_due_date_to_next_day() {
    let it = issue("id-1", "CAR-1", "One");
    let ws = vec![workspace("w1", "Somewhere")];
    let now = 1_000_000;
    let t = build_create_task(&it, &rules(60), "acme", &ws, now).unwrap();
    assert_eq!(t.due_date, Some(now + 86400));
    assert_eq!(t.completed, Some(false));
    let auto = t.auto_scheduled.unwrap();
    assert_eq!(auto.deadline_type, "SOFT");
    assert_eq!(auto.schedule, "Work hours");
    assert_eq!(auto.start_date, Some(now));
    assert_eq!(t.status.unwrap().name, "Todo");
}

fn workspace(id: &str, name: &str) -> MotionWorkspace {
    MotionWorkspace {
        id: String::from(id),
        name: String::from(name),
        team_id: None,
        workspace_type: String::from("INDIVIDUAL"),
    }
}

#[test]
fn create_task_picks_private_workspace() {
    let it = issue("id-1", "CAR-1", "One");
    let ws = vec![
        workspace("w1", "Other"),
        workspace("w2", "My Private Workspace"),
    ];
    let t = build_create_task(&it, &rules(60), "acme", &ws, 0).unwrap();
    assert_eq!(t.workspace.unwrap().id, "w2");

    let ws2 = vec![workspace("w1", "Other"), workspace("w3", "Another")];
    let t2 = build_create_task(&it, &rules(60), "acme", &ws2, 0).unwrap();
    assert_eq!(t2.workspace.unwrap().id, "w1");
}

#[test]
fn create_task_without_workspace_fails() {
    let it = issue("id-1", "CAR-1", "One");
    let t = build_create_task(&it, &rules(60), "acme", &Vec::new(), 0);
    match t {
        Err(Error::MotionApi { message }) => assert_eq!(message, "No Motion workspaces found"),
        _ => panic!("expected a sink error"),
    }
}

#[test]
fn marker_label_attached() {
    let it = issue("id-1", "CAR-1", "One");
    let t = build_update_task("task-1", &it, &rules(60), "acme");
    let labels = t.labels.unwrap();
    assert_eq!(labels.len(), 1);
    assert_eq!(labels[0].name, "linear-sync");
}

fn completed_task(id: &str, with_marker: bool) -> MotionTask {
    let mut t = MotionTask::default();
    t.id = Some(String::from(id));
    t.completed = Some(true);
    if with_marker {
        t.labels = Some(vec![Label { name: String::from("linear-sync") }]);
    } else {
        t.labels = Some(vec![Label { name: String::from("other") }]);
    }
    t
}

#[test]
fn sweep_tags_once_and_repeats_do_nothing() {
    // A completed, marked task with a resolvable mapping is tagged and
    // its mapping deleted; a repeated sweep with the item labeled does
    // nothing further.
    let it = issue("id-1", "CAR-1", "One");
    let mut db = SyncDatabase::new();
    let (_, entry) = plan_item(&mut db, "src", &it, false, false, 10).unwrap();
    record_create_success(&mut db, "src", "id-1", &entry.unwrap(), "task-1", 11);

    let task = completed_task("task-1", true);
    let mapping = db.mappings.get_mapping_by_motion_id("task-1");
    assert!(mapping.is_some());
    let step = sweep_step(&task, &mapping, true, false);
    assert_eq!(step, SweepStep::Tag);

    // the tag succeeded at the source: delete the mapping
    let removed = db.mappings.remove_mapping("src", "id-1");
    assert!(removed.is_some());
    assert!(db.mappings.get_mapping_by_motion_id("task-1").is_none());

    // repeated sweep: the item now carries the label
    let step2 = sweep_step(&task, &db.mappings.get_mapping_by_motion_id("task-1"), true, true);
    assert_eq!(step2, SweepStep::Ignore);
}

#[test]
fn sweep_ignores_unmarked_and_unresolvable_tasks() {
    let unmarked = completed_task("task-1", false);
    assert_eq!(sweep_step(&unmarked, &None, true, false), SweepStep::Ignore);
    let marked = completed_task("task-2", true);
    assert_eq!(sweep_step(&marked, &None, true, false), SweepStep::Ignore);
    let mut no_id = completed_task("task-3", true);
    no_id.id = None;
    assert_eq!(sweep_step(&no_id, &None, true, false), SweepStep::Ignore);
}

#[test]
fn sweep_skips_already_labeled_items() {
    let task = completed_task("task-1", true);
    let m = linear_motion::mapping::TaskMapping::new(
        String::from("id-1"),
        String::from("task-1"),
        String::from("src"),
        5,
    );
    assert_eq!(sweep_step(&task, &Some(m), true, true), SweepStep::Ignore);
}

#[test]
fn source_config_lookup() {
    let cfg = linear_motion::config::AppConfig {
        motion_api_key: String::from("k"),
        sync_sources: vec![
            linear_motion::config::SyncSource {
                name: String::from("one"),
                linear_api_key: String::from("a"),
                projects: None,
                webhook_base_url: None,
                sync_rules: None,
            },
            linear_motion::config::SyncSource {
                name: String::from("two"),
                linear_api_key: String::from("b"),
                projects: None,
                webhook_base_url: None,
                sync_rules: None,
            },
        ],
        global_sync_rules: rules(60),
        database_path: None,
        polling_interval_seconds: 300,
        schedule_overrides: None,
    };
    assert_eq!(find_source_config(&cfg, "two"), Some(1));
    assert_eq!(find_source_config(&cfg, "three"), None);
}

#[test]
fn duration_from_minutes() {
    assert!(matches!(TaskDuration::from_minutes(0), TaskDuration::NoDuration));
    assert!(matches!(TaskDuration::from_minutes(30), TaskDuration::Minutes(30)));
    assert!(matches!(TaskDuration::from(120u32), TaskDuration::Minutes(120)));
    let _ = empty_task();
}
