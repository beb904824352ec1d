use linear_motion::issues::{has_label, issue_differs, IssueLabel, LinearIssue, Team, WorkflowState};
use linear_motion::tasks::{task_has_marker, task_is_completed, Label, MotionTask};

fn issue() -> LinearIssue {
    LinearIssue {
        id: String::from("id-1"),
        identifier: String::from("CAR-1"),
        title: String::from("One"),
        description: Some(String::from("desc")),
        state: WorkflowState {
            id: String::from("s"),
            name: String::from("Todo"),
            state_type: String::from("unstarted"),
        },
        assignee: None,
        team: Team {
            id: String::from("t"),
            name: String::from("Team"),
            key: String::from("CAR"),
        },
        project: None,
        priority: Some(2),
        estimate: Some(String::from("3")),
        created_at: 1,
        updated_at: 2,
        due_date: Some(String::from("2025-01-15")),
        completed_at: None,
        labels: Vec::new(),
    }
}

#[test]
fn unchanged_issue_does_not_differ() {
    let a = issue();
    let b = a.clone();
    assert!(!issue_differs(&a, &b));
}

#[test]
fn each_compared_field_triggers_a_difference() {
    let a = issue();

    let mut b = a.clone();
    b.title = String::from("Other");
    assert!(issue_differs(&a, &b));

    let mut b = a.clone();
    b.description = None;
    assert!(issue_differs(&a, &b));

    let mut b = a.clone();
    b.estimate = Some(String::from("5"));
    assert!(issue_differs(&a, &b));

    let mut b = a.clone();
    b.priority = None;
    assert!(issue_differs(&a, &b));

    let mut b = a.clone();
    b.due_date = Some(String::from("2025-02-01"));
    assert!(issue_differs(&a, &b));

    let mut b = a.clone();
    b.updated_at = 3;
    assert!(issue_differs(&a, &b));
}

#[test]
fn uncompared_fields_do_not_trigger_a_difference() {
    let a = issue();
    let mut b = a.clone();
    b.state.name = String::from("In Progress");
    b.team.name = String::from("Renamed Team");
    b.created_at = 99;
    b.completed_at = Some(5);
    assert!(!issue_differs(&a, &b));
}

#[test]
fn label_search_by_name() {
    let labels = vec![
        IssueLabel {
            id: String::from("l1"),
            name: String::from("bug"),
            color: String::from("#f00"),
        },
        IssueLabel {
            id: String::from("l2"),
            name: String::from("motioned"),
            color: String::from("#0f0"),
        },
    ];
    assert!(has_label(&labels, "motioned"));
    assert!(has_label(&labels, "bug"));
    assert!(!has_label(&labels, "Motioned"));
    assert!(!has_label(&Vec::new(), "motioned"));
}

#[test]
fn marker_and_completion_checks() {
    let mut t = MotionTask::default();
    assert!(!task_has_marker(&t));
    assert!(!task_is_completed(&t));

    t.labels = Some(vec![Label { name: String::from("linear-sync") }]);
    t.completed = Some(true);
    assert!(task_has_marker(&t));
    assert!(task_is_completed(&t));

    t.labels = Some(vec![Label { name: String::from("other") }]);
    t.completed = Some(false);
    assert!(!task_has_marker(&t));
    assert!(!task_is_completed(&t));
}
