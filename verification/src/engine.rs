//! The reconciliation engine's decision logic: what to do with each
//! fetched item, how an item becomes a sink task, and how the completion
//! sweep closes the loop.  The surrounding driver performs the remote
//! calls and hands their outcomes back to the record functions here.

use vstd::prelude::*;

use crate::config::{spec_convert_by_value, AppConfig, SyncRules, SyncRulesView};
use crate::db::SyncDatabase;
use crate::error::Error;
use crate::issues::{issue_differs, opt_view, spec_issue_differs, LinearIssue, LinearIssueView};
use crate::mapping::{
    spec_key, spec_mark_failed_mapping, spec_mark_synced_mapping, spec_pending_mapping,
    spec_update_item_mapping, MappingStatus, TaskMapping, TaskMappingView,
};
use crate::services::{date_epoch, due_date_instant};
use crate::status::{
    spec_apply_stats, spec_mark_completed, spec_new_entry, spec_new_source_status,
    spec_update_status, SyncStatus,
};
use crate::tasks::{
    marker_label, spec_duration_from_minutes, spec_marker_label, spec_task_has_marker,
    AutoScheduled, Label, MotionTask, MotionWorkspace, Status, TaskDuration,
};

verus! {

/// What the engine decides to do with one fetched item.
pub enum ItemAction {
    /// Touch nothing: the item is externally closed or unchanged.
    Skip,
    /// Create a sink task for the item.
    Create,
    /// Update the sink task with this id.
    Update(String),
}

/// Mathematical model of a decision.
pub ghost enum ItemActionView {
    Skip,
    Create,
    Update(Seq<char>),
}

impl View for ItemAction {
    type V = ItemActionView;

    open spec fn view(&self) -> ItemActionView {
        match self {
            ItemAction::Skip => ItemActionView::Skip,
            ItemAction::Create => ItemActionView::Create,
            ItemAction::Update(id) => ItemActionView::Update(id@),
        }
    }
}

/// Whether a mapping proceeds as an update or a creation: an update
/// exactly when it already carries a sink-task id.
pub open spec fn spec_proceed(m: TaskMappingView) -> ItemActionView {
    match m.motion_task_id {
        Some(id) => ItemActionView::Update(id),
        None => ItemActionView::Create,
    }
}

/// The per-item decision, a pure function of the done label, the stored
/// mapping, the fetched item and the force flag.  `None` stands for the
/// one failure: a synced mapping without a stored snapshot cannot be
/// compared.
pub open spec fn spec_decide(
    has_done_label: bool,
    existing: Option<TaskMappingView>,
    item: LinearIssueView,
    force_update: bool,
) -> Option<ItemActionView> {
    if has_done_label {
        Some(ItemActionView::Skip)
    } else {
        match existing {
            None => Some(ItemActionView::Create),
            Some(m) => {
                if m.status == MappingStatus::Synced && !force_update {
                    match m.linear_issue_data {
                        None => None,
                        Some(snap) => if !spec_issue_differs(snap, item) {
                            Some(ItemActionView::Skip)
                        } else {
                            Some(spec_proceed(m))
                        },
                    }
                } else {
                    Some(spec_proceed(m))
                }
            },
        }
    }
}

/// Whether a fetched item has changes that require updating the sink
/// task; fails when the mapping carries no snapshot to compare against.
pub fn issue_needs_update(mapping: &TaskMapping, current_issue: &LinearIssue) -> (r: Result<
    bool,
    Error,
>)
    ensures
        match mapping@.linear_issue_data {
            Some(snap) => r matches Ok(b) && b == spec_issue_differs(snap, current_issue@),
            None => r matches Err(e) && e is Storage,
        },
{
    match &mapping.linear_issue_data {
        Some(snap) => Ok(issue_differs(snap, current_issue)),
        None => Err(
            Error::Storage(String::from_str("stored mapping carries no item snapshot to compare")),
        ),
    }
}

/// Decides what to do with one fetched item: skip it, create a sink task,
/// or update the one it already has.
pub fn decide_item_action(
    has_done_label: bool,
    existing: &Option<TaskMapping>,
    item: &LinearIssue,
    force_update: bool,
) -> (r: Result<ItemAction, Error>)
    ensures
        match spec_decide(has_done_label, view_opt_mapping(*existing), item@, force_update) {
            Some(a) => r matches Ok(x) && x@ == a,
            None => r matches Err(e) && e is Storage,
        },
{
    if has_done_label {
        return Ok(ItemAction::Skip);
    }
    match existing {
        None => Ok(ItemAction::Create),
        Some(m) => {
            if matches!(m.status, MappingStatus::Synced) && !force_update {
                let changed = match issue_needs_update(m, item) {
                    Ok(b) => b,
                    Err(e) => {
                        return Err(e);
                    },
                };
                if !changed {
                    return Ok(ItemAction::Skip);
                }
            }
            match &m.motion_task_id {
                Some(id) => Ok(ItemAction::Update(id.clone())),
                None => Ok(ItemAction::Create),
            }
        },
    }
}

/// The view of an optional stored mapping.
pub open spec fn view_opt_mapping(m: Option<TaskMapping>) -> Option<TaskMappingView> {
    match m {
        Some(x) => Some(x@),
        None => None,
    }
}

/// Law: for every item not carrying the done label exactly one of create,
/// update and skip is chosen, and the choice depends only on the stored
/// mapping's state (presence, status, sink-task id, snapshot presence),
/// on whether the snapshot equals the item on the compared fields, and on
/// the force flag — not on anything else about the item.
pub proof fn lemma_decision_pure(
    has_done_label: bool,
    m1: Option<TaskMappingView>,
    i1: LinearIssueView,
    m2: Option<TaskMappingView>,
    i2: LinearIssueView,
    force_update: bool,
)
    requires
        match (m1, m2) {
            (Some(a), Some(b)) => {
                &&& a.status == b.status
                &&& a.motion_task_id == b.motion_task_id
                &&& (a.linear_issue_data is Some <==> b.linear_issue_data is Some)
                &&& match (a.linear_issue_data, b.linear_issue_data) {
                    (Some(s1), Some(s2)) => spec_issue_differs(s1, i1) == spec_issue_differs(
                        s2,
                        i2,
                    ),
                    _ => true,
                }
            },
            (None, None) => true,
            _ => false,
        },
    ensures
        spec_decide(has_done_label, m1, i1, force_update) == spec_decide(
            has_done_label,
            m2,
            i2,
            force_update,
        ),
{
}

/// Law: a second pass over an unchanged item is free.  After a successful
/// sync the mapping is synced and its snapshot equals the item, and with
/// the force flag off the decision for that item is to skip — no further
/// remote create or update call is made.
pub proof fn lemma_second_pass_skips(m: TaskMappingView, item: LinearIssueView)
    requires
        m.status == MappingStatus::Synced,
        m.linear_issue_data == Some(item),
    ensures
        spec_decide(false, Some(m), item, false) == Some(ItemActionView::Skip),
{
}

/// Law: both ways a pass records success lead to a state the next pass
/// skips: marking a mapping synced leaves it synced with its snapshot
/// kept, and refreshing the snapshot of a synced mapping stores the item
/// itself, so in each case a second pass over the same item decides to
/// skip.
pub proof fn lemma_pass_idempotent(
    m: TaskMappingView,
    item: LinearIssueView,
    task_id: Seq<char>,
    now: i64,
)
    ensures
        m.linear_issue_data == Some(item) ==> spec_decide(
            false,
            Some(spec_mark_synced_mapping(m, task_id, now)),
            item,
            false,
        ) == Some(ItemActionView::Skip),
        m.status == MappingStatus::Synced ==> spec_decide(
            false,
            Some(spec_update_item_mapping(m, item, now)),
            item,
            false,
        ) == Some(ItemActionView::Skip),
{
}

/// The sink priority an item's priority level maps to: 1, 2 and 3 become
/// the three highest urgencies, everything else falls through to the
/// lowest, and an absent priority lands in the middle.
pub open spec fn spec_priority_name(p: Option<u32>) -> Seq<char> {
    match p {
        Some(n) => if n == 1 {
            "ASAP"@
        } else if n == 2 {
            "HIGH"@
        } else if n == 3 {
            "MEDIUM"@
        } else {
            "LOW"@
        },
        None => "MEDIUM"@,
    }
}

/// Maps an item's priority level to the sink's priority name.
pub fn priority_name(p: &Option<u32>) -> (r: String)
    ensures
        r@ == spec_priority_name(*p),
{
    match p {
        Some(n) => {
            if *n == 1 {
                String::from_str("ASAP")
            } else if *n == 2 {
                String::from_str("HIGH")
            } else if *n == 3 {
                String::from_str("MEDIUM")
            } else {
                String::from_str("LOW")
            }
        },
        None => String::from_str("MEDIUM"),
    }
}

/// The duration in minutes an item gets: its estimate run through the
/// conversion strategy, the rule set's default where no table knows the
/// key or no estimate is present.
pub open spec fn spec_duration_minutes(estimate: Option<Seq<char>>, rules: SyncRulesView) -> u32 {
    match estimate {
        Some(k) => match spec_convert_by_value(rules.time_estimate_strategy, k) {
            Some(d) => d,
            None => rules.default_task_duration_mins,
        },
        None => rules.default_task_duration_mins,
    }
}

/// Computes the duration in minutes an item's task gets.
pub fn duration_minutes(issue: &LinearIssue, sync_rules: &SyncRules) -> (r: u32)
    ensures
        r == spec_duration_minutes(issue@.estimate, sync_rules@),
{
    match &issue.estimate {
        Some(k) => match sync_rules.time_estimate_strategy.convert_estimate_by_value(k) {
            Some(d) => d,
            None => sync_rules.default_task_duration_mins,
        },
        None => sync_rules.default_task_duration_mins,
    }
}

/// The link back to a source item.
pub open spec fn spec_issue_link(source: Seq<char>, identifier: Seq<char>) -> Seq<char> {
    "https://linear.app/"@ + source + "/issue/"@ + identifier
}

/// The task description an item gets: its description with the link back
/// appended, or just the link line where the description is empty.
pub open spec fn spec_description(item: LinearIssueView, source: Seq<char>) -> Seq<char> {
    let link = spec_issue_link(source, item.identifier);
    let base = match item.description {
        Some(d) => d,
        None => Seq::empty(),
    };
    if base.len() == 0 {
        "Linear: "@ + link
    } else {
        base + "\n\nLinear: "@ + link
    }
}

/// The task name an item gets: its identifier in brackets, then its
/// title.
pub open spec fn spec_task_name(item: LinearIssueView) -> Seq<char> {
    "["@ + item.identifier + "] "@ + item.title
}

fn issue_link(sync_source_name: &str, issue: &LinearIssue) -> (r: String)
    ensures
        r@ == spec_issue_link(sync_source_name@, issue@.identifier),
{
    let mut s = String::from_str("https://linear.app/");
    s.append(sync_source_name);
    s.append("/issue/");
    s.append(issue.identifier.as_str());
    proof {
        assert(s@ =~= spec_issue_link(sync_source_name@, issue@.identifier));
    }
    s
}

/// Builds the task name for an item.
pub fn build_task_name(issue: &LinearIssue) -> (r: String)
    ensures
        r@ == spec_task_name(issue@),
{
    let mut s = String::from_str("[");
    s.append(issue.identifier.as_str());
    s.append("] ");
    s.append(issue.title.as_str());
    proof {
        assert(s@ =~= spec_task_name(issue@));
    }
    s
}

/// Formats an item's description with the link back to the item.
pub fn format_description_with_link(issue: &LinearIssue, sync_source_name: &str) -> (r: Option<
    String,
>)
    ensures
        r matches Some(d) && d@ == spec_description(issue@, sync_source_name@),
{
    let link = issue_link(sync_source_name, issue);
    let base: String = match &issue.description {
        Some(d) => d.clone(),
        None => String::new(),
    };
    if base.as_str().is_empty() {
        let mut s = String::from_str("Linear: ");
        s.append(link.as_str());
        proof {
            assert(s@ =~= spec_description(issue@, sync_source_name@));
        }
        Some(s)
    } else {
        let mut s = base;
        s.append("\n\nLinear: ");
        s.append(link.as_str());
        proof {
            assert(s@ =~= spec_description(issue@, sync_source_name@));
        }
        Some(s)
    }
}

/// The instant an item's due date names for an update: the calendar date
/// at the end of the day, nothing where none is set or the text is not a
/// date.
pub open spec fn spec_due_update(item: LinearIssueView) -> Option<i64> {
    match item.due_date {
        Some(d) => date_epoch(d),
        None => None,
    }
}

/// The instant an item's due date names for a creation: as for an
/// update, but a day from now where no date can be had.
pub open spec fn spec_due_create(item: LinearIssueView, now: i64) -> int {
    match item.due_date {
        Some(d) => match date_epoch(d) {
            Some(t) => t as int,
            None => now + 86400,
        },
        None => now + 86400,
    }
}

fn due_for_update(issue: &LinearIssue) -> (r: Option<i64>)
    ensures
        r == spec_due_update(issue@),
{
    match &issue.due_date {
        Some(d) => due_date_instant(d.as_str()),
        None => None,
    }
}

fn marker_labels() -> (r: Vec<Label>)
    ensures
        r@.len() == 1,
        r@[0].name@ == spec_marker_label(),
{
    let mut ls: Vec<Label> = Vec::new();
    ls.push(Label { name: String::from_str(marker_label()) });
    ls
}

/// What every built task says, whether for a creation or an update.
pub open spec fn spec_task_core_fields(
    t: MotionTask,
    item: LinearIssueView,
    rules: SyncRulesView,
    source: Seq<char>,
) -> bool {
    &&& t.name@ == spec_task_name(item)
    &&& opt_view(t.description) == Some(spec_description(item, source))
    &&& t.duration == Some(spec_duration_from_minutes(spec_duration_minutes(item.estimate, rules)))
    &&& opt_view(t.priority) == Some(spec_priority_name(item.priority))
    &&& (t.labels matches Some(ls) && ls@.len() == 1 && ls@[0].name@ == spec_marker_label())
}

/// Builds the task update an item maps to.
pub fn build_update_task(
    motion_task_id: &str,
    issue: &LinearIssue,
    sync_rules: &SyncRules,
    sync_source_name: &str,
) -> (r: MotionTask)
    ensures
        spec_task_core_fields(r, issue@, sync_rules@, sync_source_name@),
        opt_view(r.id) == Some(motion_task_id@),
        r.due_date == spec_due_update(issue@),
        r.workspace is None,
        r.auto_scheduled is None,
        r.status is None,
        r.completed is None,
{
    let mut t = MotionTask::default();
    t.id = Some(motion_task_id.to_owned());
    t.name = build_task_name(issue);
    t.description = format_description_with_link(issue, sync_source_name);
    t.duration = Some(TaskDuration::from_minutes(duration_minutes(issue, sync_rules)));
    t.priority = Some(priority_name(&issue.priority));
    t.due_date = due_for_update(issue);
    t.labels = Some(marker_labels());
    t
}

/// The first workspace named "My Private Workspace" at or after the given
/// position, if any.
pub open spec fn spec_find_private(ws: Seq<MotionWorkspace>, i: int) -> Option<int>
    decreases ws.len() - i,
{
    if i < 0 || i >= ws.len() {
        None
    } else if ws[i].name@ == "My Private Workspace"@ {
        Some(i)
    } else {
        spec_find_private(ws, i + 1)
    }
}

/// The workspace a created task lands in: the one named "My Private
/// Workspace" where it exists, else the first one, else none at all.
pub open spec fn spec_select_workspace(ws: Seq<MotionWorkspace>) -> Option<int> {
    match spec_find_private(ws, 0) {
        Some(i) => Some(i),
        None => if ws.len() > 0 {
            Some(0)
        } else {
            None
        },
    }
}

/// Picks the workspace a created task lands in.
pub fn select_workspace(workspaces: &Vec<MotionWorkspace>) -> (r: Option<usize>)
    ensures
        match r {
            Some(i) => i < workspaces@.len() && spec_select_workspace(workspaces@) == Some(
                i as int,
            ),
            None => spec_select_workspace(workspaces@) is None && workspaces@.len() == 0,
        },
{
    let wanted = String::from_str("My Private Workspace");
    let mut i: usize = 0;
    while i < workspaces.len()
        invariant
            0 <= i <= workspaces.len(),
            wanted@ == "My Private Workspace"@,
            spec_find_private(workspaces@, 0) == spec_find_private(workspaces@, i as int),
        decreases workspaces.len() - i,
    {
        if workspaces[i].name.eq(&wanted) {
            return Some(i);
        }
        i = i + 1;
    }
    if workspaces.len() > 0 {
        Some(0)
    } else {
        None
    }
}

/// Builds the task a new item maps to, picking the target workspace;
/// fails exactly when the sink has no workspace at all.
pub fn build_create_task(
    issue: &LinearIssue,
    sync_rules: &SyncRules,
    sync_source_name: &str,
    workspaces: &Vec<MotionWorkspace>,
    now: i64,
) -> (r: Result<MotionTask, Error>)
    requires
        now <= i64::MAX - 86400,
    ensures
        match spec_select_workspace(workspaces@) {
            Some(wi) => r matches Ok(t) && {
                &&& spec_task_core_fields(t, issue@, sync_rules@, sync_source_name@)
                &&& t.id is None
                &&& t.due_date matches Some(d) && d == spec_due_create(issue@, now)
                &&& (t.workspace matches Some(w) && w.id@ == workspaces@[wi].id@ && w.name@
                    == workspaces@[wi].name@ && w.team_id is None && w.workspace_type@
                    == "INDIVIDUAL"@)
                &&& (t.auto_scheduled matches Some(a) && a.start_date == Some(now)
                    && a.deadline_type@ == "SOFT"@ && a.schedule@ == "Work hours"@)
                &&& (t.status matches Some(s) && s.name@ == "Todo"@ && !s.is_default_status
                    && !s.is_resolved_status)
                &&& t.completed == Some(false)
            },
            None => r matches Err(e) && (e matches Error::MotionApi { message } && message@
                == "No Motion workspaces found"@),
        },
{
    let wi = match select_workspace(workspaces) {
        Some(i) => i,
        None => {
            return Err(
                Error::MotionApi { message: String::from_str("No Motion workspaces found") },
            );
        },
    };
    let w = &workspaces[wi];
    let due: i64 = match due_for_update(issue) {
        Some(t) => t,
        None => now + 86400,
    };
    let mut t = MotionTask::default();
    t.name = build_task_name(issue);
    t.description = format_description_with_link(issue, sync_source_name);
    t.duration = Some(TaskDuration::from_minutes(duration_minutes(issue, sync_rules)));
    t.priority = Some(priority_name(&issue.priority));
    t.due_date = Some(due);
    t.workspace = Some(
        MotionWorkspace {
            id: w.id.clone(),
            name: w.name.clone(),
            team_id: None,
            workspace_type: String::from_str("INDIVIDUAL"),
        },
    );
    t.auto_scheduled = Some(
        AutoScheduled {
            start_date: Some(now),
            deadline_type: String::from_str("SOFT"),
            schedule: String::from_str("Work hours"),
        },
    );
    t.status = Some(
        Status {
            name: String::from_str("Todo"),
            is_default_status: false,
            is_resolved_status: false,
        },
    );
    t.completed = Some(false);
    t.labels = Some(marker_labels());
    Ok(t)
}


/// Plans the work for one fetched item: decides skip, create or update,
/// writes the pending mapping the first time an item is seen (before any
/// remote call is attempted), and opens an in-progress attempt row for
/// anything that proceeds.  Fails, leaving the stores untouched, exactly
/// when a synced mapping carries no snapshot to compare.
pub fn plan_item(
    db: &mut SyncDatabase,
    source_name: &str,
    issue: &LinearIssue,
    has_done_label: bool,
    force_update: bool,
    now: i64,
) -> (r: Result<(ItemAction, Option<String>), Error>)
    requires
        old(db).wf(),
    ensures
        final(db).wf(),
        final(db).status.source_stats() == old(db).status.source_stats(),
        ({
            let k = (source_name@, issue@.id);
            let existing = if old(db).mappings@.contains_key(k) {
                Some(old(db).mappings@[k])
            } else {
                None
            };
            match spec_decide(has_done_label, existing, issue@, force_update) {
                None => {
                    &&& r matches Err(e) && e is Storage
                    &&& final(db).mappings@ == old(db).mappings@
                    &&& final(db).status.statuses() == old(db).status.statuses()
                },
                Some(a) => r matches Ok(p) && p.0@ == a && {
                    &&& final(db).mappings@ == if a is Skip || existing is Some {
                        old(db).mappings@
                    } else {
                        old(db).mappings@.insert(k, spec_pending_mapping(source_name@, issue@, now))
                    }
                    &&& match a {
                        ItemActionView::Skip => p.1 is None && final(db).status.statuses() == old(
                            db,
                        ).status.statuses(),
                        _ => p.1 matches Some(id) && id@.len() == 36 && final(db).status.statuses()
                            == old(db).status.statuses().insert(
                            id@,
                            spec_new_entry(id@, source_name@, issue@.id, now),
                        ),
                    }
                },
            }
        }),
{
    let existing = db.mappings.get_mapping_by_linear_id(source_name, &issue.id);
    let decision = match decide_item_action(has_done_label, &existing, issue, force_update) {
        Ok(d) => d,
        Err(e) => {
            return Err(e);
        },
    };
    if matches!(decision, ItemAction::Skip) {
        return Ok((ItemAction::Skip, None));
    }
    if existing.is_none() {
        let _ = db.mappings.create_pending_mapping(source_name, issue, now);
    }
    let entry = db.status.create_status_entry(source_name.to_owned(), issue.id.clone(), now);
    Ok((decision, Some(entry.id)))
}

/// Records a successful creation: the mapping becomes synced with the
/// new sink-task id, and the attempt row completes.
pub fn record_create_success(
    db: &mut SyncDatabase,
    source_name: &str,
    issue_id: &str,
    entry_id: &str,
    motion_task_id: &str,
    now: i64,
)
    requires
        old(db).wf(),
    ensures
        final(db).wf(),
        final(db).mappings@ == if old(db).mappings@.contains_key((source_name@, issue_id@)) {
            old(db).mappings@.insert(
                (source_name@, issue_id@),
                spec_mark_synced_mapping(
                    old(db).mappings@[(source_name@, issue_id@)],
                    motion_task_id@,
                    now,
                ),
            )
        } else {
            old(db).mappings@
        },
        final(db).status.statuses() == if old(db).status.statuses().contains_key(entry_id@) {
            old(db).status.statuses().insert(
                entry_id@,
                spec_mark_completed(old(db).status.statuses()[entry_id@], motion_task_id@, now),
            )
        } else {
            old(db).status.statuses()
        },
        final(db).status.source_stats() == old(db).status.source_stats(),
{
    db.mappings.mark_synced(source_name, issue_id, motion_task_id.to_owned(), now);
    db.status.mark_completed(entry_id, motion_task_id.to_owned(), now);
}

/// Records a failed creation: the mapping is marked failed with the
/// error, and so is the attempt row.
pub fn record_create_failure(
    db: &mut SyncDatabase,
    source_name: &str,
    issue_id: &str,
    entry_id: &str,
    error: &str,
    now: i64,
)
    requires
        old(db).wf(),
    ensures
        final(db).wf(),
        final(db).mappings@ == if old(db).mappings@.contains_key((source_name@, issue_id@)) {
            old(db).mappings@.insert(
                (source_name@, issue_id@),
                spec_mark_failed_mapping(
                    old(db).mappings@[(source_name@, issue_id@)],
                    error@,
                    now,
                ),
            )
        } else {
            old(db).mappings@
        },
        final(db).status.statuses() == if old(db).status.statuses().contains_key(entry_id@) {
            old(db).status.statuses().insert(
                entry_id@,
                spec_update_status(
                    old(db).status.statuses()[entry_id@],
                    SyncStatus::Failed,
                    Some(error@),
                    now,
                ),
            )
        } else {
            old(db).status.statuses()
        },
        final(db).status.source_stats() == old(db).status.source_stats(),
{
    db.mappings.mark_failed(source_name, issue_id, error.to_owned(), now);
    db.status.mark_failed(entry_id, error.to_owned(), now);
}

/// Records a successful update: the stored snapshot is refreshed so
/// future diffs compare against the latest state, and the attempt row
/// completes.
pub fn record_update_success(
    db: &mut SyncDatabase,
    source_name: &str,
    issue: &LinearIssue,
    entry_id: &str,
    motion_task_id: &str,
    now: i64,
)
    requires
        old(db).wf(),
    ensures
        final(db).wf(),
        final(db).mappings@ == if old(db).mappings@.contains_key((source_name@, issue@.id)) {
            old(db).mappings@.insert(
                (source_name@, issue@.id),
                spec_update_item_mapping(
                    old(db).mappings@[(source_name@, issue@.id)],
                    issue@,
                    now,
                ),
            )
        } else {
            old(db).mappings@
        },
        final(db).status.statuses() == if old(db).status.statuses().contains_key(entry_id@) {
            old(db).status.statuses().insert(
                entry_id@,
                spec_mark_completed(old(db).status.statuses()[entry_id@], motion_task_id@, now),
            )
        } else {
            old(db).status.statuses()
        },
        final(db).status.source_stats() == old(db).status.source_stats(),
{
    db.mappings.update_issue_data(source_name, &issue.id, issue, now);
    db.status.mark_completed(entry_id, motion_task_id.to_owned(), now);
}

/// Records a failed update: only the attempt row is marked failed — the
/// mapping keeps its status, its error fields and its last known-good
/// sink-task id untouched.
pub fn record_update_failure(db: &mut SyncDatabase, entry_id: &str, error: &str, now: i64)
    requires
        old(db).wf(),
    ensures
        final(db).wf(),
        final(db).mappings@ == old(db).mappings@,
        final(db).status.statuses() == if old(db).status.statuses().contains_key(entry_id@) {
            old(db).status.statuses().insert(
                entry_id@,
                spec_update_status(
                    old(db).status.statuses()[entry_id@],
                    SyncStatus::Failed,
                    Some(error@),
                    now,
                ),
            )
        } else {
            old(db).status.statuses()
        },
        final(db).status.source_stats() == old(db).status.source_stats(),
{
    db.status.mark_failed(entry_id, error.to_owned(), now);
}

/// Records the outcome of one whole source pass in that source's
/// counters; per-item outcomes were already counted in their attempt
/// rows.
pub fn record_source_pass(
    db: &mut SyncDatabase,
    source_name: &str,
    success: bool,
    error: Option<String>,
    now: i64,
)
    requires
        old(db).wf(),
    ensures
        final(db).wf(),
        final(db).mappings@ == old(db).mappings@,
        final(db).status.statuses() == old(db).status.statuses(),
        final(db).status.source_stats() == old(db).status.source_stats().insert(
            source_name@,
            spec_apply_stats(
                if old(db).status.source_stats().contains_key(source_name@) {
                    old(db).status.source_stats()[source_name@]
                } else {
                    spec_new_source_status(source_name@)
                },
                success,
                opt_view(error),
                now,
            ),
        ),
{
    db.status.update_source_stats(source_name, success, error, now);
}

/// What the completion sweep does with one completed sink task.
#[derive(Clone, Copy, PartialEq, Eq, Structural, Debug)]
pub enum SweepStep {
    /// Leave everything as it is.
    Ignore,
    /// Add the done label to the source item and, once that succeeds,
    /// delete the mapping.
    Tag,
}

/// The sweep's decision for one completed task: tag exactly when the task
/// carries the marker label, a mapping resolves it, the mapping's source
/// is configured, and the source item is not yet labeled.
pub open spec fn spec_sweep_step(
    marked: bool,
    mapping: Option<TaskMappingView>,
    source_known: bool,
    already_labeled: bool,
) -> SweepStep {
    if marked && mapping is Some && source_known && !already_labeled {
        SweepStep::Tag
    } else {
        SweepStep::Ignore
    }
}

/// Decides what the completion sweep does with one completed task.
pub fn sweep_step(
    task: &MotionTask,
    mapping: &Option<TaskMapping>,
    source_known: bool,
    already_labeled: bool,
) -> (r: SweepStep)
    ensures
        r == spec_sweep_step(
            task.id is Some && spec_task_has_marker(*task),
            view_opt_mapping(*mapping),
            source_known,
            already_labeled,
        ),
{
    let marked = task.id.is_some() && crate::tasks::task_has_marker(task);
    if marked && mapping.is_some() && source_known && !already_labeled {
        SweepStep::Tag
    } else {
        SweepStep::Ignore
    }
}

/// Finds the configured source with the given name: the first match in
/// configuration order.
pub fn find_source_config(config: &AppConfig, name: &str) -> (r: Option<usize>)
    ensures
        match r {
            Some(i) => i < config.sync_sources@.len() && config.sync_sources@[i as int]@.name
                == name@,
            None => forall|j: int|
                0 <= j < config.sync_sources@.len() ==> (#[trigger] config.sync_sources@[j])@.name
                    != name@,
        },
{
    let wanted = name.to_owned();
    let mut i: usize = 0;
    while i < config.sync_sources.len()
        invariant
            0 <= i <= config.sync_sources.len(),
            wanted@ == name@,
            forall|j: int|
                0 <= j < i ==> (#[trigger] config.sync_sources@[j])@.name != name@,
        decreases config.sync_sources.len() - i,
    {
        if config.sync_sources[i].name.eq(&wanted) {
            return Some(i);
        }
        i = i + 1;
    }
    None
}


/// The sink-task id of a sweep candidate: present exactly when the
/// completed task has an id and carries the marker label.
pub fn task_id_of_sweep_candidate(task: &MotionTask) -> (r: Option<String>)
    ensures
        match r {
            Some(id) => task.id matches Some(t) && id@ == t@ && spec_task_has_marker(*task),
            None => !(task.id is Some && spec_task_has_marker(*task)),
        },
{
    if crate::tasks::task_has_marker(task) {
        match &task.id {
            Some(id) => Some(id.clone()),
            None => None,
        }
    } else {
        None
    }
}

/// Law: the completion sweep tags and deletes exactly once.  A completed
/// task carrying the marker, with a resolvable mapping and a configured
/// source whose item is not yet labeled, is due to be tagged; deleting
/// the mapping removes its key from the store; and a repeated sweep,
/// with the item now labeled, decides to touch nothing, whatever else it
/// sees.
pub proof fn lemma_sweep_completion(
    m0: Map<(Seq<char>, Seq<char>), TaskMappingView>,
    mv: TaskMappingView,
)
    ensures
        spec_sweep_step(true, Some(mv), true, false) == SweepStep::Tag,
        !m0.remove(spec_key(mv)).contains_key(spec_key(mv)),
        forall|marked: bool, m: Option<TaskMappingView>, known: bool|
            spec_sweep_step(marked, m, known, true) == SweepStep::Ignore,
{
}

} // verus!
