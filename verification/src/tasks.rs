//! The sink side of the sync: tasks as the task-scheduling service holds
//! them, reduced to plain values.  Instants are seconds since the Unix
//! epoch.

use vstd::prelude::*;

verus! {

/// How long a task is scheduled for.
#[derive(Clone, Copy, PartialEq, Eq, Structural, Debug)]
pub enum TaskDuration {
    NoDuration,
    Reminder,
    Minutes(u32),
}

/// The duration a number of minutes stands for: zero means no duration.
pub open spec fn spec_duration_from_minutes(m: u32) -> TaskDuration {
    if m == 0 {
        TaskDuration::NoDuration
    } else {
        TaskDuration::Minutes(m)
    }
}

impl TaskDuration {
    /// Turns a number of minutes into a duration; zero means no duration.
    pub fn from_minutes(minutes: u32) -> (r: Self)
        ensures
            r == spec_duration_from_minutes(minutes),
    {
        if minutes == 0 {
            TaskDuration::NoDuration
        } else {
            TaskDuration::Minutes(minutes)
        }
    }
}

impl From<u32> for TaskDuration {
    fn from(minutes: u32) -> (r: Self) {
        TaskDuration::from_minutes(minutes)
    }
}

impl vstd::std_specs::convert::FromSpecImpl<u32> for TaskDuration {
    open spec fn obeys_from_spec() -> bool {
        true
    }

    open spec fn from_spec(minutes: u32) -> TaskDuration {
        spec_duration_from_minutes(minutes)
    }
}

/// A status a task can be in at the sink.
pub struct Status {
    pub name: String,
    pub is_default_status: bool,
    pub is_resolved_status: bool,
}

impl Clone for Status {
    fn clone(&self) -> (r: Self)
        ensures
            r == *self,
    {
        Status {
            name: self.name.clone(),
            is_default_status: self.is_default_status,
            is_resolved_status: self.is_resolved_status,
        }
    }
}

impl Default for Status {
    fn default() -> (r: Self)
        ensures
            r.name@ == Seq::<char>::empty(),
            !r.is_default_status,
            !r.is_resolved_status,
    {
        Status { name: String::new(), is_default_status: false, is_resolved_status: false }
    }
}

/// A label on a sink task.
pub struct Label {
    pub name: String,
}

impl Clone for Label {
    fn clone(&self) -> (r: Self)
        ensures
            r == *self,
    {
        Label { name: self.name.clone() }
    }
}

/// A workspace at the sink.
pub struct MotionWorkspace {
    pub id: String,
    pub name: String,
    pub team_id: Option<String>,
    pub workspace_type: String,
}

impl Clone for MotionWorkspace {
    fn clone(&self) -> (r: Self)
        ensures
            r == *self,
    {
        MotionWorkspace {
            id: self.id.clone(),
            name: self.name.clone(),
            team_id: crate::issues::clone_opt_string(&self.team_id),
            workspace_type: self.workspace_type.clone(),
        }
    }
}

/// An account at the sink.
pub struct MotionUser {
    pub id: String,
    pub name: String,
    pub email: String,
}

/// A project at the sink.
pub struct MotionProject {
    pub id: String,
    pub name: String,
    pub description: Option<String>,
    pub workspace_id: String,
    pub created_time: Option<i64>,
    pub updated_time: Option<i64>,
}

/// One scheduled chunk of a task.
pub struct TaskChunk {
    pub id: String,
    pub duration: u32,
    pub scheduled_start: Option<i64>,
    pub scheduled_end: Option<i64>,
    pub completed_time: Option<i64>,
    pub is_fixed: bool,
}

/// A label record at the sink, as the label-management calls return it.
pub struct MotionLabel {
    pub id: String,
    pub name: String,
    pub color_hex: Option<String>,
}

/// Auto-scheduling settings on a sink task.
pub struct AutoScheduled {
    pub start_date: Option<i64>,
    pub deadline_type: String,
    pub schedule: String,
}

/// A task at the sink.
pub struct MotionTask {
    pub id: Option<String>,
    pub name: String,
    pub description: Option<String>,
    pub assignee_id: Option<String>,
    pub project: Option<MotionProject>,
    pub priority: Option<String>,
    pub due_date: Option<i64>,
    pub duration: Option<TaskDuration>,
    pub status: Option<Status>,
    pub completed: Option<bool>,
    pub labels: Option<Vec<Label>>,
    pub created_time: Option<i64>,
    pub updated_time: Option<i64>,
    pub creator: Option<MotionUser>,
    pub workspace: Option<MotionWorkspace>,
    pub assignees: Option<Vec<MotionUser>>,
    pub auto_scheduled: Option<AutoScheduled>,
    pub chunks: Option<Vec<TaskChunk>>,
    pub parent_recurring_task_id: Option<String>,
    pub deadline_type: Option<String>,
    pub start_on: Option<String>,
    pub scheduled_start: Option<i64>,
    pub scheduled_end: Option<i64>,
    pub scheduling_issue: Option<bool>,
    pub last_interacted_time: Option<i64>,
    pub completed_time: Option<i64>,
}

impl Default for MotionTask {
    fn default() -> (r: Self)
        ensures
            r.id is None,
            r.name@ == Seq::<char>::empty(),
            r.description is None,
            r.assignee_id is None,
            r.project is None,
            r.priority is None,
            r.due_date is None,
            r.duration is None,
            r.status is None,
            r.completed is None,
            r.labels is None,
            r.created_time is None,
            r.updated_time is None,
            r.creator is None,
            r.workspace is None,
            r.assignees is None,
            r.auto_scheduled is None,
            r.chunks is None,
            r.parent_recurring_task_id is None,
            r.deadline_type is None,
            r.start_on is None,
            r.scheduled_start is None,
            r.scheduled_end is None,
            r.scheduling_issue is None,
            r.last_interacted_time is None,
            r.completed_time is None,
    {
        MotionTask {
            id: None,
            name: String::new(),
            description: None,
            assignee_id: None,
            project: None,
            priority: None,
            due_date: None,
            duration: None,
            status: None,
            completed: None,
            labels: None,
            created_time: None,
            updated_time: None,
            creator: None,
            workspace: None,
            assignees: None,
            auto_scheduled: None,
            chunks: None,
            parent_recurring_task_id: None,
            deadline_type: None,
            start_on: None,
            scheduled_start: None,
            scheduled_end: None,
            scheduling_issue: None,
            last_interacted_time: None,
            completed_time: None,
        }
    }
}

/// The name of the marker label that every task managed by the sync
/// carries, and that the completion sweep recognizes.
pub open spec fn spec_marker_label() -> Seq<char> {
    "linear-sync"@
}

/// The marker label attached to every task the sync manages.
pub fn marker_label() -> (r: &'static str)
    ensures
        r@ == spec_marker_label(),
{
    "linear-sync"
}

/// Whether a sink task carries the marker label.
pub open spec fn spec_task_has_marker(t: MotionTask) -> bool {
    match t.labels {
        Some(ls) => exists|i: int| 0 <= i < ls@.len() && ls@[i].name@ == spec_marker_label(),
        None => false,
    }
}

/// Checks whether a sink task carries the marker label.
pub fn task_has_marker(t: &MotionTask) -> (r: bool)
    ensures
        r == spec_task_has_marker(*t),
{
    let marker: String = String::from_str(marker_label());
    match &t.labels {
        Some(ls) => {
            let mut i: usize = 0;
            while i < ls.len()
                invariant
                    0 <= i <= ls.len(),
                    marker@ == spec_marker_label(),
                    t.labels matches Some(l2) && l2@ == ls@,
                    forall|j: int| 0 <= j < i ==> ls@[j].name@ != spec_marker_label(),
                decreases ls.len() - i,
            {
                if ls[i].name.eq(&marker) {
                    return true;
                }
                i = i + 1;
            }
            false
        },
        None => false,
    }
}

/// Whether the sink reports a task as completed.
pub open spec fn spec_task_completed(t: MotionTask) -> bool {
    t.completed == Some(true)
}

/// Checks whether the sink reports a task as completed.
pub fn task_is_completed(t: &MotionTask) -> (r: bool)
    ensures
        r == spec_task_completed(*t),
{
    match t.completed {
        Some(b) => b,
        None => false,
    }
}

} // verus!
