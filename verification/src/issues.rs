//! The source side of the sync: work items as the issue tracker reports
//! them, reduced to plain values.  Estimates are carried as the decimal
//! text the conversion tables are keyed by, timestamps as seconds since
//! the Unix epoch, and due dates as `YYYY-MM-DD` text.

use vstd::prelude::*;

verus! {

/// A label attached to a source item.
pub struct IssueLabel {
    pub id: String,
    pub name: String,
    pub color: String,
}

/// The workflow state a source item is in.
pub struct WorkflowState {
    pub id: String,
    pub name: String,
    pub state_type: String,
}

/// An account at the issue tracker.
pub struct User {
    pub id: String,
    pub name: String,
    pub email: String,
}

/// A team at the issue tracker.
pub struct Team {
    pub id: String,
    pub name: String,
    pub key: String,
}

/// A project at the issue tracker.
pub struct Project {
    pub id: String,
    pub name: String,
    pub description: Option<String>,
    pub state: String,
}

/// One work item as fetched from the issue tracker.
pub struct LinearIssue {
    pub id: String,
    pub identifier: String,
    pub title: String,
    pub description: Option<String>,
    pub state: WorkflowState,
    pub assignee: Option<User>,
    pub team: Team,
    pub project: Option<Project>,
    pub priority: Option<u32>,
    /// The numeric estimate in its decimal text form, the key the
    /// conversion tables use; `None` where the item has no estimate.
    pub estimate: Option<String>,
    pub created_at: i64,
    pub updated_at: i64,
    /// A calendar date written `YYYY-MM-DD`.
    pub due_date: Option<String>,
    pub completed_at: Option<i64>,
    pub labels: Vec<IssueLabel>,
}

/// The character sequence of an optional string.
pub open spec fn opt_view(o: Option<String>) -> Option<Seq<char>> {
    match o {
        Some(s) => Some(s@),
        None => None,
    }
}

/// The view of an optional value.
pub open spec fn view_opt<T: View>(o: Option<T>) -> Option<T::V> {
    match o {
        Some(x) => Some(x@),
        None => None,
    }
}

/// Mathematical model of a label.
pub ghost struct IssueLabelView {
    pub id: Seq<char>,
    pub name: Seq<char>,
    pub color: Seq<char>,
}

/// Mathematical model of a workflow state.
pub ghost struct WorkflowStateView {
    pub id: Seq<char>,
    pub name: Seq<char>,
    pub state_type: Seq<char>,
}

/// Mathematical model of an account.
pub ghost struct UserView {
    pub id: Seq<char>,
    pub name: Seq<char>,
    pub email: Seq<char>,
}

/// Mathematical model of a team.
pub ghost struct TeamView {
    pub id: Seq<char>,
    pub name: Seq<char>,
    pub key: Seq<char>,
}

/// Mathematical model of a project.
pub ghost struct ProjectView {
    pub id: Seq<char>,
    pub name: Seq<char>,
    pub description: Option<Seq<char>>,
    pub state: Seq<char>,
}

/// Mathematical model of a work item.
pub ghost struct LinearIssueView {
    pub id: Seq<char>,
    pub identifier: Seq<char>,
    pub title: Seq<char>,
    pub description: Option<Seq<char>>,
    pub state: WorkflowStateView,
    pub assignee: Option<UserView>,
    pub team: TeamView,
    pub project: Option<ProjectView>,
    pub priority: Option<u32>,
    pub estimate: Option<Seq<char>>,
    pub created_at: i64,
    pub updated_at: i64,
    pub due_date: Option<Seq<char>>,
    pub completed_at: Option<i64>,
    pub labels: Seq<IssueLabelView>,
}

impl View for IssueLabel {
    type V = IssueLabelView;

    open spec fn view(&self) -> IssueLabelView {
        IssueLabelView { id: self.id@, name: self.name@, color: self.color@ }
    }
}

impl View for WorkflowState {
    type V = WorkflowStateView;

    open spec fn view(&self) -> WorkflowStateView {
        WorkflowStateView { id: self.id@, name: self.name@, state_type: self.state_type@ }
    }
}

impl View for User {
    type V = UserView;

    open spec fn view(&self) -> UserView {
        UserView { id: self.id@, name: self.name@, email: self.email@ }
    }
}

impl View for Team {
    type V = TeamView;

    open spec fn view(&self) -> TeamView {
        TeamView { id: self.id@, name: self.name@, key: self.key@ }
    }
}

impl View for Project {
    type V = ProjectView;

    open spec fn view(&self) -> ProjectView {
        ProjectView {
            id: self.id@,
            name: self.name@,
            description: opt_view(self.description),
            state: self.state@,
        }
    }
}

impl View for LinearIssue {
    type V = LinearIssueView;

    open spec fn view(&self) -> LinearIssueView {
        LinearIssueView {
            id: self.id@,
            identifier: self.identifier@,
            title: self.title@,
            description: opt_view(self.description),
            state: self.state@,
            assignee: view_opt(self.assignee),
            team: self.team@,
            project: view_opt(self.project),
            priority: self.priority,
            estimate: opt_view(self.estimate),
            created_at: self.created_at,
            updated_at: self.updated_at,
            due_date: opt_view(self.due_date),
            completed_at: self.completed_at,
            labels: self.labels@.map_values(|l: IssueLabel| l@),
        }
    }
}

impl Clone for IssueLabel {
    fn clone(&self) -> (r: Self)
        ensures
            r == *self,
    {
        IssueLabel { id: self.id.clone(), name: self.name.clone(), color: self.color.clone() }
    }
}

impl Clone for WorkflowState {
    fn clone(&self) -> (r: Self)
        ensures
            r == *self,
    {
        WorkflowState {
            id: self.id.clone(),
            name: self.name.clone(),
            state_type: self.state_type.clone(),
        }
    }
}

impl Clone for User {
    fn clone(&self) -> (r: Self)
        ensures
            r == *self,
    {
        User { id: self.id.clone(), name: self.name.clone(), email: self.email.clone() }
    }
}

impl Clone for Team {
    fn clone(&self) -> (r: Self)
        ensures
            r == *self,
    {
        Team { id: self.id.clone(), name: self.name.clone(), key: self.key.clone() }
    }
}

impl Clone for Project {
    fn clone(&self) -> (r: Self)
        ensures
            r == *self,
    {
        Project {
            id: self.id.clone(),
            name: self.name.clone(),
            description: clone_opt_string(&self.description),
            state: self.state.clone(),
        }
    }
}

impl Clone for LinearIssue {
    fn clone(&self) -> (r: Self)
        ensures
            r@ == self@,
    {
        LinearIssue {
            id: self.id.clone(),
            identifier: self.identifier.clone(),
            title: self.title.clone(),
            description: clone_opt_string(&self.description),
            state: self.state.clone(),
            assignee: clone_opt_user(&self.assignee),
            team: self.team.clone(),
            project: clone_opt_project(&self.project),
            priority: self.priority,
            estimate: clone_opt_string(&self.estimate),
            created_at: self.created_at,
            updated_at: self.updated_at,
            due_date: clone_opt_string(&self.due_date),
            completed_at: self.completed_at,
            labels: clone_labels(&self.labels),
        }
    }
}

/// Copies an optional string.
pub fn clone_opt_string(o: &Option<String>) -> (r: Option<String>)
    ensures
        r == *o,
{
    match o {
        Some(s) => Some(s.clone()),
        None => None,
    }
}

fn clone_opt_user(o: &Option<User>) -> (r: Option<User>)
    ensures
        r == *o,
{
    match o {
        Some(s) => Some(s.clone()),
        None => None,
    }
}

fn clone_opt_project(o: &Option<Project>) -> (r: Option<Project>)
    ensures
        r == *o,
{
    match o {
        Some(s) => Some(s.clone()),
        None => None,
    }
}

fn clone_labels(v: &Vec<IssueLabel>) -> (r: Vec<IssueLabel>)
    ensures
        r@ == v@,
{
    let mut out: Vec<IssueLabel> = Vec::new();
    let mut i: usize = 0;
    while i < v.len()
        invariant
            0 <= i <= v.len(),
            out@ == v@.subrange(0, i as int),
        decreases v.len() - i,
    {
        out.push(v[i].clone());
        i = i + 1;
        proof {
            assert(out@ =~= v@.subrange(0, i as int));
        }
    }
    proof {
        assert(v@.subrange(0, v@.len() as int) =~= v@);
    }
    out
}

/// Whether a label with the given name is among a source item's labels.
pub open spec fn spec_has_label(labels: Seq<IssueLabel>, name: Seq<char>) -> bool {
    exists|i: int| 0 <= i < labels.len() && labels[i].name@ == name
}

/// Looks for a label with the given name among a source item's labels.
pub fn has_label(labels: &Vec<IssueLabel>, name: &str) -> (r: bool)
    ensures
        r == spec_has_label(labels@, name@),
{
    let wanted: String = name.to_owned();
    let mut i: usize = 0;
    while i < labels.len()
        invariant
            0 <= i <= labels.len(),
            wanted@ == name@,
            forall|j: int| 0 <= j < i ==> labels@[j].name@ != name@,
        decreases labels.len() - i,
    {
        if labels[i].name.eq(&wanted) {
            return true;
        }
        i = i + 1;
    }
    false
}

/// Whether two optional strings hold the same text.
pub fn opt_str_eq(a: &Option<String>, b: &Option<String>) -> (r: bool)
    ensures
        r == (opt_view(*a) == opt_view(*b)),
{
    match (a, b) {
        (Some(x), Some(y)) => x.eq(y),
        (None, None) => true,
        _ => false,
    }
}

/// Whether two optional numbers are equal.
pub fn opt_u32_eq(a: &Option<u32>, b: &Option<u32>) -> (r: bool)
    ensures
        r == (*a == *b),
{
    match (a, b) {
        (Some(x), Some(y)) => *x == *y,
        (None, None) => true,
        _ => false,
    }
}

/// The fields of a stored snapshot and a freshly fetched item that matter
/// to the sink task differ: title, description, estimate, priority, due
/// date or last-updated instant.
pub open spec fn spec_issue_differs(a: LinearIssueView, b: LinearIssueView) -> bool {
    ||| a.title != b.title
    ||| a.description != b.description
    ||| a.estimate != b.estimate
    ||| a.priority != b.priority
    ||| a.due_date != b.due_date
    ||| a.updated_at != b.updated_at
}

/// Compares a stored snapshot against a freshly fetched item on the fields
/// that matter to the sink task.
pub fn issue_differs(a: &LinearIssue, b: &LinearIssue) -> (r: bool)
    ensures
        r == spec_issue_differs(a@, b@),
{
    if !a.title.eq(&b.title) {
        return true;
    }
    if !opt_str_eq(&a.description, &b.description) {
        return true;
    }
    if !opt_str_eq(&a.estimate, &b.estimate) {
        return true;
    }
    if !opt_u32_eq(&a.priority, &b.priority) {
        return true;
    }
    if !opt_str_eq(&a.due_date, &b.due_date) {
        return true;
    }
    a.updated_at != b.updated_at
}

} // verus!
