//! The mapping store: the durable record of which source item maps to
//! which sink task, keyed by the pair of sync-source name and source-item
//! id.  At most one mapping exists per key; every operation preserves
//! that.

use vstd::prelude::*;

use crate::issues::{opt_view, LinearIssue, LinearIssueView};
use crate::keyed::{
    distinct_keys, keyed_map, lemma_keyed_map_absent, lemma_keyed_map_index, lemma_keyed_map_push,
    lemma_keyed_map_remove, lemma_keyed_map_update,
};

verus! {

/// Where a mapping stands in its life.
#[derive(Clone, Copy, PartialEq, Eq, Structural, Debug)]
pub enum MappingStatus {
    /// The item was observed; no sink task has been created yet.
    Pending,
    /// The sink task exists and matches the stored snapshot.
    Synced,
    /// The last attempt to create the sink task failed.
    Failed,
    /// Reserved for future drift detection; never produced today.
    Stale,
}

/// One association between a source item and a sink task.
pub struct TaskMapping {
    pub linear_issue_id: String,
    pub motion_task_id: Option<String>,
    pub sync_source: String,
    pub status: MappingStatus,
    /// The last-seen snapshot of the source item; absent only in records
    /// written by the bare constructor.
    pub linear_issue_data: Option<LinearIssue>,
    pub created_at: i64,
    pub updated_at: i64,
    pub last_sync_attempt: Option<i64>,
    pub sync_error: Option<String>,
}

/// Mathematical model of a mapping.
pub ghost struct TaskMappingView {
    pub linear_issue_id: Seq<char>,
    pub motion_task_id: Option<Seq<char>>,
    pub sync_source: Seq<char>,
    pub status: MappingStatus,
    pub linear_issue_data: Option<LinearIssueView>,
    pub created_at: i64,
    pub updated_at: i64,
    pub last_sync_attempt: Option<i64>,
    pub sync_error: Option<Seq<char>>,
}

impl View for TaskMapping {
    type V = TaskMappingView;

    open spec fn view(&self) -> TaskMappingView {
        TaskMappingView {
            linear_issue_id: self.linear_issue_id@,
            motion_task_id: opt_view(self.motion_task_id),
            sync_source: self.sync_source@,
            status: self.status,
            linear_issue_data: match self.linear_issue_data {
                Some(i) => Some(i@),
                None => None,
            },
            created_at: self.created_at,
            updated_at: self.updated_at,
            last_sync_attempt: self.last_sync_attempt,
            sync_error: opt_view(self.sync_error),
        }
    }
}

impl Clone for TaskMapping {
    fn clone(&self) -> (r: Self)
        ensures
            r@ == self@,
    {
        TaskMapping {
            linear_issue_id: self.linear_issue_id.clone(),
            motion_task_id: crate::issues::clone_opt_string(&self.motion_task_id),
            sync_source: self.sync_source.clone(),
            status: self.status,
            linear_issue_data: match &self.linear_issue_data {
                Some(i) => Some(i.clone()),
                None => None,
            },
            created_at: self.created_at,
            updated_at: self.updated_at,
            last_sync_attempt: self.last_sync_attempt,
            sync_error: crate::issues::clone_opt_string(&self.sync_error),
        }
    }
}

/// The views of a sequence of stored mappings.
pub open spec fn views_of(s: Seq<TaskMapping>) -> Seq<TaskMappingView> {
    s.map_values(|m: TaskMapping| m@)
}

/// The store's primary key: the pair of sync-source name and source-item
/// id.
pub open spec fn spec_key(m: TaskMappingView) -> (Seq<char>, Seq<char>) {
    (m.sync_source, m.linear_issue_id)
}

/// The key function the mapping store's keyed view uses.
pub open spec fn mkey() -> spec_fn(TaskMappingView) -> (Seq<char>, Seq<char>) {
    |m: TaskMappingView| spec_key(m)
}

/// The mapping a first observation of an item writes: pending, no sink
/// task, the item as snapshot.
pub open spec fn spec_pending_mapping(
    source: Seq<char>,
    item: LinearIssueView,
    now: i64,
) -> TaskMappingView {
    TaskMappingView {
        linear_issue_id: item.id,
        motion_task_id: None,
        sync_source: source,
        status: MappingStatus::Pending,
        linear_issue_data: Some(item),
        created_at: now,
        updated_at: now,
        last_sync_attempt: None,
        sync_error: None,
    }
}

/// What marking a mapping synced does: attach the sink-task id, clear the
/// error, set the status.
pub open spec fn spec_mark_synced_mapping(
    m: TaskMappingView,
    task_id: Seq<char>,
    now: i64,
) -> TaskMappingView {
    TaskMappingView {
        motion_task_id: Some(task_id),
        status: MappingStatus::Synced,
        updated_at: now,
        sync_error: None,
        ..m
    }
}

/// What marking a mapping failed does: record the error and the attempt
/// instant, keep any known sink-task id.
pub open spec fn spec_mark_failed_mapping(
    m: TaskMappingView,
    error: Seq<char>,
    now: i64,
) -> TaskMappingView {
    TaskMappingView {
        status: MappingStatus::Failed,
        updated_at: now,
        last_sync_attempt: Some(now),
        sync_error: Some(error),
        ..m
    }
}

/// What refreshing the stored snapshot does.
pub open spec fn spec_update_item_mapping(
    m: TaskMappingView,
    item: LinearIssueView,
    now: i64,
) -> TaskMappingView {
    TaskMappingView { linear_issue_data: Some(item), updated_at: now, ..m }
}

impl TaskMapping {
    /// A mapping already known to be synced, without an item snapshot.
    pub fn new(linear_issue_id: String, motion_task_id: String, sync_source: String, now: i64) -> (r:
        Self)
        ensures
            r@ == (TaskMappingView {
                linear_issue_id: linear_issue_id@,
                motion_task_id: Some(motion_task_id@),
                sync_source: sync_source@,
                status: MappingStatus::Synced,
                linear_issue_data: None,
                created_at: now,
                updated_at: now,
                last_sync_attempt: Some(now),
                sync_error: None,
            }),
    {
        TaskMapping {
            linear_issue_id,
            motion_task_id: Some(motion_task_id),
            sync_source,
            status: MappingStatus::Synced,
            linear_issue_data: None,
            created_at: now,
            updated_at: now,
            last_sync_attempt: Some(now),
            sync_error: None,
        }
    }
}

/// The keyed record of task mappings.
pub struct MappingStore {
    records: Vec<TaskMapping>,
}

impl View for MappingStore {
    type V = Map<(Seq<char>, Seq<char>), TaskMappingView>;

    /// The map from each key to its one mapping.
    closed spec fn view(&self) -> Map<(Seq<char>, Seq<char>), TaskMappingView> {
        keyed_map(self.entries(), mkey())
    }
}

impl MappingStore {
    /// The stored mappings, in store order.
    pub closed spec fn entries(&self) -> Seq<TaskMappingView> {
        views_of(self.records@)
    }

    /// At most one mapping exists per (sync-source, source-item id) key.
    pub closed spec fn wf(&self) -> bool {
        distinct_keys(self.entries(), mkey())
    }

    /// An empty store.
    pub fn new() -> (r: Self)
        ensures
            r.wf(),
            r@ == Map::<(Seq<char>, Seq<char>), TaskMappingView>::empty(),
            r.entries() == Seq::<TaskMappingView>::empty(),
    {
        let r = MappingStore { records: Vec::new() };
        proof {
            assert(r.entries() =~= Seq::<TaskMappingView>::empty());
        }
        r
    }

    fn find_index(&self, sync_source: &String, linear_issue_id: &String) -> (r: Option<usize>)
        ensures
            match r {
                Some(i) => i < self.entries().len() && spec_key(self.entries()[i as int]) == (
                    sync_source@,
                    linear_issue_id@,
                ),
                None => forall|j: int|
                    0 <= j < self.entries().len() ==> spec_key(#[trigger] self.entries()[j]) != (
                        sync_source@,
                        linear_issue_id@,
                    ),
            },
    {
        let mut i: usize = 0;
        while i < self.records.len()
            invariant
                0 <= i <= self.records.len(),
                self.entries().len() == self.records@.len(),
                forall|j: int|
                    0 <= j < i ==> spec_key(#[trigger] self.entries()[j]) != (
                        sync_source@,
                        linear_issue_id@,
                    ),
            decreases self.records.len() - i,
        {
            if self.records[i].sync_source.eq(sync_source) && self.records[i].linear_issue_id.eq(
                linear_issue_id,
            ) {
                return Some(i);
            }
            i = i + 1;
        }
        None
    }

    /// Upserts a mapping under its own key.
    pub fn store_mapping(&mut self, mapping: TaskMapping)
        requires
            old(self).wf(),
        ensures
            final(self).wf(),
            final(self)@ == old(self)@.insert(spec_key(mapping@), mapping@),
    {
        let source = mapping.sync_source.clone();
        let id = mapping.linear_issue_id.clone();
        let ghost before = self.entries();
        let ghost mv = mapping@;
        match self.find_index(&source, &id) {
            Some(i) => {
                let _ = self.records.remove(i);
                self.records.insert(i, mapping);
                proof {
                    assert(self.entries() =~= before.update(i as int, mv));
                    lemma_keyed_map_update(before, mkey(), i as int, mv);
                    assert(distinct_keys(self.entries(), mkey()));
                }
            },
            None => {
                self.records.push(mapping);
                proof {
                    assert(self.entries() =~= before.push(mv));
                    lemma_keyed_map_push(before, mkey(), mv);
                    assert(distinct_keys(self.entries(), mkey()));
                }
            },
        }
    }

    /// Looks a mapping up by its exact key.
    pub fn get_mapping_by_linear_id(&self, sync_source: &str, linear_issue_id: &str) -> (r: Option<
        TaskMapping,
    >)
        requires
            self.wf(),
        ensures
            match r {
                Some(m) => self@.contains_key((sync_source@, linear_issue_id@)) && m@ == self@[(
                    sync_source@,
                    linear_issue_id@,
                )],
                None => !self@.contains_key((sync_source@, linear_issue_id@)),
            },
    {
        let source = sync_source.to_owned();
        let id = linear_issue_id.to_owned();
        match self.find_index(&source, &id) {
            Some(i) => {
                proof {
                    lemma_keyed_map_index(self.entries(), mkey(), i as int);
                }
                Some(self.records[i].clone())
            },
            None => {
                proof {
                    lemma_keyed_map_absent(self.entries(), mkey(), (sync_source@, linear_issue_id@));
                }
                None
            },
        }
    }

    /// Scans for the first mapping that carries the given sink-task id.
    pub fn get_mapping_by_motion_id(&self, motion_task_id: &str) -> (r: Option<TaskMapping>)
        requires
            self.wf(),
        ensures
            match r {
                Some(m) => {
                    &&& m@.motion_task_id == Some(motion_task_id@)
                    &&& exists|i: int|
                        0 <= i < self.entries().len() && #[trigger] self.entries()[i] == m@ && (
                        forall|j: int|
                            0 <= j < i ==> (#[trigger] self.entries()[j]).motion_task_id != Some(
                                motion_task_id@,
                            ))
                    &&& self@.contains_key(spec_key(m@))
                    &&& self@[spec_key(m@)] == m@
                },
                None => forall|j: int|
                    0 <= j < self.entries().len() ==> (#[trigger] self.entries()[j]).motion_task_id
                        != Some(motion_task_id@),
            },
    {
        let wanted = motion_task_id.to_owned();
        let mut i: usize = 0;
        while i < self.records.len()
            invariant
                self.wf(),
                0 <= i <= self.records.len(),
                wanted@ == motion_task_id@,
                self.entries().len() == self.records@.len(),
                forall|j: int|
                    0 <= j < i ==> (#[trigger] self.entries()[j]).motion_task_id != Some(
                        motion_task_id@,
                    ),
            decreases self.records.len() - i,
        {
            let hit = match &self.records[i].motion_task_id {
                Some(t) => t.eq(&wanted),
                None => false,
            };
            if hit {
                proof {
                    lemma_keyed_map_index(self.entries(), mkey(), i as int);
                }
                return Some(self.records[i].clone());
            }
            i = i + 1;
        }
        None
    }

    /// Deletes a mapping and hands back what was stored.
    pub fn remove_mapping(&mut self, sync_source: &str, linear_issue_id: &str) -> (r: Option<
        TaskMapping,
    >)
        requires
            old(self).wf(),
        ensures
            final(self).wf(),
            final(self)@ == old(self)@.remove((sync_source@, linear_issue_id@)),
            match r {
                Some(m) => old(self)@.contains_key((sync_source@, linear_issue_id@)) && m@ == old(
                    self,
                )@[(sync_source@, linear_issue_id@)],
                None => !old(self)@.contains_key((sync_source@, linear_issue_id@)),
            },
    {
        let source = sync_source.to_owned();
        let id = linear_issue_id.to_owned();
        let ghost before = self.entries();
        match self.find_index(&source, &id) {
            Some(i) => {
                proof {
                    lemma_keyed_map_index(before, mkey(), i as int);
                    lemma_keyed_map_remove(before, mkey(), i as int);
                }
                let removed = self.records.remove(i);
                proof {
                    assert(self.entries() =~= before.remove(i as int));
                    assert(distinct_keys(self.entries(), mkey())) by {
                        assert(forall|a: int, b: int|
                            0 <= a < b < self.entries().len() ==> mkey()(
                                #[trigger] self.entries()[a],
                            ) != mkey()(#[trigger] self.entries()[b]));
                    }
                }
                Some(removed)
            },
            None => {
                proof {
                    lemma_keyed_map_absent(before, mkey(), (sync_source@, linear_issue_id@));
                    assert(old(self)@.remove((sync_source@, linear_issue_id@)) =~= old(self)@);
                }
                None
            },
        }
    }

    /// All mappings of one sync source, in store order.
    pub fn list_mappings_by_source(&self, sync_source: &str) -> (r: Vec<TaskMapping>)
        ensures
            views_of(r@) == self.entries().filter(
                |m: TaskMappingView| m.sync_source == sync_source@,
            ),
    {
        let source = sync_source.to_owned();
        let ghost pred = |m: TaskMappingView| m.sync_source == sync_source@;
        let mut out: Vec<TaskMapping> = Vec::new();
        let mut i: usize = 0;
        proof {
            reveal(Seq::filter);
            assert(self.entries().subrange(0, 0) =~= Seq::<TaskMappingView>::empty());
            assert(views_of(out@) =~= Seq::<TaskMappingView>::empty().filter(pred));
        }
        while i < self.records.len()
            invariant
                0 <= i <= self.records.len(),
                source@ == sync_source@,
                pred == (|m: TaskMappingView| m.sync_source == sync_source@),
                self.entries().len() == self.records@.len(),
                views_of(out@) == self.entries().subrange(0, i as int).filter(
                    pred,
                ),
            decreases self.records.len() - i,
        {
            let ghost pre = self.entries().subrange(0, i as int);
            let ghost cur = self.entries().subrange(0, i as int + 1);
            proof {
                reveal(Seq::filter);
                assert(cur.drop_last() =~= pre);
                assert(cur.last() == self.entries()[i as int]);
            }
            if self.records[i].sync_source.eq(&source) {
                out.push(self.records[i].clone());
            }
            proof {
                assert(views_of(out@) =~= cur.filter(pred));
            }
            i = i + 1;
        }
        proof {
            assert(self.entries().subrange(0, self.entries().len() as int) =~= self.entries());
        }
        out
    }

    /// Every stored mapping, in store order.
    pub fn list_all_mappings(&self) -> (r: Vec<TaskMapping>)
        ensures
            views_of(r@) == self.entries(),
    {
        let mut out: Vec<TaskMapping> = Vec::new();
        let mut i: usize = 0;
        proof {
            assert(views_of(out@) =~= self.entries().subrange(0, 0));
        }
        while i < self.records.len()
            invariant
                0 <= i <= self.records.len(),
                self.entries().len() == self.records@.len(),
                views_of(out@) == self.entries().subrange(0, i as int),
            decreases self.records.len() - i,
        {
            let ghost pre = self.entries().subrange(0, i as int);
            let ghost cur = self.entries().subrange(0, i as int + 1);
            proof {
                assert(cur.drop_last() =~= pre);
                assert(cur.last() == self.entries()[i as int]);
            }
            out.push(self.records[i].clone());
            i = i + 1;
            proof {
                assert(views_of(out@) =~= cur);
            }
        }
        proof {
            assert(self.entries().subrange(0, self.entries().len() as int) =~= self.entries());
        }
        out
    }

    /// Every mapping with the given lifecycle status, in store order.
    pub fn list_mappings_by_status(&self, status: MappingStatus) -> (r: Vec<TaskMapping>)
        ensures
            views_of(r@) == self.entries().filter(
                |m: TaskMappingView| m.status == status,
            ),
    {
        let ghost pred = |m: TaskMappingView| m.status == status;
        let mut out: Vec<TaskMapping> = Vec::new();
        let mut i: usize = 0;
        proof {
            assert(views_of(out@) =~= self.entries().subrange(0, 0).filter(
                pred,
            ));
        }
        while i < self.records.len()
            invariant
                0 <= i <= self.records.len(),
                pred == (|m: TaskMappingView| m.status == status),
                self.entries().len() == self.records@.len(),
                views_of(out@) == self.entries().subrange(0, i as int).filter(
                    pred,
                ),
            decreases self.records.len() - i,
        {
            let ghost pre = self.entries().subrange(0, i as int);
            let ghost cur = self.entries().subrange(0, i as int + 1);
            proof {
                reveal(Seq::filter);
                assert(cur.drop_last() =~= pre);
                assert(cur.last() == self.entries()[i as int]);
            }
            if self.records[i].status == status {
                out.push(self.records[i].clone());
            }
            proof {
                assert(views_of(out@) =~= cur.filter(pred));
            }
            i = i + 1;
        }
        proof {
            assert(self.entries().subrange(0, self.entries().len() as int) =~= self.entries());
        }
        out
    }

    /// Upserts a mapping with its updated-at instant refreshed.
    pub fn update_mapping(&mut self, mapping: TaskMapping, now: i64)
        requires
            old(self).wf(),
        ensures
            final(self).wf(),
            final(self)@ == old(self)@.insert(
                spec_key(mapping@),
                TaskMappingView { updated_at: now, ..mapping@ },
            ),
    {
        let mut m = mapping;
        m.updated_at = now;
        self.store_mapping(m);
    }

    /// Records the first observation of an item: a pending mapping with
    /// the item as snapshot, written before any remote call is attempted.
    pub fn create_pending_mapping(&mut self, sync_source: &str, issue: &LinearIssue, now: i64) -> (r:
        TaskMapping)
        requires
            old(self).wf(),
        ensures
            final(self).wf(),
            r@ == spec_pending_mapping(sync_source@, issue@, now),
            final(self)@ == old(self)@.insert(spec_key(r@), r@),
    {
        let mapping = TaskMapping {
            linear_issue_id: issue.id.clone(),
            motion_task_id: None,
            sync_source: sync_source.to_owned(),
            status: MappingStatus::Pending,
            linear_issue_data: Some(issue.clone()),
            created_at: now,
            updated_at: now,
            last_sync_attempt: None,
            sync_error: None,
        };
        let copy = mapping.clone();
        self.store_mapping(mapping);
        copy
    }

    /// Marks a mapping synced, attaching the sink-task id and clearing
    /// the error; does nothing when the key is unknown.
    pub fn mark_synced(
        &mut self,
        sync_source: &str,
        linear_issue_id: &str,
        motion_task_id: String,
        now: i64,
    )
        requires
            old(self).wf(),
        ensures
            final(self).wf(),
            final(self)@ == if old(self)@.contains_key((sync_source@, linear_issue_id@)) {
                old(self)@.insert(
                    (sync_source@, linear_issue_id@),
                    spec_mark_synced_mapping(
                        old(self)@[(sync_source@, linear_issue_id@)],
                        motion_task_id@,
                        now,
                    ),
                )
            } else {
                old(self)@
            },
    {
        let source = sync_source.to_owned();
        let id = linear_issue_id.to_owned();
        let ghost before = self.entries();
        match self.find_index(&source, &id) {
            Some(i) => {
                proof {
                    lemma_keyed_map_index(before, mkey(), i as int);
                }
                let mut m = self.records.remove(i);
                m.motion_task_id = Some(motion_task_id);
                m.status = MappingStatus::Synced;
                m.updated_at = now;
                m.sync_error = None;
                let ghost mv = m@;
                self.records.insert(i, m);
                proof {
                    assert(self.entries() =~= before.update(i as int, mv));
                    lemma_keyed_map_update(before, mkey(), i as int, mv);
                    assert(distinct_keys(self.entries(), mkey()));
                }
            },
            None => {
                proof {
                    lemma_keyed_map_absent(before, mkey(), (sync_source@, linear_issue_id@));
                }
            },
        }
    }

    /// Marks a mapping failed with the error and the attempt instant,
    /// keeping any known sink-task id; does nothing when the key is
    /// unknown.
    pub fn mark_failed(&mut self, sync_source: &str, linear_issue_id: &str, error: String, now: i64)
        requires
            old(self).wf(),
        ensures
            final(self).wf(),
            final(self)@ == if old(self)@.contains_key((sync_source@, linear_issue_id@)) {
                old(self)@.insert(
                    (sync_source@, linear_issue_id@),
                    spec_mark_failed_mapping(
                        old(self)@[(sync_source@, linear_issue_id@)],
                        error@,
                        now,
                    ),
                )
            } else {
                old(self)@
            },
    {
        let source = sync_source.to_owned();
        let id = linear_issue_id.to_owned();
        let ghost before = self.entries();
        match self.find_index(&source, &id) {
            Some(i) => {
                proof {
                    lemma_keyed_map_index(before, mkey(), i as int);
                }
                let mut m = self.records.remove(i);
                m.status = MappingStatus::Failed;
                m.updated_at = now;
                m.last_sync_attempt = Some(now);
                m.sync_error = Some(error);
                let ghost mv = m@;
                self.records.insert(i, m);
                proof {
                    assert(self.entries() =~= before.update(i as int, mv));
                    lemma_keyed_map_update(before, mkey(), i as int, mv);
                    assert(distinct_keys(self.entries(), mkey()));
                }
            },
            None => {
                proof {
                    lemma_keyed_map_absent(before, mkey(), (sync_source@, linear_issue_id@));
                }
            },
        }
    }

    /// Refreshes the stored snapshot of an item, so later diffs compare
    /// against the latest state; does nothing when the key is unknown.
    pub fn update_issue_data(
        &mut self,
        sync_source: &str,
        linear_issue_id: &str,
        issue: &LinearIssue,
        now: i64,
    )
        requires
            old(self).wf(),
        ensures
            final(self).wf(),
            final(self)@ == if old(self)@.contains_key((sync_source@, linear_issue_id@)) {
                old(self)@.insert(
                    (sync_source@, linear_issue_id@),
                    spec_update_item_mapping(
                        old(self)@[(sync_source@, linear_issue_id@)],
                        issue@,
                        now,
                    ),
                )
            } else {
                old(self)@
            },
    {
        let source = sync_source.to_owned();
        let id = linear_issue_id.to_owned();
        let ghost before = self.entries();
        match self.find_index(&source, &id) {
            Some(i) => {
                proof {
                    lemma_keyed_map_index(before, mkey(), i as int);
                }
                let mut m = self.records.remove(i);
                m.linear_issue_data = Some(issue.clone());
                m.updated_at = now;
                let ghost mv = m@;
                self.records.insert(i, m);
                proof {
                    assert(self.entries() =~= before.update(i as int, mv));
                    lemma_keyed_map_update(before, mkey(), i as int, mv);
                    assert(distinct_keys(self.entries(), mkey()));
                }
            },
            None => {
                proof {
                    lemma_keyed_map_absent(before, mkey(), (sync_source@, linear_issue_id@));
                }
            },
        }
    }
}

/// Law: a well-formed store holds at most one mapping per key — any two
/// distinct stored records disagree on (sync-source, source-item id).
pub proof fn lemma_at_most_one_mapping(store: &MappingStore, i: int, j: int)
    requires
        store.wf(),
        0 <= i < j < store.entries().len(),
    ensures
        spec_key(store.entries()[i]) != spec_key(store.entries()[j]),
{
}

/// Law: creating a pending mapping for an item and then marking it synced
/// with a non-empty sink-task id leaves, under that item's key, a mapping
/// whose status is Synced, whose sink-task id is that non-empty id, and
/// whose error is cleared.
pub proof fn lemma_pending_then_synced_roundtrip(
    m0: Map<(Seq<char>, Seq<char>), TaskMappingView>,
    source: Seq<char>,
    item: LinearIssueView,
    task_id: Seq<char>,
    t0: i64,
    t1: i64,
)
    requires
        task_id.len() > 0,
    ensures
        ({
            let k = (source, item.id);
            let m1 = m0.insert(k, spec_pending_mapping(source, item, t0));
            let m2 = m1.insert(k, spec_mark_synced_mapping(m1[k], task_id, t1));
            &&& m2[k].status == MappingStatus::Synced
            &&& m2[k].motion_task_id == Some(task_id)
            &&& m2[k].motion_task_id->0.len() > 0
            &&& m2[k].sync_error is None
            &&& m2[k].linear_issue_data == Some(item)
        }),
{
}

} // verus!
