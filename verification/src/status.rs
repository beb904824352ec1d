//! The status store: one row per sync attempt for observability, plus one
//! accumulating counter row per configured source with a bounded ring of
//! recent error messages.

use vstd::prelude::*;

use crate::issues::opt_view;
use crate::keyed::{
    distinct_keys, keyed_map, lemma_keyed_map_absent, lemma_keyed_map_index, lemma_keyed_map_push,
    lemma_keyed_map_update,
};
use crate::services::fresh_entry_id;

verus! {

/// Where one sync attempt stands.
#[derive(Clone, Copy, PartialEq, Eq, Structural, Debug)]
pub enum SyncStatus {
    InProgress,
    Completed,
    Failed,
    Paused,
}

/// One row per sync attempt, independent of the mapping.
pub struct SyncStatusEntry {
    pub id: String,
    pub sync_source: String,
    pub linear_issue_id: String,
    pub motion_task_id: Option<String>,
    pub status: SyncStatus,
    pub last_sync_attempt: i64,
    pub error_message: Option<String>,
    pub retry_count: u32,
    pub created_at: i64,
    pub updated_at: i64,
}

/// Mathematical model of a sync attempt row.
pub ghost struct SyncStatusEntryView {
    pub id: Seq<char>,
    pub sync_source: Seq<char>,
    pub linear_issue_id: Seq<char>,
    pub motion_task_id: Option<Seq<char>>,
    pub status: SyncStatus,
    pub last_sync_attempt: i64,
    pub error_message: Option<Seq<char>>,
    pub retry_count: u32,
    pub created_at: i64,
    pub updated_at: i64,
}

impl View for SyncStatusEntry {
    type V = SyncStatusEntryView;

    open spec fn view(&self) -> SyncStatusEntryView {
        SyncStatusEntryView {
            id: self.id@,
            sync_source: self.sync_source@,
            linear_issue_id: self.linear_issue_id@,
            motion_task_id: opt_view(self.motion_task_id),
            status: self.status,
            last_sync_attempt: self.last_sync_attempt,
            error_message: opt_view(self.error_message),
            retry_count: self.retry_count,
            created_at: self.created_at,
            updated_at: self.updated_at,
        }
    }
}

impl Clone for SyncStatusEntry {
    fn clone(&self) -> (r: Self)
        ensures
            r@ == self@,
    {
        SyncStatusEntry {
            id: self.id.clone(),
            sync_source: self.sync_source.clone(),
            linear_issue_id: self.linear_issue_id.clone(),
            motion_task_id: crate::issues::clone_opt_string(&self.motion_task_id),
            status: self.status,
            last_sync_attempt: self.last_sync_attempt,
            error_message: crate::issues::clone_opt_string(&self.error_message),
            retry_count: self.retry_count,
            created_at: self.created_at,
            updated_at: self.updated_at,
        }
    }
}

/// One accumulating counter row per configured source.
pub struct SyncSourceStatus {
    pub source_name: String,
    pub last_sync: Option<i64>,
    pub total_issues_processed: u64,
    pub successful_syncs: u64,
    pub failed_syncs: u64,
    pub errors: Vec<String>,
}

/// Mathematical model of a source's counter row.
pub ghost struct SyncSourceStatusView {
    pub source_name: Seq<char>,
    pub last_sync: Option<i64>,
    pub total_issues_processed: u64,
    pub successful_syncs: u64,
    pub failed_syncs: u64,
    pub errors: Seq<Seq<char>>,
}

impl View for SyncSourceStatus {
    type V = SyncSourceStatusView;

    open spec fn view(&self) -> SyncSourceStatusView {
        SyncSourceStatusView {
            source_name: self.source_name@,
            last_sync: self.last_sync,
            total_issues_processed: self.total_issues_processed,
            successful_syncs: self.successful_syncs,
            failed_syncs: self.failed_syncs,
            errors: self.errors@.map_values(|s: String| s@),
        }
    }
}

impl SyncSourceStatus {
    /// A fresh counter row: everything at zero, no errors yet.
    pub fn new(source_name: String) -> (r: Self)
        ensures
            r@ == spec_new_source_status(source_name@),
    {
        let r = SyncSourceStatus {
            source_name,
            last_sync: None,
            total_issues_processed: 0,
            successful_syncs: 0,
            failed_syncs: 0,
            errors: Vec::new(),
        };
        proof {
            assert(r@.errors =~= Seq::<Seq<char>>::empty());
        }
        r
    }
}

impl SyncStatusEntry {
    /// A fresh attempt row: in progress, no retries yet.
    pub fn new(sync_source: String, linear_issue_id: String, now: i64) -> (r: Self)
        ensures
            r@ == spec_new_entry(r@.id, sync_source@, linear_issue_id@, now),
            r@.id.len() == 36,
    {
        SyncStatusEntry {
            id: fresh_entry_id(),
            sync_source,
            linear_issue_id,
            motion_task_id: None,
            status: SyncStatus::InProgress,
            last_sync_attempt: now,
            error_message: None,
            retry_count: 0,
            created_at: now,
            updated_at: now,
        }
    }
}

/// The views of a sequence of attempt rows.
pub open spec fn entry_views_of(s: Seq<SyncStatusEntry>) -> Seq<SyncStatusEntryView> {
    s.map_values(|e: SyncStatusEntry| e@)
}

/// The views of a sequence of counter rows.
pub open spec fn stat_views_of(s: Seq<SyncSourceStatus>) -> Seq<SyncSourceStatusView> {
    s.map_values(|e: SyncSourceStatus| e@)
}

/// The key of an attempt row: its generated id.
pub open spec fn skey() -> spec_fn(SyncStatusEntryView) -> Seq<char> {
    |e: SyncStatusEntryView| e.id
}

/// The key of a counter row: the source name.
pub open spec fn nkey() -> spec_fn(SyncSourceStatusView) -> Seq<char> {
    |s: SyncSourceStatusView| s.source_name
}

/// The attempt row a first observation writes.
pub open spec fn spec_new_entry(
    id: Seq<char>,
    source: Seq<char>,
    item_id: Seq<char>,
    now: i64,
) -> SyncStatusEntryView {
    SyncStatusEntryView {
        id: id,
        sync_source: source,
        linear_issue_id: item_id,
        motion_task_id: None,
        status: SyncStatus::InProgress,
        last_sync_attempt: now,
        error_message: None,
        retry_count: 0,
        created_at: now,
        updated_at: now,
    }
}

/// A retry count bumped by one, held at its ceiling.
pub open spec fn spec_bump(r: u32) -> u32 {
    if r == u32::MAX {
        r
    } else {
        (r + 1) as u32
    }
}

/// What updating an attempt row does: set status and error, stamp the
/// attempt, and count a retry exactly when an error is supplied.
pub open spec fn spec_update_status(
    e: SyncStatusEntryView,
    status: SyncStatus,
    error: Option<Seq<char>>,
    now: i64,
) -> SyncStatusEntryView {
    SyncStatusEntryView {
        status: status,
        error_message: error,
        last_sync_attempt: now,
        updated_at: now,
        retry_count: if error is Some {
            spec_bump(e.retry_count)
        } else {
            e.retry_count
        },
        ..e
    }
}

/// What marking an attempt completed does: attach the sink-task id and
/// clear the error.
pub open spec fn spec_mark_completed(
    e: SyncStatusEntryView,
    task_id: Seq<char>,
    now: i64,
) -> SyncStatusEntryView {
    SyncStatusEntryView {
        status: SyncStatus::Completed,
        motion_task_id: Some(task_id),
        last_sync_attempt: now,
        updated_at: now,
        error_message: None,
        ..e
    }
}

/// A counter bumped by one, held at its ceiling.
pub open spec fn spec_inc64(x: u64) -> u64 {
    if x == u64::MAX {
        x
    } else {
        (x + 1) as u64
    }
}

/// The error ring after recording an outcome: a supplied error is
/// appended and the oldest entry dropped once more than ten are held.
pub open spec fn spec_push_error(errors: Seq<Seq<char>>, error: Option<Seq<char>>) -> Seq<
    Seq<char>,
> {
    match error {
        Some(e) => {
            let p = errors.push(e);
            if p.len() > 10 {
                p.subrange(1, p.len() as int)
            } else {
                p
            }
        },
        None => errors,
    }
}

/// A fresh counter row for a source never seen before.
pub open spec fn spec_new_source_status(name: Seq<char>) -> SyncSourceStatusView {
    SyncSourceStatusView {
        source_name: name,
        last_sync: None,
        total_issues_processed: 0,
        successful_syncs: 0,
        failed_syncs: 0,
        errors: Seq::empty(),
    }
}

/// What recording one pass outcome does to a source's counters: the
/// total always rises, exactly one of the success and failure counters
/// rises, and a failure's error message enters the ring.
pub open spec fn spec_apply_stats(
    s: SyncSourceStatusView,
    success: bool,
    error: Option<Seq<char>>,
    now: i64,
) -> SyncSourceStatusView {
    SyncSourceStatusView {
        last_sync: Some(now),
        total_issues_processed: spec_inc64(s.total_issues_processed),
        successful_syncs: if success {
            spec_inc64(s.successful_syncs)
        } else {
            s.successful_syncs
        },
        failed_syncs: if success {
            s.failed_syncs
        } else {
            spec_inc64(s.failed_syncs)
        },
        errors: if success {
            s.errors
        } else {
            spec_push_error(s.errors, error)
        },
        ..s
    }
}

/// The record of sync attempts and per-source counters.
pub struct StatusStore {
    records: Vec<SyncStatusEntry>,
    stats: Vec<SyncSourceStatus>,
}

impl StatusStore {
    /// The stored attempt rows, in store order.
    pub closed spec fn entries(&self) -> Seq<SyncStatusEntryView> {
        entry_views_of(self.records@)
    }

    /// The stored counter rows, in store order.
    pub closed spec fn stat_entries(&self) -> Seq<SyncSourceStatusView> {
        stat_views_of(self.stats@)
    }

    /// The map from attempt id to its one row.
    pub closed spec fn statuses(&self) -> Map<Seq<char>, SyncStatusEntryView> {
        keyed_map(self.entries(), skey())
    }

    /// The map from source name to its one counter row.
    pub closed spec fn source_stats(&self) -> Map<Seq<char>, SyncSourceStatusView> {
        keyed_map(self.stat_entries(), nkey())
    }

    /// At most one row per attempt id and per source name, and never
    /// more than ten errors in a ring.
    pub closed spec fn wf(&self) -> bool {
        &&& distinct_keys(self.entries(), skey())
        &&& distinct_keys(self.stat_entries(), nkey())
        &&& forall|i: int|
            0 <= i < self.stat_entries().len() ==> (#[trigger] self.stat_entries()[i]).errors.len()
                <= 10
    }

    /// An empty store.
    pub fn new() -> (r: Self)
        ensures
            r.wf(),
            r.statuses() == Map::<Seq<char>, SyncStatusEntryView>::empty(),
            r.source_stats() == Map::<Seq<char>, SyncSourceStatusView>::empty(),
            r.entries() == Seq::<SyncStatusEntryView>::empty(),
            r.stat_entries() == Seq::<SyncSourceStatusView>::empty(),
    {
        let r = StatusStore { records: Vec::new(), stats: Vec::new() };
        proof {
            assert(r.entries() =~= Seq::<SyncStatusEntryView>::empty());
            assert(r.stat_entries() =~= Seq::<SyncSourceStatusView>::empty());
        }
        r
    }

    fn find_entry(&self, id: &String) -> (r: Option<usize>)
        ensures
            match r {
                Some(i) => i < self.entries().len() && self.entries()[i as int].id == id@,
                None => forall|j: int|
                    0 <= j < self.entries().len() ==> (#[trigger] self.entries()[j]).id != id@,
            },
    {
        let mut i: usize = 0;
        while i < self.records.len()
            invariant
                0 <= i <= self.records.len(),
                self.entries().len() == self.records@.len(),
                forall|j: int| 0 <= j < i ==> (#[trigger] self.entries()[j]).id != id@,
            decreases self.records.len() - i,
        {
            if self.records[i].id.eq(id) {
                return Some(i);
            }
            i = i + 1;
        }
        None
    }

    fn find_stat(&self, name: &String) -> (r: Option<usize>)
        ensures
            match r {
                Some(i) => i < self.stat_entries().len() && self.stat_entries()[i as int].source_name
                    == name@,
                None => forall|j: int|
                    0 <= j < self.stat_entries().len() ==> (
                    #[trigger] self.stat_entries()[j]).source_name != name@,
            },
    {
        let mut i: usize = 0;
        while i < self.stats.len()
            invariant
                0 <= i <= self.stats.len(),
                self.stat_entries().len() == self.stats@.len(),
                forall|j: int|
                    0 <= j < i ==> (#[trigger] self.stat_entries()[j]).source_name != name@,
            decreases self.stats.len() - i,
        {
            if self.stats[i].source_name.eq(name) {
                return Some(i);
            }
            i = i + 1;
        }
        None
    }

    /// Upserts an attempt row under its id.
    pub fn store_status_entry(&mut self, entry: &SyncStatusEntry)
        requires
            old(self).wf(),
        ensures
            final(self).wf(),
            final(self).statuses() == old(self).statuses().insert(entry@.id, entry@),
            final(self).source_stats() == old(self).source_stats(),
            final(self).stat_entries() == old(self).stat_entries(),
    {
        let ghost before = self.entries();
        let copy = entry.clone();
        match self.find_entry(&entry.id) {
            Some(i) => {
                let _ = self.records.remove(i);
                self.records.insert(i, copy);
                proof {
                    assert(self.entries() =~= before.update(i as int, entry@));
                    lemma_keyed_map_update(before, skey(), i as int, entry@);
                    assert(distinct_keys(self.entries(), skey()));
                }
            },
            None => {
                self.records.push(copy);
                proof {
                    assert(self.entries() =~= before.push(entry@));
                    lemma_keyed_map_push(before, skey(), entry@);
                    assert(distinct_keys(self.entries(), skey()));
                }
            },
        }
    }

    /// Opens a fresh in-progress attempt row for an item and stores it.
    pub fn create_status_entry(&mut self, sync_source: String, linear_issue_id: String, now: i64) -> (r:
        SyncStatusEntry)
        requires
            old(self).wf(),
        ensures
            final(self).wf(),
            r@ == spec_new_entry(r@.id, sync_source@, linear_issue_id@, now),
            r@.id.len() == 36,
            final(self).statuses() == old(self).statuses().insert(r@.id, r@),
            final(self).source_stats() == old(self).source_stats(),
            final(self).stat_entries() == old(self).stat_entries(),
    {
        let entry = SyncStatusEntry::new(sync_source, linear_issue_id, now);
        self.store_status_entry(&entry);
        entry
    }

    /// Looks an attempt row up by its id.
    pub fn get_status_entry(&self, id: &str) -> (r: Option<SyncStatusEntry>)
        requires
            self.wf(),
        ensures
            match r {
                Some(e) => self.statuses().contains_key(id@) && e@ == self.statuses()[id@],
                None => !self.statuses().contains_key(id@),
            },
    {
        let wanted = id.to_owned();
        match self.find_entry(&wanted) {
            Some(i) => {
                proof {
                    lemma_keyed_map_index(self.entries(), skey(), i as int);
                }
                Some(self.records[i].clone())
            },
            None => {
                proof {
                    lemma_keyed_map_absent(self.entries(), skey(), id@);
                }
                None
            },
        }
    }

    /// Updates an attempt row's status, stamping the attempt and counting
    /// a retry exactly when an error is supplied; does nothing when the
    /// id is unknown.
    pub fn update_status(&mut self, id: &str, status: SyncStatus, error_message: Option<String>, now: i64)
        requires
            old(self).wf(),
        ensures
            final(self).wf(),
            final(self).statuses() == if old(self).statuses().contains_key(id@) {
                old(self).statuses().insert(
                    id@,
                    spec_update_status(
                        old(self).statuses()[id@],
                        status,
                        opt_view(error_message),
                        now,
                    ),
                )
            } else {
                old(self).statuses()
            },
            final(self).source_stats() == old(self).source_stats(),
            final(self).stat_entries() == old(self).stat_entries(),
    {
        let wanted = id.to_owned();
        let ghost before = self.entries();
        match self.find_entry(&wanted) {
            Some(i) => {
                proof {
                    lemma_keyed_map_index(before, skey(), i as int);
                }
                let mut e = self.records.remove(i);
                let has_error = error_message.is_some();
                e.status = status;
                e.error_message = error_message;
                e.last_sync_attempt = now;
                e.updated_at = now;
                if has_error {
                    if e.retry_count < u32::MAX {
                        e.retry_count = e.retry_count + 1;
                    }
                }
                let ghost ev = e@;
                self.records.insert(i, e);
                proof {
                    assert(self.entries() =~= before.update(i as int, ev));
                    lemma_keyed_map_update(before, skey(), i as int, ev);
                    assert(distinct_keys(self.entries(), skey()));
                }
            },
            None => {
                proof {
                    lemma_keyed_map_absent(before, skey(), id@);
                }
            },
        }
    }

    /// Marks an attempt completed with its sink-task id; does nothing
    /// when the id is unknown.
    pub fn mark_completed(&mut self, id: &str, motion_task_id: String, now: i64)
        requires
            old(self).wf(),
        ensures
            final(self).wf(),
            final(self).statuses() == if old(self).statuses().contains_key(id@) {
                old(self).statuses().insert(
                    id@,
                    spec_mark_completed(old(self).statuses()[id@], motion_task_id@, now),
                )
            } else {
                old(self).statuses()
            },
            final(self).source_stats() == old(self).source_stats(),
            final(self).stat_entries() == old(self).stat_entries(),
    {
        let wanted = id.to_owned();
        let ghost before = self.entries();
        match self.find_entry(&wanted) {
            Some(i) => {
                proof {
                    lemma_keyed_map_index(before, skey(), i as int);
                }
                let mut e = self.records.remove(i);
                e.status = SyncStatus::Completed;
                e.motion_task_id = Some(motion_task_id);
                e.last_sync_attempt = now;
                e.updated_at = now;
                e.error_message = None;
                let ghost ev = e@;
                self.records.insert(i, e);
                proof {
                    assert(self.entries() =~= before.update(i as int, ev));
                    lemma_keyed_map_update(before, skey(), i as int, ev);
                    assert(distinct_keys(self.entries(), skey()));
                }
            },
            None => {
                proof {
                    lemma_keyed_map_absent(before, skey(), id@);
                }
            },
        }
    }

    /// Marks an attempt failed with its error message; does nothing when
    /// the id is unknown.
    pub fn mark_failed(&mut self, id: &str, error: String, now: i64)
        requires
            old(self).wf(),
        ensures
            final(self).wf(),
            final(self).statuses() == if old(self).statuses().contains_key(id@) {
                old(self).statuses().insert(
                    id@,
                    spec_update_status(
                        old(self).statuses()[id@],
                        SyncStatus::Failed,
                        Some(error@),
                        now,
                    ),
                )
            } else {
                old(self).statuses()
            },
            final(self).source_stats() == old(self).source_stats(),
            final(self).stat_entries() == old(self).stat_entries(),
    {
        self.update_status(id, SyncStatus::Failed, Some(error), now);
    }

    /// All attempt rows of one source, in store order.
    pub fn list_statuses_by_source(&self, sync_source: &str) -> (r: Vec<SyncStatusEntry>)
        ensures
            entry_views_of(r@) == self.entries().filter(
                |e: SyncStatusEntryView| e.sync_source == sync_source@,
            ),
    {
        let source = sync_source.to_owned();
        let ghost pred = |e: SyncStatusEntryView| e.sync_source == sync_source@;
        let mut out: Vec<SyncStatusEntry> = Vec::new();
        let mut i: usize = 0;
        proof {
            reveal(Seq::filter);
            assert(entry_views_of(out@) =~= self.entries().subrange(0, 0).filter(pred));
        }
        while i < self.records.len()
            invariant
                0 <= i <= self.records.len(),
                source@ == sync_source@,
                pred == (|e: SyncStatusEntryView| e.sync_source == sync_source@),
                self.entries().len() == self.records@.len(),
                entry_views_of(out@) == self.entries().subrange(0, i as int).filter(pred),
            decreases self.records.len() - i,
        {
            let ghost pre = self.entries().subrange(0, i as int);
            let ghost cur = self.entries().subrange(0, i as int + 1);
            proof {
                reveal(Seq::filter);
                assert(cur.drop_last() =~= pre);
                assert(cur.last() == self.entries()[i as int]);
            }
            if self.records[i].sync_source.eq(&source) {
                out.push(self.records[i].clone());
            }
            proof {
                assert(entry_views_of(out@) =~= cur.filter(pred));
            }
            i = i + 1;
        }
        proof {
            assert(self.entries().subrange(0, self.entries().len() as int) =~= self.entries());
        }
        out
    }

    /// All attempt rows that failed, in store order.
    pub fn list_failed_entries(&self) -> (r: Vec<SyncStatusEntry>)
        ensures
            entry_views_of(r@) == self.entries().filter(
                |e: SyncStatusEntryView| e.status == SyncStatus::Failed,
            ),
    {
        let ghost pred = |e: SyncStatusEntryView| e.status == SyncStatus::Failed;
        let mut out: Vec<SyncStatusEntry> = Vec::new();
        let mut i: usize = 0;
        proof {
            reveal(Seq::filter);
            assert(entry_views_of(out@) =~= self.entries().subrange(0, 0).filter(pred));
        }
        while i < self.records.len()
            invariant
                0 <= i <= self.records.len(),
                pred == (|e: SyncStatusEntryView| e.status == SyncStatus::Failed),
                self.entries().len() == self.records@.len(),
                entry_views_of(out@) == self.entries().subrange(0, i as int).filter(pred),
            decreases self.records.len() - i,
        {
            let ghost pre = self.entries().subrange(0, i as int);
            let ghost cur = self.entries().subrange(0, i as int + 1);
            proof {
                reveal(Seq::filter);
                assert(cur.drop_last() =~= pre);
                assert(cur.last() == self.entries()[i as int]);
            }
            if self.records[i].status == SyncStatus::Failed {
                out.push(self.records[i].clone());
            }
            proof {
                assert(entry_views_of(out@) =~= cur.filter(pred));
            }
            i = i + 1;
        }
        proof {
            assert(self.entries().subrange(0, self.entries().len() as int) =~= self.entries());
        }
        out
    }

    /// Looks a source's counter row up by name.
    pub fn get_source_status(&self, source_name: &str) -> (r: Option<SyncSourceStatus>)
        requires
            self.wf(),
        ensures
            match r {
                Some(s) => self.source_stats().contains_key(source_name@) && s@
                    == self.source_stats()[source_name@],
                None => !self.source_stats().contains_key(source_name@),
            },
    {
        let wanted = source_name.to_owned();
        match self.find_stat(&wanted) {
            Some(i) => {
                proof {
                    lemma_keyed_map_index(self.stat_entries(), nkey(), i as int);
                }
                let s = &self.stats[i];
                let r = SyncSourceStatus {
                    source_name: s.source_name.clone(),
                    last_sync: s.last_sync,
                    total_issues_processed: s.total_issues_processed,
                    successful_syncs: s.successful_syncs,
                    failed_syncs: s.failed_syncs,
                    errors: clone_strings(&s.errors),
                };
                Some(r)
            },
            None => {
                proof {
                    lemma_keyed_map_absent(self.stat_entries(), nkey(), source_name@);
                }
                None
            },
        }
    }

    /// Records one pass outcome in a source's counters, creating the row
    /// on first sight: the total always rises, exactly one of success and
    /// failure rises, and the error ring never grows past ten.
    pub fn update_source_stats(&mut self, source_name: &str, success: bool, error: Option<String>, now: i64)
        requires
            old(self).wf(),
        ensures
            final(self).wf(),
            final(self).source_stats() == old(self).source_stats().insert(
                source_name@,
                spec_apply_stats(
                    if old(self).source_stats().contains_key(source_name@) {
                        old(self).source_stats()[source_name@]
                    } else {
                        spec_new_source_status(source_name@)
                    },
                    success,
                    opt_view(error),
                    now,
                ),
            ),
            final(self).statuses() == old(self).statuses(),
            final(self).entries() == old(self).entries(),
    {
        let wanted = source_name.to_owned();
        let ghost before = self.stat_entries();
        match self.find_stat(&wanted) {
            Some(i) => {
                proof {
                    lemma_keyed_map_index(before, nkey(), i as int);
                }
                let mut s = self.stats.remove(i);
                apply_outcome(&mut s, success, error, now);
                let ghost sv = s@;
                self.stats.insert(i, s);
                proof {
                    assert(self.stat_entries() =~= before.update(i as int, sv));
                    lemma_keyed_map_update(before, nkey(), i as int, sv);
                    assert(distinct_keys(self.stat_entries(), nkey()));
                }
            },
            None => {
                proof {
                    lemma_keyed_map_absent(before, nkey(), source_name@);
                }
                let mut s = SyncSourceStatus::new(wanted);
                apply_outcome(&mut s, success, error, now);
                let ghost sv = s@;
                self.stats.push(s);
                proof {
                    assert(self.stat_entries() =~= before.push(sv));
                    lemma_keyed_map_push(before, nkey(), sv);
                    assert(distinct_keys(self.stat_entries(), nkey()));
                }
            },
        }
    }

    /// Every attempt row, in store order.
    pub fn list_all_status_entries(&self) -> (r: Vec<SyncStatusEntry>)
        ensures
            entry_views_of(r@) == self.entries(),
    {
        let mut out: Vec<SyncStatusEntry> = Vec::new();
        let mut i: usize = 0;
        proof {
            assert(entry_views_of(out@) =~= self.entries().subrange(0, 0));
        }
        while i < self.records.len()
            invariant
                0 <= i <= self.records.len(),
                self.entries().len() == self.records@.len(),
                entry_views_of(out@) == self.entries().subrange(0, i as int),
            decreases self.records.len() - i,
        {
            let ghost cur = self.entries().subrange(0, i as int + 1);
            proof {
                assert(cur.drop_last() =~= self.entries().subrange(0, i as int));
                assert(cur.last() == self.entries()[i as int]);
            }
            out.push(self.records[i].clone());
            i = i + 1;
            proof {
                assert(entry_views_of(out@) =~= cur);
            }
        }
        proof {
            assert(self.entries().subrange(0, self.entries().len() as int) =~= self.entries());
        }
        out
    }

    /// Every source's counter row, in store order.
    pub fn list_all_source_stats(&self) -> (r: Vec<SyncSourceStatus>)
        ensures
            stat_views_of(r@) == self.stat_entries(),
    {
        let mut out: Vec<SyncSourceStatus> = Vec::new();
        let mut i: usize = 0;
        proof {
            assert(stat_views_of(out@) =~= self.stat_entries().subrange(0, 0));
        }
        while i < self.stats.len()
            invariant
                0 <= i <= self.stats.len(),
                self.stat_entries().len() == self.stats@.len(),
                stat_views_of(out@) == self.stat_entries().subrange(0, i as int),
            decreases self.stats.len() - i,
        {
            let ghost cur = self.stat_entries().subrange(0, i as int + 1);
            proof {
                assert(cur.drop_last() =~= self.stat_entries().subrange(0, i as int));
                assert(cur.last() == self.stat_entries()[i as int]);
            }
            let s = &self.stats[i];
            out.push(
                SyncSourceStatus {
                    source_name: s.source_name.clone(),
                    last_sync: s.last_sync,
                    total_issues_processed: s.total_issues_processed,
                    successful_syncs: s.successful_syncs,
                    failed_syncs: s.failed_syncs,
                    errors: clone_strings(&s.errors),
                },
            );
            i = i + 1;
            proof {
                assert(stat_views_of(out@) =~= cur);
            }
        }
        proof {
            assert(self.stat_entries().subrange(0, self.stat_entries().len() as int)
                =~= self.stat_entries());
        }
        out
    }

    /// Deletes completed attempt rows older than the retention window and
    /// says how many went.
    #[verifier::rlimit(100)]
    pub fn cleanup_old_entries(&mut self, older_than_days: u64, now: i64) -> (r: u64)
        requires
            old(self).wf(),
            older_than_days * 86400 <= i64::MAX,
            now - older_than_days * 86400 >= i64::MIN,
        ensures
            final(self).wf(),
            final(self).entries() == old(self).entries().filter(
                |e: SyncStatusEntryView|
                    !(e.status == SyncStatus::Completed && e.created_at < now - older_than_days
                        * 86400),
            ),
            r == old(self).entries().len() - final(self).entries().len(),
            final(self).stat_entries() == old(self).stat_entries(),
            final(self).source_stats() == old(self).source_stats(),
    {
        let cutoff: i64 = now - (older_than_days * 86400) as i64;
        let total: usize = self.records.len();
        let ghost orig = self.entries();
        let ghost keep = |e: SyncStatusEntryView|
            !(e.status == SyncStatus::Completed && e.created_at < now - older_than_days * 86400);
        let mut i: usize = 0;
        let mut k: usize = 0;
        let mut deleted: u64 = 0;
        proof {
            reveal(Seq::filter);
            assert(orig.subrange(0, 0).filter(keep) =~= Seq::<SyncStatusEntryView>::empty());
            assert(self.entries() =~= orig.subrange(0, 0).filter(keep) + orig.subrange(
                0,
                orig.len() as int,
            ));
        }
        while i < self.records.len()
            invariant
                0 <= i <= k <= orig.len(),
                cutoff == now - older_than_days * 86400,
                keep == (|e: SyncStatusEntryView|
                    !(e.status == SyncStatus::Completed && e.created_at < now - older_than_days
                        * 86400)),
                orig == old(self).entries(),
                orig.len() == total,
                self.entries().len() == self.records@.len(),
                self.records@.len() == orig.len() - (k - i),
                deleted == k - i,
                i == orig.subrange(0, k as int).filter(keep).len(),
                self.entries() =~= orig.subrange(0, k as int).filter(keep) + orig.subrange(
                    k as int,
                    orig.len() as int,
                ),
                distinct_keys(self.entries(), skey()),
                self.stat_entries() == old(self).stat_entries(),
            decreases orig.len() - k,
        {
            let ghost pre = orig.subrange(0, k as int);
            let ghost cur = orig.subrange(0, k as int + 1);
            proof {
                reveal(Seq::filter);
                assert(cur.drop_last() =~= pre);
                assert(cur.last() == orig[k as int]);
                assert(self.entries()[i as int] == orig.subrange(k as int, orig.len() as int)[0]);
                assert(self.entries()[i as int] == orig[k as int]);
            }
            let drop_it = self.records[i].status == SyncStatus::Completed
                && self.records[i].created_at < cutoff;
            if drop_it {
                let ghost before = self.entries();
                let _ = self.records.remove(i);
                deleted = deleted + 1;
                proof {
                    assert(self.entries() =~= before.remove(i as int));
                    assert(self.entries() =~= cur.filter(keep) + orig.subrange(
                        k as int + 1,
                        orig.len() as int,
                    ));
                    assert(distinct_keys(self.entries(), skey())) by {
                        assert(forall|a: int, b: int|
                            0 <= a < b < self.entries().len() ==> skey()(
                                #[trigger] self.entries()[a],
                            ) != skey()(#[trigger] self.entries()[b]));
                    }
                }
            } else {
                proof {
                    assert(cur.filter(keep) =~= pre.filter(keep).push(orig[k as int]));
                    assert(self.entries() =~= cur.filter(keep) + orig.subrange(
                        k as int + 1,
                        orig.len() as int,
                    ));
                }
                i = i + 1;
            }
            k = k + 1;
        }
        proof {
            assert(orig.subrange(0, orig.len() as int) =~= orig);
            assert(orig.subrange(orig.len() as int, orig.len() as int)
                =~= Seq::<SyncStatusEntryView>::empty());
            assert(self.entries() =~= orig.filter(keep));
        }
        deleted
    }
}

fn clone_strings(v: &Vec<String>) -> (r: Vec<String>)
    ensures
        r@ == v@,
{
    let mut out: Vec<String> = Vec::new();
    let mut i: usize = 0;
    while i < v.len()
        invariant
            0 <= i <= v.len(),
            out@ == v@.subrange(0, i as int),
        decreases v.len() - i,
    {
        out.push(v[i].clone());
        i = i + 1;
        proof {
            assert(out@ =~= v@.subrange(0, i as int));
        }
    }
    proof {
        assert(v@.subrange(0, v@.len() as int) =~= v@);
    }
    out
}

/// Applies one outcome to a counter row in place.
fn apply_outcome(s: &mut SyncSourceStatus, success: bool, error: Option<String>, now: i64)
    ensures
        final(s)@ == spec_apply_stats(old(s)@, success, opt_view(error), now),
{
    s.last_sync = Some(now);
    if s.total_issues_processed < u64::MAX {
        s.total_issues_processed = s.total_issues_processed + 1;
    }
    if success {
        if s.successful_syncs < u64::MAX {
            s.successful_syncs = s.successful_syncs + 1;
        }
    } else {
        if s.failed_syncs < u64::MAX {
            s.failed_syncs = s.failed_syncs + 1;
        }
        if let Some(err) = error {
            let ghost before = s.errors@.map_values(|x: String| x@);
            s.errors.push(err);
            proof {
                assert(s.errors@.map_values(|x: String| x@) =~= before.push(
                    s.errors@.last()@,
                ));
            }
            if s.errors.len() > 10 {
                let ghost pushed = s.errors@.map_values(|x: String| x@);
                let _ = s.errors.remove(0);
                proof {
                    assert(s.errors@.map_values(|x: String| x@) =~= pushed.subrange(
                        1,
                        pushed.len() as int,
                    ));
                }
            }
        }
    }
}


/// The counters after a run of recorded outcomes, each a success flag
/// and an optional error message, applied oldest first.
pub open spec fn spec_apply_outcomes(
    s: SyncSourceStatusView,
    outcomes: Seq<(bool, Option<Seq<char>>)>,
    now: i64,
) -> SyncSourceStatusView
    decreases outcomes.len(),
{
    if outcomes.len() == 0 {
        s
    } else {
        spec_apply_stats(
            spec_apply_outcomes(s, outcomes.drop_last(), now),
            outcomes.last().0,
            outcomes.last().1,
            now,
        )
    }
}

/// How many of a run of outcomes succeeded.
pub open spec fn spec_count_successes(outcomes: Seq<(bool, Option<Seq<char>>)>) -> int
    decreases outcomes.len(),
{
    if outcomes.len() == 0 {
        0
    } else {
        spec_count_successes(outcomes.drop_last()) + if outcomes.last().0 {
            1int
        } else {
            0int
        }
    }
}

proof fn lemma_count_successes_bound(outcomes: Seq<(bool, Option<Seq<char>>)>)
    ensures
        0 <= spec_count_successes(outcomes) <= outcomes.len(),
    decreases outcomes.len(),
{
    if outcomes.len() > 0 {
        lemma_count_successes_bound(outcomes.drop_last());
    }
}

/// Law: after recording a run of outcomes, of which some succeeded and
/// the rest failed, a source's counters show the total raised once per
/// outcome, the success and failure counters partitioning the run
/// accordingly, and the error ring never holding more than ten entries
/// — as long as no counter reaches its ceiling.
pub proof fn lemma_stats_accumulate(
    s: SyncSourceStatusView,
    outcomes: Seq<(bool, Option<Seq<char>>)>,
    now: i64,
)
    requires
        s.total_issues_processed + outcomes.len() <= u64::MAX,
        s.successful_syncs + outcomes.len() <= u64::MAX,
        s.failed_syncs + outcomes.len() <= u64::MAX,
        s.errors.len() <= 10,
    ensures
        ({
            let t = spec_apply_outcomes(s, outcomes, now);
            &&& t.total_issues_processed == s.total_issues_processed + outcomes.len()
            &&& t.successful_syncs == s.successful_syncs + spec_count_successes(outcomes)
            &&& t.failed_syncs == s.failed_syncs + outcomes.len() - spec_count_successes(outcomes)
            &&& t.errors.len() <= 10
        }),
    decreases outcomes.len(),
{
    if outcomes.len() > 0 {
        lemma_stats_accumulate(s, outcomes.drop_last(), now);
        lemma_count_successes_bound(outcomes.drop_last());
    }
}

} // verus!
