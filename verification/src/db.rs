//! The two stores the reconciliation engine owns for the length of a run:
//! task mappings and sync statuses.

use vstd::prelude::*;

use crate::mapping::MappingStore;
use crate::status::StatusStore;

verus! {

/// The engine's durable state: the mapping store and the status store.
pub struct SyncDatabase {
    pub mappings: MappingStore,
    pub status: StatusStore,
}

impl SyncDatabase {
    /// Both stores are well formed.
    pub open spec fn wf(&self) -> bool {
        self.mappings.wf() && self.status.wf()
    }

    /// A database with nothing in it yet.
    pub fn new() -> (r: Self)
        ensures
            r.wf(),
            r.mappings@ == Map::<(Seq<char>, Seq<char>), crate::mapping::TaskMappingView>::empty(),
            r.status.statuses() == Map::<Seq<char>, crate::status::SyncStatusEntryView>::empty(),
            r.status.source_stats() == Map::<
                Seq<char>,
                crate::status::SyncSourceStatusView,
            >::empty(),
    {
        SyncDatabase { mappings: MappingStore::new(), status: StatusStore::new() }
    }
}

} // verus!
