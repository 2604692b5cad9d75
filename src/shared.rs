//! The process-wide handle on the frequency table: one table behind a
//! reader-writer lock, shared by reference counting between the capture
//! threads and the threads that serve exports and status queries. Every
//! operation holds the lock for one short, I/O-free step.

use crate::capture::{spec_next_action, CaptureAction, CaptureEvent};
use crate::fingerprint::PacketInfos;
use crate::table::{rows_agree, FrequencyTable};
use std::sync::Arc;
use vstd::prelude::*;
use vstd::rwlock::{RwLock, RwLockPredicate};

verus! {

/// What the lock keeps true of the table it guards: it is well formed.
pub struct WellFormedTable;

impl RwLockPredicate<FrequencyTable> for WellFormedTable {
    open spec fn inv(self, v: FrequencyTable) -> bool {
        v.wf()
    }
}

/// Shared state of the monitor: the frequency table under mutual exclusion.
pub struct SonarState(pub Arc<RwLock<FrequencyTable, WellFormedTable>>);

impl SonarState {
    /// A handle on a new, empty table.
    pub fn new() -> (r: SonarState) {
        let table = FrequencyTable::new();
        SonarState(Arc::new(RwLock::new(table, Ghost(WellFormedTable))))
    }

    /// Counts one more frame under `key`, as one indivisible step.
    pub fn push_to_hash_map(&self, key: PacketInfos) {
        let lock: &RwLock<FrequencyTable, WellFormedTable> = &self.0;
        let (mut table, handle) = lock.acquire_write();
        table.increment(key);
        handle.release_write(table);
    }

    /// One step of the capture loop against the shared table, the table
    /// locked for the update alone.
    pub fn apply_event(&self, event: &CaptureEvent) -> (r: CaptureAction)
        ensures
            r == spec_next_action(*event),
    {
        let lock: &RwLock<FrequencyTable, WellFormedTable> = &self.0;
        let (mut table, handle) = lock.acquire_write();
        let r = table.apply_event(event);
        handle.release_write(table);
        r
    }

    /// The counter of `key` at this moment.
    pub fn count_of(&self, key: PacketInfos) -> u64 {
        let lock: &RwLock<FrequencyTable, WellFormedTable> = &self.0;
        let handle = lock.acquire_read();
        let r = handle.borrow().count_of(key);
        handle.release_read();
        r
    }

    /// A consistent point-in-time copy of the rows: one per fingerprint,
    /// keys unique, counts positive. Later increments do not show in it.
    pub fn snapshot(&self) -> (r: Vec<(PacketInfos, u64)>)
        ensures
            exists|m: Map<PacketInfos, nat>| rows_agree(r@, m),
    {
        let lock: &RwLock<FrequencyTable, WellFormedTable> = &self.0;
        let handle = lock.acquire_read();
        let r = handle.borrow().snapshot();
        handle.release_read();
        r
    }

    /// Empties the table.
    pub fn clear(&self) {
        let lock: &RwLock<FrequencyTable, WellFormedTable> = &self.0;
        let (mut table, handle) = lock.acquire_write();
        table.clear();
        handle.release_write(table);
    }
}

} // verus!
