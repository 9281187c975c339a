//! The history shared between the tick driver, its only writer, and any
//! number of readers. A whole sample is recorded under one exclusive
//! acquisition of the lock, so a reader sees the history either before or
//! after a tick, never part of one.

use vstd::prelude::*;
use vstd::rwlock::{RwLock, RwLockPredicate};
use crate::history::StatsHistory;
use crate::sampler::Sample;

verus! {

/// What holds of every history the store ever holds: its number of per-core
/// buffers is the one it was made with.
pub struct FixedCores {
    pub cores: nat,
}

impl RwLockPredicate<StatsHistory> for FixedCores {
    open spec fn inv(self, h: StatsHistory) -> bool {
        h.cpu_cores@.len() == self.cores
    }
}

/// A lock-guarded `StatsHistory`.
pub struct HistoryStore {
    lock: RwLock<StatsHistory, FixedCores>,
}

impl HistoryStore {
    /// The number of per-core buffers of every history this store holds.
    pub closed spec fn core_count(&self) -> nat {
        self.lock.pred().cores
    }

    /// A store that holds `h`.
    pub fn new(h: StatsHistory) -> (r: HistoryStore)
        ensures
            r.core_count() == h.cpu_cores@.len(),
    {
        let ghost pred = FixedCores { cores: h.cpu_cores@.len() };
        HistoryStore { lock: RwLock::new(h, Ghost(pred)) }
    }

    /// Records one sample, as one step that no reader sees half done.
    pub fn record(&self, s: &Sample) {
        let (mut h, handle) = self.lock.acquire_write();
        h.add_stats(s);
        handle.release_write(h);
    }

    /// A copy of the history as it stands between two records.
    pub fn snapshot(&self) -> (r: StatsHistory)
        ensures
            r.cpu_cores@.len() == self.core_count(),
    {
        let handle = self.lock.acquire_read();
        let h = handle.borrow();
        let r = h.copy();
        handle.release_read();
        r
    }
}

} // verus!
