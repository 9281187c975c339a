//! Fixed-depth rolling histories of every tracked metric.

use vstd::prelude::*;
use crate::platform::cpu_count;
use crate::sampler::Sample;

verus! {

/// Number of values every history buffer holds.
pub const HISTORY_SIZE: usize = 60;

/// The window `w` after `v` was appended and its oldest value evicted.
pub open spec fn rolled<T>(w: Seq<T>, v: T) -> Seq<T> {
    w.drop_first().push(v)
}

/// A rolling window that always holds exactly `HISTORY_SIZE` values, oldest
/// first.
pub struct HistoryBuffer<T: Copy> {
    values: Vec<T>,
}

impl<T: Copy> View for HistoryBuffer<T> {
    type V = Seq<T>;

    closed spec fn view(&self) -> Seq<T> {
        self.values@
    }
}

impl<T: Copy> HistoryBuffer<T> {
    #[verifier::type_invariant]
    spec fn full(&self) -> bool {
        self.values@.len() == HISTORY_SIZE
    }

    /// A buffer of `HISTORY_SIZE` copies of `v`.
    pub fn filled(v: T) -> (r: Self)
        ensures
            r@ == Seq::new(HISTORY_SIZE as nat, |i: int| v),
            r@.len() == HISTORY_SIZE,
    {
        let mut values: Vec<T> = Vec::new();
        let mut i: usize = 0;
        while i < HISTORY_SIZE
            invariant
                i <= HISTORY_SIZE,
                values@ == Seq::new(i as nat, |k: int| v),
            decreases HISTORY_SIZE - i,
        {
            values.push(v);
            i = i + 1;
            assert(values@ =~= Seq::new(i as nat, |k: int| v));
        }
        HistoryBuffer { values }
    }

    /// Appends `v` and evicts the oldest value.
    pub fn push(&mut self, v: T)
        ensures
            final(self)@ == rolled(old(self)@, v),
            final(self)@.len() == HISTORY_SIZE,
    {
        proof {
            use_type_invariant(&*self);
        }
        let mut next: Vec<T> = Vec::with_capacity(HISTORY_SIZE);
        let mut i: usize = 1;
        while i < HISTORY_SIZE
            invariant
                1 <= i <= HISTORY_SIZE,
                self.values@.len() == HISTORY_SIZE,
                next@ == self.values@.subrange(1, i as int),
            decreases HISTORY_SIZE - i,
        {
            next.push(self.values[i]);
            i = i + 1;
            assert(next@ =~= self.values@.subrange(1, i as int));
        }
        next.push(v);
        assert(next@ =~= rolled(old(self)@, v));
        self.values = next;
    }

    /// A buffer holding the same values.
    pub fn copy(&self) -> (r: Self)
        ensures
            r@ == self@,
    {
        proof {
            use_type_invariant(self);
        }
        let mut values: Vec<T> = Vec::with_capacity(HISTORY_SIZE);
        let mut i: usize = 0;
        while i < HISTORY_SIZE
            invariant
                i <= HISTORY_SIZE,
                self.values@.len() == HISTORY_SIZE,
                values@ == self.values@.subrange(0, i as int),
            decreases HISTORY_SIZE - i,
        {
            values.push(self.values[i]);
            i = i + 1;
            assert(values@ =~= self.values@.subrange(0, i as int));
        }
        assert(values@ =~= self.values@);
        HistoryBuffer { values }
    }

    /// The values, oldest first.
    pub fn values(&self) -> (r: &Vec<T>)
        ensures
            r@ == self@,
            r@.len() == HISTORY_SIZE,
    {
        proof {
            use_type_invariant(self);
        }
        &self.values
    }
}


/// The window `w` after each value of `vs` was pushed in turn.
pub open spec fn rolled_all<T>(w: Seq<T>, vs: Seq<T>) -> Seq<T>
    decreases vs.len(),
{
    if vs.len() == 0 {
        w
    } else {
        rolled(rolled_all(w, vs.drop_last()), vs.last())
    }
}

/// However many values are pushed into a full window, it stays full and holds
/// the latest `HISTORY_SIZE` of the old values followed by the pushed ones.
pub proof fn lemma_window_after_pushes<T>(w: Seq<T>, vs: Seq<T>)
    requires
        w.len() == HISTORY_SIZE,
    ensures
        rolled_all(w, vs).len() == HISTORY_SIZE,
        rolled_all(w, vs) == (w + vs).subrange(vs.len() as int, vs.len() + HISTORY_SIZE),
    decreases vs.len(),
{
    if vs.len() > 0 {
        let d = vs.drop_last();
        lemma_window_after_pushes(w, d);
        assert(w + vs == (w + d).push(vs.last()));
        assert(rolled_all(w, vs) =~= (w + vs).subrange(vs.len() as int, vs.len() + HISTORY_SIZE));
    } else {
        assert(w + vs =~= w);
        assert(w.subrange(0, HISTORY_SIZE as int) =~= w);
    }
}

/// The value that a sample gives core `i`: its reading, or 0 where the sample
/// has no reading for that core.
pub open spec fn core_value(cores: Seq<i128>, i: int) -> i128 {
    if 0 <= i < cores.len() {
        cores[i]
    } else {
        0
    }
}

/// The history of every tracked metric. Percentages are in thousandths of a
/// percent, rates in thousandths of a kilobyte per second, memory figures in
/// kilobytes.
pub struct StatsHistory {
    pub cpu: HistoryBuffer<i128>,
    pub cpu_cores: Vec<HistoryBuffer<i128>>,
    pub cpu_iowait: HistoryBuffer<i128>,
    pub memory: HistoryBuffer<i128>,
    pub memory_total: u64,
    pub memory_apps: HistoryBuffer<u64>,
    pub memory_cached: HistoryBuffer<u64>,
    pub memory_buffers: HistoryBuffer<u64>,
    pub memory_slab: HistoryBuffer<u64>,
    pub memory_shmem: HistoryBuffer<u64>,
    pub network_download: HistoryBuffer<i128>,
    pub network_upload: HistoryBuffer<i128>,
    pub last_update: i64,
}

/// `b` holds what `a` holds, buffer by buffer.
pub open spec fn same_history(a: StatsHistory, b: StatsHistory) -> bool {
    &&& b.cpu@ == a.cpu@
    &&& b.cpu_cores@.len() == a.cpu_cores@.len()
    &&& forall|i: int| 0 <= i < a.cpu_cores@.len() ==> (#[trigger] b.cpu_cores@[i])@ == a.cpu_cores@[i]@
    &&& b.cpu_iowait@ == a.cpu_iowait@
    &&& b.memory@ == a.memory@
    &&& b.memory_total == a.memory_total
    &&& b.memory_apps@ == a.memory_apps@
    &&& b.memory_cached@ == a.memory_cached@
    &&& b.memory_buffers@ == a.memory_buffers@
    &&& b.memory_slab@ == a.memory_slab@
    &&& b.memory_shmem@ == a.memory_shmem@
    &&& b.network_download@ == a.network_download@
    &&& b.network_upload@ == a.network_upload@
    &&& b.last_update == a.last_update
}

/// `after` is `before` with sample `s` recorded: each buffer rolled by the
/// sample's value, each core's by its reading or 0, the total memory and the
/// time of the last update overwritten.
pub open spec fn recorded(before: StatsHistory, s: Sample, after: StatsHistory) -> bool {
    &&& after.cpu@ == rolled(before.cpu@, s.cpu_usage)
    &&& after.cpu_cores@.len() == before.cpu_cores@.len()
    &&& forall|i: int|
        0 <= i < before.cpu_cores@.len() ==> (#[trigger] after.cpu_cores@[i])@ == rolled(
            before.cpu_cores@[i]@,
            core_value(s.cpu_cores@, i),
        )
    &&& after.cpu_iowait@ == rolled(before.cpu_iowait@, s.cpu_iowait)
    &&& after.memory@ == rolled(before.memory@, s.memory.used_percentage)
    &&& after.memory_total == s.memory.total
    &&& after.memory_apps@ == rolled(before.memory_apps@, s.memory.apps)
    &&& after.memory_cached@ == rolled(before.memory_cached@, s.memory.cached)
    &&& after.memory_buffers@ == rolled(before.memory_buffers@, s.memory.buffers)
    &&& after.memory_slab@ == rolled(before.memory_slab@, s.memory.slab)
    &&& after.memory_shmem@ == rolled(before.memory_shmem@, s.memory.shmem)
    &&& after.network_download@ == rolled(before.network_download@, s.network_download)
    &&& after.network_upload@ == rolled(before.network_upload@, s.network_upload)
    &&& after.last_update == s.timestamp
}

/// A buffer of zeros.
pub open spec fn zeros<T>(z: T) -> Seq<T> {
    Seq::new(HISTORY_SIZE as nat, |i: int| z)
}

/// Every buffer of `h` holds zeros only, and nothing was recorded yet.
pub open spec fn is_zeroed(h: StatsHistory) -> bool {
    &&& h.cpu@ == zeros(0i128)
    &&& forall|i: int| 0 <= i < h.cpu_cores@.len() ==> (#[trigger] h.cpu_cores@[i])@ == zeros(0i128)
    &&& h.cpu_iowait@ == zeros(0i128)
    &&& h.memory@ == zeros(0i128)
    &&& h.memory_total == 0
    &&& h.memory_apps@ == zeros(0u64)
    &&& h.memory_cached@ == zeros(0u64)
    &&& h.memory_buffers@ == zeros(0u64)
    &&& h.memory_slab@ == zeros(0u64)
    &&& h.memory_shmem@ == zeros(0u64)
    &&& h.network_download@ == zeros(0i128)
    &&& h.network_upload@ == zeros(0i128)
    &&& h.last_update == 0
}

impl StatsHistory {
    /// Zero-filled histories, with one per-core buffer for each of `cores`
    /// cores.
    pub fn with_cores(cores: usize) -> (r: StatsHistory)
        ensures
            r.cpu_cores@.len() == cores,
            is_zeroed(r),
    {
        let mut cpu_cores: Vec<HistoryBuffer<i128>> = Vec::new();
        let mut i: usize = 0;
        while i < cores
            invariant
                i <= cores,
                cpu_cores@.len() == i,
                forall|k: int| 0 <= k < i ==> (#[trigger] cpu_cores@[k])@ == zeros(0i128),
            decreases cores - i,
        {
            cpu_cores.push(HistoryBuffer::filled(0i128));
            i = i + 1;
        }
        StatsHistory {
            cpu: HistoryBuffer::filled(0i128),
            cpu_cores,
            cpu_iowait: HistoryBuffer::filled(0i128),
            memory: HistoryBuffer::filled(0i128),
            memory_total: 0,
            memory_apps: HistoryBuffer::filled(0u64),
            memory_cached: HistoryBuffer::filled(0u64),
            memory_buffers: HistoryBuffer::filled(0u64),
            memory_slab: HistoryBuffer::filled(0u64),
            memory_shmem: HistoryBuffer::filled(0u64),
            network_download: HistoryBuffer::filled(0i128),
            network_upload: HistoryBuffer::filled(0i128),
            last_update: 0,
        }
    }

    /// Zero-filled histories with one per-core buffer for each CPU of this
    /// host.
    pub fn new() -> (r: StatsHistory)
        ensures
            r.cpu_cores@.len() >= 1,
            is_zeroed(r),
    {
        let cores = cpu_count();
        Self::with_cores(cores)
    }

    /// Appends `v` to `buffer`, evicting its oldest value.
    pub fn add_value<T: Copy>(buffer: &mut HistoryBuffer<T>, v: T)
        ensures
            final(buffer)@ == rolled(old(buffer)@, v),
            final(buffer)@.len() == HISTORY_SIZE,
    {
        buffer.push(v);
    }

    /// Records one sample. The number of per-core buffers never changes:
    /// readings beyond it are dropped, and a core the sample has no reading
    /// for gets 0.
    pub fn add_stats(&mut self, s: &Sample)
        ensures
            recorded(*old(self), *s, *final(self)),
    {
        Self::add_value(&mut self.cpu, s.cpu_usage);
        Self::add_value(&mut self.cpu_iowait, s.cpu_iowait);
        let n = self.cpu_cores.len();
        let mut i: usize = 0;
        while i < n
            invariant
                n == old(self).cpu_cores@.len(),
                self.cpu_cores@.len() == n,
                i <= n,
                forall|k: int| 0 <= k < i ==> (#[trigger] self.cpu_cores@[k])@ == rolled(
                    old(self).cpu_cores@[k]@,
                    core_value(s.cpu_cores@, k),
                ),
                forall|k: int| i <= k < n ==> (#[trigger] self.cpu_cores@[k])@ == old(self).cpu_cores@[k]@,
                self.cpu@ == rolled(old(self).cpu@, s.cpu_usage),
                self.cpu_iowait@ == rolled(old(self).cpu_iowait@, s.cpu_iowait),
                self.memory == old(self).memory,
                self.memory_apps == old(self).memory_apps,
                self.memory_cached == old(self).memory_cached,
                self.memory_buffers == old(self).memory_buffers,
                self.memory_slab == old(self).memory_slab,
                self.memory_shmem == old(self).memory_shmem,
                self.network_download == old(self).network_download,
                self.network_upload == old(self).network_upload,
            decreases n - i,
        {
            let v: i128 = if i < s.cpu_cores.len() {
                s.cpu_cores[i]
            } else {
                0
            };
            self.cpu_cores[i].push(v);
            i = i + 1;
        }
        Self::add_value(&mut self.memory, s.memory.used_percentage);
        self.memory_total = s.memory.total;
        Self::add_value(&mut self.memory_apps, s.memory.apps);
        Self::add_value(&mut self.memory_cached, s.memory.cached);
        Self::add_value(&mut self.memory_buffers, s.memory.buffers);
        Self::add_value(&mut self.memory_slab, s.memory.slab);
        Self::add_value(&mut self.memory_shmem, s.memory.shmem);
        Self::add_value(&mut self.network_download, s.network_download);
        Self::add_value(&mut self.network_upload, s.network_upload);
        self.last_update = s.timestamp;
    }

    /// A history holding the same values.
    pub fn copy(&self) -> (r: StatsHistory)
        ensures
            same_history(*self, r),
    {
        let mut cpu_cores: Vec<HistoryBuffer<i128>> = Vec::new();
        let mut i: usize = 0;
        while i < self.cpu_cores.len()
            invariant
                i <= self.cpu_cores@.len(),
                cpu_cores@.len() == i,
                forall|k: int| 0 <= k < i ==> (#[trigger] cpu_cores@[k])@ == self.cpu_cores@[k]@,
            decreases self.cpu_cores@.len() - i,
        {
            cpu_cores.push(self.cpu_cores[i].copy());
            i = i + 1;
        }
        StatsHistory {
            cpu: self.cpu.copy(),
            cpu_cores,
            cpu_iowait: self.cpu_iowait.copy(),
            memory: self.memory.copy(),
            memory_total: self.memory_total,
            memory_apps: self.memory_apps.copy(),
            memory_cached: self.memory_cached.copy(),
            memory_buffers: self.memory_buffers.copy(),
            memory_slab: self.memory_slab.copy(),
            memory_shmem: self.memory_shmem.copy(),
            network_download: self.network_download.copy(),
            network_upload: self.network_upload.copy(),
            last_update: self.last_update,
        }
    }
}

} // verus!
