//! The sampler: one tick turns the raw counter files into a `Sample`, using
//! the previous tick's counters, which it owns, as the baseline of every
//! delta.

use vstd::prelude::*;
use crate::cpu::{
    counters_in_range,
    iowait_between,
    read_stat,
    stat_cores,
    stat_overall,
    usage,
    usage_between,
    CpuCounters,
    CpuTimes,
};
use crate::memory::{memory_of, read_meminfo, MemoryStats};
use crate::network::{device_totals, rate, rate_between, read_netdev};

verus! {

/// Byte counters of all interfaces, and the monotonic clock reading in
/// nanoseconds at which they were read.
#[derive(Clone, Copy, Debug, PartialEq, Eq)]
pub struct NetCounters {
    pub received: u64,
    pub transmitted: u64,
    pub at_ns: u64,
}

/// The previous tick's raw readings, each absent until a first reading.
pub struct CounterBaseline {
    pub cpu: Option<CpuCounters>,
    pub cores: Option<Vec<CpuCounters>>,
    pub net: Option<NetCounters>,
}

/// The raw inputs of one tick: the contents of the three counter files, each
/// absent where it could not be read, and the monotonic clock reading in
/// nanoseconds taken with the network device file.
pub struct Readings {
    pub stat: Option<Vec<u8>>,
    pub meminfo: Option<Vec<u8>>,
    pub netdev: Option<Vec<u8>>,
    pub clock_ns: u64,
}

/// CPU figures of one tick, in thousandths of a percent.
pub struct CpuStats {
    pub overall_usage: i128,
    pub core_usage: Vec<i128>,
    pub iowait_percentage: i128,
}

/// Everything one tick measured. Percentages are in thousandths of a
/// percent, rates in thousandths of a kilobyte per second.
pub struct Sample {
    /// Milliseconds since the Unix epoch.
    pub timestamp: i64,
    pub cpu_usage: i128,
    pub cpu_cores: Vec<i128>,
    pub cpu_iowait: i128,
    pub memory: MemoryStats,
    pub network_download: i128,
    pub network_upload: i128,
}

/// Owns the counter baseline and turns raw readings into samples.
pub struct Sampler {
    pub baseline: CounterBaseline,
}

pub open spec fn cores_view(cores: Option<Vec<CpuCounters>>) -> Option<Seq<CpuCounters>> {
    match cores {
        Some(v) => Some(v@),
        None => None,
    }
}

/// The deltas of the all-CPU line: usage and I/O wait, both 0 where a
/// reading is missing on either side.
pub open spec fn overall_report(prev: Option<CpuCounters>, cur: Option<CpuTimes>) -> (int, int) {
    match (prev, cur) {
        (Some(p), Some(t)) => (usage_between(p, t.counters_spec()), iowait_between(p, t.counters_spec())),
        _ => (0, 0),
    }
}

/// The all-CPU baseline after a reading: the new counters, or the old ones
/// where the line was missing.
pub open spec fn next_overall(prev: Option<CpuCounters>, cur: Option<CpuTimes>) -> Option<CpuCounters> {
    match cur {
        Some(t) => Some(t.counters_spec()),
        None => prev,
    }
}

/// Per-core usage: one value per core now read, each 0 unless the previous
/// reading had exactly as many cores.
pub open spec fn core_report(prev: Option<Seq<CpuCounters>>, cur: Seq<CpuCounters>) -> Seq<i128> {
    Seq::new(
        cur.len(),
        |i: int|
            match prev {
                Some(p) => if p.len() == cur.len() {
                    usage_between(p[i], cur[i]) as i128
                } else {
                    0i128
                },
                None => 0i128,
            },
    )
}

pub open spec fn core_counters(cores: Seq<CpuTimes>) -> Seq<CpuCounters> {
    cores.map_values(|t: CpuTimes| t.counters_spec())
}

/// Download and upload rates since the previous network reading; both 0
/// where there is none.
pub open spec fn network_report(prev: Option<NetCounters>, cur: NetCounters) -> (int, int) {
    match prev {
        Some(p) => (
            rate_between(p.received, cur.received, cur.at_ns - p.at_ns),
            rate_between(p.transmitted, cur.transmitted, cur.at_ns - p.at_ns),
        ),
        None => (0, 0),
    }
}

pub open spec fn net_counters_of(content: Seq<u8>, clock_ns: u64) -> NetCounters {
    NetCounters {
        received: device_totals(content).0,
        transmitted: device_totals(content).1,
        at_ns: clock_ns,
    }
}

pub open spec fn zero_memory() -> MemoryStats {
    MemoryStats {
        total: 0,
        available: 0,
        used_percentage: 0,
        apps: 0,
        cached: 0,
        buffers: 0,
        slab: 0,
        shmem: 0,
    }
}

impl CounterBaseline {
    /// Every stored CPU total is one that seven tick counts can add up to.
    pub open spec fn wf(&self) -> bool {
        &&& (self.cpu matches Some(c) ==> counters_in_range(c))
        &&& (self.cores matches Some(v) ==> forall|i: int|
            0 <= i < v@.len() ==> counters_in_range(#[trigger] v@[i]))
    }

    pub open spec fn is_empty(&self) -> bool {
        self.cpu is None && self.cores is None && self.net is None
    }
}

/// CPU figures and baseline after reading the statistics file `stat`.
pub open spec fn cpu_outcome(
    before: CounterBaseline,
    stat: Option<Vec<u8>>,
    r: CpuStats,
    after: CounterBaseline,
) -> bool {
    match stat {
        None => {
            &&& r.overall_usage == 0
            &&& r.iowait_percentage == 0
            &&& r.core_usage@.len() == 0
            &&& after.cpu == before.cpu
            &&& cores_view(after.cores) == cores_view(before.cores)
        },
        Some(c) => {
            let cur = stat_overall(c@);
            let cores = core_counters(stat_cores(c@));
            &&& r.overall_usage == overall_report(before.cpu, cur).0
            &&& r.iowait_percentage == overall_report(before.cpu, cur).1
            &&& r.core_usage@ == core_report(cores_view(before.cores), cores)
            &&& after.cpu == next_overall(before.cpu, cur)
            &&& cores_view(after.cores) == Some(cores)
        },
    }
}

/// Network rates and baseline after reading the device file `netdev` at
/// clock reading `clock_ns`.
pub open spec fn network_outcome(
    before: Option<NetCounters>,
    netdev: Option<Vec<u8>>,
    clock_ns: u64,
    r: (i128, i128),
    after: Option<NetCounters>,
) -> bool {
    match netdev {
        None => r == (0i128, 0i128) && after == before,
        Some(c) => {
            let cur = net_counters_of(c@, clock_ns);
            &&& r.0 == network_report(before, cur).0
            &&& r.1 == network_report(before, cur).1
            &&& after == Some(cur)
        },
    }
}

/// The sample and baseline of one tick on `readings`, stamped `timestamp`.
pub open spec fn tick_outcome(
    before: CounterBaseline,
    readings: Readings,
    timestamp: i64,
    s: Sample,
    after: CounterBaseline,
) -> bool {
    &&& s.timestamp == timestamp
    &&& cpu_outcome(
        before,
        readings.stat,
        CpuStats {
            overall_usage: s.cpu_usage,
            core_usage: s.cpu_cores,
            iowait_percentage: s.cpu_iowait,
        },
        after,
    )
    &&& s.memory == match readings.meminfo {
        Some(c) => memory_of(c@),
        None => zero_memory(),
    }
    &&& network_outcome(
        before.net,
        readings.netdev,
        readings.clock_ns,
        (s.network_download, s.network_upload),
        after.net,
    )
}

/// The first tick after start, which has no baseline, reports no CPU usage,
/// no I/O wait, no per-core usage and no network traffic, whatever the
/// counters read.
pub proof fn lemma_first_tick_zero(
    before: CounterBaseline,
    readings: Readings,
    timestamp: i64,
    s: Sample,
    after: CounterBaseline,
)
    requires
        before.is_empty(),
        tick_outcome(before, readings, timestamp, s, after),
    ensures
        s.cpu_usage == 0,
        s.cpu_iowait == 0,
        forall|i: int| 0 <= i < s.cpu_cores@.len() ==> s.cpu_cores@[i] == 0,
        s.network_download == 0,
        s.network_upload == 0,
{
}

/// Per-core usage between two readings of the cores.
pub fn core_usage(prev: &Option<Vec<CpuCounters>>, cur: &Vec<CpuCounters>) -> (r: Vec<i128>)
    requires
        prev matches Some(v) ==> forall|i: int| 0 <= i < v@.len() ==> counters_in_range(#[trigger] v@[i]),
        forall|i: int| 0 <= i < cur@.len() ==> counters_in_range(#[trigger] cur@[i]),
    ensures
        r@ == core_report(cores_view(*prev), cur@),
{
    let mut out: Vec<i128> = Vec::new();
    let mut i: usize = 0;
    while i < cur.len()
        invariant
            i <= cur@.len(),
            out@ == core_report(cores_view(*prev), cur@).subrange(0, i as int),
            prev matches Some(v) ==> forall|k: int| 0 <= k < v@.len() ==> counters_in_range(#[trigger] v@[k]),
            forall|k: int| 0 <= k < cur@.len() ==> counters_in_range(#[trigger] cur@[k]),
        decreases cur@.len() - i,
    {
        let v: i128 = match prev {
            Some(p) => if p.len() == cur.len() {
                usage(p[i], cur[i]).0
            } else {
                0
            },
            None => 0,
        };
        out.push(v);
        i = i + 1;
        assert(out@ =~= core_report(cores_view(*prev), cur@).subrange(0, i as int));
    }
    assert(out@ =~= core_report(cores_view(*prev), cur@));
    out
}

impl Sampler {
    /// A sampler with no baseline yet.
    pub fn new() -> (r: Sampler)
        ensures
            r.baseline.is_empty(),
            r.baseline.wf(),
    {
        Sampler { baseline: CounterBaseline { cpu: None, cores: None, net: None } }
    }

    /// Reads the CPU statistics file and measures against the baseline,
    /// which then holds the new reading.
    pub fn cpu_stats(&mut self, stat: &Option<Vec<u8>>) -> (r: CpuStats)
        requires
            old(self).baseline.wf(),
        ensures
            final(self).baseline.wf(),
            cpu_outcome(old(self).baseline, *stat, r, final(self).baseline),
            final(self).baseline.net == old(self).baseline.net,
    {
        match stat {
            None => CpuStats { overall_usage: 0, core_usage: Vec::new(), iowait_percentage: 0 },
            Some(content) => {
                let reading = read_stat(content.as_slice());
                let mut overall_usage: i128 = 0;
                let mut iowait_percentage: i128 = 0;
                match reading.overall {
                    Some(t) => {
                        let cur = t.counters();
                        match self.baseline.cpu {
                            Some(p) => {
                                let u = usage(p, cur);
                                overall_usage = u.0;
                                iowait_percentage = u.1;
                            },
                            None => {},
                        }
                        self.baseline.cpu = Some(cur);
                    },
                    None => {},
                }
                let mut cores: Vec<CpuCounters> = Vec::new();
                let mut i: usize = 0;
                while i < reading.cores.len()
                    invariant
                        i <= reading.cores@.len(),
                        cores@ == core_counters(reading.cores@).subrange(0, i as int),
                    decreases reading.cores@.len() - i,
                {
                    cores.push(reading.cores[i].counters());
                    i = i + 1;
                    assert(cores@ =~= core_counters(reading.cores@).subrange(0, i as int));
                }
                assert(cores@ =~= core_counters(reading.cores@));
                let core_usage = core_usage(&self.baseline.cores, &cores);
                self.baseline.cores = Some(cores);
                CpuStats { overall_usage, core_usage, iowait_percentage }
            },
        }
    }

    /// Reads the network device file at clock reading `clock_ns` and
    /// measures against the baseline, which then holds the new reading.
    pub fn network_stats(&mut self, netdev: &Option<Vec<u8>>, clock_ns: u64) -> (r: (i128, i128))
        requires
            old(self).baseline.wf(),
        ensures
            final(self).baseline.wf(),
            network_outcome(old(self).baseline.net, *netdev, clock_ns, r, final(self).baseline.net),
            final(self).baseline.cpu == old(self).baseline.cpu,
            cores_view(final(self).baseline.cores) == cores_view(old(self).baseline.cores),
    {
        match netdev {
            None => (0, 0),
            Some(content) => {
                let totals = read_netdev(content.as_slice());
                let cur = NetCounters { received: totals.0, transmitted: totals.1, at_ns: clock_ns };
                let r = match self.baseline.net {
                    Some(p) => {
                        let elapsed: u64 = if clock_ns > p.at_ns {
                            clock_ns - p.at_ns
                        } else {
                            0
                        };
                        (rate(p.received, cur.received, elapsed), rate(p.transmitted, cur.transmitted, elapsed))
                    },
                    None => (0, 0),
                };
                self.baseline.net = Some(cur);
                r
            },
        }
    }

    /// One tick: CPU, memory and network figures of `readings`, stamped
    /// `timestamp`.
    pub fn tick(&mut self, readings: &Readings, timestamp: i64) -> (r: Sample)
        requires
            old(self).baseline.wf(),
        ensures
            final(self).baseline.wf(),
            tick_outcome(old(self).baseline, *readings, timestamp, r, final(self).baseline),
    {
        let cpu = self.cpu_stats(&readings.stat);
        let memory = match &readings.meminfo {
            Some(c) => read_meminfo(c.as_slice()),
            None => MemoryStats {
                total: 0,
                available: 0,
                used_percentage: 0,
                apps: 0,
                cached: 0,
                buffers: 0,
                slab: 0,
                shmem: 0,
            },
        };
        let net = self.network_stats(&readings.netdev, readings.clock_ns);
        Sample {
            timestamp,
            cpu_usage: cpu.overall_usage,
            cpu_cores: cpu.core_usage,
            cpu_iowait: cpu.iowait_percentage,
            memory,
            network_download: net.0,
            network_upload: net.1,
        }
    }
}

} // verus!
