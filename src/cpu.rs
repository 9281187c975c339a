//! CPU time counters: reading the kernel's per-state tick counts and turning
//! two consecutive readings into usage and I/O-wait percentages.

use vstd::prelude::*;
use crate::fixed::{divide, quotient, SCALE};
use crate::text::{
    NEWLINE,
    counter,
    has_prefix,
    parse_counter,
    pieces,
    split_pieces,
    split_words,
    starts_with,
    views,
    words,
};

verus! {

/// Tick counts of one CPU line, per state.
#[derive(Clone, Copy, Debug, PartialEq, Eq)]
pub struct CpuTimes {
    pub user: u64,
    pub nice: u64,
    pub system: u64,
    pub idle: u64,
    pub iowait: u64,
    pub irq: u64,
    pub softirq: u64,
}

/// The part of a CPU reading that deltas are taken of: total, idle and
/// I/O-wait ticks.
#[derive(Clone, Copy, Debug, PartialEq, Eq)]
pub struct CpuCounters {
    pub total: u128,
    pub idle: u64,
    pub iowait: u64,
}

impl CpuTimes {
    /// Ticks spent neither idle nor waiting for I/O.
    pub open spec fn busy(self) -> int {
        self.user + self.nice + self.system + self.irq + self.softirq
    }

    pub open spec fn total(self) -> int {
        self.idle + self.busy() + self.iowait
    }

    pub open spec fn counters_spec(self) -> CpuCounters {
        CpuCounters { total: self.total() as u128, idle: self.idle, iowait: self.iowait }
    }

    pub fn counters(&self) -> (r: CpuCounters)
        ensures
            r == self.counters_spec(),
    {
        let busy: u128 = self.user as u128 + self.nice as u128 + self.system as u128
            + self.irq as u128 + self.softirq as u128;
        CpuCounters {
            total: self.idle as u128 + busy + self.iowait as u128,
            idle: self.idle,
            iowait: self.iowait,
        }
    }
}

/// The bytes `cpu`, which every CPU line of the statistics file starts with.
pub open spec fn cpu_tag() -> Seq<u8> {
    seq![99u8, 112u8, 117u8]
}

/// The bytes `cpu ` (with a space), which start the line of all CPUs together.
pub open spec fn all_cpus_tag() -> Seq<u8> {
    seq![99u8, 112u8, 117u8, 32u8]
}

/// The times of a CPU line cut into words: the label, then user, nice,
/// system, idle, iowait, irq and softirq; a line of fewer than eight words
/// has none.
pub open spec fn line_times(ws: Seq<Seq<u8>>) -> Option<CpuTimes> {
    if ws.len() >= 8 {
        Some(
            CpuTimes {
                user: counter(ws[1]),
                nice: counter(ws[2]),
                system: counter(ws[3]),
                idle: counter(ws[4]),
                iowait: counter(ws[5]),
                irq: counter(ws[6]),
                softirq: counter(ws[7]),
            },
        )
    } else {
        None
    }
}

/// The all-CPU times: those of the first line, where it starts with `cpu `.
pub open spec fn overall_times(ls: Seq<Seq<u8>>) -> Option<CpuTimes> {
    if ls.len() > 0 && has_prefix(ls[0], all_cpus_tag()) {
        line_times(words(ls[0]))
    } else {
        None
    }
}

/// The per-core times from line `i` on: the run of lines that start with
/// `cpu` ends at the first that does not; within it, lines of too few words
/// are passed over.
pub open spec fn core_times(ls: Seq<Seq<u8>>, i: int) -> Seq<CpuTimes>
    decreases ls.len() - i,
{
    if i < 0 || i >= ls.len() || !has_prefix(ls[i], cpu_tag()) {
        Seq::empty()
    } else {
        match line_times(words(ls[i])) {
            Some(t) => seq![t] + core_times(ls, i + 1),
            None => core_times(ls, i + 1),
        }
    }
}

/// What the statistics file `content` holds: the all-CPU times, and the
/// per-core times read from the lines after the first.
pub open spec fn stat_overall(content: Seq<u8>) -> Option<CpuTimes> {
    overall_times(pieces(content, NEWLINE))
}

pub open spec fn stat_cores(content: Seq<u8>) -> Seq<CpuTimes> {
    core_times(pieces(content, NEWLINE), 1)
}

/// One reading of the statistics file.
pub struct StatReading {
    pub overall: Option<CpuTimes>,
    pub cores: Vec<CpuTimes>,
}

/// Reads the times of one CPU line.
pub fn read_cpu_line(line: &[u8]) -> (r: Option<CpuTimes>)
    ensures
        r == line_times(words(line@)),
{
    let ws = split_words(line);
    if ws.len() < 8 {
        return None;
    }
    proof {
        assert(views(ws@).len() == ws@.len());
        assert forall|k: int| 0 <= k < ws@.len() implies #[trigger] views(ws@)[k] == ws@[k]@ by {}
    }
    Some(
        CpuTimes {
            user: parse_counter(ws[1].as_slice()),
            nice: parse_counter(ws[2].as_slice()),
            system: parse_counter(ws[3].as_slice()),
            idle: parse_counter(ws[4].as_slice()),
            iowait: parse_counter(ws[5].as_slice()),
            irq: parse_counter(ws[6].as_slice()),
            softirq: parse_counter(ws[7].as_slice()),
        },
    )
}

/// Reads the statistics file: the all-CPU line and the per-core lines.
pub fn read_stat(content: &[u8]) -> (r: StatReading)
    ensures
        r.overall == stat_overall(content@),
        r.cores@ == stat_cores(content@),
{
    let lines = split_pieces(content, NEWLINE);
    let ghost ls = pieces(content@, NEWLINE);
    assert(ls.len() == lines@.len());
    assert(forall|k: int| 0 <= k < lines@.len() ==> #[trigger] ls[k] == lines@[k]@);
    let cpu: Vec<u8> = vec![99u8, 112u8, 117u8];
    let all_cpus: Vec<u8> = vec![99u8, 112u8, 117u8, 32u8];
    assert(cpu@ =~= cpu_tag());
    assert(all_cpus@ =~= all_cpus_tag());
    let mut overall: Option<CpuTimes> = None;
    if lines.len() > 0 && starts_with(lines[0].as_slice(), all_cpus.as_slice()) {
        overall = read_cpu_line(lines[0].as_slice());
    }
    let mut cores: Vec<CpuTimes> = Vec::new();
    let mut i: usize = 1;
    let mut going = true;
    while going && i < lines.len()
        invariant
            ls == views(lines@),
            ls.len() == lines@.len(),
            1 <= i,
            i <= lines@.len() || lines@.len() == 0,
            cpu@ == cpu_tag(),
            cores@ + (if going { core_times(ls, i as int) } else { Seq::empty() })
                == core_times(ls, 1),
        decreases lines@.len() - i + (if going { 1int } else { 0int }),
    {
        assert(ls[i as int] == lines@[i as int]@);
        if starts_with(lines[i].as_slice(), cpu.as_slice()) {
            match read_cpu_line(lines[i].as_slice()) {
                Some(t) => {
                    assert(cores@.push(t) + core_times(ls, i + 1) =~= cores@ + core_times(ls, i as int));
                    cores.push(t);
                },
                None => {},
            }
            i = i + 1;
        } else {
            assert(cores@ + Seq::<CpuTimes>::empty() =~= cores@);
            going = false;
        }
    }
    proof {
        if going {
            assert(core_times(ls, i as int) == Seq::<CpuTimes>::empty());
        }
        assert(cores@ + Seq::<CpuTimes>::empty() =~= cores@);
    }
    StatReading { overall, cores }
}

/// Percentage of the ticks between two readings spent busy: neither idle nor
/// waiting for I/O; 0 where the total did not advance.
pub open spec fn usage_between(prev: CpuCounters, cur: CpuCounters) -> int {
    let dt = cur.total - prev.total;
    let di = cur.idle - prev.idle;
    let dw = cur.iowait - prev.iowait;
    if dt <= 0 {
        0
    } else {
        quotient(100 * SCALE * (dt - di - dw), dt)
    }
}

/// Percentage of the ticks between two readings spent waiting for I/O; 0
/// where the total did not advance.
pub open spec fn iowait_between(prev: CpuCounters, cur: CpuCounters) -> int {
    let dt = cur.total - prev.total;
    let dw = cur.iowait - prev.iowait;
    if dt <= 0 {
        0
    } else {
        quotient(100 * SCALE * dw, dt)
    }
}

/// Counters whose total fits what seven `u64` tick counts can add up to.
pub open spec fn counters_in_range(c: CpuCounters) -> bool {
    c.total <= 7 * u64::MAX
}

/// Usage and I/O-wait percentages, in thousandths, between two readings.
pub fn usage(prev: CpuCounters, cur: CpuCounters) -> (r: (i128, i128))
    requires
        counters_in_range(prev),
        counters_in_range(cur),
    ensures
        r.0 == usage_between(prev, cur),
        r.1 == iowait_between(prev, cur),
{
    let dt: i128 = cur.total as i128 - prev.total as i128;
    if dt <= 0 {
        return (0, 0);
    }
    let di: i128 = cur.idle as i128 - prev.idle as i128;
    let dw: i128 = cur.iowait as i128 - prev.iowait as i128;
    let busy: i128 = dt - di - dw;
    (divide(100 * SCALE * busy, dt), divide(100 * SCALE * dw, dt))
}

} // verus!
