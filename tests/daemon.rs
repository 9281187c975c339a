use stats_daemon::cpu::{read_stat, usage, CpuCounters};
use stats_daemon::fixed::divide;
use stats_daemon::history::{HistoryBuffer, StatsHistory, HISTORY_SIZE};
use stats_daemon::lifecycle::{marker_text, may_start, recorded_pid};
use stats_daemon::memory::{read_meminfo, used_percentage, MemoryStats};
use stats_daemon::network::{rate, read_netdev};
use stats_daemon::sampler::{CounterBaseline, Readings, Sample, Sampler};
use stats_daemon::store::HistoryStore;
use stats_daemon::text::{parse_decimal, split_pieces, split_words};

fn readings(stat: &str, meminfo: &str, netdev: &str, clock_ns: u64) -> Readings {
    Readings {
        stat: Some(stat.as_bytes().to_vec()),
        meminfo: Some(meminfo.as_bytes().to_vec()),
        netdev: Some(netdev.as_bytes().to_vec()),
        clock_ns,
    }
}

fn no_readings(clock_ns: u64) -> Readings {
    Readings { stat: None, meminfo: None, netdev: None, clock_ns }
}

const NETDEV_HEAD: &str = "Inter-|   Receive                                                |  Transmit\n face |bytes    packets errs drop fifo frame compressed multicast|bytes    packets errs drop fifo colls carrier compressed\n";

fn netdev(eth_rx: u64, eth_tx: u64, lo_bytes: u64) -> String {
    format!(
        "{}    lo: {} 10 0 0 0 0 0 0 {} 10 0 0 0 0 0 0\n  eth0: {} 20 0 0 0 0 0 0 {} 20 0 0 0 0 0 0\n",
        NETDEV_HEAD, lo_bytes, lo_bytes, eth_rx, eth_tx
    )
}

fn sample_with(cores: Vec<i128>, value: i128) -> Sample {
    Sample {
        timestamp: 42,
        cpu_usage: value,
        cpu_cores: cores,
        cpu_iowait: value,
        memory: MemoryStats {
            total: 1000,
            available: 400,
            used_percentage: 60000,
            apps: 1,
            cached: 2,
            buffers: 3,
            slab: 4,
            shmem: 5,
        },
        network_download: value,
        network_upload: value,
    }
}

#[test]
fn history_buffer_stays_full() {
    let mut b = HistoryBuffer::filled(0u64);
    assert_eq!(b.values().len(), HISTORY_SIZE);
    for v in 1..=150u64 {
        b.push(v);
        assert_eq!(b.values().len(), 60);
    }
    let expected: Vec<u64> = (91..=150).collect();
    assert_eq!(b.values(), &expected);
}

#[test]
fn every_history_buffer_stays_full_over_ticks() {
    let mut h = StatsHistory::with_cores(3);
    for t in 0..100i128 {
        h.add_stats(&sample_with(vec![t, t, t], t));
    }
    assert_eq!(h.cpu.values().len(), 60);
    assert_eq!(h.cpu_iowait.values().len(), 60);
    assert_eq!(h.memory.values().len(), 60);
    assert_eq!(h.memory_apps.values().len(), 60);
    assert_eq!(h.memory_cached.values().len(), 60);
    assert_eq!(h.memory_buffers.values().len(), 60);
    assert_eq!(h.memory_slab.values().len(), 60);
    assert_eq!(h.memory_shmem.values().len(), 60);
    assert_eq!(h.network_download.values().len(), 60);
    assert_eq!(h.network_upload.values().len(), 60);
    assert_eq!(h.cpu_cores.len(), 3);
    for c in &h.cpu_cores {
        assert_eq!(c.values().len(), 60);
        assert_eq!(c.values()[59], 99);
        assert_eq!(c.values()[0], 40);
    }
    assert_eq!(h.memory_total, 1000);
    assert_eq!(h.last_update, 42);
}

#[test]
fn usage_from_deltas() {
    let prev = CpuCounters { total: 5000, idle: 3000, iowait: 100 };
    let cur = CpuCounters { total: 6000, idle: 3700, iowait: 150 };
    assert_eq!(usage(prev, cur), (25000, 5000));
}

#[test]
fn cpu_usage_between_two_ticks() {
    let mut s = Sampler::new();
    let first = "cpu  100 0 0 1000 10 0 0 0 0 0\ncpu0 100 0 0 1000 10 0 0 0 0 0\nintr 1\n";
    let second = "cpu  300 20 30 1700 60 0 0 0 0 0\ncpu0 300 20 30 1700 60 0 0 0 0 0\nintr 1\n";
    let a = s.tick(&readings(first, "", "", 1), 1);
    assert_eq!(a.cpu_usage, 0);
    let b = s.tick(&readings(second, "", "", 2), 2);
    // total delta 1000, idle delta 700, iowait delta 50
    assert_eq!(b.cpu_usage, 25000);
    assert_eq!(b.cpu_iowait, 5000);
    assert_eq!(b.cpu_cores, vec![25000]);
}

#[test]
fn first_tick_reports_zero() {
    let mut s = Sampler::new();
    let stat = "cpu  123456 789 4567 999999 321 12 34 0 0 0\ncpu0 1 2 3 4 5 6 7 0 0 0\ncpu1 9 9 9 9 9 9 9 0 0 0\n";
    let mem = "MemTotal: 2000 kB\nMemAvailable: 500 kB\n";
    let r = s.tick(&readings(stat, mem, &netdev(1_000_000, 2_000_000, 5), 7), 99);
    assert_eq!(r.timestamp, 99);
    assert_eq!(r.cpu_usage, 0);
    assert_eq!(r.cpu_iowait, 0);
    assert_eq!(r.cpu_cores, vec![0, 0]);
    assert_eq!(r.network_download, 0);
    assert_eq!(r.network_upload, 0);
    assert_eq!(r.memory.used_percentage, 75000);
}

#[test]
fn zero_total_memory_gives_zero_percentage() {
    let m = read_meminfo(b"MemTotal: 0 kB\nMemAvailable: 1234 kB\n");
    assert_eq!(m.total, 0);
    assert_eq!(m.available, 1234);
    assert_eq!(m.used_percentage, 0);
    assert_eq!(used_percentage(0, 0), 0);
}

#[test]
fn memory_fields() {
    let text = "MemTotal:       16000000 kB\nMemFree:         1000 kB\nMemAvailable:    4000000 kB\nBuffers:          300 kB\nCached:          5000 kB\nActive(anon):     700 kB\nInactive(anon):   200 kB\nShmem:            60 kB\nSlab:             80 kB\n";
    let m = read_meminfo(text.as_bytes());
    assert_eq!(m.total, 16000000);
    assert_eq!(m.available, 4000000);
    assert_eq!(m.used_percentage, 75000);
    assert_eq!(m.apps, 900);
    assert_eq!(m.cached, 5000);
    assert_eq!(m.buffers, 300);
    assert_eq!(m.slab, 80);
    assert_eq!(m.shmem, 60);
}

#[test]
fn memory_missing_fields_are_zero() {
    let m = read_meminfo(b"MemTotal: 3 kB\nnonsense line\nCached: lots kB\n");
    assert_eq!(m.total, 3);
    assert_eq!(m.available, 0);
    assert_eq!(m.cached, 0);
    assert_eq!(m.used_percentage, 100000);
    let mut s = Sampler::new();
    let r = s.tick(&no_readings(1), 5);
    assert_eq!(r.memory.total, 0);
    assert_eq!(r.memory.used_percentage, 0);
}

#[test]
fn used_percentage_rounds_toward_zero() {
    assert_eq!(used_percentage(3, 2), 33333);
    assert_eq!(used_percentage(3, 4), -33333);
}

#[test]
fn network_totals_skip_loopback() {
    let (rx, tx) = read_netdev(netdev(1000, 2000, 777777).as_bytes());
    assert_eq!((rx, tx), (1000, 2000));
}

#[test]
fn network_rate_between_ticks() {
    let mut s = Sampler::new();
    let a = s.tick(&readings("", "", &netdev(10_000, 20_000, 0), 1_000_000_000), 1);
    assert_eq!((a.network_download, a.network_upload), (0, 0));
    let b = s.tick(&readings("", "", &netdev(12_048, 21_024, 99), 2_000_000_000), 2);
    assert_eq!(b.network_download, 2000);
    assert_eq!(b.network_upload, 1000);
    let c = s.tick(&readings("", "", &netdev(12_048, 21_024, 5), 2_500_000_000), 3);
    assert_eq!((c.network_download, c.network_upload), (0, 0));
}

#[test]
fn network_counter_reset_gives_negative_rate() {
    assert_eq!(rate(3048, 1000, 1_000_000_000), -2000);
    assert_eq!(rate(0, 1024, 0), 0);
    assert_eq!(rate(0, 1024, 500_000_000), 2000);
}

#[test]
fn unreadable_files_keep_the_baseline() {
    let mut s = Sampler::new();
    let stat1 = "cpu  100 0 0 900 0 0 0\n";
    let stat2 = "cpu  600 0 0 1400 0 0 0\n";
    s.tick(&readings(stat1, "", "", 0), 0);
    let gap = s.tick(&no_readings(1), 1);
    assert_eq!(gap.cpu_usage, 0);
    assert!(gap.cpu_cores.is_empty());
    let r = s.tick(&readings(stat2, "", "", 2), 2);
    assert_eq!(r.cpu_usage, 50000);
}

#[test]
fn core_count_change_reports_zeros() {
    let mut s = Sampler::new();
    let two = "cpu  0 0 0 0 0 0 0\ncpu0 0 0 0 0 0 0 0\ncpu1 0 0 0 0 0 0 0\n";
    let three = "cpu  10 0 0 10 0 0 0\ncpu0 10 0 0 10 0 0 0\ncpu1 10 0 0 10 0 0 0\ncpu2 10 0 0 10 0 0 0\n";
    let four = "cpu  20 0 0 20 0 0 0\ncpu0 20 0 0 10 0 0 0\ncpu1 20 0 0 20 0 0 0\ncpu2 10 0 0 30 0 0 0\n";
    s.tick(&readings(two, "", "", 0), 0);
    let r = s.tick(&readings(three, "", "", 0), 0);
    assert_eq!(r.cpu_cores, vec![0, 0, 0]);
    let r = s.tick(&readings(four, "", "", 0), 0);
    assert_eq!(r.cpu_cores, vec![100000, 50000, 0]);
}

#[test]
fn zero_total_delta_reports_zero() {
    let mut s = Sampler::new();
    let stat = "cpu  5 5 5 5 5 5 5\n";
    s.tick(&readings(stat, "", "", 0), 0);
    let r = s.tick(&readings(stat, "", "", 0), 0);
    assert_eq!((r.cpu_usage, r.cpu_iowait), (0, 0));
}

#[test]
fn stat_lines_after_cpu_block_are_ignored() {
    let text = "cpu  1 2 3 4 5 6 7 8 9 10\ncpu0 1 2 3 4 5 6 7\ncpu1 short line\ncpu2 7 6 5 4 3 2 1\nintr 5\ncpu3 1 1 1 1 1 1 1\n";
    let r = read_stat(text.as_bytes());
    let all = r.overall.unwrap();
    assert_eq!((all.user, all.nice, all.system, all.idle, all.iowait, all.irq, all.softirq), (1, 2, 3, 4, 5, 6, 7));
    assert_eq!(r.cores.len(), 2);
    assert_eq!(r.cores[1].user, 7);
    assert_eq!(r.cores[1].softirq, 1);
    assert!(read_stat(b"cpu0 1 2 3 4 5 6 7\n").overall.is_none());
}

#[test]
fn fewer_or_more_core_readings_keep_buffer_count() {
    let mut h = StatsHistory::with_cores(2);
    h.add_stats(&sample_with(vec![7, 8, 9], 1));
    assert_eq!(h.cpu_cores.len(), 2);
    assert_eq!(h.cpu_cores[0].values()[59], 7);
    assert_eq!(h.cpu_cores[1].values()[59], 8);
    h.add_stats(&sample_with(vec![5], 1));
    assert_eq!(h.cpu_cores.len(), 2);
    assert_eq!(h.cpu_cores[0].values()[59], 5);
    assert_eq!(h.cpu_cores[1].values()[59], 0);
    assert_eq!(h.cpu_cores[1].values()[58], 8);
}

#[test]
fn host_history_has_a_buffer_per_cpu() {
    let h = StatsHistory::new();
    assert!(h.cpu_cores.len() >= 1);
    assert!(h.cpu.values().iter().all(|v| *v == 0));
}

#[test]
fn store_snapshot_sees_whole_records() {
    let store = HistoryStore::new(StatsHistory::with_cores(2));
    store.record(&sample_with(vec![1, 2], 3));
    let snap = store.snapshot();
    assert_eq!(snap.cpu.values()[59], 3);
    assert_eq!(snap.cpu_cores[1].values()[59], 2);
    assert_eq!(snap.network_upload.values()[59], 3);
    assert_eq!(snap.last_update, 42);
    store.record(&sample_with(vec![4, 5], 6));
    assert_eq!(snap.cpu.values()[59], 3);
    let later = store.snapshot();
    assert_eq!(later.cpu.values()[59], 6);
    assert_eq!(later.cpu.values()[58], 3);
    assert_eq!(later.cpu_cores.len(), 2);
}

#[test]
fn marker_names_the_running_daemon() {
    let m = marker_text(4321);
    assert_eq!(m, b"4321\n".to_vec());
    assert_eq!(recorded_pid(&Some(m)), Some(4321));
    assert_eq!(recorded_pid(&Some(b"  17 \n".to_vec())), Some(17));
    assert_eq!(recorded_pid(&Some(b"x17".to_vec())), None);
    assert_eq!(recorded_pid(&Some(b"4294967296".to_vec())), None);
    assert_eq!(recorded_pid(&Some(Vec::new())), None);
    assert_eq!(recorded_pid(&None), None);
    assert_eq!(marker_text(0), b"0\n".to_vec());
}

#[test]
fn second_start_refused_while_first_alive() {
    let first = recorded_pid(&Some(marker_text(100)));
    assert!(!may_start(first, true));
    assert!(may_start(first, false));
    assert!(may_start(None, false));
}

#[test]
fn decimal_edge_cases() {
    assert_eq!(parse_decimal(b"18446744073709551615"), Some(u64::MAX));
    assert_eq!(parse_decimal(b"18446744073709551616"), None);
    assert_eq!(parse_decimal(b""), None);
    assert_eq!(parse_decimal(b"12a"), None);
    assert_eq!(parse_decimal(b"007"), Some(7));
}

#[test]
fn splitting() {
    let p = split_pieces(b"a:b::c", b':');
    assert_eq!(p, vec![b"a".to_vec(), b"b".to_vec(), Vec::new(), b"c".to_vec()]);
    let w = split_words(b"  cpu0\t12  3 \n");
    assert_eq!(w, vec![b"cpu0".to_vec(), b"12".to_vec(), b"3".to_vec()]);
    assert!(split_words(b"   ").is_empty());
}

#[test]
fn division_rounds_toward_zero() {
    assert_eq!(divide(7, 2), 3);
    assert_eq!(divide(-7, 2), -3);
    assert_eq!(divide(0, 5), 0);
}

#[test]
fn synthetic_baseline() {
    let mut s = Sampler {
        baseline: CounterBaseline {
            cpu: Some(CpuCounters { total: 0, idle: 0, iowait: 0 }),
            cores: None,
            net: None,
        },
    };
    let r = s.tick(&readings("cpu  250 0 0 700 50 0 0\n", "", "", 0), 0);
    assert_eq!((r.cpu_usage, r.cpu_iowait), (25000, 5000));
}
