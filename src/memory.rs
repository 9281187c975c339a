//! Point-in-time memory figures read from the kernel's memory information
//! file.

use vstd::prelude::*;
use vstd::string::StringSliceAdditionalSpecFns;
use crate::fixed::{divide, quotient, SCALE};
use crate::text::{COLON, NEWLINE, decimal, parse_decimal, pieces, same_bytes, split_pieces, split_words, views, words};

verus! {

/// Memory figures in kilobytes, and the share of memory in use in thousandths
/// of a percent.
#[derive(Clone, Copy, Debug, PartialEq, Eq)]
pub struct MemoryStats {
    pub total: u64,
    pub available: u64,
    pub used_percentage: i128,
    /// Anonymous memory of applications: active and inactive together.
    pub apps: u64,
    pub cached: u64,
    pub buffers: u64,
    pub slab: u64,
    pub shmem: u64,
}

/// The field that one line of the file gives: its name, before the only
/// colon, and the first word after it read as a number (0 where there is no
/// word). A line with no colon or more than one, or whose first word is not
/// a number, gives none.
pub open spec fn entry(line: Seq<u8>) -> Option<(Seq<u8>, u64)> {
    let parts = pieces(line, COLON);
    if parts.len() == 2 {
        let ws = words(parts[1]);
        if ws.len() == 0 {
            Some((parts[0], 0u64))
        } else {
            match decimal(ws[0]) {
                Some(v) => Some((parts[0], v)),
                None => None,
            }
        }
    } else {
        None
    }
}

/// The value of field `key` in lines `ls`: the one on the last line that
/// gives it, or 0 where none does.
pub open spec fn lookup(ls: Seq<Seq<u8>>, key: Seq<u8>) -> u64
    decreases ls.len(),
{
    if ls.len() == 0 {
        0
    } else {
        match entry(ls.last()) {
            Some(e) => if e.0 == key {
                e.1
            } else {
                lookup(ls.drop_last(), key)
            },
            None => lookup(ls.drop_last(), key),
        }
    }
}

/// Names of the fields read, in the order of `field_keys`.
pub open spec fn key_total() -> Seq<u8> {
    "MemTotal".spec_bytes()
}

pub open spec fn key_available() -> Seq<u8> {
    "MemAvailable".spec_bytes()
}

pub open spec fn key_active_anon() -> Seq<u8> {
    "Active(anon)".spec_bytes()
}

pub open spec fn key_inactive_anon() -> Seq<u8> {
    "Inactive(anon)".spec_bytes()
}

pub open spec fn key_shmem() -> Seq<u8> {
    "Shmem".spec_bytes()
}

pub open spec fn key_slab() -> Seq<u8> {
    "Slab".spec_bytes()
}

pub open spec fn key_buffers() -> Seq<u8> {
    "Buffers".spec_bytes()
}

pub open spec fn key_cached() -> Seq<u8> {
    "Cached".spec_bytes()
}

pub open spec fn field_keys() -> Seq<Seq<u8>> {
    seq![
        key_total(),
        key_available(),
        key_active_anon(),
        key_inactive_anon(),
        key_shmem(),
        key_slab(),
        key_buffers(),
        key_cached(),
    ]
}

/// Share of memory in use, in thousandths of a percent; 0 where the total is 0.
pub open spec fn used_share(total: u64, available: u64) -> int {
    if total > 0 {
        quotient(100 * SCALE * (total - available), total as int)
    } else {
        0
    }
}

/// `a + b`, or `u64::MAX` where the sum does not fit.
pub open spec fn capped_sum(a: u64, b: u64) -> u64 {
    if a + b <= u64::MAX {
        (a + b) as u64
    } else {
        u64::MAX
    }
}

/// The figures that the memory information `content` gives.
pub open spec fn memory_of(content: Seq<u8>) -> MemoryStats {
    let ls = pieces(content, NEWLINE);
    let total = lookup(ls, key_total());
    let available = lookup(ls, key_available());
    MemoryStats {
        total,
        available,
        used_percentage: used_share(total, available) as i128,
        apps: capped_sum(lookup(ls, key_active_anon()), lookup(ls, key_inactive_anon())),
        cached: lookup(ls, key_cached()),
        buffers: lookup(ls, key_buffers()),
        slab: lookup(ls, key_slab()),
        shmem: lookup(ls, key_shmem()),
    }
}

/// Share of memory in use, in thousandths of a percent.
pub fn used_percentage(total: u64, available: u64) -> (r: i128)
    ensures
        r == used_share(total, available),
        total == 0 ==> r == 0,
{
    if total == 0 {
        return 0;
    }
    let d: i128 = total as i128 - available as i128;
    assert(-0x1_0000_0000_0000_0000 < d < 0x1_0000_0000_0000_0000);
    assert(-100 * SCALE * 0x1_0000_0000_0000_0000 < 100 * SCALE * d < 100 * SCALE
        * 0x1_0000_0000_0000_0000) by (nonlinear_arith)
        requires
            -0x1_0000_0000_0000_0000 < d < 0x1_0000_0000_0000_0000,
    ;
    divide(100 * SCALE * d, total as i128)
}

/// Reads the field that one line gives.
pub fn read_entry(line: &[u8]) -> (r: Option<(Vec<u8>, u64)>)
    ensures
        match (r, entry(line@)) {
            (Some(got), Some(e)) => got.0@ == e.0 && got.1 == e.1,
            (None, None) => true,
            _ => false,
        },
{
    let parts = split_pieces(line, COLON);
    if parts.len() != 2 {
        return None;
    }
    assert(views(parts@)[1] == parts@[1]@);
    assert(views(parts@)[0] == parts@[0]@);
    let ws = split_words(parts[1].as_slice());
    if ws.len() == 0 {
        return Some((parts[0].clone(), 0));
    }
    assert(views(ws@)[0] == ws@[0]@);
    match parse_decimal(ws[0].as_slice()) {
        Some(v) => Some((parts[0].clone(), v)),
        None => None,
    }
}

/// Reads the memory information file.
pub fn read_meminfo(content: &[u8]) -> (r: MemoryStats)
    ensures
        r == memory_of(content@),
        r.total == 0 ==> r.used_percentage == 0,
{
    let lines = split_pieces(content, NEWLINE);
    let ghost ls = pieces(content@, NEWLINE);
    let keys: Vec<&str> = vec![
        "MemTotal",
        "MemAvailable",
        "Active(anon)",
        "Inactive(anon)",
        "Shmem",
        "Slab",
        "Buffers",
        "Cached",
    ];
    let mut vals: Vec<u64> = vec![0, 0, 0, 0, 0, 0, 0, 0];
    proof {
        assert(ls.subrange(0, 0) =~= Seq::<Seq<u8>>::empty());
    }
    let mut i: usize = 0;
    while i < lines.len()
        invariant
            ls == views(lines@),
            i <= lines@.len(),
            keys@.len() == 8,
            vals@.len() == 8,
            forall|j: int| 0 <= j < 8 ==> #[trigger] keys@[j].spec_bytes() == field_keys()[j],
            forall|j: int| 0 <= j < 8 ==> #[trigger] vals@[j] == lookup(ls.subrange(0, i as int), field_keys()[j]),
        decreases lines@.len() - i,
    {
        let ghost pre = ls.subrange(0, i as int);
        let ghost next = ls.subrange(0, i + 1);
        assert(next.drop_last() =~= pre);
        assert(next.last() == lines@[i as int]@);
        let e = read_entry(lines[i].as_slice());
        match e {
            Some(got) => {
                let mut j: usize = 0;
                while j < 8
                    invariant
                        j <= 8,
                        vals@.len() == 8,
                        keys@.len() == 8,
                        forall|k: int| 0 <= k < 8 ==> #[trigger] keys@[k].spec_bytes() == field_keys()[k],
                        forall|k: int| j <= k < 8 ==> #[trigger] vals@[k] == lookup(pre, field_keys()[k]),
                        forall|k: int| 0 <= k < j ==> #[trigger] vals@[k] == lookup(next, field_keys()[k]),
                        entry(next.last()) == Some((got.0@, got.1)),
                        next.drop_last() == pre,
                        next.len() > 0,
                    decreases 8 - j,
                {
                    if same_bytes(got.0.as_slice(), keys[j].as_bytes()) {
                        vals.set(j, got.1);
                    }
                    j = j + 1;
                }
            },
            None => {
                assert forall|k: int| 0 <= k < 8 implies #[trigger] vals@[k] == lookup(next, field_keys()[k]) by {}
            },
        }
        i = i + 1;
    }
    assert(ls.subrange(0, lines@.len() as int) =~= ls);
    let total = vals[0];
    let available = vals[1];
    let apps = vals[2].saturating_add(vals[3]);
    MemoryStats {
        total,
        available,
        used_percentage: used_percentage(total, available),
        apps,
        cached: vals[7],
        buffers: vals[6],
        slab: vals[5],
        shmem: vals[4],
    }
}

} // verus!
