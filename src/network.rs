//! Byte counters of the network interfaces, and transfer rates between two
//! readings.

use vstd::prelude::*;
use crate::fixed::{divide, quotient, SCALE};
use crate::text::{
    COLON,
    NEWLINE,
    contains,
    contains_bytes,
    counter,
    parse_counter,
    pieces,
    split_pieces,
    split_words,
    views,
    words,
};

verus! {

/// Nanoseconds in a second.
pub const NANOS_PER_SEC: i128 = 1_000_000_000;

/// Bytes in a kilobyte.
pub const KILOBYTE: i128 = 1024;

/// The bytes `lo:`, which mark the loopback interface's line.
pub open spec fn loopback_tag() -> Seq<u8> {
    seq![108u8, 111u8, 58u8]
}

/// The received and transmitted byte counts of one interface line: the first
/// and ninth word after its only colon. The loopback line, lines without
/// exactly one colon and lines of fewer than nine words there give none.
pub open spec fn interface_bytes(line: Seq<u8>) -> Option<(u64, u64)> {
    let parts = pieces(line, COLON);
    if contains(line, loopback_tag()) || parts.len() != 2 {
        None
    } else {
        let ws = words(parts[1]);
        if ws.len() >= 9 {
            Some((counter(ws[0]), counter(ws[8])))
        } else {
            None
        }
    }
}

/// Bytes received over all interfaces of lines `ls`.
pub open spec fn received_sum(ls: Seq<Seq<u8>>) -> int
    decreases ls.len(),
{
    if ls.len() == 0 {
        0
    } else {
        received_sum(ls.drop_last()) + match interface_bytes(ls.last()) {
            Some(p) => p.0 as int,
            None => 0,
        }
    }
}

/// Bytes transmitted over all interfaces of lines `ls`.
pub open spec fn transmitted_sum(ls: Seq<Seq<u8>>) -> int
    decreases ls.len(),
{
    if ls.len() == 0 {
        0
    } else {
        transmitted_sum(ls.drop_last()) + match interface_bytes(ls.last()) {
            Some(p) => p.1 as int,
            None => 0,
        }
    }
}

/// `x`, or `u64::MAX` where it is larger.
pub open spec fn capped(x: int) -> u64 {
    if x <= u64::MAX {
        x as u64
    } else {
        u64::MAX
    }
}

/// Received and transmitted bytes that the device file `content` gives, each
/// summed over all interfaces but loopback and capped at `u64::MAX`.
pub open spec fn device_totals(content: Seq<u8>) -> (u64, u64) {
    let ls = pieces(content, NEWLINE);
    (capped(received_sum(ls)), capped(transmitted_sum(ls)))
}

/// Transfer rate in thousandths of a kilobyte per second between two byte
/// counts taken `elapsed_ns` nanoseconds apart; 0 where no time passed.
pub open spec fn rate_between(prev: u64, cur: u64, elapsed_ns: int) -> int {
    if elapsed_ns <= 0 {
        0
    } else {
        quotient((cur - prev) * NANOS_PER_SEC * SCALE, KILOBYTE * elapsed_ns)
    }
}

proof fn lemma_sums_nonneg(ls: Seq<Seq<u8>>)
    ensures
        received_sum(ls) >= 0,
        transmitted_sum(ls) >= 0,
    decreases ls.len(),
{
    if ls.len() > 0 {
        lemma_sums_nonneg(ls.drop_last());
    }
}

/// Reads the byte counts of one interface line.
pub fn read_interface(line: &[u8]) -> (r: Option<(u64, u64)>)
    ensures
        r == interface_bytes(line@),
{
    let lo: Vec<u8> = vec![108u8, 111u8, 58u8];
    assert(lo@ =~= loopback_tag());
    if contains_bytes(line, lo.as_slice()) {
        return None;
    }
    let parts = split_pieces(line, COLON);
    if parts.len() != 2 {
        return None;
    }
    assert(views(parts@)[1] == parts@[1]@);
    let ws = split_words(parts[1].as_slice());
    if ws.len() < 9 {
        return None;
    }
    assert(views(ws@)[0] == ws@[0]@);
    assert(views(ws@)[8] == ws@[8]@);
    Some((parse_counter(ws[0].as_slice()), parse_counter(ws[8].as_slice())))
}

/// Reads the network device file: received and transmitted bytes over all
/// interfaces but loopback.
pub fn read_netdev(content: &[u8]) -> (r: (u64, u64))
    ensures
        r == device_totals(content@),
{
    let lines = split_pieces(content, NEWLINE);
    let ghost ls = pieces(content@, NEWLINE);
    let mut rx: u64 = 0;
    let mut tx: u64 = 0;
    let mut i: usize = 0;
    assert(ls.subrange(0, 0) =~= Seq::<Seq<u8>>::empty());
    while i < lines.len()
        invariant
            ls == views(lines@),
            i <= lines@.len(),
            rx == capped(received_sum(ls.subrange(0, i as int))),
            tx == capped(transmitted_sum(ls.subrange(0, i as int))),
        decreases lines@.len() - i,
    {
        let ghost pre = ls.subrange(0, i as int);
        let ghost next = ls.subrange(0, i + 1);
        assert(next.drop_last() =~= pre);
        assert(next.last() == lines@[i as int]@);
        proof {
            lemma_sums_nonneg(pre);
        }
        match read_interface(lines[i].as_slice()) {
            Some(p) => {
                rx = rx.saturating_add(p.0);
                tx = tx.saturating_add(p.1);
            },
            None => {},
        }
        i = i + 1;
    }
    assert(ls.subrange(0, lines@.len() as int) =~= ls);
    (rx, tx)
}

/// Transfer rate in thousandths of a kilobyte per second.
pub fn rate(prev: u64, cur: u64, elapsed_ns: u64) -> (r: i128)
    ensures
        r == rate_between(prev, cur, elapsed_ns as int),
{
    if elapsed_ns == 0 {
        return 0;
    }
    let d: i128 = cur as i128 - prev as i128;
    assert(-0x1_0000_0000_0000_0000 * 1_000_000_000_000 < d * 1_000_000_000_000
        < 0x1_0000_0000_0000_0000 * 1_000_000_000_000) by (nonlinear_arith)
        requires
            -0x1_0000_0000_0000_0000 < d < 0x1_0000_0000_0000_0000,
    ;
    divide(d * NANOS_PER_SEC * SCALE, KILOBYTE * elapsed_ns as i128)
}

} // verus!
