//! The single-instance rule: a marker file names the process id of the
//! running daemon, and a new daemon starts only where that process is gone.

use vstd::prelude::*;
use crate::text::{all_digits, copy_range, decimal, digits_value, is_digit, is_space, parse_decimal};

verus! {

/// `s` without its leading whitespace.
pub open spec fn trim_start(s: Seq<u8>) -> Seq<u8>
    decreases s.len(),
{
    if s.len() > 0 && is_space(s[0]) {
        trim_start(s.drop_first())
    } else {
        s
    }
}

/// `s` without its trailing whitespace.
pub open spec fn trim_end(s: Seq<u8>) -> Seq<u8>
    decreases s.len(),
{
    if s.len() > 0 && is_space(s.last()) {
        trim_end(s.drop_last())
    } else {
        s
    }
}

pub open spec fn trim(s: Seq<u8>) -> Seq<u8> {
    trim_end(trim_start(s))
}

/// The process id that marker contents `m` name: the decimal number it holds
/// between leading and trailing whitespace, where that fits a `u32`.
pub open spec fn pid_of(m: Seq<u8>) -> Option<u32> {
    match decimal(trim(m)) {
        Some(v) => if v <= u32::MAX {
            Some(v as u32)
        } else {
            None
        },
        None => None,
    }
}

/// The decimal digits of `n`, without leading zeros.
pub open spec fn digits_of(n: nat) -> Seq<u8>
    decreases n,
{
    if n < 10 {
        seq![(48 + n) as u8]
    } else {
        digits_of(n / 10).push((48 + n % 10) as u8)
    }
}

/// The contents of the marker file of process `pid`: its decimal digits and a
/// line feed.
pub open spec fn marker_of(pid: u32) -> Seq<u8> {
    digits_of(pid as nat).push(10u8)
}

/// A daemon may start unless the marker names a process that is alive.
pub open spec fn start_allowed(recorded: Option<u32>, alive: bool) -> bool {
    !(recorded is Some && alive)
}

/// Reads the process id from the contents of the marker file; none where
/// the file is missing or holds no process id.
pub fn recorded_pid(marker: &Option<Vec<u8>>) -> (r: Option<u32>)
    ensures
        r == match marker {
            Some(m) => pid_of(m@),
            None => None,
        },
{
    match marker {
        None => None,
        Some(m) => {
            let s = m.as_slice();
            let mut lo: usize = 0;
            assert(s@.subrange(0, s@.len() as int) =~= s@);
            while lo < s.len() && (s[lo] == 32 || (9 <= s[lo] && s[lo] <= 13))
                invariant
                    lo <= s@.len(),
                    trim_start(s@) == trim_start(s@.subrange(lo as int, s@.len() as int)),
                decreases s@.len() - lo,
            {
                assert(s@.subrange(lo as int, s@.len() as int).drop_first() =~= s@.subrange(
                    lo + 1,
                    s@.len() as int,
                ));
                lo = lo + 1;
            }
            assert(trim_start(s@) == s@.subrange(lo as int, s@.len() as int));
            let mut hi: usize = s.len();
            while hi > lo && (s[hi - 1] == 32 || (9 <= s[hi - 1] && s[hi - 1] <= 13))
                invariant
                    lo <= hi <= s@.len(),
                    trim(s@) == trim_end(s@.subrange(lo as int, hi as int)),
                decreases hi,
            {
                assert(s@.subrange(lo as int, hi as int).drop_last() =~= s@.subrange(
                    lo as int,
                    hi - 1,
                ));
                hi = hi - 1;
            }
            let t = copy_range(s, lo, hi);
            assert(trim(s@) == t@);
            match parse_decimal(t.as_slice()) {
                Some(v) => if v <= 0xffff_ffff {
                    Some(v as u32)
                } else {
                    None
                },
                None => None,
            }
        },
    }
}

/// Whether a daemon may start, given the process id that the marker names
/// and whether that process is alive.
pub fn may_start(recorded: Option<u32>, alive: bool) -> (r: bool)
    ensures
        r == start_allowed(recorded, alive),
{
    match recorded {
        Some(_) => !alive,
        None => true,
    }
}

fn push_digits(n: u32, out: &mut Vec<u8>)
    ensures
        final(out)@ == old(out)@ + digits_of(n as nat),
    decreases n,
{
    if n >= 10 {
        push_digits(n / 10, out);
    }
    out.push(48 + (n % 10) as u8);
    assert(out@ =~= old(out)@ + digits_of(n as nat));
}

/// The contents of the marker file of process `pid`.
pub fn marker_text(pid: u32) -> (r: Vec<u8>)
    ensures
        r@ == marker_of(pid),
{
    let mut out: Vec<u8> = Vec::new();
    push_digits(pid, &mut out);
    out.push(10);
    assert(out@ =~= marker_of(pid));
    out
}

proof fn lemma_digits_of(n: nat)
    ensures
        digits_of(n).len() > 0,
        all_digits(digits_of(n)),
        digits_value(digits_of(n)) == n,
    decreases n,
{
    if n >= 10 {
        lemma_digits_of(n / 10);
        let d = digits_of(n);
        assert(d.drop_last() =~= digits_of(n / 10));
        assert(d.last() == (48 + n % 10) as u8);
        assert(digits_value(d) == digits_value(digits_of(n / 10)) * 10 + (n % 10));
        assert((n / 10) * 10 + n % 10 == n);
        assert forall|i: int| 0 <= i < d.len() implies #[trigger] is_digit(d[i]) by {
            if i < d.len() - 1 {
                assert(d[i] == digits_of(n / 10)[i]);
            }
        }
    } else {
        let d = digits_of(n);
        assert(d.drop_last() =~= Seq::<u8>::empty());
        assert(digits_value(d) == digits_value(d.drop_last()) * 10 + (d.last() - 48));
    }
}

/// The marker that a daemon writes names it again when read back.
pub proof fn lemma_marker_round_trip(pid: u32)
    ensures
        pid_of(marker_of(pid)) == Some(pid),
{
    let d = digits_of(pid as nat);
    lemma_digits_of(pid as nat);
    let m = marker_of(pid);
    assert(!is_space(m[0])) by {
        assert(m[0] == d[0]);
    }
    assert(trim_start(m) == m);
    assert(m.drop_last() =~= d);
    assert(!is_space(d.last()));
    assert(trim_end(d) == d);
    assert(trim_end(m) == trim_end(d));
}

/// A second daemon started while the first is alive does not start; one
/// started after the first has died does.
pub proof fn lemma_second_start(first: u32, alive: bool)
    ensures
        start_allowed(pid_of(marker_of(first)), alive) == !alive,
{
    lemma_marker_round_trip(first);
}

} // verus!
