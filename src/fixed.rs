//! Fixed-point arithmetic of the reported figures.

use vstd::prelude::*;

verus! {

/// Fixed-point scale of every percentage and rate: a stored value is the real
/// value times `SCALE`, rounded toward zero.
pub const SCALE: i128 = 1000;

/// `a / b` rounded toward zero.
pub open spec fn quotient(a: int, b: int) -> int {
    if a >= 0 {
        a / b
    } else {
        -((-a) / b)
    }
}

/// `a / b` rounded toward zero.
pub fn divide(a: i128, b: i128) -> (r: i128)
    requires
        b > 0,
        a > i128::MIN,
    ensures
        r == quotient(a as int, b as int),
{
    if a >= 0 {
        ((a as u128) / (b as u128)) as i128
    } else {
        let m: u128 = (-a) as u128;
        let q: u128 = m / (b as u128);
        assert(q <= m);
        -(q as i128)
    }
}

} // verus!
