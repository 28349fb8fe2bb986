//! Game amounts: additions that stop at the bounds of `i64` instead of
//! overflowing. No game comes near these bounds; they only make every
//! accumulation total.

use vstd::prelude::*;

verus! {

/// `v` held to the range of `i64`.
pub open spec fn clamp64(v: int) -> int {
    if v > i64::MAX as int {
        i64::MAX as int
    } else if v < i64::MIN as int {
        i64::MIN as int
    } else {
        v
    }
}

/// `v` held to the range of `u64`.
pub open spec fn clamp_u64(v: int) -> int {
    if v > u64::MAX as int { u64::MAX as int } else if v < 0 { 0 } else { v }
}

/// `x + n`, held to the range of `i64`.
pub fn plus(x: i64, n: i64) -> (r: i64)
    ensures r == clamp64(x + n),
{
    if n > 0 && x > i64::MAX - n {
        i64::MAX
    } else if n < 0 && x < i64::MIN - n {
        i64::MIN
    } else {
        x + n
    }
}

/// `x - n`, held to the range of `i64`.
pub fn minus(x: i64, n: i64) -> (r: i64)
    ensures r == clamp64(x - n),
{
    if n < 0 && x > i64::MAX + n {
        i64::MAX
    } else if n > 0 && x < i64::MIN + n {
        i64::MIN
    } else {
        x - n
    }
}

/// `x * n`, held to the range of `i64`.
pub fn times(x: i64, n: i64) -> (r: i64)
    ensures r == clamp64(x * n),
{
    assert(-0x4000_0000_0000_0000_0000_0000_0000_0000 <= (x as int) * (n as int) <= 0x4000_0000_0000_0000_0000_0000_0000_0000) by (nonlinear_arith)
        requires
            -0x8000_0000_0000_0000 <= x <= 0x7fff_ffff_ffff_ffff,
            -0x8000_0000_0000_0000 <= n <= 0x7fff_ffff_ffff_ffff;
    let p: i128 = (x as i128) * (n as i128);
    if p > i64::MAX as i128 {
        i64::MAX
    } else if p < i64::MIN as i128 {
        i64::MIN
    } else {
        p as i64
    }
}

/// `x + n` on a counter, held to the range of `u64`.
pub fn count(x: u64, n: u64) -> (r: u64)
    ensures r == clamp_u64(x + n),
{
    x.saturating_add(n)
}

/// An `i64` amount added to a counter (negative amounts add nothing).
pub fn count_i64(x: u64, n: i64) -> (r: u64)
    ensures r == if n <= 0 { x as int } else { clamp_u64(x + n) },
{
    if n <= 0 { x } else { x.saturating_add(n as u64) }
}

} // verus!
