//! Integer helpers shared by the passes: saturation and midpoints.

use vstd::prelude::*;

verus! {

/// `v` brought into the range of `i32`.
pub open spec fn saturate(v: int) -> int {
    if v < i32::MIN {
        i32::MIN as int
    } else if v > i32::MAX {
        i32::MAX as int
    } else {
        v
    }
}

/// Floor of the mean of `a` and `b`.
pub open spec fn midpoint(a: int, b: int) -> int {
    (a + b) / 2
}

/// `v` brought into the range of `i32`.
pub fn saturated(v: i64) -> (r: i32)
    ensures
        r == saturate(v as int),
{
    if v < i32::MIN as i64 {
        i32::MIN
    } else if v > i32::MAX as i64 {
        i32::MAX
    } else {
        v as i32
    }
}

/// `a + b`, held at the limits of `i32`.
pub fn saturating_sum(a: i32, b: i32) -> (r: i32)
    ensures
        r == saturate(a + b),
{
    saturated(a as i64 + b as i64)
}

/// `a - b`, held at the limits of `i32`.
pub fn saturating_difference(a: i32, b: i32) -> (r: i32)
    ensures
        r == saturate(a - b),
{
    saturated(a as i64 - b as i64)
}

/// The lattice point halfway between `a` and `b`, rounded down.
pub fn halfway(a: i32, b: i32) -> (r: i32)
    ensures
        r == midpoint(a as int, b as int),
{
    let sum: i64 = a as i64 + b as i64;
    if sum >= 0 {
        (sum / 2) as i32
    } else {
        let up: i64 = (1 - sum) / 2;
        (-up) as i32
    }
}

} // verus!
