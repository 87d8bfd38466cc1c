//! Fixed-length steps toward or away from a target.
//!
//! A step has the length of the mover's speed along the line to the target;
//! each component is cut off toward zero at the lattice. When mover and
//! target share an origin the step points along the positive x axis.

use vstd::prelude::*;
use crate::geometry::PositionSize;
use crate::numeric::{saturate, saturated};

verus! {

/// `r` is the integer square root of `n`, rounded down.
pub open spec fn is_root(r: int, n: int) -> bool {
    0 <= r && r * r <= n < (r + 1) * (r + 1)
}

/// The integer square root of `n`, rounded down.
pub open spec fn isqrt(n: int) -> int {
    choose|r: int| is_root(r, n)
}

/// One component of a step: `reach * d / sqrt(n2)`, cut off toward zero.
pub open spec fn stride(reach: int, d: int, n2: int) -> int {
    let p = reach * d;
    let root = isqrt((p * p) / n2);
    if p >= 0 {
        root
    } else {
        -root
    }
}

/// The step of signed length `reach` from `from` toward `to`.
pub open spec fn step_toward(from: PositionSize, to: PositionSize, reach: int) -> (int, int) {
    let dx = to.x - from.x;
    let dy = to.y - from.y;
    let n2 = dx * dx + dy * dy;
    if n2 == 0 {
        (reach, 0int)
    } else {
        (stride(reach, dx, n2), stride(reach, dy, n2))
    }
}

/// `p` moved by `(dx, dy)`, held inside the coordinate range.
pub open spec fn displaced(p: PositionSize, dx: int, dy: int) -> PositionSize {
    PositionSize { x: saturate(p.x + dx) as i32, y: saturate(p.y + dy) as i32, ..p }
}

/// `from` after one step of signed length `reach` toward `to`.
pub open spec fn stepped(from: PositionSize, to: PositionSize, reach: int) -> PositionSize {
    let s = step_toward(from, to, reach);
    displaced(from, s.0, s.1)
}

/// A number has one integer square root.
pub proof fn lemma_root_unique(r1: int, r2: int, n: int)
    requires
        is_root(r1, n),
        is_root(r2, n),
    ensures
        r1 == r2,
{
    if r1 < r2 {
        assert((r1 + 1) * (r1 + 1) <= r2 * r2) by (nonlinear_arith)
            requires
                0 <= r1 + 1 <= r2,
        ;
    } else if r2 < r1 {
        assert((r2 + 1) * (r2 + 1) <= r1 * r1) by (nonlinear_arith)
            requires
                0 <= r2 + 1 <= r1,
        ;
    }
}

/// Whatever satisfies [`is_root`] is the value of [`isqrt`].
pub proof fn lemma_root_is_isqrt(r: int, n: int)
    requires
        is_root(r, n),
    ensures
        isqrt(n) == r,
{
    lemma_root_unique(r, isqrt(n), n);
}

/// The integer square root of `n`, rounded down.
pub fn integer_root(n: u64) -> (r: u64)
    ensures
        is_root(r as int, n as int),
        r == isqrt(n as int),
{
    let mut low: u64 = 0;
    let mut high: u64 = 0x1_0000_0000;
    while high - low > 1
        invariant
            low < high <= 0x1_0000_0000,
            low * low <= n < high * high,
        decreases high - low,
    {
        let mid: u64 = low + (high - low) / 2;
        assert(mid * mid <= 0x1_0000_0000 * 0x1_0000_0000) by (nonlinear_arith)
            requires
                0 <= mid <= 0x1_0000_0000,
        ;
        let square: u128 = mid as u128 * mid as u128;
        if square <= n as u128 {
            low = mid;
        } else {
            high = mid;
        }
    }
    proof {
        lemma_root_is_isqrt(low as int, n as int);
    }
    low
}

proof fn lemma_quotient_bound(reach: int, d: int, n2: int)
    requires
        0 < n2,
        d * d <= n2,
    ensures
        0 <= ((reach * d) * (reach * d)) / n2 <= reach * reach,
{
    let p = reach * d;
    assert(p * p == (reach * reach) * (d * d)) by (nonlinear_arith)
        requires
            p == reach * d,
    ;
    assert((reach * reach) * (d * d) <= (reach * reach) * n2) by (nonlinear_arith)
        requires
            d * d <= n2,
    ;
    assert(0 <= p * p) by (nonlinear_arith);
    assert(0 <= (p * p) / n2 <= reach * reach) by (nonlinear_arith)
        requires
            0 < n2,
            0 <= p * p <= (reach * reach) * n2,
    ;
}

fn stride_of(reach: i64, d: i64, n2: u128) -> (k: i64)
    requires
        -0x8000_0000 <= reach <= 0x8000_0000,
        -0xffff_ffff <= d <= 0xffff_ffff,
        0 < n2 <= 2 * (0xffff_ffff * 0xffff_ffff),
        d * d <= n2,
    ensures
        k == stride(reach as int, d as int, n2 as int),
        -0x8000_0000 <= k <= 0x8000_0000,
{
    assert(-0x8000_0000 * 0xffff_ffff <= reach * d <= 0x8000_0000 * 0xffff_ffff) by (nonlinear_arith)
        requires
            -0x8000_0000 <= reach <= 0x8000_0000,
            -0xffff_ffff <= d <= 0xffff_ffff,
    ;
    let p: i128 = reach as i128 * d as i128;
    assert(0 <= p * p <= (0x8000_0000 * 0xffff_ffff) * (0x8000_0000 * 0xffff_ffff)) by (nonlinear_arith)
        requires
            -0x8000_0000 * 0xffff_ffff <= p <= 0x8000_0000 * 0xffff_ffff,
    ;
    let square: u128 = (p * p) as u128;
    let quotient: u128 = square / n2;
    proof {
        lemma_quotient_bound(reach as int, d as int, n2 as int);
        assert(reach * reach <= 0x8000_0000 * 0x8000_0000) by (nonlinear_arith)
            requires
                -0x8000_0000 <= reach <= 0x8000_0000,
        ;
    }
    let root: u64 = integer_root(quotient as u64);
    proof {
        assert(root <= 0x8000_0000) by (nonlinear_arith)
            requires
                0 <= root,
                root * root <= quotient,
                quotient <= 0x8000_0000 * 0x8000_0000,
        ;
    }
    if p >= 0 {
        root as i64
    } else {
        -(root as i64)
    }
}

fn step_by(entity: &mut PositionSize, target: &PositionSize, reach: i64)
    requires
        -0x8000_0000 <= reach <= 0x8000_0000,
    ensures
        *final(entity) == stepped(*old(entity), *target, reach as int),
{
    let dx: i64 = target.x as i64 - entity.x as i64;
    let dy: i64 = target.y as i64 - entity.y as i64;
    assert(0 <= dx * dx <= 0xffff_ffff * 0xffff_ffff) by (nonlinear_arith)
        requires
            -0xffff_ffff <= dx <= 0xffff_ffff,
    ;
    assert(0 <= dy * dy <= 0xffff_ffff * 0xffff_ffff) by (nonlinear_arith)
        requires
            -0xffff_ffff <= dy <= 0xffff_ffff,
    ;
    let n2: u128 = (dx as i128 * dx as i128 + dy as i128 * dy as i128) as u128;
    let mut step_x: i64 = reach;
    let mut step_y: i64 = 0;
    if n2 != 0 {
        step_x = stride_of(reach, dx, n2);
        step_y = stride_of(reach, dy, n2);
    }
    entity.x = saturated(entity.x as i64 + step_x);
    entity.y = saturated(entity.y as i64 + step_y);
}

/// Moves `entity` one step of length `speed` toward `target`.
pub fn move_towards(entity: &mut PositionSize, target: &PositionSize, speed: i32)
    ensures
        *final(entity) == stepped(*old(entity), *target, speed as int),
{
    step_by(entity, target, speed as i64);
}

/// Moves `entity` one step of length `speed` away from `target`.
pub fn avoid(entity: &mut PositionSize, target: &PositionSize, speed: i32)
    ensures
        *final(entity) == stepped(*old(entity), *target, -(speed as int)),
{
    step_by(entity, target, -(speed as i64));
}

/// Every number from zero up has an integer square root, and [`isqrt`] is it.
pub proof fn lemma_isqrt_is_root(n: int)
    requires
        0 <= n,
    ensures
        is_root(isqrt(n), n),
    decreases n,
{
    if n == 0 {
        assert(is_root(0, 0));
    } else {
        lemma_isqrt_is_root(n - 1);
        let r = isqrt(n - 1);
        if n < (r + 1) * (r + 1) {
            assert(is_root(r, n));
        } else {
            assert((r + 2) * (r + 2) > (r + 1) * (r + 1)) by (nonlinear_arith)
                requires
                    0 <= r,
            ;
            assert(is_root(r + 1, n));
        }
    }
}

/// A component of a step is never longer than the step, and it points the
/// way that `reach * d` points.
pub proof fn lemma_stride_bounds(reach: int, d: int, n2: int)
    requires
        0 < n2,
        d * d <= n2,
    ensures
        stride(reach, d, n2) * stride(reach, d, n2) * n2 <= (reach * d) * (reach * d),
        stride(reach, d, n2) * stride(reach, d, n2) <= reach * reach,
        reach * d >= 0 ==> stride(reach, d, n2) >= 0,
        reach * d <= 0 ==> stride(reach, d, n2) <= 0,
{
    let p = reach * d;
    let q = (p * p) / n2;
    lemma_quotient_bound(reach, d, n2);
    lemma_isqrt_is_root(q);
    let r = isqrt(q);
    let s = stride(reach, d, n2);
    assert(s * s == r * r) by (nonlinear_arith)
        requires
            s == r || s == -r,
    ;
    assert(q * n2 <= p * p) by (nonlinear_arith)
        requires
            0 < n2,
            q == (p * p) / n2,
    ;
    assert((r * r) * n2 <= q * n2) by (nonlinear_arith)
        requires
            r * r <= q,
            0 < n2,
    ;
    if p == 0 {
        assert(q == 0) by (nonlinear_arith)
            requires
                p == 0,
                q == (p * p) / n2,
                0 < n2,
        ;
        assert(r == 0) by (nonlinear_arith)
            requires
                0 <= r,
                r * r <= q,
                q == 0,
        ;
    }
}

/// A step is never longer than the mover's speed.
pub proof fn lemma_step_within_reach(from: PositionSize, to: PositionSize, reach: int)
    ensures
        ({
            let s = step_toward(from, to, reach);
            s.0 * s.0 + s.1 * s.1 <= reach * reach
        }),
{
    let dx = to.x - from.x;
    let dy = to.y - from.y;
    let n2 = dx * dx + dy * dy;
    let s = step_toward(from, to, reach);
    assert(0 <= dx * dx && 0 <= dy * dy) by (nonlinear_arith);
    if n2 != 0 {
        lemma_stride_bounds(reach, dx, n2);
        lemma_stride_bounds(reach, dy, n2);
        let a = s.0 * s.0;
        let b = s.1 * s.1;
        let rr = reach * reach;
        assert((reach * dx) * (reach * dx) + (reach * dy) * (reach * dy) == rr * n2) by (nonlinear_arith)
            requires
                n2 == dx * dx + dy * dy,
                rr == reach * reach,
        ;
        assert(a + b <= rr) by (nonlinear_arith)
            requires
                a * n2 + b * n2 <= rr * n2,
                0 < n2,
        ;
    }
}

} // verus!
