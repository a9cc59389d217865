//! Integer plane geometry: points, squared Euclidean distance, and the
//! floor of the square root, which together give the movement model its
//! notion of distance.

use vstd::prelude::*;

verus! {

use vstd::arithmetic::div_mod::{
    lemma_div_is_ordered, lemma_div_multiples_vanish, lemma_div_pos_is_pos,
};
use vstd::arithmetic::mul::{
    lemma_mul_inequality, lemma_mul_left_inequality, lemma_mul_nonnegative,
};

use crate::COORD_MAX;

/// A position in the world, in world units.
#[derive(Clone, Copy, Debug, PartialEq, Eq, Structural)]
pub struct Point {
    pub x: u64,
    pub y: u64,
}

/// Absolute difference of two coordinates.
pub open spec fn abs_diff(a: u64, b: u64) -> int {
    if a >= b {
        a - b
    } else {
        b - a
    }
}

/// Squared Euclidean distance between two points.
pub open spec fn dist_sq(a: Point, b: Point) -> int {
    abs_diff(a.x, b.x) * abs_diff(a.x, b.x) + abs_diff(a.y, b.y) * abs_diff(a.y, b.y)
}

/// `r` is the floor of the square root of `n`.
pub open spec fn is_sqrt_floor(n: int, r: int) -> bool {
    0 <= r && r * r <= n && n < (r + 1) * (r + 1)
}

/// The floor of the square root of `n` (for `n >= 0`).
pub open spec fn sqrt_floor(n: int) -> int {
    choose|r: int| is_sqrt_floor(n, r)
}

/// Two floors of the same square root coincide.
pub proof fn lemma_sqrt_floor_unique(n: int, r1: int, r2: int)
    requires
        is_sqrt_floor(n, r1),
        is_sqrt_floor(n, r2),
    ensures
        r1 == r2,
{
    if r1 < r2 {
        lemma_mul_inequality(r1 + 1, r2, r2);
        lemma_mul_inequality(r1 + 1, r2, r1 + 1);
    }
    if r2 < r1 {
        lemma_mul_inequality(r2 + 1, r1, r1);
        lemma_mul_inequality(r2 + 1, r1, r2 + 1);
    }
}

/// A witness pins `sqrt_floor` down.
pub proof fn lemma_sqrt_floor_is(n: int, r: int)
    requires
        is_sqrt_floor(n, r),
    ensures
        sqrt_floor(n) == r,
{
    let c = choose|c: int| is_sqrt_floor(n, c);
    lemma_sqrt_floor_unique(n, c, r);
}

/// Every non-negative integer has a square-root floor, so `sqrt_floor`
/// satisfies its defining property there.
pub proof fn lemma_sqrt_floor_exists(n: int)
    requires
        0 <= n,
    ensures
        is_sqrt_floor(n, sqrt_floor(n)),
    decreases n,
{
    if n == 0 {
        assert(is_sqrt_floor(0, 0));
        lemma_sqrt_floor_is(0, 0);
    } else {
        lemma_sqrt_floor_exists(n - 1);
        let r = sqrt_floor(n - 1);
        if (r + 1) * (r + 1) <= n {
            assert(is_sqrt_floor(n, r + 1)) by (nonlinear_arith)
                requires
                    0 <= r,
                    (r + 1) * (r + 1) <= n,
                    n - 1 < (r + 1) * (r + 1),
            ;
            lemma_sqrt_floor_is(n, r + 1);
        } else {
            assert(is_sqrt_floor(n, r));
            lemma_sqrt_floor_is(n, r);
        }
    }
}

/// Squared distances in a `COORD_MAX`-bounded world stay small.
pub proof fn lemma_dist_sq_bound(a: Point, b: Point)
    requires
        a.x <= COORD_MAX,
        a.y <= COORD_MAX,
        b.x <= COORD_MAX,
        b.y <= COORD_MAX,
    ensures
        0 <= dist_sq(a, b) <= 2_000_000_000_000,
{
    let dx = abs_diff(a.x, b.x);
    let dy = abs_diff(a.y, b.y);
    assert(0 <= dx * dx + dy * dy <= 2_000_000_000_000) by (nonlinear_arith)
        requires
            0 <= dx <= 1_000_000,
            0 <= dy <= 1_000_000,
    ;
}

/// Scaling a span by `step / dist` with `step <= dist` does not grow it.
pub proof fn lemma_scaled_step_le(delta: int, step: int, dist: int)
    requires
        0 <= delta,
        0 <= step <= dist,
        1 <= dist,
    ensures
        0 <= delta * step / dist <= delta,
{
    lemma_mul_nonnegative(delta, step);
    lemma_div_pos_is_pos(delta * step, dist);
    if delta > 0 {
        lemma_mul_left_inequality(delta, step, dist);
        lemma_div_is_ordered(delta * step, delta * dist, dist);
        lemma_div_multiples_vanish(delta, dist);
    }
}

/// Squared distance, computed exactly.
pub fn dist_sq_exec(a: Point, b: Point) -> (r: u64)
    requires
        a.x <= COORD_MAX,
        a.y <= COORD_MAX,
        b.x <= COORD_MAX,
        b.y <= COORD_MAX,
    ensures
        r == dist_sq(a, b),
{
    let dx = if a.x >= b.x {
        a.x - b.x
    } else {
        b.x - a.x
    };
    let dy = if a.y >= b.y {
        a.y - b.y
    } else {
        b.y - a.y
    };
    proof {
        lemma_mul_inequality(dx as int, COORD_MAX as int, dx as int);
        lemma_mul_inequality(dy as int, COORD_MAX as int, dy as int);
        lemma_mul_inequality(COORD_MAX as int, COORD_MAX as int, COORD_MAX as int);
    }
    dx * dx + dy * dy
}

/// Floor of the square root, by binary search.
pub fn isqrt(n: u64) -> (r: u64)
    ensures
        is_sqrt_floor(n as int, r as int),
        r == sqrt_floor(n as int),
{
    let mut lo: u64 = 0;
    let mut hi: u64 = 4_294_967_296;
    proof {
        lemma_mul_inequality(4_294_967_296, 4_294_967_296, 4_294_967_296);
    }
    while lo + 1 < hi
        invariant
            lo < hi <= 4_294_967_296,
            lo * lo <= n,
            n < hi * hi,
        decreases hi - lo,
    {
        let mid = lo + (hi - lo) / 2;
        assert(mid * mid <= 4_294_967_295u64 * 4_294_967_295u64) by (nonlinear_arith)
            requires
                mid <= 4_294_967_295u64,
        ;
        if mid * mid <= n {
            lo = mid;
        } else {
            hi = mid;
        }
    }
    proof {
        lemma_sqrt_floor_is(n as int, lo as int);
    }
    lo
}

} // verus!
