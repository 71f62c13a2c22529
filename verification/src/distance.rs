//! Euclidean distance between points of the luma/chroma space.

use vstd::prelude::*;
use crate::ycbcr::ColorYCbCr;

verus! {

/// The squared distance `(Δy)² + (Δcb)² + (Δcr)²`, in squared units.
pub open spec fn distance_sq(a: ColorYCbCr, b: ColorYCbCr) -> int {
    (a.y - b.y) * (a.y - b.y) + (a.cb - b.cb) * (a.cb - b.cb) + (a.cr - b.cr) * (a.cr - b.cr)
}

/// `root` is the square root of `n`, rounded down.
pub open spec fn is_floor_sqrt(root: int, n: int) -> bool {
    0 <= root && root * root <= n < (root + 1) * (root + 1)
}

/// The square root of `n`, rounded down.
pub open spec fn floor_sqrt(n: int) -> int {
    choose|root: int| is_floor_sqrt(root, n)
}

/// The distance between two points, in units, rounded down to a whole unit.
pub open spec fn distance(a: ColorYCbCr, b: ColorYCbCr) -> int {
    floor_sqrt(distance_sq(a, b))
}

/// A number has at most one rounded-down square root.
pub proof fn lemma_floor_sqrt_unique(r1: int, r2: int, n: int)
    requires
        is_floor_sqrt(r1, n),
        is_floor_sqrt(r2, n),
    ensures
        r1 == r2,
{
    if r1 < r2 {
        assert((r1 + 1) * (r1 + 1) <= r2 * r2) by (nonlinear_arith)
            requires
                0 <= r1 + 1 <= r2,
        ;
    } else if r2 < r1 {
        assert((r2 + 1) * (r2 + 1) <= r1 * r1) by (nonlinear_arith)
            requires
                0 <= r2 + 1 <= r1,
        ;
    }
}

/// Whatever meets `is_floor_sqrt` for `n` is `floor_sqrt(n)`.
pub proof fn lemma_floor_sqrt_is(root: int, n: int)
    requires
        is_floor_sqrt(root, n),
    ensures
        floor_sqrt(n) == root,
{
    lemma_floor_sqrt_unique(root, floor_sqrt(n), n);
}

/// The square of a difference of two fields.
fn square(d: i64) -> (s: u128)
    requires
        -0x1_0000_0000 < d < 0x1_0000_0000,
    ensures
        s == d * d,
        s < 0x1_0000_0000_0000_0000,
{
    let a: u128 = if d < 0 {
        (-d) as u128
    } else {
        d as u128
    };
    assert(a * a == d * d && a * a < 0x1_0000_0000_0000_0000) by (nonlinear_arith)
        requires
            a == d || a == -d,
            0 <= a < 0x1_0000_0000,
    ;
    a * a
}

/// The squared distance between two points.
pub fn color_distance_sq(c1: ColorYCbCr, c2: ColorYCbCr) -> (d: u128)
    ensures
        d == distance_sq(c1, c2),
{
    let dy: i64 = c1.y as i64 - c2.y as i64;
    let dcb: i64 = c1.cb as i64 - c2.cb as i64;
    let dcr: i64 = c1.cr as i64 - c2.cr as i64;
    square(dy) + square(dcb) + square(dcr)
}

/// The square root of `n`, rounded down, by bisection.
pub fn isqrt(n: u128) -> (root: u64)
    ensures
        is_floor_sqrt(root as int, n as int),
        root == floor_sqrt(n as int),
{
    let mut lo: u128 = 0;
    let mut hi: u128 = 0x1_0000_0000_0000_0000;
    assert(hi * hi > n) by (nonlinear_arith)
        requires
            hi == 0x1_0000_0000_0000_0000,
            n <= u128::MAX,
    ;
    assert(lo * lo <= n);
    while hi - lo > 1
        invariant
            lo < hi <= 0x1_0000_0000_0000_0000,
            lo * lo <= n < hi * hi,
        decreases hi - lo,
    {
        let mid: u128 = lo + (hi - lo) / 2;
        assert(mid * mid <= u128::MAX) by (nonlinear_arith)
            requires
                mid < 0x1_0000_0000_0000_0000,
        ;
        if mid * mid <= n {
            lo = mid;
        } else {
            hi = mid;
        }
    }
    proof {
        lemma_floor_sqrt_is(lo as int, n as int);
    }
    lo as u64
}

/// The distance between two points, rounded down to a whole unit.
pub fn color_distance(c1: ColorYCbCr, c2: ColorYCbCr) -> (d: u64)
    ensures
        is_floor_sqrt(d as int, distance_sq(c1, c2)),
        d == distance(c1, c2),
{
    isqrt(color_distance_sq(c1, c2))
}

/// Distance does not depend on the order of its two points.
pub proof fn lemma_distance_symmetric(a: ColorYCbCr, b: ColorYCbCr)
    ensures
        distance_sq(a, b) == distance_sq(b, a),
        distance(a, b) == distance(b, a),
{
    assert(distance_sq(a, b) == distance_sq(b, a)) by (nonlinear_arith)
        requires
            distance_sq(a, b) == (a.y - b.y) * (a.y - b.y) + (a.cb - b.cb) * (a.cb - b.cb) + (a.cr
                - b.cr) * (a.cr - b.cr),
            distance_sq(b, a) == (b.y - a.y) * (b.y - a.y) + (b.cb - a.cb) * (b.cb - a.cb) + (b.cr
                - a.cr) * (b.cr - a.cr),
    ;
}

/// Distance is never negative, and it is zero exactly between a point and itself.
pub proof fn lemma_distance_zero(a: ColorYCbCr, b: ColorYCbCr)
    ensures
        distance_sq(a, b) >= 0,
        distance(a, b) >= 0,
        distance_sq(a, b) == 0 <==> a == b,
        distance(a, b) == 0 <==> a == b,
{
    let dy = a.y - b.y;
    let dcb = a.cb - b.cb;
    let dcr = a.cr - b.cr;
    assert(dy * dy >= 0 && (dy * dy == 0 <==> dy == 0)) by (nonlinear_arith);
    assert(dcb * dcb >= 0 && (dcb * dcb == 0 <==> dcb == 0)) by (nonlinear_arith);
    assert(dcr * dcr >= 0 && (dcr * dcr == 0 <==> dcr == 0)) by (nonlinear_arith);
    let n = distance_sq(a, b);
    lemma_floor_sqrt_exists(n);
    let root = floor_sqrt(n);
    if n == 0 {
        lemma_floor_sqrt_is(0, n);
    } else if root == 0 {
        assert((root + 1) * (root + 1) == 1) by (nonlinear_arith)
            requires
                root == 0,
        ;
    }
}

/// Every number from zero up has a rounded-down square root.
pub proof fn lemma_floor_sqrt_exists(n: int)
    requires
        n >= 0,
    ensures
        is_floor_sqrt(floor_sqrt(n), n),
    decreases n,
{
    if n == 0 {
        assert(is_floor_sqrt(0, 0));
    } else {
        lemma_floor_sqrt_exists(n - 1);
        let r = floor_sqrt(n - 1);
        if (r + 1) * (r + 1) <= n {
            assert((r + 1) * (r + 1) == n);
            assert(n < (r + 2) * (r + 2)) by (nonlinear_arith)
                requires
                    (r + 1) * (r + 1) == n,
                    r >= 0,
            ;
            assert(is_floor_sqrt(r + 1, n));
        } else {
            assert(is_floor_sqrt(r, n));
        }
    }
}

} // verus!
