//! Fixed-point geometry: points, magnitudes, and an exact integer square
//! root. One world unit is `SCALE` ticks; every coordinate and distance in
//! the library is a count of ticks.

use vstd::prelude::*;

verus! {

/// Ticks per world unit.
pub const SCALE: i64 = 1000;

/// Largest coordinate magnitude (in ticks) an input atom may have.
pub const COORD_LIMIT: i64 = 3_000_000;

/// Largest magnitude (in ticks) a point reached by a marching ray may have.
pub const POS_LIMIT: i64 = 1_200_000_000;

/// A point in world space, in ticks.
#[derive(Clone, Copy, Debug, PartialEq, Eq, Structural)]
pub struct Point3 {
    pub x: i64,
    pub y: i64,
    pub z: i64,
}

impl Point3 {
    /// Every component has magnitude at most `limit`.
    pub open spec fn in_bounds(self, limit: int) -> bool {
        &&& -limit <= self.x <= limit
        &&& -limit <= self.y <= limit
        &&& -limit <= self.z <= limit
    }

    pub fn new(x: i64, y: i64, z: i64) -> (r: Point3)
        ensures
            r == (Point3 { x, y, z }),
    {
        Point3 { x, y, z }
    }
}

/// Squared Euclidean distance between two points, as a mathematical integer.
pub open spec fn dist_sq(a: Point3, b: Point3) -> int {
    (a.x - b.x) * (a.x - b.x) + (a.y - b.y) * (a.y - b.y) + (a.z - b.z) * (a.z - b.z)
}

/// A squared distance is never negative.
pub proof fn lemma_dist_sq_nonneg(a: Point3, b: Point3)
    ensures
        0 <= dist_sq(a, b),
{
    assert(0 <= (a.x - b.x) * (a.x - b.x) + (a.y - b.y) * (a.y - b.y) + (a.z - b.z) * (a.z
        - b.z)) by (nonlinear_arith);
}

/// Division rounding toward zero, for a positive divisor.
pub open spec fn div_trunc_spec(v: int, d: int) -> int {
    if v >= 0 {
        v / d
    } else {
        -((-v) / d)
    }
}

/// Divide, rounding toward zero.
pub fn div_trunc(v: i64, d: i64) -> (r: i64)
    requires
        i64::MIN < v,
        0 < d,
    ensures
        r == div_trunc_spec(v as int, d as int),
        v - d < d * r <= v || v <= d * r < v + d,
{
    proof {
        if v >= 0 {
            vstd::arithmetic::div_mod::lemma_fundamental_div_mod(v as int, d as int);
            vstd::arithmetic::div_mod::lemma_div_pos_is_pos(v as int, d as int);
        } else {
            vstd::arithmetic::div_mod::lemma_fundamental_div_mod(-(v as int), d as int);
            vstd::arithmetic::div_mod::lemma_div_pos_is_pos(-(v as int), d as int);
            assert(d * (-((-(v as int)) / (d as int))) == -(d * ((-(v as int)) / (d as int))))
                by (nonlinear_arith);
        }
    }
    if v >= 0 {
        v / d
    } else {
        -((-v) / d)
    }
}

/// The integer square root, rounded down.
pub open spec fn sqrt_floor(n: nat) -> nat
    decreases n,
{
    if n == 0 {
        0
    } else {
        let p = sqrt_floor((n - 1) as nat);
        if (p + 1) * (p + 1) <= n {
            p + 1
        } else {
            p
        }
    }
}

/// `sqrt_floor(n)` squares to at most `n`, and the next integer squares past it.
pub proof fn lemma_sqrt_floor_props(n: nat)
    ensures
        sqrt_floor(n) * sqrt_floor(n) <= n,
        (sqrt_floor(n) + 1) * (sqrt_floor(n) + 1) > n,
    decreases n,
{
    let s = sqrt_floor(n);
    if n == 0 {
        assert(s == 0);
        assert(s * s <= n && (s + 1) * (s + 1) > n) by (nonlinear_arith)
            requires
                s == 0,
                n == 0,
        ;
    } else {
        lemma_sqrt_floor_props((n - 1) as nat);
        let p = sqrt_floor((n - 1) as nat);
        assert(s == if (p + 1) * (p + 1) <= n {
            (p + 1) as nat
        } else {
            p
        });
        if (p + 1) * (p + 1) <= n {
            assert(s * s <= n && (s + 1) * (s + 1) > n) by (nonlinear_arith)
                requires
                    s == p + 1,
                    (p + 1) * (p + 1) <= n,
                    (p + 1) * (p + 1) > n - 1,
            ;
        } else {
            assert(s * s <= n && (s + 1) * (s + 1) > n) by (nonlinear_arith)
                requires
                    s == p,
                    p * p <= n - 1,
                    (p + 1) * (p + 1) > n,
            ;
        }
    }
}

/// Any `r` with `r * r <= n < (r + 1) * (r + 1)` is the integer square root.
pub proof fn lemma_sqrt_floor_unique(n: nat, r: nat)
    requires
        r * r <= n,
        (r + 1) * (r + 1) > n,
    ensures
        r == sqrt_floor(n),
{
    lemma_sqrt_floor_props(n);
    let s = sqrt_floor(n);
    assert(r == s) by (nonlinear_arith)
        requires
            r * r <= n,
            (r + 1) * (r + 1) > n,
            s * s <= n,
            (s + 1) * (s + 1) > n,
    ;
}

/// The integer square root is monotone.
pub proof fn lemma_sqrt_floor_mono(a: nat, b: nat)
    requires
        a <= b,
    ensures
        sqrt_floor(a) <= sqrt_floor(b),
{
    lemma_sqrt_floor_props(a);
    lemma_sqrt_floor_props(b);
    let r = sqrt_floor(a);
    let s = sqrt_floor(b);
    assert(r <= s) by (nonlinear_arith)
        requires
            r * r <= a,
            a <= b,
            (s + 1) * (s + 1) > b,
    ;
}

/// The integer square root of an exact square.
pub proof fn lemma_sqrt_floor_square(x: nat)
    ensures
        sqrt_floor(x * x) == x,
{
    assert(x * x < (x + 1) * (x + 1)) by (nonlinear_arith);
    lemma_sqrt_floor_unique(x * x, x);
}

/// Squared Euclidean norm of a point seen as a vector from the origin.
pub open spec fn norm_sq(v: Point3) -> int {
    v.x * v.x + v.y * v.y + v.z * v.z
}

/// Integer square root by binary search.
pub fn isqrt(n: u128) -> (r: u64)
    requires
        n < 0x1_0000_0000_0000_0000_0000u128,
    ensures
        r == sqrt_floor(n as nat),
        r * r <= n < (r + 1) * (r + 1),
{
    let mut lo: u64 = 0;
    let mut hi: u64 = 0x100_0000_0000;
    assert(0x1_0000_0000_0000_0000_0000u128 == 0x100_0000_0000u128 * 0x100_0000_0000u128);
    while lo < hi
        invariant
            lo <= hi,
            hi <= 0x100_0000_0000u64,
            lo as int * lo as int <= n,
            (hi + 1) as int * (hi + 1) as int > n,
        decreases hi - lo,
    {
        let mid = lo + (hi - lo + 1) / 2;
        proof {
            assert(mid as int * mid as int <= 0x100_0000_0000i128 * 0x100_0000_0000i128)
                by (nonlinear_arith)
                requires
                    0 <= mid <= 0x100_0000_0000u64,
            ;
        }
        if (mid as u128) * (mid as u128) <= n {
            lo = mid;
        } else {
            hi = mid - 1;
        }
    }
    proof {
        lemma_sqrt_floor_unique(n as nat, lo as nat);
    }
    lo
}

} // verus!
