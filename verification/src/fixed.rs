//! Fixed-point arithmetic for the playfield.
//!
//! Every length, position and velocity component is an integer count of
//! thousandths: a screen unit is `UNIT` sub-units long, and a direction of
//! length one has components that add up, squared, to `UNIT * UNIT`.
//! Time is counted in microseconds.

use vstd::prelude::*;

verus! {

/// Sub-units in one screen unit, and the length of a unit direction.
pub const UNIT: i64 = 1000;

/// Largest magnitude of a coordinate, of a size and of a velocity component.
/// Positions and velocities that would leave this range stop at its edge.
pub const COORD_LIMIT: i64 = 1_000_000_000_000;

/// Largest width and height of a viewport, in sub-units.
pub const VIEW_LIMIT: i64 = 1_000_000_000;

/// Microseconds in a second.
pub const MICROS_PER_SECOND: i64 = 1_000_000;

/// Largest speed, in screen units per second, that `travel` accepts.
pub const SPEED_LIMIT: i64 = 1000;

/// Largest magnitude of a factor, in thousandths, that `scale` accepts.
pub const FACTOR_LIMIT: i64 = 1_000_000;

/// The farthest that `travel` goes: the largest velocity component for the
/// longest tick at the largest speed.
pub const TRAVEL_LIMIT: i64 = 4_294_967_295_000_000_000;

/// The absolute value of `v`.
pub open spec fn magnitude(v: int) -> int {
    if v >= 0 {
        v
    } else {
        -v
    }
}

/// The quotient of `a` by a positive `b`, rounded toward zero.
pub open spec fn quot(a: int, b: int) -> int {
    if a >= 0 {
        a / b
    } else {
        -((-a) / b)
    }
}

/// `v` brought into `[-COORD_LIMIT, COORD_LIMIT]`.
pub open spec fn clamped(v: int) -> int {
    if v < -COORD_LIMIT {
        -COORD_LIMIT as int
    } else if v > COORD_LIMIT {
        COORD_LIMIT as int
    } else {
        v
    }
}

/// Whether `v` is a coordinate, a size or a velocity component in range.
pub open spec fn in_range(v: int) -> bool {
    -COORD_LIMIT <= v <= COORD_LIMIT
}

/// The distance, in sub-units, covered in `dt` microseconds at `speed`
/// screen units per second along a direction component of `velocity`
/// thousandths, rounded toward zero.
pub open spec fn travelled(velocity: int, dt: int, speed: int) -> int {
    quot(velocity * dt * speed, MICROS_PER_SECOND as int)
}

/// `v` multiplied by `factor` thousandths, rounded toward zero.
pub open spec fn scaled(v: int, factor: int) -> int {
    quot(v * factor, UNIT as int)
}

/// Whether `r` is the integer square root of `n`, rounded down.
pub open spec fn is_floor_sqrt(r: int, n: int) -> bool {
    0 <= r && r * r <= n < (r + 1) * (r + 1)
}

/// The integer square root of a non-negative `n`, rounded down.
pub open spec fn floor_sqrt_of(n: int) -> int {
    choose|r: int| is_floor_sqrt(r, n)
}

/// Squaring is monotone on the non-negative integers.
pub proof fn lemma_square_monotone(a: int, b: int)
    by (nonlinear_arith)
    requires
        0 <= a <= b,
    ensures
        a * a <= b * b,
{
}

/// A number has at most one rounded-down square root.
pub proof fn lemma_floor_sqrt_unique(r1: int, r2: int, n: int)
    requires
        is_floor_sqrt(r1, n),
        is_floor_sqrt(r2, n),
    ensures
        r1 == r2,
{
    if r1 < r2 {
        lemma_square_monotone(r1 + 1, r2);
    } else if r2 < r1 {
        lemma_square_monotone(r2 + 1, r1);
    }
}

/// Every non-negative integer has a rounded-down square root.
pub proof fn lemma_floor_sqrt_exists(n: int)
    requires
        n >= 0,
    ensures
        is_floor_sqrt(floor_sqrt_of(n), n),
    decreases n,
{
    if n == 0 {
        assert(is_floor_sqrt(0, 0));
    } else {
        lemma_floor_sqrt_exists(n - 1);
        let r = floor_sqrt_of(n - 1);
        if n < (r + 1) * (r + 1) {
            assert(is_floor_sqrt(r, n));
        } else {
            assert((r + 1) * (r + 1) < (r + 2) * (r + 2)) by (nonlinear_arith)
                requires
                    r >= 0,
            ;
            assert(is_floor_sqrt(r + 1, n));
        }
    }
}

/// The product of two bounded magnitudes is bounded by the product of the bounds.
pub proof fn lemma_product_bound(a: int, b: int, la: int, lb: int)
    by (nonlinear_arith)
    requires
        -la <= a <= la,
        -lb <= b <= lb,
    ensures
        -(la * lb) <= a * b <= la * lb,
{
}

/// `v` brought into the coordinate range.
pub fn clamp_coord(v: i64) -> (r: i64)
    ensures
        r == clamped(v as int),
        in_range(r as int),
{
    if v < -COORD_LIMIT {
        -COORD_LIMIT
    } else if v > COORD_LIMIT {
        COORD_LIMIT
    } else {
        v
    }
}

/// The distance covered in `dt` microseconds at `speed` screen units per
/// second along a direction component of `velocity` thousandths.
pub fn travel(velocity: i64, dt: u32, speed: i64) -> (r: i64)
    requires
        in_range(velocity as int),
        0 <= speed <= SPEED_LIMIT,
    ensures
        r == travelled(velocity as int, dt as int, speed as int),
        -TRAVEL_LIMIT <= r <= TRAVEL_LIMIT,
{
    proof {
        lemma_product_bound(velocity as int, dt as int, COORD_LIMIT as int, u32::MAX as int);
        lemma_product_bound(
            velocity * dt,
            speed as int,
            COORD_LIMIT * u32::MAX,
            SPEED_LIMIT as int,
        );
    }
    let along: i128 = (velocity as i128) * (dt as i128);
    let product: i128 = along * (speed as i128);
    let q: i128 = product / (MICROS_PER_SECOND as i128);
    q as i64
}

/// `v` multiplied by `factor` thousandths.
pub fn scale(v: i64, factor: i64) -> (r: i64)
    requires
        in_range(v as int),
        -FACTOR_LIMIT <= factor <= FACTOR_LIMIT,
    ensures
        r == scaled(v as int, factor as int),
{
    proof {
        lemma_product_bound(v as int, factor as int, COORD_LIMIT as int, FACTOR_LIMIT as int);
    }
    (v * factor) / UNIT
}

/// The square root of `n`, rounded down.
pub fn floor_sqrt(n: u128) -> (r: u64)
    ensures
        is_floor_sqrt(r as int, n as int),
        r == floor_sqrt_of(n as int),
{
    let mut lo: u128 = 0;
    let mut hi: u128 = 0x1_0000_0000_0000_0000;
    assert(0x1_0000_0000_0000_0000int * 0x1_0000_0000_0000_0000int > u128::MAX);
    while hi - lo > 1
        invariant
            lo < hi <= 0x1_0000_0000_0000_0000,
            lo * lo <= n < hi * hi,
        decreases hi - lo,
    {
        let mid: u128 = lo + (hi - lo) / 2;
        assert(mid * mid <= 0xffff_ffff_ffff_ffffint * 0xffff_ffff_ffff_ffffint) by {
            lemma_square_monotone(mid as int, 0xffff_ffff_ffff_ffffint);
        }
        assert(0xffff_ffff_ffff_ffffint * 0xffff_ffff_ffff_ffffint <= u128::MAX);
        if mid * mid <= n {
            lo = mid;
        } else {
            hi = mid;
        }
    }
    proof {
        assert(hi == lo + 1);
        assert(is_floor_sqrt(lo as int, n as int));
        lemma_floor_sqrt_unique(lo as int, floor_sqrt_of(n as int), n as int);
    }
    lo as u64
}

} // verus!
