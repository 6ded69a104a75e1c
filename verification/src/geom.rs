//! Integer square roots, distances and travel durations in micro-units.

use vstd::prelude::*;
use vstd::arithmetic::div_mod::lemma_div_multiples_vanish;
use vstd::arithmetic::mul::lemma_mul_upper_bound;
use crate::{COORD_LIMIT_MICRO, LINEAR_SPEED_MICRO, NANOS_PER_SECOND};

verus! {

/// Largest squared distance `isqrt_u128` accepts.
pub const DIST_SQ_LIMIT: u128 = 4_000_000_000_000_000_000_000_000;

/// Upper bound of `isqrt_u128`'s result: the square root of `DIST_SQ_LIMIT`.
pub const ISQRT_RESULT_LIMIT: u64 = 2_000_000_000_000;

/// Largest distance between two in-range points, in micro-units
/// (the floor of the square root of twice `COORD_LIMIT_MICRO` squared).
pub const DIST_LIMIT_MICRO: i64 = 1_414_213_562_373;

/// Nanoseconds spent per micro-unit of distance at the fixed linear speed:
/// `NANOS_PER_SECOND / LINEAR_SPEED_MICRO`.
pub const NANOS_PER_DIST_MICRO: i64 = 5_000;

/// `r` is the integer square root of `n`, rounded down.
pub open spec fn is_sqrt_floor(n: int, r: int) -> bool {
    0 <= r && r * r <= n && n < (r + 1) * (r + 1)
}

/// The integer square root of `n`, rounded down.
pub open spec fn sqrt_floor(n: int) -> int {
    choose|r: int| is_sqrt_floor(n, r)
}

/// The integer square root is unique: any witness equals `sqrt_floor`.
pub proof fn lemma_sqrt_floor_unique(n: int, r: int)
    requires
        is_sqrt_floor(n, r),
    ensures
        sqrt_floor(n) == r,
{
    assert(is_sqrt_floor(n, r));
    let c = sqrt_floor(n);
    assert(is_sqrt_floor(n, c)) by {
        assert(exists|s: int| is_sqrt_floor(n, s));
    }
    if c < r {
        assert(false) by (nonlinear_arith)
            requires
                0 <= c < r,
                c * c <= n,
                n < (c + 1) * (c + 1),
                r * r <= n,
        ;
    }
    if r < c {
        assert(false) by (nonlinear_arith)
            requires
                0 <= r < c,
                r * r <= n,
                n < (r + 1) * (r + 1),
                c * c <= n,
        ;
    }
}

/// Integer square root by binary search, rounded down.
pub fn isqrt_u128(n: u128) -> (r: u64)
    requires
        n <= DIST_SQ_LIMIT,
    ensures
        is_sqrt_floor(n as int, r as int),
        r <= ISQRT_RESULT_LIMIT,
{
    let mut lo: u64 = 0;
    let mut hi: u64 = ISQRT_RESULT_LIMIT;
    while lo < hi
        invariant
            n <= DIST_SQ_LIMIT,
            lo <= hi <= ISQRT_RESULT_LIMIT,
            (lo as int) * (lo as int) <= n as int,
            (n as int) < (hi as int + 1) * (hi as int + 1),
        decreases hi - lo,
    {
        let half: u64 = (hi - lo + 1) / 2;
        let mid: u64 = lo + half;
        proof {
            lemma_mul_upper_bound(mid as int, ISQRT_RESULT_LIMIT as int, mid as int, ISQRT_RESULT_LIMIT as int);
        }
        let midsq: u128 = (mid as u128) * (mid as u128);
        if midsq <= n {
            lo = mid;
        } else {
            hi = mid - 1;
        }
    }
    lo
}

/// The squared Euclidean distance from `(px, py)` to `(gx, gy)`.
pub open spec fn dist_sq_spec(px: int, py: int, gx: int, gy: int) -> int {
    (gx - px) * (gx - px) + (gy - py) * (gy - py)
}

/// The Euclidean distance from `(px, py)` to `(gx, gy)` in micro-units,
/// rounded down to an integer.
pub fn distance_micro(px: i64, py: i64, gx: i64, gy: i64) -> (d: i64)
    requires
        -COORD_LIMIT_MICRO <= px <= COORD_LIMIT_MICRO,
        -COORD_LIMIT_MICRO <= py <= COORD_LIMIT_MICRO,
        -COORD_LIMIT_MICRO <= gx <= COORD_LIMIT_MICRO,
        -COORD_LIMIT_MICRO <= gy <= COORD_LIMIT_MICRO,
    ensures
        is_sqrt_floor(dist_sq_spec(px as int, py as int, gx as int, gy as int), d as int),
        d == sqrt_floor(dist_sq_spec(px as int, py as int, gx as int, gy as int)),
        0 <= d <= DIST_LIMIT_MICRO,
{
    let dx: i64 = gx - px;
    let dy: i64 = gy - py;
    let adx: u64 = if dx < 0 { (-dx) as u64 } else { dx as u64 };
    let ady: u64 = if dy < 0 { (-dy) as u64 } else { dy as u64 };
    proof {
        assert((adx as int) * (adx as int) == (dx as int) * (dx as int)) by (nonlinear_arith)
            requires
                adx as int == if dx < 0 { -(dx as int) } else { dx as int },
        ;
        assert((ady as int) * (ady as int) == (dy as int) * (dy as int)) by (nonlinear_arith)
            requires
                ady as int == if dy < 0 { -(dy as int) } else { dy as int },
        ;
        lemma_mul_upper_bound(adx as int, 1_000_000_000_000, adx as int, 1_000_000_000_000);
        lemma_mul_upper_bound(ady as int, 1_000_000_000_000, ady as int, 1_000_000_000_000);
    }
    let sq: u128 = (adx as u128) * (adx as u128) + (ady as u128) * (ady as u128);
    let root: u64 = isqrt_u128(sq);
    proof {
        assert(root <= DIST_LIMIT_MICRO) by (nonlinear_arith)
            requires
                0 <= root,
                (root as int) * (root as int) <= 2_000_000_000_000_000_000_000_000,
        ;
        lemma_sqrt_floor_unique(sq as int, root as int);
    }
    root as i64
}

/// The nanoseconds the translation phase must last to cover `distance`
/// micro-units at the fixed linear speed: `distance / speed`, in seconds,
/// scaled to nanoseconds. Exact, with no rounding: the speed divides the
/// nanosecond scale evenly.
pub fn travel_duration_nanos(distance: i64) -> (ns: i64)
    requires
        0 <= distance <= DIST_LIMIT_MICRO,
    ensures
        ns == distance * NANOS_PER_SECOND / (LINEAR_SPEED_MICRO as int),
        ns == distance * NANOS_PER_DIST_MICRO,
{
    proof {
        assert((distance as int) * (NANOS_PER_SECOND as int)
            == (LINEAR_SPEED_MICRO as int) * ((distance as int) * (NANOS_PER_DIST_MICRO as int)))
            by (nonlinear_arith);
        lemma_div_multiples_vanish(
            (distance as int) * (NANOS_PER_DIST_MICRO as int),
            LINEAR_SPEED_MICRO as int,
        );
    }
    distance * NANOS_PER_DIST_MICRO
}

} // verus!
