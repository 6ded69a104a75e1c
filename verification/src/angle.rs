//! Planar angles in micro-radians: bearing and yaw extraction.
//!
//! Angles are integers counting millionths of a radian. The arctangent is
//! computed by a quadratic approximation on the first octant, then extended
//! to the full plane by the usual symmetries; its result always lies in the
//! half-open interval (-pi, pi].

use vstd::prelude::*;
use vstd::arithmetic::div_mod::{lemma_div_is_ordered, lemma_div_multiples_vanish, lemma_div_pos_is_pos};
use vstd::arithmetic::mul::{lemma_mul_inequality, lemma_mul_nonnegative, lemma_mul_upper_bound};
use crate::{HALF_PI_MICRO, MICRO, PI_MICRO, QUARTER_PI_MICRO};
use crate::geom::{isqrt_u128, lemma_sqrt_floor_unique, sqrt_floor};

verus! {

/// Quadratic tuning coefficient of the first-octant arctangent
/// approximation: the constant 0.273 scaled by `MICRO`.
pub const ATAN_TUNE_MICRO: i64 = 273_000;

/// Upper bound of `atan_unit_spec` over its domain:
/// `QUARTER_PI_MICRO + ATAN_TUNE_MICRO`.
pub const ATAN_UNIT_MAX: i64 = 1_058_398;

/// Largest argument magnitude `atan2_micro` accepts: the distance between
/// two in-range coordinates (twice `COORD_LIMIT_MICRO`).
pub const ATAN2_INPUT_LIMIT: i64 = 1_000_000_000_000;

/// Absolute value of an integer.
pub open spec fn iabs(v: int) -> int {
    if v < 0 {
        -v
    } else {
        v
    }
}

/// The sign of an integer: 1, -1, or 0.
pub open spec fn sign(v: int) -> int {
    if v > 0 {
        1
    } else if v < 0 {
        -1
    } else {
        0
    }
}

/// Arctangent of `t / MICRO` for `t` in `[0, MICRO]`, in micro-radians:
/// a quadratic approximation, exact at both endpoints (0 and pi/4).
pub open spec fn atan_unit_spec(t: int) -> int {
    QUARTER_PI_MICRO * t / (MICRO as int) + ATAN_TUNE_MICRO * (t * (MICRO - t) / (MICRO as int)) / (
    MICRO as int)
}

/// Over its domain, the first-octant arctangent is nonnegative and bounded.
pub proof fn lemma_atan_unit_spec_bounds(t: int)
    requires
        0 <= t <= MICRO,
    ensures
        0 <= atan_unit_spec(t) <= ATAN_UNIT_MAX,
{
    let m = MICRO as int;
    let lin = QUARTER_PI_MICRO * t / m;
    let poly = t * (m - t) / m;
    let adj = ATAN_TUNE_MICRO * poly / m;
    lemma_div_pos_is_pos(QUARTER_PI_MICRO * t, m);
    lemma_div_is_ordered(QUARTER_PI_MICRO * t, QUARTER_PI_MICRO * m, m);
    lemma_div_multiples_vanish(QUARTER_PI_MICRO as int, m);
    assert(m * (QUARTER_PI_MICRO as int) == QUARTER_PI_MICRO * m);
    assert(lin <= QUARTER_PI_MICRO);
    lemma_mul_nonnegative(t, m - t);
    lemma_mul_upper_bound(t, m, m - t, m);
    lemma_div_pos_is_pos(t * (m - t), m);
    lemma_div_is_ordered(t * (m - t), m * m, m);
    lemma_div_multiples_vanish(m, m);
    assert(poly <= m);
    lemma_div_pos_is_pos(ATAN_TUNE_MICRO * poly, m);
    assert(ATAN_TUNE_MICRO * poly <= ATAN_TUNE_MICRO * m) by (nonlinear_arith)
        requires
            poly <= m,
    ;
    lemma_div_is_ordered(ATAN_TUNE_MICRO * poly, ATAN_TUNE_MICRO * m, m);
    lemma_div_multiples_vanish(ATAN_TUNE_MICRO as int, m);
    assert(m * (ATAN_TUNE_MICRO as int) == ATAN_TUNE_MICRO * m);
    assert(adj <= ATAN_TUNE_MICRO);
}

/// Arctangent of `t / MICRO` for `t` in `[0, MICRO]`, in micro-radians.
pub fn atan_unit(t: i64) -> (r: i64)
    requires
        0 <= t <= MICRO,
    ensures
        r == atan_unit_spec(t as int),
        0 <= r <= ATAN_UNIT_MAX,
{
    proof {
        lemma_atan_unit_spec_bounds(t as int);
        lemma_mul_nonnegative(t as int, MICRO - t);
        lemma_mul_upper_bound(t as int, MICRO as int, MICRO - t, MICRO as int);
        lemma_div_pos_is_pos((t as int) * (MICRO - t), MICRO as int);
        lemma_div_is_ordered((t as int) * (MICRO - t), (MICRO as int) * (MICRO as int), MICRO as int);
        lemma_div_multiples_vanish(MICRO as int, MICRO as int);
        lemma_div_pos_is_pos((QUARTER_PI_MICRO as int) * (t as int), MICRO as int);
        lemma_div_pos_is_pos((ATAN_TUNE_MICRO as int) * ((t as int) * (MICRO - t) / (MICRO as int)), MICRO as int);
    }
    let tu: u64 = t as u64;
    let mu: u64 = MICRO as u64;
    let lin: u64 = (QUARTER_PI_MICRO as u64) * tu / mu;
    let poly: u64 = tu * (mu - tu) / mu;
    let adj: u64 = (ATAN_TUNE_MICRO as u64) * poly / mu;
    (lin + adj) as i64
}

/// Four-quadrant arctangent of `y / x` in micro-radians, always in
/// `(-pi, pi]`. Defined by octant reduction to `atan_unit_spec`. Where the
/// mathematical angle lies strictly between -pi and the next representable
/// value, the result is clamped to one micro-radian above -pi, keeping the
/// interval's open lower end.
pub open spec fn atan2_spec(y: int, x: int) -> int {
    if y == 0 && x == 0 {
        0
    } else {
        let ay = iabs(y);
        let ax = iabs(x);
        let base = if ay <= ax {
            atan_unit_spec(ay * (MICRO as int) / ax)
        } else {
            HALF_PI_MICRO - atan_unit_spec(ax * (MICRO as int) / ay)
        };
        let mag = if x >= 0 {
            base
        } else {
            PI_MICRO - base
        };
        if y >= 0 {
            mag
        } else if mag == PI_MICRO {
            1 - PI_MICRO
        } else {
            -mag
        }
    }
}

/// A ratio of two ordered nonnegative integers, scaled to `[0, MICRO]`.
proof fn lemma_ratio_in_unit(num: int, den: int)
    requires
        0 <= num <= den,
        0 < den,
    ensures
        0 <= num * (MICRO as int) / den <= MICRO,
{
    lemma_mul_nonnegative(num, MICRO as int);
    lemma_div_pos_is_pos(num * (MICRO as int), den);
    lemma_mul_inequality(num, den, MICRO as int);
    lemma_div_is_ordered(num * (MICRO as int), den * (MICRO as int), den);
    lemma_div_multiples_vanish(MICRO as int, den);
}

/// The four-quadrant arctangent lies in `(-pi, pi]` for every input.
pub proof fn lemma_atan2_spec_range(y: int, x: int)
    ensures
        -PI_MICRO < atan2_spec(y, x) <= PI_MICRO,
{
    if y == 0 && x == 0 {
    } else {
        let ay = iabs(y);
        let ax = iabs(x);
        if ay <= ax {
            lemma_ratio_in_unit(ay, ax);
            lemma_atan_unit_spec_bounds(ay * (MICRO as int) / ax);
        } else {
            lemma_ratio_in_unit(ax, ay);
            lemma_atan_unit_spec_bounds(ax * (MICRO as int) / ay);
        }
    }
}

/// When `x` is nonnegative the arctangent lies within `[-pi/2, pi/2]`,
/// up to the approximation's bound.
pub proof fn lemma_atan2_spec_halfplane(y: int, x: int)
    requires
        x >= 0,
    ensures
        iabs(atan2_spec(y, x)) <= HALF_PI_MICRO,
{
    lemma_atan2_spec_range(y, x);
    if y == 0 && x == 0 {
    } else {
        let ay = iabs(y);
        let ax = iabs(x);
        if ay <= ax {
            lemma_ratio_in_unit(ay, ax);
            lemma_atan_unit_spec_bounds(ay * (MICRO as int) / ax);
        } else {
            lemma_ratio_in_unit(ax, ay);
            lemma_atan_unit_spec_bounds(ax * (MICRO as int) / ay);
        }
    }
}

/// Four-quadrant arctangent of `y / x` in micro-radians.
pub fn atan2_micro(y: i64, x: i64) -> (r: i64)
    requires
        -ATAN2_INPUT_LIMIT <= y <= ATAN2_INPUT_LIMIT,
        -ATAN2_INPUT_LIMIT <= x <= ATAN2_INPUT_LIMIT,
    ensures
        r == atan2_spec(y as int, x as int),
        -PI_MICRO < r <= PI_MICRO,
{
    proof {
        lemma_atan2_spec_range(y as int, x as int);
    }
    if y == 0 && x == 0 {
        return 0;
    }
    let ay: u64 = if y < 0 {
        (-y) as u64
    } else {
        y as u64
    };
    let ax: u64 = if x < 0 {
        (-x) as u64
    } else {
        x as u64
    };
    let mu: u64 = MICRO as u64;
    let base: i64 = if ay <= ax {
        proof {
            lemma_ratio_in_unit(ay as int, ax as int);
        }
        atan_unit((ay * mu / ax) as i64)
    } else {
        proof {
            lemma_ratio_in_unit(ax as int, ay as int);
        }
        HALF_PI_MICRO - atan_unit((ax * mu / ay) as i64)
    };
    let mag: i64 = if x >= 0 {
        base
    } else {
        PI_MICRO - base
    };
    if y >= 0 {
        mag
    } else if mag == PI_MICRO {
        1 - PI_MICRO
    } else {
        -mag
    }
}

/// A quaternion z-component clamped to the unit range `[-MICRO, MICRO]`.
pub open spec fn clamp_unit_spec(z: int) -> int {
    if z < -MICRO {
        -MICRO as int
    } else if z > MICRO {
        MICRO as int
    } else {
        z
    }
}

/// The planar yaw encoded by a quaternion's z-component `qz / MICRO`,
/// in micro-radians: twice the arcsine of the clamped component, where
/// the arcsine of `z` is the arctangent of `z` against `sqrt(1 - z^2)`.
/// Valid for orientations whose roll and pitch are zero; any other
/// orientation yields a planar angle with no further meaning.
pub open spec fn yaw_spec(qz: int) -> int {
    let z = clamp_unit_spec(qz);
    2 * atan2_spec(z, sqrt_floor((MICRO as int) * (MICRO as int) - z * z))
}

/// The yaw extracted from a quaternion z-component, in micro-radians.
/// A component outside the unit range (a degenerate, non-planar
/// orientation) is clamped rather than rejected.
pub fn yaw_from_quat_z(qz: i64) -> (r: i64)
    ensures
        r == yaw_spec(qz as int),
        -PI_MICRO < r <= PI_MICRO,
{
    let z: i64 = if qz < -MICRO {
        -MICRO
    } else if qz > MICRO {
        MICRO
    } else {
        qz
    };
    proof {
        assert(0 <= (z as int) * (z as int) <= (MICRO as int) * (MICRO as int)) by (nonlinear_arith)
            requires
                -MICRO <= z <= MICRO,
        ;
    }
    let zz: i64 = z * z;
    let m2: i64 = MICRO * MICRO - zz;
    let w: u64 = isqrt_u128(m2 as u128);
    proof {
        lemma_sqrt_floor_unique(m2 as int, w as int);
        assert(w <= MICRO) by (nonlinear_arith)
            requires
                0 <= w,
                (w as int) * (w as int) <= 1_000_000_000_000,
        ;
        lemma_atan2_spec_halfplane(z as int, w as int);
    }
    let half: i64 = atan2_micro(z, w as i64);
    2 * half
}

} // verus!
