//! Fixed-point arithmetic for the engine.
//!
//! Every time, coordinate and scalar value in the engine is an `i64` counted
//! in thousandths of a unit: `1500` means `1.5`. All rounding truncates
//! toward zero, so every operation here is an exact, deterministic function
//! of its integer arguments.

use vstd::prelude::*;
use vstd::arithmetic::div_mod::*;
use vstd::arithmetic::mul::*;

verus! {

/// Number of fixed-point steps in one unit (one thousandth resolution).
pub const SCALE: i64 = 1000;

/// Largest magnitude (two to the fortieth) that a time, coordinate or curve
/// value may take; keeps every intermediate product inside `i128`.
pub const MAX_COORD: i64 = 0x100_0000_0000;

/// Largest magnitude an interpolated value can reach (a Bezier segment may
/// overshoot its endpoints, but never past sixteen times the coordinate
/// range).
pub const VAL_LIMIT: i64 = 0x1000_0000_0000;

/// Resolution of the Bezier curve parameter.
pub const BEZ_ONE: i64 = 4096;

/// The parameter resolution, cubed: the divisor of the Bernstein form.
pub const BEZ_CUBE: i64 = 68719476736;

/// Bisection steps used to solve for the Bezier parameter; enough to pin the
/// parameter down to one step of its resolution.
pub const BEZ_STEPS: u64 = 12;

/// Division truncating toward zero: the engine's rounding rule.
pub open spec fn tdiv(a: int, d: int) -> int
    recommends
        d > 0,
{
    if a >= 0 {
        a / d
    } else {
        -((-a) / d)
    }
}

/// Clamp a wide intermediate back into the coordinate range.
pub open spec fn sat(x: int) -> int {
    if x > MAX_COORD as int {
        MAX_COORD as int
    } else if x < -(MAX_COORD as int) {
        -(MAX_COORD as int)
    } else {
        x
    }
}

/// Linear interpolation between `(t0, v0)` and `(t1, v1)` sampled at `t`.
pub open spec fn lerp(v0: int, v1: int, t0: int, t1: int, t: int) -> int
    recommends
        t0 < t1,
{
    v0 + tdiv((v1 - v0) * (t - t0), t1 - t0)
}

/// A product of values bounded by `x` and `y` is bounded by `x * y`.
pub proof fn lemma_mul_abs_bound(a: int, b: int, x: int, y: int)
    by (nonlinear_arith)
    requires
        -x <= a <= x,
        -y <= b <= y,
        0 <= x,
        0 <= y,
    ensures
        -(x * y) <= a * b <= x * y,
{
}

/// Truncating division shrinks magnitude: `|a| <= b * d` gives `|a / d| <= b`.
pub proof fn lemma_tdiv_bound(a: int, d: int, b: int)
    requires
        d >= 1,
        b >= 0,
        -(b * d) <= a <= b * d,
    ensures
        -b <= tdiv(a, d) <= b,
        a >= 0 ==> tdiv(a, d) >= 0,
        a <= 0 ==> tdiv(a, d) <= 0,
{
    lemma_mul_is_commutative(b, d);
    lemma_div_multiples_vanish(b, d);
    if a >= 0 {
        lemma_div_is_ordered(a, b * d, d);
        lemma_div_is_ordered(0, a, d);
    } else {
        lemma_div_is_ordered(-a, b * d, d);
        lemma_div_is_ordered(0, -a, d);
    }
}

/// Truncating signed division on wide intermediates.
pub fn div_trunc(a: i128, d: i128) -> (r: i128)
    requires
        1 <= d,
        i128::MIN < a,
    ensures
        r == tdiv(a as int, d as int),
{
    if a >= 0 {
        proof {
            lemma_div_is_ordered_by_denominator(a as int, 1, d as int);
            lemma_div_is_ordered(0, a as int, d as int);
        }
        let q: u128 = (a as u128) / (d as u128);
        q as i128
    } else {
        let n: u128 = (-a) as u128;
        proof {
            lemma_div_is_ordered_by_denominator(-a as int, 1, d as int);
            lemma_div_is_ordered(0, -a as int, d as int);
        }
        let q: u128 = n / (d as u128);
        -(q as i128)
    }
}

/// Clamp a wide intermediate into the coordinate range.
pub fn sat_exec(x: i128) -> (r: i64)
    ensures
        r as int == sat(x as int),
{
    if x > MAX_COORD as i128 {
        MAX_COORD
    } else if x < -(MAX_COORD as i128) {
        -MAX_COORD
    } else {
        x as i64
    }
}

/// Linear interpolation; the result stays between the two endpoint values.
pub fn lerp_exec(v0: i64, v1: i64, t0: i64, t1: i64, t: i64) -> (r: i64)
    requires
        t0 < t1,
        t0 <= t <= t1,
        -MAX_COORD <= v0 <= MAX_COORD,
        -MAX_COORD <= v1 <= MAX_COORD,
        -MAX_COORD <= t0 <= MAX_COORD,
        -MAX_COORD <= t1 <= MAX_COORD,
    ensures
        r as int == lerp(v0 as int, v1 as int, t0 as int, t1 as int, t as int),
        v0 <= v1 ==> v0 <= r <= v1,
        v1 <= v0 ==> v1 <= r <= v0,
{
    let dv: i128 = v1 as i128 - v0 as i128;
    let dt: i128 = t as i128 - t0 as i128;
    let den: i128 = t1 as i128 - t0 as i128;
    proof {
        let b: int = if dv as int >= 0 {
            dv as int
        } else {
            -(dv as int)
        };
        lemma_mul_abs_bound(dv as int, dt as int, b, den as int);
        lemma_mul_abs_bound(
            dv as int,
            dt as int,
            2 * MAX_COORD as int,
            2 * MAX_COORD as int,
        );
        if dv as int >= 0 {
            lemma_mul_nonnegative(dv as int, dt as int);
        } else {
            lemma_mul_inequality(dv as int, 0, dt as int);
        }
    }
    let num: i128 = dv * dt;
    let q: i128 = div_trunc(num, den);
    proof {
        let b: int = if dv as int >= 0 {
            dv as int
        } else {
            -(dv as int)
        };
        lemma_tdiv_bound(num as int, den as int, b);
    }
    (v0 as i128 + q) as i64
}

/// Full turn and half turn in fixed-point degrees.
pub const FULL_TURN: i64 = 360000;

/// An angle reduced into `[0, FULL_TURN)`.
pub open spec fn norm_angle(x: int) -> int {
    let m = x - tdiv(x, FULL_TURN as int) * (FULL_TURN as int);
    if m < 0 {
        m + FULL_TURN as int
    } else {
        m
    }
}

/// Reduce an angle into `[0, FULL_TURN)`.
pub fn norm_angle_exec(x: i64) -> (r: i64)
    ensures
        r as int == norm_angle(x as int),
        0 <= r < FULL_TURN,
{
    let q: i128 = div_trunc(x as i128, FULL_TURN as i128);
    proof {
        let b: int = if x as int >= 0 {
            x as int
        } else {
            -(x as int)
        };
        lemma_tdiv_bound(x as int, FULL_TURN as int, b);
        if x as int >= 0 {
            lemma_fundamental_div_mod(x as int, FULL_TURN as int);
        } else {
            lemma_fundamental_div_mod(-(x as int), FULL_TURN as int);
        }
    }
    let m: i128 = x as i128 - q * (FULL_TURN as i128);
    if m < 0 {
        (m + FULL_TURN as i128) as i64
    } else {
        m as i64
    }
}

/// Sine on `[0, half turn]` by an exact rational approximation, scaled to
/// thousandths (half-turn symmetry extends it to the full circle).
pub open spec fn half_sin(x: int) -> int
    recommends
        0 <= x <= 180000,
{
    tdiv(4000 * (x * (180000 - x)), 40_500_000_000 - x * (180000 - x))
}

/// Sine of a fixed-point angle in degrees, scaled to thousandths.
pub open spec fn sin_fp(x: int) -> int {
    let m = norm_angle(x);
    if m <= 180000 {
        half_sin(m)
    } else {
        -half_sin(m - 180000)
    }
}

/// Cosine of a fixed-point angle in degrees, scaled to thousandths.
pub open spec fn cos_fp(x: int) -> int {
    sin_fp(x + 90000)
}

fn half_sin_exec(x: i64) -> (r: i64)
    requires
        0 <= x <= 180000,
    ensures
        r as int == half_sin(x as int),
        0 <= r <= 1000,
{
    proof {
        assert(0 <= (x as int) * (180000 - x as int) <= 8_100_000_000) by (nonlinear_arith)
            requires
                0 <= x as int <= 180000,
        ;
    }
    let n: i128 = (x as i128) * (180000 - x as i128);
    let num: i128 = 4000 * n;
    let den: i128 = 40_500_000_000 - n;
    let q: i128 = div_trunc(num, den);
    proof {
        lemma_tdiv_bound(num as int, den as int, 1000);
    }
    q as i64
}

/// Sine of any fixed-point angle, in thousandths.
pub fn sin_exec(x: i64) -> (r: i64)
    ensures
        r as int == sin_fp(x as int),
        -1000 <= r <= 1000,
{
    let m: i64 = norm_angle_exec(x);
    if m <= 180000 {
        half_sin_exec(m)
    } else {
        -half_sin_exec(m - 180000)
    }
}

/// Cosine of any fixed-point angle, in thousandths.
pub fn cos_exec(x: i64) -> (r: i64)
    requires
        -VAL_LIMIT <= x <= VAL_LIMIT,
    ensures
        r as int == cos_fp(x as int),
        -1000 <= r <= 1000,
{
    sin_exec(x + 90000)
}

} // verus!
