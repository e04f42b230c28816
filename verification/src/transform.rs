//! Affine transforms of the plane in fixed point.
//!
//! A transform maps `(x, y)` to `((a*x + b*y)/SCALE + tx, (c*x + d*y)/SCALE + ty)`.
//! The linear entries `a, b, c, d` are unitless factors in thousandths; the
//! translation `tx, ty` is in fixed-point coordinates. Every entry is kept in
//! the coordinate range by saturation, so composition is total.

use vstd::prelude::*;
use crate::math::{
    MAX_COORD, SCALE, VAL_LIMIT, cos_exec, cos_fp, div_trunc, lemma_mul_abs_bound,
    lemma_tdiv_bound, sat, sat_exec, sin_exec, sin_fp, tdiv,
};

verus! {

/// A two-dimensional affine transform in fixed point.
#[derive(Clone, Copy, Debug, PartialEq, Eq, Structural)]
pub struct Transform2D {
    pub a: i64,
    pub b: i64,
    pub c: i64,
    pub d: i64,
    pub tx: i64,
    pub ty: i64,
}

/// Every entry of the transform lies in the coordinate range.
pub open spec fn t2d_wf(t: Transform2D) -> bool {
    &&& -MAX_COORD <= t.a <= MAX_COORD
    &&& -MAX_COORD <= t.b <= MAX_COORD
    &&& -MAX_COORD <= t.c <= MAX_COORD
    &&& -MAX_COORD <= t.d <= MAX_COORD
    &&& -MAX_COORD <= t.tx <= MAX_COORD
    &&& -MAX_COORD <= t.ty <= MAX_COORD
}

/// The identity transform.
pub open spec fn identity_spec() -> Transform2D {
    Transform2D { a: SCALE, b: 0, c: 0, d: SCALE, tx: 0, ty: 0 }
}

/// One saturated entry of a transform product.
pub open spec fn dot_spec(x1: int, y1: int, x2: int, y2: int, t: int) -> int {
    sat(tdiv(x1 * y1 + x2 * y2, SCALE as int) + t)
}

/// Composition `parent` after `local`: apply `local`, then `parent`.
pub open spec fn compose_spec(p: Transform2D, l: Transform2D) -> Transform2D {
    Transform2D {
        a: dot_spec(p.a as int, l.a as int, p.b as int, l.c as int, 0) as i64,
        b: dot_spec(p.a as int, l.b as int, p.b as int, l.d as int, 0) as i64,
        c: dot_spec(p.c as int, l.a as int, p.d as int, l.c as int, 0) as i64,
        d: dot_spec(p.c as int, l.b as int, p.d as int, l.d as int, 0) as i64,
        tx: dot_spec(p.a as int, l.tx as int, p.b as int, l.ty as int, p.tx as int) as i64,
        ty: dot_spec(p.c as int, l.tx as int, p.d as int, l.ty as int, p.ty as int) as i64,
    }
}

/// Local transform of a node: scale, then rotate, then translate.
pub open spec fn trs_spec(px: int, py: int, rot: int, sx: int, sy: int) -> Transform2D {
    let co = cos_fp(rot);
    let si = sin_fp(rot);
    Transform2D {
        a: sat(tdiv(co * sx, SCALE as int)) as i64,
        b: sat(tdiv(-(si * sy), SCALE as int)) as i64,
        c: sat(tdiv(si * sx, SCALE as int)) as i64,
        d: sat(tdiv(co * sy, SCALE as int)) as i64,
        tx: sat(px) as i64,
        ty: sat(py) as i64,
    }
}

impl Transform2D {
    /// The identity transform.
    pub fn identity() -> (r: Transform2D)
        ensures
            r == identity_spec(),
            t2d_wf(r),
    {
        Transform2D { a: SCALE, b: 0, c: 0, d: SCALE, tx: 0, ty: 0 }
    }

    /// Compose `self` (the parent placement) with a local transform.
    pub fn compose(&self, l: &Transform2D) -> (r: Transform2D)
        requires
            t2d_wf(*self),
            t2d_wf(*l),
        ensures
            r == compose_spec(*self, *l),
            t2d_wf(r),
    {
        Transform2D {
            a: dot_exec(self.a, l.a, self.b, l.c, 0),
            b: dot_exec(self.a, l.b, self.b, l.d, 0),
            c: dot_exec(self.c, l.a, self.d, l.c, 0),
            d: dot_exec(self.c, l.b, self.d, l.d, 0),
            tx: dot_exec(self.a, l.tx, self.b, l.ty, self.tx),
            ty: dot_exec(self.c, l.tx, self.d, l.ty, self.ty),
        }
    }
}

/// Local transform from translation, rotation (fixed-point degrees) and scale.
pub fn trs_exec(px: i64, py: i64, rot: i64, sx: i64, sy: i64) -> (r: Transform2D)
    requires
        -VAL_LIMIT <= px <= VAL_LIMIT,
        -VAL_LIMIT <= py <= VAL_LIMIT,
        -VAL_LIMIT <= rot <= VAL_LIMIT,
        -VAL_LIMIT <= sx <= VAL_LIMIT,
        -VAL_LIMIT <= sy <= VAL_LIMIT,
    ensures
        r == trs_spec(px as int, py as int, rot as int, sx as int, sy as int),
        t2d_wf(r),
{
    let co: i64 = cos_exec(rot);
    let si: i64 = sin_exec(rot);
    Transform2D {
        a: scaled_entry(co, sx),
        b: scaled_entry_neg(si, sy),
        c: scaled_entry(si, sx),
        d: scaled_entry(co, sy),
        tx: sat_exec(px as i128),
        ty: sat_exec(py as i128),
    }
}

/// One rotation-scale entry `sat((f * s) / SCALE)`.
fn scaled_entry(f: i64, s: i64) -> (r: i64)
    requires
        -1000 <= f <= 1000,
        -VAL_LIMIT <= s <= VAL_LIMIT,
    ensures
        r as int == sat(tdiv(f as int * s as int, SCALE as int)),
        -MAX_COORD <= r <= MAX_COORD,
{
    proof {
        lemma_mul_abs_bound(f as int, s as int, 1000, VAL_LIMIT as int);
    }
    let p: i128 = (f as i128) * (s as i128);
    let q: i128 = div_trunc(p, SCALE as i128);
    proof {
        lemma_tdiv_bound(p as int, SCALE as int, 1000 * VAL_LIMIT as int);
    }
    sat_exec(q)
}

/// One rotation-scale entry with the product negated.
fn scaled_entry_neg(f: i64, s: i64) -> (r: i64)
    requires
        -1000 <= f <= 1000,
        -VAL_LIMIT <= s <= VAL_LIMIT,
    ensures
        r as int == sat(tdiv(-(f as int * s as int), SCALE as int)),
        -MAX_COORD <= r <= MAX_COORD,
{
    proof {
        lemma_mul_abs_bound(f as int, s as int, 1000, VAL_LIMIT as int);
    }
    let p: i128 = -((f as i128) * (s as i128));
    let q: i128 = div_trunc(p, SCALE as i128);
    proof {
        lemma_tdiv_bound(p as int, SCALE as int, 1000 * VAL_LIMIT as int);
    }
    sat_exec(q)
}

/// One saturated entry of a transform product.
fn dot_exec(x1: i64, y1: i64, x2: i64, y2: i64, t: i64) -> (r: i64)
    requires
        -MAX_COORD <= x1 <= MAX_COORD,
        -MAX_COORD <= y1 <= MAX_COORD,
        -MAX_COORD <= x2 <= MAX_COORD,
        -MAX_COORD <= y2 <= MAX_COORD,
        -MAX_COORD <= t <= MAX_COORD,
    ensures
        r as int == dot_spec(x1 as int, y1 as int, x2 as int, y2 as int, t as int),
        -MAX_COORD <= r <= MAX_COORD,
{
    proof {
        lemma_mul_abs_bound(x1 as int, y1 as int, MAX_COORD as int, MAX_COORD as int);
        lemma_mul_abs_bound(x2 as int, y2 as int, MAX_COORD as int, MAX_COORD as int);
    }
    let s: i128 = (x1 as i128) * (y1 as i128) + (x2 as i128) * (y2 as i128);
    let q: i128 = div_trunc(s, SCALE as i128);
    proof {
        lemma_tdiv_bound(s as int, SCALE as int, 2 * MAX_COORD as int * MAX_COORD as int);
    }
    sat_exec(q + t as i128)
}

} // verus!
