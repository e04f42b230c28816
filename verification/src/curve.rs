//! Animation curves: pure time-to-value functions defined by keyframes.
//!
//! A curve is an ordered sequence of keyframes with strictly increasing
//! times. Sampling before the first or after the last keyframe clamps to the
//! boundary value; inside a segment the left keyframe's interpolation kind
//! applies. Curves are immutable once constructed, so evaluation is a pure,
//! deterministic function of the curve and the query time.

use vstd::prelude::*;
use crate::errors::AnimatorError;
use crate::math::{MAX_COORD, VAL_LIMIT, BEZ_ONE, BEZ_CUBE, BEZ_STEPS, lerp, lerp_exec, tdiv,
    div_trunc, lemma_mul_abs_bound, lemma_tdiv_bound};

verus! {

/// A pair of fixed-point coordinates; a plain value with no identity.
#[derive(Clone, Copy, Debug, PartialEq, Eq, Structural)]
pub struct Point2D {
    pub x: i64,
    pub y: i64,
}

impl Point2D {
    /// Build a point from its coordinates.
    pub fn new(x: i64, y: i64) -> (r: Point2D)
        ensures
            r == (Point2D { x, y }),
    {
        Point2D { x, y }
    }
}

/// A concrete property value: a scalar, a point, or a text label.
#[derive(Clone, Debug, PartialEq, Eq)]
pub enum Value {
    Scalar(i64),
    Point(Point2D),
    Text(String),
}

impl Value {
    /// Deep copy (the derived clone is opaque to verification).
    pub fn duplicate(&self) -> (r: Value)
        ensures
            r == *self,
    {
        match self {
            Value::Scalar(s) => Value::Scalar(*s),
            Value::Point(p) => Value::Point(*p),
            Value::Text(s) => Value::Text(s.clone()),
        }
    }
}

/// Numeric components of the value lie within `b`.
pub open spec fn value_bounded(v: Value, b: int) -> bool {
    match v {
        Value::Scalar(s) => -b <= s <= b,
        Value::Point(p) => -b <= p.x <= b && -b <= p.y <= b,
        Value::Text(_) => true,
    }
}

/// How the segment starting at a keyframe reaches the next keyframe.
#[derive(Clone, Copy, Debug, PartialEq, Eq, Structural)]
pub enum Interp {
    /// Hold the left value until the next keyframe.
    Step,
    /// Straight line between the two values.
    Linear,
    /// Cubic Bezier in the time-value plane, shaped by two tangent handles
    /// (offsets from the segment's endpoints).
    Bezier { in_tangent: Point2D, out_tangent: Point2D },
}

/// One keyframe: a time, the value there, and the kind of the segment that
/// starts at it.
#[derive(Clone, Debug, PartialEq, Eq)]
pub struct Keyframe {
    pub time: i64,
    pub value: Value,
    pub interp: Interp,
}

impl Keyframe {
    /// Build a keyframe.
    pub fn new(time: i64, value: Value, interp: Interp) -> (r: Keyframe)
        ensures
            r == (Keyframe { time, value, interp }),
    {
        Keyframe { time, value, interp }
    }

    /// Deep copy (the derived clone is opaque to verification).
    pub fn duplicate(&self) -> (r: Keyframe)
        ensures
            r == *self,
    {
        Keyframe { time: self.time, value: self.value.duplicate(), interp: self.interp }
    }
}

/// A keyframe's numbers all lie in the coordinate range.
pub open spec fn keyframe_wf(k: Keyframe) -> bool {
    &&& -MAX_COORD <= k.time <= MAX_COORD
    &&& value_bounded(k.value, MAX_COORD as int)
    &&& match k.interp {
        Interp::Bezier { in_tangent, out_tangent } => {
            &&& -MAX_COORD <= in_tangent.x <= MAX_COORD
            &&& -MAX_COORD <= in_tangent.y <= MAX_COORD
            &&& -MAX_COORD <= out_tangent.x <= MAX_COORD
            &&& -MAX_COORD <= out_tangent.y <= MAX_COORD
        },
        _ => true,
    }
}

/// Well-formed keyframe sequence: nonempty, every keyframe in range, times
/// strictly increasing.
pub open spec fn keys_wf(ks: Seq<Keyframe>) -> bool {
    &&& ks.len() >= 1
    &&& forall|i: int| 0 <= i < ks.len() ==> keyframe_wf(#[trigger] ks[i])
    &&& forall|i: int, j: int| 0 <= i < j < ks.len() ==> ks[i].time < ks[j].time
}

/// An animation curve: a validated sequence of keyframes.
#[derive(Clone, Debug, PartialEq, Eq)]
pub struct AnimationCurve {
    pub keys: Vec<Keyframe>,
}

/// The curve invariant, established by `AnimationCurve::new`.
pub open spec fn curve_wf(c: AnimationCurve) -> bool {
    keys_wf(c.keys@)
}

/// Keyframes `i` and `i + 1` bracket the query time `t`.
pub open spec fn bracket(ks: Seq<Keyframe>, t: int, i: int) -> bool {
    &&& 0 <= i < ks.len() - 1
    &&& ks[i].time <= t
    &&& t < ks[i + 1].time
}

/// The index of the segment containing `t` (unique when the times increase).
pub open spec fn seg_of(ks: Seq<Keyframe>, t: int) -> int {
    choose|i: int| bracket(ks, t, i)
}

/// On a sorted sequence the bracketing segment is unique.
pub proof fn lemma_bracket_unique(ks: Seq<Keyframe>, t: int, i: int, j: int)
    requires
        keys_wf(ks),
        bracket(ks, t, i),
        bracket(ks, t, j),
    ensures
        i == j,
{
    if i < j {
        assert(ks[i + 1].time <= ks[j].time);
    }
    if j < i {
        assert(ks[j + 1].time <= ks[i].time);
    }
}

/// Component-wise linear interpolation; values of unlike kinds hold the left
/// value, as a step does.
pub open spec fn lerp_value(v0: Value, v1: Value, t0: int, t1: int, t: int) -> Value {
    match (v0, v1) {
        (Value::Scalar(a), Value::Scalar(b)) => Value::Scalar(lerp(a as int, b as int, t0, t1, t) as i64),
        (Value::Point(p), Value::Point(q)) => Value::Point(
            Point2D {
                x: lerp(p.x as int, q.x as int, t0, t1, t) as i64,
                y: lerp(p.y as int, q.y as int, t0, t1, t) as i64,
            },
        ),
        _ => v0,
    }
}

/// A cubic Bezier coordinate at parameter `u` of `BEZ_ONE`, by the Bernstein
/// form, truncating toward zero.
pub open spec fn bez_point(p0: int, p1: int, p2: int, p3: int, u: int) -> int
    recommends
        0 <= u <= BEZ_ONE,
{
    let s = BEZ_ONE as int - u;
    tdiv(
        s * s * s * p0 + 3 * (s * s * u) * p1 + 3 * (s * (u * u)) * p2 + (u * u * u) * p3,
        BEZ_CUBE as int,
    )
}

/// Bisection for the Bezier parameter whose time coordinate reaches `t`:
/// `n` halvings of `[lo, hi]`, keeping the half whose left end is at or
/// before `t`.
pub open spec fn bez_solve(x0: int, x1: int, x2: int, x3: int, t: int, lo: int, hi: int, n: nat) -> int
    decreases n,
{
    if n == 0 {
        lo
    } else {
        let mid = (lo + hi) / 2;
        if bez_point(x0, x1, x2, x3, mid) <= t {
            bez_solve(x0, x1, x2, x3, t, mid, hi, (n - 1) as nat)
        } else {
            bez_solve(x0, x1, x2, x3, t, lo, mid, (n - 1) as nat)
        }
    }
}

/// One scalar track of a Bezier segment: solve the time coordinate for the
/// parameter, then evaluate the value coordinate there.
pub open spec fn bez_scalar(v0: int, v1: int, t0: int, t1: int, it: Point2D, ot: Point2D, t: int) -> int {
    let u = bez_solve(
        t0,
        t0 + ot.x as int,
        t1 + it.x as int,
        t1,
        t,
        0,
        BEZ_ONE as int,
        BEZ_STEPS as nat,
    );
    bez_point(v0, v0 + ot.y as int, v1 + it.y as int, v1, u)
}

/// Component-wise Bezier interpolation; values of unlike kinds hold the left
/// value, as a step does.
pub open spec fn bez_value(v0: Value, v1: Value, t0: int, t1: int, it: Point2D, ot: Point2D, t: int) -> Value {
    match (v0, v1) {
        (Value::Scalar(a), Value::Scalar(b)) => Value::Scalar(
            bez_scalar(a as int, b as int, t0, t1, it, ot, t) as i64,
        ),
        (Value::Point(p), Value::Point(q)) => Value::Point(
            Point2D {
                x: bez_scalar(p.x as int, q.x as int, t0, t1, it, ot, t) as i64,
                y: bez_scalar(p.y as int, q.y as int, t0, t1, it, ot, t) as i64,
            },
        ),
        _ => v0,
    }
}

/// The value of the segment starting at keyframe `i`, sampled at `t`.
pub open spec fn seg_eval(ks: Seq<Keyframe>, i: int, t: int) -> Value
    recommends
        bracket(ks, t, i),
{
    let k0 = ks[i];
    let k1 = ks[i + 1];
    match k0.interp {
        Interp::Step => k0.value,
        Interp::Linear => lerp_value(k0.value, k1.value, k0.time as int, k1.time as int, t),
        Interp::Bezier { in_tangent, out_tangent } => bez_value(
            k0.value,
            k1.value,
            k0.time as int,
            k1.time as int,
            in_tangent,
            out_tangent,
            t,
        ),
    }
}

/// The curve's value at time `t`: clamp outside the keyframe range, otherwise
/// interpolate within the bracketing segment.
pub open spec fn curve_eval(c: AnimationCurve, t: int) -> Value
    recommends
        curve_wf(c),
{
    let ks = c.keys@;
    if t < ks[0].time {
        ks[0].value
    } else if t >= ks[ks.len() - 1].time {
        ks[ks.len() - 1].value
    } else {
        seg_eval(ks, seg_of(ks, t), t)
    }
}

/// Exact range check for one keyframe.
fn keyframe_ok(k: &Keyframe) -> (r: bool)
    ensures
        r == keyframe_wf(*k),
{
    let time_ok = -MAX_COORD <= k.time && k.time <= MAX_COORD;
    let value_ok = match &k.value {
        Value::Scalar(s) => -MAX_COORD <= *s && *s <= MAX_COORD,
        Value::Point(p) => -MAX_COORD <= p.x && p.x <= MAX_COORD && -MAX_COORD <= p.y && p.y
            <= MAX_COORD,
        Value::Text(_) => true,
    };
    let interp_ok = match &k.interp {
        Interp::Bezier { in_tangent, out_tangent } => -MAX_COORD <= in_tangent.x && in_tangent.x
            <= MAX_COORD && -MAX_COORD <= in_tangent.y && in_tangent.y <= MAX_COORD && -MAX_COORD
            <= out_tangent.x && out_tangent.x <= MAX_COORD && -MAX_COORD <= out_tangent.y
            && out_tangent.y <= MAX_COORD,
        _ => true,
    };
    time_ok && value_ok && interp_ok
}

/// Exact check of the curve invariant on a keyframe sequence.
pub fn keys_ok(keys: &Vec<Keyframe>) -> (r: bool)
    ensures
        r == keys_wf(keys@),
{
    let n = keys.len();
    if n == 0 {
        return false;
    }
    let mut i: usize = 0;
    while i < n
        invariant
            n == keys@.len(),
            1 <= n,
            i <= n,
            forall|j: int| 0 <= j < i ==> keyframe_wf(#[trigger] keys@[j]),
            forall|j: int| 0 <= j < i && j + 1 < n as int ==> keys@[j].time < #[trigger] keys@[j
                + 1].time,
        decreases n - i,
    {
        if !keyframe_ok(&keys[i]) {
            return false;
        }
        if i + 1 < n {
            if keys[i].time >= keys[i + 1].time {
                return false;
            }
        }
        i += 1;
    }
    proof {
        lemma_adjacent_sorted(keys@);
    }
    true
}

impl AnimationCurve {
    /// Validate and build a curve. Succeeds exactly when the keyframes are
    /// nonempty, in range, and strictly increasing in time; any other input
    /// is rejected as `InvalidInput` and no curve is built.
    pub fn new(keys: Vec<Keyframe>) -> (r: Result<AnimationCurve, AnimatorError>)
        ensures
            r is Ok <==> keys_wf(keys@),
            r matches Ok(c) ==> c.keys@ == keys@,
            r is Err ==> r == Err::<AnimationCurve, AnimatorError>(AnimatorError::InvalidInput),
    {
        if keys_ok(&keys) {
            Ok(AnimationCurve { keys })
        } else {
            Err(AnimatorError::InvalidInput)
        }
    }

    /// Exact check of the curve invariant.
    pub fn is_valid(&self) -> (r: bool)
        ensures
            r == curve_wf(*self),
    {
        keys_ok(&self.keys)
    }

    /// Deep copy (the derived clone is opaque to verification).
    pub fn duplicate(&self) -> (r: AnimationCurve)
        ensures
            r.keys@ == self.keys@,
    {
        let mut ks: Vec<Keyframe> = Vec::new();
        let mut i: usize = 0;
        while i < self.keys.len()
            invariant
                i <= self.keys@.len(),
                ks@ == self.keys@.subrange(0, i as int),
            decreases self.keys@.len() - i,
        {
            ks.push(self.keys[i].duplicate());
            proof {
                assert(ks@ =~= self.keys@.subrange(0, i as int + 1));
            }
            i += 1;
        }
        proof {
            assert(ks@ =~= self.keys@);
        }
        AnimationCurve { keys: ks }
    }

    /// Sample the curve at time `t`: clamps outside the keyframe range,
    /// interpolates inside, exactly as `curve_eval` states.
    pub fn evaluate(&self, t: i64) -> (r: Value)
        requires
            curve_wf(*self),
            -MAX_COORD <= t <= MAX_COORD,
        ensures
            r == curve_eval(*self, t as int),
            value_bounded(r, VAL_LIMIT as int),
    {
        let n = self.keys.len();
        if t < self.keys[0].time {
            return self.keys[0].value.duplicate();
        }
        if t >= self.keys[n - 1].time {
            return self.keys[n - 1].value.duplicate();
        }
        let i = find_segment(&self.keys, t);
        proof {
            lemma_bracket_unique(self.keys@, t as int, i as int, seg_of(self.keys@, t as int));
        }
        let k0 = &self.keys[i];
        let k1 = &self.keys[i + 1];
        match &k0.interp {
            Interp::Step => k0.value.duplicate(),
            Interp::Linear => match (&k0.value, &k1.value) {
                (Value::Scalar(a), Value::Scalar(b)) => Value::Scalar(
                    lerp_exec(*a, *b, k0.time, k1.time, t),
                ),
                (Value::Point(p), Value::Point(q)) => Value::Point(
                    Point2D {
                        x: lerp_exec(p.x, q.x, k0.time, k1.time, t),
                        y: lerp_exec(p.y, q.y, k0.time, k1.time, t),
                    },
                ),
                _ => k0.value.duplicate(),
            },
            Interp::Bezier { in_tangent, out_tangent } => match (&k0.value, &k1.value) {
                (Value::Scalar(a), Value::Scalar(b)) => Value::Scalar(
                    bez_scalar_exec(*a, *b, k0.time, k1.time, *in_tangent, *out_tangent, t),
                ),
                (Value::Point(p), Value::Point(q)) => Value::Point(
                    Point2D {
                        x: bez_scalar_exec(
                            p.x,
                            q.x,
                            k0.time,
                            k1.time,
                            *in_tangent,
                            *out_tangent,
                            t,
                        ),
                        y: bez_scalar_exec(
                            p.y,
                            q.y,
                            k0.time,
                            k1.time,
                            *in_tangent,
                            *out_tangent,
                            t,
                        ),
                    },
                ),
                _ => k0.value.duplicate(),
            },
        }
    }
}

/// Boundary clamp, low side: sampling before the first keyframe yields the
/// first keyframe's value — no extrapolation.
pub proof fn lemma_clamp_before_start(c: AnimationCurve, t: int)
    requires
        curve_wf(c),
        t < c.keys@[0].time,
    ensures
        curve_eval(c, t) == c.keys@[0].value,
{
}

/// Boundary clamp, high side: sampling at or after the last keyframe yields
/// the last keyframe's value — no extrapolation.
pub proof fn lemma_clamp_after_end(c: AnimationCurve, t: int)
    requires
        curve_wf(c),
        t >= c.keys@[c.keys@.len() - 1].time,
    ensures
        curve_eval(c, t) == c.keys@[c.keys@.len() - 1].value,
{
}

/// Strictly increasing adjacent times give a strictly sorted sequence.
proof fn lemma_adjacent_sorted(ks: Seq<Keyframe>)
    requires
        forall|j: int| 0 <= j < ks.len() - 1 ==> ks[j].time < #[trigger] ks[j + 1].time,
    ensures
        forall|i: int, j: int| 0 <= i < j < ks.len() ==> ks[i].time < ks[j].time,
{
    assert forall|i: int, j: int| 0 <= i < j < ks.len() implies ks[i].time < ks[j].time by {
        lemma_sorted_pair(ks, i, j);
    }
}

proof fn lemma_sorted_pair(ks: Seq<Keyframe>, i: int, j: int)
    requires
        forall|k: int| 0 <= k < ks.len() - 1 ==> ks[k].time < #[trigger] ks[k + 1].time,
        0 <= i < j < ks.len(),
    ensures
        ks[i].time < ks[j].time,
    decreases j - i,
{
    assert(ks[i].time < ks[i + 1].time);
    if i + 1 < j {
        lemma_sorted_pair(ks, i + 1, j);
    }
}

/// Binary search for the segment bracketing `t`.
fn find_segment(keys: &Vec<Keyframe>, t: i64) -> (i: usize)
    requires
        keys_wf(keys@),
        keys@[0].time <= t,
        t < keys@[keys@.len() - 1].time,
    ensures
        bracket(keys@, t as int, i as int),
{
    let mut lo: usize = 0;
    let mut hi: usize = keys.len() - 1;
    while lo + 1 < hi
        invariant
            keys_wf(keys@),
            0 <= lo < hi < keys@.len(),
            keys@[lo as int].time <= t,
            t < keys@[hi as int].time,
        decreases hi - lo,
    {
        let mid = lo + (hi - lo) / 2;
        if keys[mid].time <= t {
            lo = mid;
        } else {
            hi = mid;
        }
    }
    lo
}

/// The time coordinate of one Bezier control polygon evaluated at `u`.
fn bez_point_exec(p0: i64, p1: i64, p2: i64, p3: i64, u: i64) -> (r: i64)
    requires
        0 <= u <= BEZ_ONE,
        -2 * MAX_COORD <= p0 <= 2 * MAX_COORD,
        -2 * MAX_COORD <= p1 <= 2 * MAX_COORD,
        -2 * MAX_COORD <= p2 <= 2 * MAX_COORD,
        -2 * MAX_COORD <= p3 <= 2 * MAX_COORD,
    ensures
        r as int == bez_point(p0 as int, p1 as int, p2 as int, p3 as int, u as int),
        -VAL_LIMIT <= r <= VAL_LIMIT,
{
    let s: i128 = (BEZ_ONE - u) as i128;
    let uu: i128 = u as i128;
    proof {
        assert(0 <= (s as int) * (s as int) <= 16777216
            && 0 <= (uu as int) * (uu as int) <= 16777216
            && 0 <= (s as int) * (s as int) * (s as int) <= BEZ_CUBE as int
            && 0 <= (s as int) * (s as int) * (uu as int) <= BEZ_CUBE as int
            && 0 <= (s as int) * ((uu as int) * (uu as int)) <= BEZ_CUBE as int
            && 0 <= (uu as int) * (uu as int) * (uu as int) <= BEZ_CUBE as int)
            by (nonlinear_arith)
            requires
                0 <= s as int <= BEZ_ONE as int,
                0 <= uu as int <= BEZ_ONE as int,
                BEZ_ONE == 4096,
                BEZ_CUBE == 68719476736,
        ;
        lemma_mul_abs_bound(
            (s as int) * (s as int) * (s as int),
            p0 as int,
            BEZ_CUBE as int,
            2 * MAX_COORD as int,
        );
        lemma_mul_abs_bound(
            3 * ((s as int) * (s as int) * (uu as int)),
            p1 as int,
            3 * BEZ_CUBE as int,
            2 * MAX_COORD as int,
        );
        lemma_mul_abs_bound(
            3 * ((s as int) * ((uu as int) * (uu as int))),
            p2 as int,
            3 * BEZ_CUBE as int,
            2 * MAX_COORD as int,
        );
        lemma_mul_abs_bound(
            (uu as int) * (uu as int) * (uu as int),
            p3 as int,
            BEZ_CUBE as int,
            2 * MAX_COORD as int,
        );
    }
    let num: i128 = s * s * s * (p0 as i128) + 3 * (s * s * uu) * (p1 as i128) + 3 * (s * (uu
        * uu)) * (p2 as i128) + (uu * uu * uu) * (p3 as i128);
    let q: i128 = div_trunc(num, BEZ_CUBE as i128);
    proof {
        lemma_tdiv_bound(num as int, BEZ_CUBE as int, 16 * MAX_COORD as int);
    }
    q as i64
}

/// Bisection for the Bezier parameter, mirroring `bez_solve` step by step.
fn bez_solve_exec(x0: i64, x1: i64, x2: i64, x3: i64, t: i64, lo: i64, hi: i64, n: u64) -> (r: i64)
    requires
        0 <= lo <= hi <= BEZ_ONE,
        -2 * MAX_COORD <= x0 <= 2 * MAX_COORD,
        -2 * MAX_COORD <= x1 <= 2 * MAX_COORD,
        -2 * MAX_COORD <= x2 <= 2 * MAX_COORD,
        -2 * MAX_COORD <= x3 <= 2 * MAX_COORD,
    ensures
        r as int == bez_solve(
            x0 as int,
            x1 as int,
            x2 as int,
            x3 as int,
            t as int,
            lo as int,
            hi as int,
            n as nat,
        ),
        0 <= r <= BEZ_ONE,
    decreases n,
{
    if n == 0 {
        lo
    } else {
        let mid: i64 = ((lo as u64 + hi as u64) / 2) as i64;
        if bez_point_exec(x0, x1, x2, x3, mid) <= t {
            bez_solve_exec(x0, x1, x2, x3, t, mid, hi, n - 1)
        } else {
            bez_solve_exec(x0, x1, x2, x3, t, lo, mid, n - 1)
        }
    }
}

/// One scalar track of a Bezier segment, mirroring `bez_scalar`.
fn bez_scalar_exec(v0: i64, v1: i64, t0: i64, t1: i64, it: Point2D, ot: Point2D, t: i64) -> (r: i64)
    requires
        -MAX_COORD <= v0 <= MAX_COORD,
        -MAX_COORD <= v1 <= MAX_COORD,
        -MAX_COORD <= t0 <= MAX_COORD,
        -MAX_COORD <= t1 <= MAX_COORD,
        -MAX_COORD <= it.x <= MAX_COORD,
        -MAX_COORD <= it.y <= MAX_COORD,
        -MAX_COORD <= ot.x <= MAX_COORD,
        -MAX_COORD <= ot.y <= MAX_COORD,
    ensures
        r as int == bez_scalar(v0 as int, v1 as int, t0 as int, t1 as int, it, ot, t as int),
        -VAL_LIMIT <= r <= VAL_LIMIT,
{
    let u = bez_solve_exec(t0, t0 + ot.x, t1 + it.x, t1, t, 0, BEZ_ONE, BEZ_STEPS);
    bez_point_exec(v0, v0 + ot.y, v1 + it.y, v1, u)
}

} // verus!
