//! Animation curve behaviour: clamping, interpolation kinds, validation.
//!
//! All quantities are fixed-point thousandths: `5000` is `5.0`.

use animator_core::curve::{AnimationCurve, Interp, Keyframe, Point2D, Value};
use animator_core::errors::AnimatorError;

fn scalar_key(time: i64, value: i64, interp: Interp) -> Keyframe {
    Keyframe::new(time, Value::Scalar(value), interp)
}

fn text_key(time: i64, text: &str, interp: Interp) -> Keyframe {
    Keyframe::new(time, Value::Text(text.to_string()), interp)
}

#[test]
fn boundary_clamp() {
    // Keyframes at t=0 (v=0) and t=1 (v=10).
    let curve = AnimationCurve::new(vec![
        scalar_key(0, 0, Interp::Linear),
        scalar_key(1000, 10_000, Interp::Linear),
    ])
    .unwrap();
    assert_eq!(curve.evaluate(-5000), Value::Scalar(0));
    assert_eq!(curve.evaluate(5000), Value::Scalar(10_000));
}

#[test]
fn linear_interpolation() {
    // Keyframes (0,0) and (10,100): the midpoint evaluates to 50.
    let curve = AnimationCurve::new(vec![
        scalar_key(0, 0, Interp::Linear),
        scalar_key(10_000, 100_000, Interp::Linear),
    ])
    .unwrap();
    assert_eq!(curve.evaluate(5000), Value::Scalar(50_000));
}

#[test]
fn linear_interpolation_quarter() {
    let curve = AnimationCurve::new(vec![
        scalar_key(0, 0, Interp::Linear),
        scalar_key(10_000, 100_000, Interp::Linear),
    ])
    .unwrap();
    assert_eq!(curve.evaluate(2500), Value::Scalar(25_000));
}

#[test]
fn step_interpolation() {
    // Keyframes (0,"A") and (5,"B"): just before 5 still "A", at 5 "B".
    let curve = AnimationCurve::new(vec![
        text_key(0, "A", Interp::Step),
        text_key(5000, "B", Interp::Step),
    ])
    .unwrap();
    assert_eq!(curve.evaluate(4999), Value::Text("A".to_string()));
    assert_eq!(curve.evaluate(5000), Value::Text("B".to_string()));
}

#[test]
fn step_scalar_holds_left_value() {
    let curve = AnimationCurve::new(vec![
        scalar_key(0, 7000, Interp::Step),
        scalar_key(1000, 9000, Interp::Step),
    ])
    .unwrap();
    assert_eq!(curve.evaluate(999), Value::Scalar(7000));
    assert_eq!(curve.evaluate(0), Value::Scalar(7000));
}

#[test]
fn point_values_interpolate_componentwise() {
    let curve = AnimationCurve::new(vec![
        Keyframe::new(0, Value::Point(Point2D::new(0, 2000)), Interp::Linear),
        Keyframe::new(1000, Value::Point(Point2D::new(4000, 6000)), Interp::Linear),
    ])
    .unwrap();
    assert_eq!(curve.evaluate(500), Value::Point(Point2D::new(2000, 4000)));
}

#[test]
fn bezier_zero_tangents_hits_midpoint() {
    // With both tangent handles at zero offset the time and value tracks
    // are symmetric, so the midpoint is exact.
    let bez = Interp::Bezier {
        in_tangent: Point2D::new(0, 0),
        out_tangent: Point2D::new(0, 0),
    };
    let curve = AnimationCurve::new(vec![
        scalar_key(0, 0, bez),
        scalar_key(10_000, 100_000, Interp::Linear),
    ])
    .unwrap();
    assert_eq!(curve.evaluate(5000), Value::Scalar(50_000));
}

#[test]
fn bezier_is_deterministic() {
    let bez = Interp::Bezier {
        in_tangent: Point2D::new(-2000, 0),
        out_tangent: Point2D::new(2000, 3000),
    };
    let curve = AnimationCurve::new(vec![
        scalar_key(0, 0, bez),
        scalar_key(10_000, 100_000, Interp::Linear),
    ])
    .unwrap();
    let a = curve.evaluate(3333);
    let b = curve.evaluate(3333);
    assert_eq!(a, b);
}

#[test]
fn empty_curve_is_rejected() {
    let r = AnimationCurve::new(vec![]);
    assert!(matches!(r, Err(AnimatorError::InvalidInput)));
}

#[test]
fn unsorted_times_are_rejected() {
    let r = AnimationCurve::new(vec![
        scalar_key(5000, 0, Interp::Linear),
        scalar_key(0, 1000, Interp::Linear),
    ]);
    assert!(matches!(r, Err(AnimatorError::InvalidInput)));
}

#[test]
fn duplicate_times_are_rejected() {
    let r = AnimationCurve::new(vec![
        scalar_key(1000, 0, Interp::Linear),
        scalar_key(1000, 5000, Interp::Linear),
    ]);
    assert!(matches!(r, Err(AnimatorError::InvalidInput)));
}

#[test]
fn out_of_range_value_is_rejected() {
    let r = AnimationCurve::new(vec![scalar_key(0, i64::MAX, Interp::Linear)]);
    assert!(matches!(r, Err(AnimatorError::InvalidInput)));
}

#[test]
fn single_keyframe_is_constant() {
    let curve = AnimationCurve::new(vec![scalar_key(2000, 42_000, Interp::Linear)]).unwrap();
    assert_eq!(curve.evaluate(-100_000), Value::Scalar(42_000));
    assert_eq!(curve.evaluate(2000), Value::Scalar(42_000));
    assert_eq!(curve.evaluate(100_000), Value::Scalar(42_000));
}

#[test]
fn validity_check_matches_construction() {
    let good = AnimationCurve::new(vec![
        scalar_key(0, 0, Interp::Step),
        scalar_key(1000, 1000, Interp::Step),
    ])
    .unwrap();
    assert!(good.is_valid());
}
