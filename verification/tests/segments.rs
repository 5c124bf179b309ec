//! The segment evaluators on concrete control points.

use curves::{Bezier0, Bezier1, Bezier2, Bezier3, Curve, CurveLength, Point2D, Rat};

fn r(n: i64, d: i64) -> Rat {
    Rat::new(n, d)
}

#[test]
fn bezier_0() {
    let curve = Bezier0::new(Rat::of_int(2));
    assert_eq!(curve.value_at(Rat::zero()), Rat::of_int(2));
    assert_eq!(curve.value_at(r(1, 2)), Rat::of_int(2));
    assert_eq!(curve.value_at(Rat::one()), Rat::of_int(2));
}

#[test]
fn bezier_1() {
    let curve = Bezier1::new(Rat::of_int(1), Rat::of_int(3));
    assert_eq!(curve.value_at(Rat::zero()), Rat::of_int(1));
    assert_eq!(curve.value_at(r(1, 2)), Rat::of_int(2));
    assert_eq!(curve.value_at(Rat::one()), Rat::of_int(3));
}

#[test]
fn bezier_2() {
    let curve = Bezier2::new(Rat::of_int(1), Rat::of_int(3), Rat::of_int(2));
    assert_eq!(curve.value_at(Rat::zero()), Rat::of_int(1));
    assert_eq!(curve.value_at(r(1, 2)), r(9, 4));
    assert_eq!(curve.value_at(Rat::one()), Rat::of_int(2));
}

#[test]
fn bezier_3() {
    let curve = Bezier3::new(Rat::of_int(1), Rat::of_int(4), Rat::of_int(2), Rat::of_int(4));
    assert_eq!(curve.value_at(Rat::zero()), Rat::of_int(1));
    assert_eq!(curve.value_at(r(1, 2)), r(23, 8));
    assert_eq!(curve.value_at(Rat::one()), Rat::of_int(4));
}

fn p2(x: Rat, y: Rat) -> Point2D {
    Point2D { x, y }
}

#[test]
fn cubic_bezier_2d() {
    let curve = Bezier3::new(
        p2(Rat::of_int(0), Rat::of_int(0)),
        p2(Rat::of_int(0), Rat::of_int(1)),
        p2(Rat::of_int(2), Rat::of_int(-1)),
        p2(Rat::of_int(2), Rat::of_int(0)),
    );

    assert_eq!(curve.value_at(Rat::zero()), p2(Rat::of_int(0), Rat::of_int(0)));
    assert_eq!(curve.value_at(r(1, 2)), p2(Rat::of_int(1), Rat::of_int(0)));
    assert_eq!(curve.value_at(Rat::one()), p2(Rat::of_int(2), Rat::of_int(0)));

    assert_eq!(curve.tangent_at(Rat::zero()), p2(Rat::of_int(0), Rat::of_int(3)));
    assert_eq!(curve.tangent_at(r(1, 2)), p2(Rat::of_int(3), r(-3, 2)));
    assert_eq!(curve.tangent_at(Rat::one()), p2(Rat::of_int(0), Rat::of_int(3)));
}

#[test]
fn quadratic_tangents() {
    let curve = Bezier2::new(Rat::of_int(1), Rat::of_int(3), Rat::of_int(2));
    assert_eq!(curve.tangent_at(Rat::zero()), Rat::of_int(4));
    assert_eq!(curve.tangent_at(Rat::one()), Rat::of_int(-2));
    assert_eq!(curve.start_point(), Rat::of_int(1));
    assert_eq!(curve.end_point(), Rat::of_int(2));
}

#[test]
fn segment_constructors() {
    let dot = <Bezier0<Rat> as Curve<Rat>>::dot(Rat::of_int(7));
    assert_eq!(dot.value_at(r(1, 3)), Rat::of_int(7));
    let line = <Bezier1<Rat> as Curve<Rat>>::line(Rat::of_int(0), Rat::of_int(8));
    assert_eq!(line.value_at(r(1, 4)), Rat::of_int(2));
    let quad = <Bezier2<Rat> as Curve<Rat>>::quad_bezier(Rat::of_int(1), Rat::of_int(3), Rat::of_int(2));
    assert_eq!(quad.value_at(r(1, 2)), r(9, 4));
    let cubic = <Bezier3<Rat> as Curve<Rat>>::cubic_bezier(
        Rat::of_int(1),
        Rat::of_int(4),
        Rat::of_int(2),
        Rat::of_int(4),
    );
    assert_eq!(cubic.value_at(r(1, 2)), r(23, 8));
}

#[test]
fn line_length_is_the_chord() {
    let curve = Bezier1::new(Rat::of_int(1), Rat::of_int(5));
    assert_eq!(curve.estimate_length(r(1, 10)), Rat::of_int(4));
    let dot = Bezier0::new(Rat::of_int(9));
    assert_eq!(dot.estimate_length(r(1, 10)), Rat::zero());
}

#[test]
fn estimate_respects_the_polygon_bounds() {
    // the quadratic 1, 3, 2 moves up to 7/3 and back down to 2: the exact
    // total variation is 5/3; the chord is 1 and the control polygon 3
    let curve = Bezier2::new(Rat::of_int(1), Rat::of_int(3), Rat::of_int(2));
    let coarse = curve.estimate_length(Rat::of_int(1));
    let fine = curve.estimate_length(r(1, 100));
    assert!(Rat::of_int(1).le(coarse) && coarse.le(Rat::of_int(3)));
    assert!(Rat::of_int(1).le(fine) && fine.le(Rat::of_int(3)));
    let truth = r(5, 3);
    let coarse_gap = coarse.minus(truth).abs_rat();
    let fine_gap = fine.minus(truth).abs_rat();
    assert!(fine_gap.le(coarse_gap));
}

#[test]
fn cubic_estimate_tightens() {
    let curve = Bezier3::new(Rat::of_int(1), Rat::of_int(4), Rat::of_int(2), Rat::of_int(4));
    let chord = Rat::of_int(3);
    let polygon = Rat::of_int(3 + 2 + 2);
    let coarse = curve.estimate_length(Rat::of_int(1));
    let fine = curve.estimate_length(r(1, 1000));
    assert!(chord.le(coarse) && coarse.le(polygon));
    assert!(chord.le(fine) && fine.le(polygon));
}

#[test]
fn degenerate_segment_has_zero_length() {
    let curve = Bezier2::new(Rat::of_int(5), Rat::of_int(5), Rat::of_int(5));
    assert_eq!(curve.estimate_length(r(1, 10)), Rat::zero());
    let cubic = Bezier3::new(Rat::of_int(5), Rat::of_int(5), Rat::of_int(5), Rat::of_int(5));
    assert_eq!(cubic.estimate_length(r(1, 10)), Rat::zero());
}

#[test]
fn rational_arithmetic_is_exact() {
    assert_eq!(r(2, 4), r(1, 2));
    assert_eq!(r(1, 3).plus(r(1, 6)), r(1, 2));
    assert_eq!(r(1, 2).minus(r(1, 3)), r(1, 6));
    assert_eq!(r(2, 3).times(r(3, 4)), r(1, 2));
    assert_eq!(r(1, 2).divide(r(1, 4)), Rat::of_int(2));
    assert!(!r(1, 2).divide(Rat::zero()).finite());
    assert!(!Rat::non_finite().plus(Rat::one()).finite());
    assert!(r(1, 3).lt(r(1, 2)));
    assert!(r(-3, 2).floor_int() == -2);
    assert!(r(-3, 2).ceil_int() == -1);
    assert_eq!(r(7, 2).fract_rat(), r(1, 2));
}
