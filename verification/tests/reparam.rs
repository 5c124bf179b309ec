//! The lookup table, the linear-speed wrapper, composed curves, and the
//! stepping sampler.

use curves::{
    Bezier, Bezier1, ComposedCurve, Curve, CurveIterator, CurveLength, LinearSpeed, Rat,
    SmoothArray,
};

fn r(n: i64, d: i64) -> Rat {
    Rat::new(n, d)
}

#[test]
fn test_smooth_array() {
    let mut array = SmoothArray::with_steps_count(10);
    array.line((Rat::zero(), Rat::zero()), (Rat::one(), Rat::one()));

    assert_eq!(array.value_at(Rat::zero()), Rat::zero());
    assert_eq!(array.value_at(r(1, 2)), r(1, 2));
    assert_eq!(array.value_at(Rat::one()), Rat::one());

    assert_eq!(array.tangent_at(Rat::zero()), Rat::one());
    assert_eq!(array.tangent_at(r(1, 2)), Rat::one());
    assert_eq!(array.tangent_at(Rat::one()), Rat::one());
}

#[test]
fn smooth_array_interpolates_between_samples() {
    let mut array = SmoothArray::with_steps_count(10);
    array.line((Rat::zero(), Rat::zero()), (Rat::one(), Rat::one()));
    assert_eq!(array.value_at(r(1, 4)), r(1, 4));
    assert_eq!(array.value_at(r(2, 3)), r(2, 3));
    // positions outside the range are clamped
    assert_eq!(array.value_at(Rat::of_int(2)), Rat::one());
    assert_eq!(array.value_at(Rat::of_int(-1)), Rat::zero());
    // a non-finite position reads as the non-finite value
    assert!(!array.value_at(Rat::non_finite()).finite());
}

#[test]
fn smooth_array_last_write_wins() {
    let mut array = SmoothArray::with_steps_count(10);
    array.line((Rat::zero(), Rat::zero()), (Rat::one(), Rat::one()));
    array.line((r(1, 2), Rat::one()), (Rat::one(), Rat::zero()));
    // the second segment overwrote the tail of the first
    assert_eq!(array.value_at(Rat::one()), Rat::zero());
    assert_eq!(array.value_at(Rat::zero()), Rat::zero());
}

#[test]
fn linear_speed_constant_tangent() {
    // a straight segment from 0 to 10, retimed: the tangent magnitude is the
    // total length at every parameter
    let curve = Bezier1::new(Rat::of_int(0), Rat::of_int(10));
    let ls = LinearSpeed::new(curve, 16, 4);
    assert_eq!(ls.estimate_length(r(1, 1000)), Rat::of_int(10));
    let probes = [Rat::zero(), r(1, 4), r(1, 3), r(1, 2), r(3, 4), Rat::one()];
    for t in probes {
        assert_eq!(ls.tangent_at(t), Rat::of_int(10));
    }
}

#[test]
fn linear_speed_positions_are_not_retimed() {
    let curve = Bezier1::new(Rat::of_int(0), Rat::of_int(10));
    let inner = Bezier1::new(Rat::of_int(0), Rat::of_int(10));
    let ls = LinearSpeed::new(curve, 8, 4);
    for t in [Rat::zero(), r(1, 4), r(2, 3), Rat::one()] {
        assert_eq!(ls.value_at(t), inner.value_at(t));
    }
    assert_eq!(ls.start_point(), Rat::of_int(0));
    assert_eq!(ls.end_point(), Rat::of_int(10));
}

#[test]
fn linear_speed_length_is_cached() {
    let curve = Bezier1::new(Rat::of_int(0), Rat::of_int(10));
    let ls = LinearSpeed::new(curve, 8, 4);
    // the precision argument is ignored: the cached length comes back
    assert_eq!(ls.estimate_length(Rat::of_int(1)), Rat::of_int(10));
    assert_eq!(ls.estimate_length(r(1, 1000000)), Rat::of_int(10));
    assert_eq!(ls.estimate_length(Rat::non_finite()), Rat::of_int(10));
}

#[test]
fn linear_speed_is_idempotent() {
    let a = LinearSpeed::new(Bezier1::new(Rat::of_int(1), Rat::of_int(7)), 12, 5);
    let b = LinearSpeed::new(Bezier1::new(Rat::of_int(1), Rat::of_int(7)), 12, 5);
    assert_eq!(a.estimate_length(Rat::one()), b.estimate_length(Rat::one()));
    for t in [Rat::zero(), r(1, 5), r(1, 2), r(9, 10), Rat::one()] {
        assert_eq!(a.tangent_at(t), b.tangent_at(t));
        assert_eq!(a.value_at(t), b.value_at(t));
    }
}

#[test]
fn linear_speed_of_a_degenerate_curve() {
    // a single-point curve accumulates no distance: the table keeps its
    // zeros and the cached length is zero
    let ls = LinearSpeed::new(curves::Bezier0::new(Rat::of_int(3)), 8, 4);
    assert_eq!(ls.estimate_length(Rat::one()), Rat::zero());
    assert_eq!(ls.value_at(r(1, 2)), Rat::of_int(3));
}

#[test]
fn composed_curve_walks_its_segments() {
    let mut path = ComposedCurve::new(Rat::of_int(0));
    path.line_to(Rat::of_int(2));
    assert_eq!(path.curves().len(), 1);
    assert_eq!(path.value_at(Rat::zero()), Rat::of_int(0));
    assert_eq!(path.value_at(r(1, 2)), Rat::of_int(1));
    assert_eq!(path.value_at(Rat::one()), Rat::of_int(2));

    path.close();
    assert_eq!(path.curves().len(), 2);
    assert_eq!(path.value_at(r(3, 4)), Rat::of_int(1));
    assert_eq!(path.value_at(Rat::one()), Rat::of_int(0));
    assert_eq!(path.estimate_length(r(1, 10)), Rat::of_int(4));
}

#[test]
fn composed_curve_skips_degenerate_segments() {
    let mut path = ComposedCurve::with_capacity(Rat::of_int(1), 4);
    path.line_to(Rat::of_int(1));
    assert_eq!(path.curves().len(), 0);
    path.quadratic_to(Rat::of_int(1), Rat::of_int(1));
    assert_eq!(path.curves().len(), 0);
    path.cubic_to(Rat::of_int(1), Rat::of_int(1), Rat::of_int(1));
    assert_eq!(path.curves().len(), 0);
    path.quadratic_to(Rat::of_int(3), Rat::of_int(2));
    assert_eq!(path.curves().len(), 1);
    assert_eq!(path.value_at(r(1, 2)), r(9, 4));
    match &path.curves()[0] {
        Bezier::C2(_) => {}
        _ => panic!("expected a quadratic segment"),
    }
}

#[test]
fn composed_curve_tangent_scales_by_segment_count() {
    let mut path = ComposedCurve::new(Rat::of_int(0));
    path.line_to(Rat::of_int(2));
    path.line_to(Rat::of_int(6));
    // two segments: each tangent comes back scaled by the segment count
    assert_eq!(path.tangent_at(r(1, 4)), Rat::of_int(4));
    assert_eq!(path.tangent_at(r(3, 4)), Rat::of_int(8));
    assert_eq!(path.tangent_at(Rat::one()), Rat::of_int(8));
}

#[test]
fn curve_iterator_steps_through_the_curve() {
    let curve = Bezier1::new(Rat::of_int(0), Rat::of_int(4));
    let mut it = CurveIterator::new(curve, 4, true);
    let mut seen: Vec<Rat> = Vec::new();
    while let Some(p) = it.next() {
        seen.push(p);
    }
    assert_eq!(
        seen,
        vec![Rat::of_int(0), Rat::of_int(1), Rat::of_int(2), Rat::of_int(3), Rat::of_int(4)]
    );

    let curve = Bezier1::new(Rat::of_int(0), Rat::of_int(4));
    let mut it = CurveIterator::new(curve, 4, false);
    let mut count: usize = 0;
    while let Some(_) = it.next() {
        count += 1;
    }
    assert_eq!(count, 4);
}
