//! The capability a parametric curve offers to its callers.

use crate::bezier::{Bezier, Bezier0, Bezier1, Bezier2, Bezier3};
use crate::composed_curve::ComposedCurve;
use crate::distance::Distance;
use crate::point::Point;
use crate::rat::{one_r, zero_r, Rat};
use vstd::prelude::*;

verus! {

/// A curve is a parametric function that maps a value `t` in range from 0 to
/// 1 to a point in space.  The spec members `val`, `tan`, `start_c`, `end_c`
/// and `elen` give the coordinates each operation returns, so generic callers
/// can reason exactly about any curve they hold.
pub trait Curve<P: Point>: Sized {
    /// The parameters the curve accepts: evaluation is defined only where
    /// this predicate holds.  Plain segments accept every parameter; curves
    /// that select a segment by index accept parameters whose scaled index
    /// stays representable.
    spec fn in_dom(&self, t: Rat) -> bool;

    /// The coordinates of `value_at(t)`.
    spec fn val(&self, t: Rat) -> Seq<Rat>;

    /// The coordinates of `tangent_at(t)`.
    spec fn tan(&self, t: Rat) -> Seq<Rat>;

    /// The coordinates of `start_point()`.
    spec fn start_c(&self) -> Seq<Rat>;

    /// The coordinates of `end_point()`.
    spec fn end_c(&self) -> Seq<Rat>;

    /// Get the point at a given value `t` in range from 0 to 1.
    fn value_at(&self, t: Rat) -> (r: P)
        requires
            self.in_dom(t),
        ensures
            r.coords() == self.val(t),
    ;

    /// Get the derivative at a given value `t` in range from 0 to 1.
    fn tangent_at(&self, t: Rat) -> (r: P)
        requires
            self.in_dom(t),
        ensures
            r.coords() == self.tan(t),
    ;

    fn start_point(&self) -> (r: P)
        requires
            self.in_dom(zero_r()),
        ensures
            r.coords() == self.start_c(),
    ;

    fn end_point(&self) -> (r: P)
        requires
            self.in_dom(one_r()),
        ensures
            r.coords() == self.end_c(),
    ;

    /// Create a dot, at any `t` it will return the same value
    fn dot(p0: P) -> (r: Bezier0<P>)
        ensures
            r.point == p0,
    {
        Bezier0::new(p0)
    }

    /// Create a line
    fn line(p0: P, p1: P) -> (r: Bezier1<P>)
        ensures
            r.p0 == p0 && r.p1 == p1,
    {
        Bezier1::new(p0, p1)
    }

    /// Create a quadratic bezier curve
    fn quad_bezier(p0: P, p1: P, p2: P) -> (r: Bezier2<P>)
        ensures
            r.p0 == p0 && r.p1 == p1 && r.p2 == p2,
    {
        Bezier2::new(p0, p1, p2)
    }

    /// Create a cubic bezier curve
    fn cubic_bezier(p0: P, p1: P, p2: P, p3: P) -> (r: Bezier3<P>)
        ensures
            r.p0 == p0 && r.p1 == p1 && r.p2 == p2 && r.p3 == p3,
    {
        Bezier3::new(p0, p1, p2, p3)
    }

    /// Create a composed curve that will be a sequence of curves.  Each
    /// segment of the curve takes an equal share of the parameter range.
    fn composed_curve(start_point: P) -> (r: ComposedCurve<P>)
        ensures
            r.segs() == Seq::<Bezier<P>>::empty(),
            r.last_p() == start_point,
    {
        ComposedCurve::new(start_point)
    }

}

/// The length estimate a curve offers when its points carry a distance.
/// This stands apart from `Curve` so that curves over points without a
/// distance still evaluate and differentiate.
pub trait CurveLength<P: Point + Distance>: Curve<P> {
    /// What `estimate_length(precision)` returns.
    spec fn elen(&self, precision: Rat) -> Rat;

    /// Estimate the length of the curve as an average between `min` and `max`
    /// estimation.  The precision parameter is the maximum tolerated relative
    /// gap between the two estimations.
    fn estimate_length(&self, precision: Rat) -> (r: Rat)
        ensures
            r == self.elen(precision),
    ;
}

} // verus!
