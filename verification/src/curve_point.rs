//! CurvePoint is a point in space that can be added, subtracted, multiplied,
//! and scaled, with the scalar passed by reference.  This trait can be
//! implemented for any type like Point, Vector, Color, etc.

use crate::rat::{add_r, mul_r, sub_r, Rat};
use vstd::prelude::*;

verus! {

/// A point with componentwise arithmetic whose scalar arguments are taken by
/// reference; the model is the tuple of exact rational coordinates.
pub trait CurvePoint: Sized + Clone {
    /// The coordinates of the point, as exact rational scalars.
    spec fn model(&self) -> Seq<Rat>;

    /// Componentwise exact sum.
    fn add(&self, other: &Self) -> (r: Self)
        ensures
            r.model() == Seq::new(
                self.model().len(),
                |i: int| add_r(self.model()[i], other.model()[i]),
            ),
    ;

    /// Componentwise exact difference.
    fn sub(&self, other: &Self) -> (r: Self)
        ensures
            r.model() == Seq::new(
                self.model().len(),
                |i: int| sub_r(self.model()[i], other.model()[i]),
            ),
    ;

    /// Every coordinate multiplied by the scalar behind `other`.
    fn multiply(&self, other: &Rat) -> (r: Self)
        ensures
            r.model() == Seq::new(self.model().len(), |i: int| mul_r(self.model()[i], *other)),
    ;

    /// Every coordinate scaled by the scalar behind `s`.
    fn scale(&self, s: &Rat) -> (r: Self)
        ensures
            r.model() == Seq::new(self.model().len(), |i: int| mul_r(self.model()[i], *s)),
    ;
}

/// Scalars are the one-dimensional curve points.
impl CurvePoint for Rat {
    open spec fn model(&self) -> Seq<Rat> {
        seq![*self]
    }

    fn add(&self, other: &Self) -> (r: Self) {
        let r = (*self).plus(*other);
        proof {
            assert(seq![r] =~= Seq::new(1, |i: int| add_r(seq![*self][i], seq![*other][i])));
        }
        r
    }

    fn sub(&self, other: &Self) -> (r: Self) {
        let r = (*self).minus(*other);
        proof {
            assert(seq![r] =~= Seq::new(1, |i: int| sub_r(seq![*self][i], seq![*other][i])));
        }
        r
    }

    fn multiply(&self, other: &Rat) -> (r: Self) {
        let r = (*self).times(*other);
        proof {
            assert(seq![r] =~= Seq::new(1, |i: int| mul_r(seq![*self][i], *other)));
        }
        r
    }

    fn scale(&self, s: &Rat) -> (r: Self) {
        let r = (*self).times(*s);
        proof {
            assert(seq![r] =~= Seq::new(1, |i: int| mul_r(seq![*self][i], *s)));
        }
        r
    }
}

} // verus!
