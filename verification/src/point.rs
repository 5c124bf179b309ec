//! The abstract point space the curves are evaluated over.

use crate::rat::{add_r, mul_r, sub_r, Rat};
use vstd::prelude::*;

verus! {

/// `Point` is a point in space that can be added, subtracted, multiplied, and
/// scaled.  This trait can be implemented for any type like Point, Vector,
/// Color, etc.  Its model is the tuple of exact rational coordinates; every
/// operation acts componentwise on that tuple.
pub trait Point: Sized + Clone {
    /// The coordinates of the point, as exact rational scalars.
    spec fn coords(&self) -> Seq<Rat>;

    /// How many coordinates every value of the type carries.
    spec fn dim() -> nat;

    /// Every value carries exactly `dim` coordinates.
    proof fn coords_len(&self)
        ensures
            self.coords().len() == Self::dim(),
    ;

    /// An exact copy of the point.
    fn duplicate(&self) -> (r: Self)
        ensures
            r.coords() == self.coords(),
    ;

    /// Componentwise exact sum.
    fn add(&self, other: &Self) -> (r: Self)
        ensures
            r.coords() == Seq::new(
                Self::dim(),
                |i: int| add_r(self.coords()[i], other.coords()[i]),
            ),
    ;

    /// Componentwise exact difference.
    fn sub(&self, other: &Self) -> (r: Self)
        ensures
            r.coords() == Seq::new(
                Self::dim(),
                |i: int| sub_r(self.coords()[i], other.coords()[i]),
            ),
    ;

    /// Componentwise exact product.
    fn multiply(&self, other: &Self) -> (r: Self)
        ensures
            r.coords() == Seq::new(
                Self::dim(),
                |i: int| mul_r(self.coords()[i], other.coords()[i]),
            ),
    ;

    /// Every coordinate scaled by the scalar `s`.
    fn scale(&self, s: Rat) -> (r: Self)
        ensures
            r.coords() == Seq::new(Self::dim(), |i: int| mul_r(self.coords()[i], s)),
    ;

    /// Whether the two points carry identical coordinate values.
    fn eq_point(&self, other: &Self) -> (r: bool)
        ensures
            r == (self.coords() == other.coords()),
    ;
}

/// Scalars are the one-dimensional points.
impl Point for Rat {
    open spec fn coords(&self) -> Seq<Rat> {
        seq![*self]
    }

    open spec fn dim() -> nat {
        1
    }

    proof fn coords_len(&self) {
    }

    fn duplicate(&self) -> (r: Self) {
        *self
    }

    fn add(&self, other: &Self) -> (r: Self) {
        let r = (*self).plus(*other);
        proof {
            assert(seq![r] =~= Seq::new(1, |i: int| add_r(seq![*self][i], seq![*other][i])));
        }
        r
    }

    fn sub(&self, other: &Self) -> (r: Self) {
        let r = (*self).minus(*other);
        proof {
            assert(seq![r] =~= Seq::new(1, |i: int| sub_r(seq![*self][i], seq![*other][i])));
        }
        r
    }

    fn multiply(&self, other: &Self) -> (r: Self) {
        let r = (*self).times(*other);
        proof {
            assert(seq![r] =~= Seq::new(1, |i: int| mul_r(seq![*self][i], seq![*other][i])));
        }
        r
    }

    fn scale(&self, s: Rat) -> (r: Self) {
        let r = (*self).times(s);
        proof {
            assert(seq![r] =~= Seq::new(1, |i: int| mul_r(seq![*self][i], s)));
        }
        r
    }

    fn eq_point(&self, other: &Self) -> (r: bool) {
        let r = *self == *other;
        proof {
            if *self == *other {
                assert(seq![*self] =~= seq![*other]);
            } else {
                assert(seq![*self][0] == *self);
            }
        }
        r
    }
}

/// A two-dimensional point with exact rational coordinates.
#[derive(Clone, Copy, Debug, PartialEq, Eq, Structural)]
pub struct Point2D {
    pub x: Rat,
    pub y: Rat,
}

impl Point for Point2D {
    open spec fn coords(&self) -> Seq<Rat> {
        seq![self.x, self.y]
    }

    open spec fn dim() -> nat {
        2
    }

    proof fn coords_len(&self) {
    }

    fn duplicate(&self) -> (r: Self) {
        *self
    }

    fn add(&self, other: &Self) -> (r: Self) {
        let r = Point2D { x: self.x.plus(other.x), y: self.y.plus(other.y) };
        proof {
            assert(r.coords() =~= Seq::new(
                2,
                |i: int| add_r(self.coords()[i], other.coords()[i]),
            ));
        }
        r
    }

    fn sub(&self, other: &Self) -> (r: Self) {
        let r = Point2D { x: self.x.minus(other.x), y: self.y.minus(other.y) };
        proof {
            assert(r.coords() =~= Seq::new(
                2,
                |i: int| sub_r(self.coords()[i], other.coords()[i]),
            ));
        }
        r
    }

    fn multiply(&self, other: &Self) -> (r: Self) {
        let r = Point2D { x: self.x.times(other.x), y: self.y.times(other.y) };
        proof {
            assert(r.coords() =~= Seq::new(
                2,
                |i: int| mul_r(self.coords()[i], other.coords()[i]),
            ));
        }
        r
    }

    fn scale(&self, s: Rat) -> (r: Self) {
        let r = Point2D { x: self.x.times(s), y: self.y.times(s) };
        proof {
            assert(r.coords() =~= Seq::new(2, |i: int| mul_r(self.coords()[i], s)));
        }
        r
    }

    fn eq_point(&self, other: &Self) -> (r: bool) {
        let r = self.x == other.x && self.y == other.y;
        proof {
            if r {
                assert(self.coords() =~= other.coords());
            } else {
                assert(self.coords()[0] == self.x && self.coords()[1] == self.y);
                assert(other.coords()[0] == other.x && other.coords()[1] == other.y);
            }
        }
        r
    }
}

} // verus!
