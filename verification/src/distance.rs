//! Pairwise distance between points, used by length estimation.

use crate::point::Point;
use crate::rat::{abs_r, lemma_abs_sub, sub_r, Rat};
use vstd::prelude::*;

verus! {

/// A point type with a pairwise distance.  `dist_c` names what `distance`
/// returns as a function of the two coordinate tuples alone, so callers can
/// reason about distances of points they know only through their coordinates.
pub trait Distance: Point {
    /// What `distance` returns, as a function of the two coordinate tuples.
    spec fn dist_c(a: Seq<Rat>, b: Seq<Rat>) -> Rat;

    /// A finite distance is never negative.
    proof fn dist_c_nonneg(a: Seq<Rat>, b: Seq<Rat>)
        ensures
            Self::dist_c(a, b).is_fin() ==> Self::dist_c(a, b).n() >= 0,
    ;

    /// The distance between two points.
    fn distance(&self, other: &Self) -> (r: Rat)
        ensures
            r == Self::dist_c(self.coords(), other.coords()),
    ;
}

/// For scalars, the distance is the magnitude of the exact difference.
impl Distance for Rat {
    open spec fn dist_c(a: Seq<Rat>, b: Seq<Rat>) -> Rat {
        abs_r(sub_r(a[0], b[0]))
    }

    proof fn dist_c_nonneg(a: Seq<Rat>, b: Seq<Rat>) {
        lemma_abs_sub(a[0], b[0]);
    }

    fn distance(&self, other: &Self) -> (r: Rat) {
        (*self).minus(*other).abs_rat()
    }
}

} // verus!
