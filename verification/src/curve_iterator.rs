//! A stepping sampler over a curve: each call to `next` returns the point at
//! the next of `steps_count` uniform parameter values.

use crate::curve::Curve;
use crate::point::Point;
use crate::rat::{add_r, div_r, eq_r, from_int_r, lt_r, one_r, zero_r, Rat};
use core::marker::PhantomData;
use vstd::prelude::*;

verus! {

/// A sampler that walks a curve in `steps_count` uniform steps, optionally
/// including the final point at parameter one.
#[derive(PartialEq, Debug)]
pub struct CurveIterator<P: Point, C: Curve<P>> {
    curve: C,
    steps_count: Rat,
    include_last: bool,
    i: Rat,
    phantom_data: PhantomData<P>,
}

impl<P: Point, C: Curve<P>> CurveIterator<P, C> {
    /// The sampled curve.
    pub closed spec fn cur(&self) -> C {
        self.curve
    }

    /// The step count, as a rational.
    pub closed spec fn steps_r(&self) -> Rat {
        self.steps_count
    }

    /// Whether the final point is included.
    pub closed spec fn include_last_s(&self) -> bool {
        self.include_last
    }

    /// The current step index, as a rational.
    pub closed spec fn idx(&self) -> Rat {
        self.i
    }

    /// Whether another sample will be produced.
    pub open spec fn has_next(&self) -> bool {
        lt_r(self.idx(), self.steps_r()) || (self.include_last_s() && eq_r(
            self.idx(),
            self.steps_r(),
        ))
    }

    /// The parameter the next sample is taken at.
    pub open spec fn next_t(&self) -> Rat {
        div_r(self.idx(), self.steps_r())
    }

    pub fn new(curve: C, steps_count: usize, include_last: bool) -> (r: Self)
        ensures
            r.cur() == curve,
            r.steps_r() == from_int_r(steps_count as int),
            r.include_last_s() == include_last,
            r.idx() == zero_r(),
    {
        Self {
            curve,
            steps_count: Rat::of_usize(steps_count),
            include_last,
            i: Rat::zero(),
            phantom_data: PhantomData,
        }
    }

    /// The point at the next uniform parameter, or `None` past the end.
    pub fn next(&mut self) -> (r: Option<P>)
        requires
            old(self).has_next() ==> old(self).cur().in_dom(old(self).next_t()),
        ensures
            old(self).has_next() ==> {
                &&& (r matches Some(p) && p.coords() == old(self).cur().val(old(self).next_t()))
                &&& final (self).idx() == add_r(old(self).idx(), one_r())
                &&& final (self).cur() == old(self).cur()
                &&& final (self).steps_r() == old(self).steps_r()
                &&& final (self).include_last_s() == old(self).include_last_s()
            },
            !old(self).has_next() ==> r is None && *final (self) == *old(self),
    {
        if self.i.lt(self.steps_count) || (self.include_last && self.i.eq_rat(self.steps_count)) {
            let i = self.i.divide(self.steps_count);
            self.i = self.i.plus(Rat::one());

            Some(self.curve.value_at(i))
        } else {
            None
        }
    }
}

} // verus!
