//! A sequence of Bezier segments traversed as one curve: each segment covers
//! an equal share of the parameter range.

use crate::bezier::{Bezier, Bezier1, Bezier2, Bezier3};
use crate::curve::{Curve, CurveLength};
use crate::distance::Distance;
use crate::point::Point;
use crate::rat::{
    add_r, clamp_r, floor_r, fract_r, from_int_r, le_r, lemma_floor_in, lemma_from_int,
    lemma_mul_le_one, lemma_mul_nonneg, mul_r, one_r, zero_r, Rat,
};
use vstd::prelude::*;

verus! {

/// The parameter clamped into `[0, 1]` and scaled by the segment count; its
/// floor selects the segment, its fractional part the place within it.
pub open spec fn scaled_t<P: Point>(segs: Seq<Bezier<P>>, t: Rat) -> Rat {
    mul_r(clamp_r(t, zero_r(), one_r()), from_int_r(segs.len() as int))
}

/// The sum of the length estimates of the first `k` segments.
pub open spec fn total_elen<P: Point + Distance>(
    segs: Seq<Bezier<P>>,
    precision: Rat,
    k: int,
) -> Rat
    decreases k,
{
    if k <= 0 {
        zero_r()
    } else {
        add_r(total_elen(segs, precision, k - 1), segs[k - 1].elen(precision))
    }
}

/// A curve assembled from consecutive segments; each `*_to` call appends a
/// segment from the previous end point.
#[derive(Clone, PartialEq, Debug)]
pub struct ComposedCurve<P: Point> {
    last_point: P,
    curves: Vec<Bezier<P>>,
}

impl<P: Point> ComposedCurve<P> {
    /// The appended segments, in order.
    pub closed spec fn segs(&self) -> Seq<Bezier<P>> {
        self.curves@
    }

    /// Where the next segment will start.
    pub closed spec fn last_p(&self) -> P {
        self.last_point
    }

    pub fn new(start_point: P) -> (r: Self)
        ensures
            r.segs() == Seq::<Bezier<P>>::empty(),
            r.last_p() == start_point,
    {
        let r = Self { last_point: start_point, curves: Vec::new() };
        proof {
            assert(r.segs() =~= Seq::<Bezier<P>>::empty());
        }
        r
    }

    pub fn with_capacity(start_point: P, capacity: usize) -> (r: Self)
        ensures
            r.segs() == Seq::<Bezier<P>>::empty(),
            r.last_p() == start_point,
    {
        let r = Self { last_point: start_point, curves: Vec::with_capacity(capacity) };
        proof {
            assert(r.segs() =~= Seq::<Bezier<P>>::empty());
        }
        r
    }

    /// The segments appended so far.
    pub fn curves(&self) -> (r: &Vec<Bezier<P>>)
        ensures
            r@ == self.segs(),
    {
        &self.curves
    }

    /// Append a line to `point`, unless it coincides with the current end.
    pub fn line_to(&mut self, point: P)
        ensures
            point.coords() == old(self).last_p().coords() ==> *final (self) == *old(self),
            point.coords() != old(self).last_p().coords() ==> {
                &&& final (self).segs().len() == old(self).segs().len() + 1
                &&& final (self).segs().subrange(0, old(self).segs().len() as int) == old(
                    self,
                ).segs()
                &&& (final (self).segs().last() matches Bezier::C1(b) && b.p0.coords() == old(
                    self,
                ).last_p().coords() && b.p1.coords() == point.coords())
                &&& final (self).last_p() == point
            },
    {
        if !point.eq_point(&self.last_point) {
            let curve = Bezier::C1(Bezier1::new(self.last_point.duplicate(), point.duplicate()));
            self.curves.push(curve);
            self.last_point = point;
            proof {
                assert(self.curves@.subrange(0, old(self).segs().len() as int) =~= old(
                    self,
                ).segs());
            }
        }
    }

    /// Append a quadratic segment through `p1` to `p2`, unless all of its
    /// points coincide with the current end.
    pub fn quadratic_to(&mut self, p1: P, p2: P)
        ensures
            p1.coords() == p2.coords() && p1.coords() == old(self).last_p().coords()
                ==> *final (self) == *old(self),
            !(p1.coords() == p2.coords() && p1.coords() == old(self).last_p().coords()) ==> {
                &&& final (self).segs().len() == old(self).segs().len() + 1
                &&& final (self).segs().subrange(0, old(self).segs().len() as int) == old(
                    self,
                ).segs()
                &&& (final (self).segs().last() matches Bezier::C2(b) && b.p0.coords() == old(
                    self,
                ).last_p().coords() && b.p1 == p1 && b.p2.coords() == p2.coords())
                &&& final (self).last_p() == p2
            },
    {
        if p1.eq_point(&p2) && p1.eq_point(&self.last_point) {
            return ;
        }
        let curve = Bezier::C2(Bezier2::new(self.last_point.duplicate(), p1, p2.duplicate()));
        self.curves.push(curve);
        self.last_point = p2;
        proof {
            assert(self.curves@.subrange(0, old(self).segs().len() as int) =~= old(self).segs());
        }
    }

    /// Append a cubic segment through `p1` and `p2` to `p3`, unless all of
    /// its points coincide with the current end.
    pub fn cubic_to(&mut self, p1: P, p2: P, p3: P)
        ensures
            p1.coords() == p2.coords() && p2.coords() == p3.coords() && p1.coords() == old(
                self,
            ).last_p().coords() ==> *final (self) == *old(self),
            !(p1.coords() == p2.coords() && p2.coords() == p3.coords() && p1.coords() == old(
                self,
            ).last_p().coords()) ==> {
                &&& final (self).segs().len() == old(self).segs().len() + 1
                &&& final (self).segs().subrange(0, old(self).segs().len() as int) == old(
                    self,
                ).segs()
                &&& (final (self).segs().last() matches Bezier::C3(b) && b.p0.coords() == old(
                    self,
                ).last_p().coords() && b.p1 == p1 && b.p2 == p2 && b.p3.coords() == p3.coords())
                &&& final (self).last_p() == p3
            },
    {
        if p1.eq_point(&p2) && p2.eq_point(&p3) && p1.eq_point(&self.last_point) {
            return ;
        }
        let curve = Bezier::C3(
            Bezier3::new(self.last_point.duplicate(), p1, p2, p3.duplicate()),
        );
        self.curves.push(curve);
        self.last_point = p3;
        proof {
            assert(self.curves@.subrange(0, old(self).segs().len() as int) =~= old(self).segs());
        }
    }

    /// Append a line back to the first segment's start point, closing the
    /// path; an empty path stays empty.
    pub fn close(&mut self)
        ensures
            old(self).segs().len() == 0 ==> *final (self) == *old(self),
            old(self).segs().len() > 0 && old(self).segs()[0].start_c() == old(
                self,
            ).last_p().coords() ==> *final (self) == *old(self),
            old(self).segs().len() > 0 && old(self).segs()[0].start_c() != old(
                self,
            ).last_p().coords() ==> {
                &&& final (self).segs().len() == old(self).segs().len() + 1
                &&& final (self).segs().subrange(0, old(self).segs().len() as int) == old(
                    self,
                ).segs()
                &&& (final (self).segs().last() matches Bezier::C1(b) && b.p0.coords() == old(
                    self,
                ).last_p().coords() && b.p1.coords() == old(self).segs()[0].start_c())
                &&& final (self).last_p().coords() == old(self).segs()[0].start_c()
            },
    {
        if self.curves.len() != 0 {
            let first_point = self.curves[0].start_point();
            self.line_to(first_point);
        }
    }
}

impl<P: Point> Curve<P> for ComposedCurve<P> {
    /// A parameter is accepted when there is at least one segment and the
    /// scaled segment index is representable.
    open spec fn in_dom(&self, t: Rat) -> bool {
        self.segs().len() > 0 && scaled_t(self.segs(), t).is_fin()
    }

    open spec fn val(&self, t: Rat) -> Seq<Rat> {
        let ts = scaled_t(self.segs(), t);
        let i = floor_r(ts);
        if i == self.segs().len() {
            self.segs()[i - 1].end_c()
        } else {
            self.segs()[i].val(fract_r(ts))
        }
    }

    open spec fn tan(&self, t: Rat) -> Seq<Rat> {
        let lenr = from_int_r(self.segs().len() as int);
        let ts = scaled_t(self.segs(), t);
        let i = floor_r(ts);
        if i == self.segs().len() {
            Seq::new(P::dim(), |j: int| mul_r(self.segs()[i - 1].tan(one_r())[j], lenr))
        } else {
            Seq::new(P::dim(), |j: int| mul_r(self.segs()[i].tan(fract_r(ts))[j], lenr))
        }
    }

    open spec fn start_c(&self) -> Seq<Rat> {
        self.val(zero_r())
    }

    open spec fn end_c(&self) -> Seq<Rat> {
        self.val(one_r())
    }

    fn value_at(&self, t: Rat) -> (r: P) {
        let tc = t.clamp_rat(Rat::zero(), Rat::one());
        let n = self.curves.len();
        let ts = tc.times(Rat::of_usize(n));
        proof {
            lemma_segment_bounds(self.segs(), t);
        }
        let i = ts.floor_int();
        let tf = ts.fract_rat();
        if i as usize == n {
            self.curves[n - 1].end_point()
        } else {
            self.curves[i as usize].value_at(tf)
        }
    }

    fn tangent_at(&self, t: Rat) -> (r: P) {
        let n = self.curves.len();
        let len_rat = Rat::of_usize(n);

        let tc = t.clamp_rat(Rat::zero(), Rat::one());
        let ts = tc.times(len_rat);
        proof {
            lemma_segment_bounds(self.segs(), t);
        }
        let i = ts.floor_int();
        let tf = ts.fract_rat();

        let r = if i as usize == n {
            self.curves[n - 1].tangent_at(Rat::one()).scale(len_rat)
        } else {
            self.curves[i as usize].tangent_at(tf).scale(len_rat)
        };
        proof {
            assert(r.coords() =~= self.tan(t));
        }
        r
    }

    fn start_point(&self) -> (r: P) {
        self.value_at(Rat::zero())
    }

    fn end_point(&self) -> (r: P) {
        self.value_at(Rat::one())
    }
}

/// Within the domain, the scaled parameter lies between zero and the segment
/// count, so the selected index is a valid segment index or the count itself.
proof fn lemma_segment_bounds<P: Point>(segs: Seq<Bezier<P>>, t: Rat)
    requires
        segs.len() > 0,
        scaled_t(segs, t).is_fin(),
    ensures
        0 <= floor_r(scaled_t(segs, t)) <= segs.len() as int,
{
    let n = segs.len() as int;
    let tc = clamp_r(t, zero_r(), one_r());
    let ts = scaled_t(segs, t);
    lemma_from_int(0);
    lemma_from_int(1);
    lemma_from_int(n);
    assert(tc.is_fin() && from_int_r(n).is_fin());
    assert(le_r(zero_r(), tc) && le_r(tc, one_r()));
    lemma_mul_nonneg(tc, from_int_r(n));
    lemma_mul_le_one(tc, from_int_r(n));
    assert(le_r(from_int_r(0), ts) && le_r(ts, from_int_r(n)));
    lemma_floor_in(ts, 0, n);
}

impl<P: Point + Distance> CurveLength<P> for ComposedCurve<P> {
    open spec fn elen(&self, precision: Rat) -> Rat {
        total_elen(self.segs(), precision, self.segs().len() as int)
    }

    #[verifier::loop_isolation(false)]
    fn estimate_length(&self, precision: Rat) -> (r: Rat) {
        let mut acc = Rat::zero();
        let mut idx: usize = 0;
        while idx < self.curves.len()
            invariant
                idx <= self.curves.len(),
                acc == total_elen(self.segs(), precision, idx as int),
            decreases self.curves.len() - idx,
        {
            acc = acc.plus(self.curves[idx].estimate_length(precision));
            idx = idx + 1;
        }
        acc
    }
}

} // verus!
