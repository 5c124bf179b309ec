//! Bezier segments of degree 0 to 3: exact evaluation, tangents, and
//! adaptive arc-length estimation by de Casteljau subdivision.

use crate::curve::{Curve, CurveLength};
use crate::distance::Distance;
use crate::point::Point;
use crate::rat::{add_r, div_r, eq_r, lt_r, mul_r, nonfin, one_r, sub_r, zero_r, Rat};
use vstd::prelude::*;

verus! {

/// How many times a length estimate may be refined before the bounds
/// average is accepted; a representation limit in the same role the
/// floating-point precision limit plays for approximate scalars.  Adaptive
/// bisection can split both halves again, so the limit also caps the work at
/// one subdivision tree of this depth.
pub const SUBDIVISION_LIMIT: u32 = 16;

pub open spec fn two_s() -> Rat {
    add_r(one_r(), one_r())
}

pub open spec fn three_s() -> Rat {
    add_r(add_r(one_r(), one_r()), one_r())
}

pub open spec fn six_s() -> Rat {
    add_r(three_s(), three_s())
}

pub open spec fn half_s() -> Rat {
    div_r(one_r(), two_s())
}

/// One coordinate of a degree-1 segment at `t`: `a + (b - a) * t`.
pub open spec fn bez1_at(a: Rat, b: Rat, t: Rat) -> Rat {
    add_r(a, mul_r(sub_r(b, a), t))
}

/// One coordinate of a degree-2 segment at `t`:
/// `a * (1-t)^2 + b * 2 * (1-t) * t + c * t^2`.
pub open spec fn bez2_at(a: Rat, b: Rat, c: Rat, t: Rat) -> Rat {
    let t2 = mul_r(t, t);
    let nt = sub_r(one_r(), t);
    let nt2 = mul_r(nt, nt);
    add_r(add_r(mul_r(a, nt2), mul_r(b, mul_r(mul_r(two_s(), nt), t))), mul_r(c, t2))
}

/// One coordinate of the degree-2 hodograph at `t`:
/// `(b - a) * (2 - 2 t) + (c - b) * 2 t`.
pub open spec fn bez2_tan_at(a: Rat, b: Rat, c: Rat, t: Rat) -> Rat {
    let t2 = add_r(t, t);
    let nt2 = sub_r(two_s(), t2);
    add_r(mul_r(sub_r(b, a), nt2), mul_r(sub_r(c, b), t2))
}

/// One coordinate of a degree-3 segment at `t`:
/// `a * (1-t)^3 + b * 3 (1-t)^2 t + c * 3 (1-t) t^2 + d * t^3`.
pub open spec fn bez3_at(a: Rat, b: Rat, c: Rat, d: Rat, t: Rat) -> Rat {
    let t2 = mul_r(t, t);
    let t3 = mul_r(t2, t);
    let nt = sub_r(one_r(), t);
    let nt2 = mul_r(nt, nt);
    let nt3 = mul_r(nt2, nt);
    add_r(
        add_r(mul_r(a, nt3), mul_r(b, mul_r(mul_r(three_s(), nt2), t))),
        add_r(mul_r(c, mul_r(mul_r(three_s(), nt), t2)), mul_r(d, t3)),
    )
}

/// One coordinate of the degree-3 hodograph at `t`:
/// `(b - a) * 3 (1-t)^2 + (c - b) * 6 (1-t) t + (d - c) * 3 t^2`.
pub open spec fn bez3_tan_at(a: Rat, b: Rat, c: Rat, d: Rat, t: Rat) -> Rat {
    let t2 = mul_r(t, t);
    let nt = sub_r(one_r(), t);
    let nt2 = mul_r(nt, nt);
    add_r(
        add_r(mul_r(sub_r(b, a), mul_r(three_s(), nt2)), mul_r(sub_r(c, b), mul_r(mul_r(six_s(), nt), t))),
        mul_r(sub_r(d, c), mul_r(three_s(), t2)),
    )
}

/// The componentwise midpoint of two coordinate tuples.
pub open spec fn mid_s(a: Seq<Rat>, b: Seq<Rat>) -> Seq<Rat> {
    Seq::new(a.len(), |i: int| mul_r(add_r(a[i], b[i]), half_s()))
}

/// The adaptive length estimate of a quadratic segment with control
/// coordinates `c0, c1, c2`.  `min` is the distance from first to last
/// control point and `max` the control polygon length; these bound the true
/// arc length.  When the relative gap `(max - min) / max` is below
/// `precision`, or the refinement budget is spent, the estimate is the
/// average of the bounds; a degenerate polygon has length zero and a
/// non-representable one a non-finite length; otherwise the segment is
/// bisected at `t = 1/2` by de Casteljau's construction and the halves are
/// summed.
pub open spec fn est2_s<P: Distance>(
    c0: Seq<Rat>,
    c1: Seq<Rat>,
    c2: Seq<Rat>,
    precision: Rat,
    fuel: nat,
) -> Rat
    decreases fuel,
{
    let minb = P::dist_c(c0, c2);
    let maxb = add_r(P::dist_c(c0, c1), P::dist_c(c1, c2));
    if eq_r(maxb, zero_r()) {
        zero_r()
    } else if !maxb.is_fin() {
        nonfin()
    } else if lt_r(div_r(sub_r(maxb, minb), maxb), precision) || fuel == 0 {
        mul_r(add_r(minb, maxb), half_s())
    } else {
        let m01 = mid_s(c0, c1);
        let m12 = mid_s(c1, c2);
        let m = mid_s(m01, m12);
        add_r(
            est2_s::<P>(c0, m01, m, precision, (fuel - 1) as nat),
            est2_s::<P>(m, m12, c2, precision, (fuel - 1) as nat),
        )
    }
}

/// The adaptive length estimate of a cubic segment, as `est2_s` but with
/// the cubic de Casteljau construction.
pub open spec fn est3_s<P: Distance>(
    c0: Seq<Rat>,
    c1: Seq<Rat>,
    c2: Seq<Rat>,
    c3: Seq<Rat>,
    precision: Rat,
    fuel: nat,
) -> Rat
    decreases fuel,
{
    let minb = P::dist_c(c0, c3);
    let maxb = add_r(add_r(P::dist_c(c0, c1), P::dist_c(c1, c2)), P::dist_c(c2, c3));
    if eq_r(maxb, zero_r()) {
        zero_r()
    } else if !maxb.is_fin() {
        nonfin()
    } else if lt_r(div_r(sub_r(maxb, minb), maxb), precision) || fuel == 0 {
        mul_r(add_r(minb, maxb), half_s())
    } else {
        let m01 = mid_s(c0, c1);
        let m12 = mid_s(c1, c2);
        let m23 = mid_s(c2, c3);
        let m012 = mid_s(m01, m12);
        let m123 = mid_s(m12, m23);
        let m = mid_s(m012, m123);
        add_r(
            est3_s::<P>(c0, m01, m012, m, precision, (fuel - 1) as nat),
            est3_s::<P>(m, m123, m23, c3, precision, (fuel - 1) as nat),
        )
    }
}

/// Single point
#[derive(Clone, PartialEq, Debug)]
pub struct Bezier0<P: Point> {
    pub point: P,
}

impl<P: Point> Bezier0<P> {
    pub fn new(point: P) -> (r: Self)
        ensures
            r.point == point,
    {
        Self { point }
    }
}

/// Line
#[derive(Clone, PartialEq, Debug)]
pub struct Bezier1<P: Point> {
    pub p0: P,
    pub p1: P,
}

impl<P: Point> Bezier1<P> {
    pub fn new(p0: P, p1: P) -> (r: Self)
        ensures
            r.p0 == p0 && r.p1 == p1,
    {
        Self { p0, p1 }
    }
}

/// Quadratic bezier curve
#[derive(Clone, PartialEq, Debug)]
pub struct Bezier2<P: Point> {
    pub p0: P,
    pub p1: P,
    pub p2: P,
}

impl<P: Point> Bezier2<P> {
    pub fn new(p0: P, p1: P, p2: P) -> (r: Self)
        ensures
            r.p0 == p0 && r.p1 == p1 && r.p2 == p2,
    {
        Self { p0, p1, p2 }
    }
}

/// Cubic bezier curve
#[derive(Clone, PartialEq, Debug)]
pub struct Bezier3<P: Point> {
    pub p0: P,
    pub p1: P,
    pub p2: P,
    pub p3: P,
}

impl<P: Point> Bezier3<P> {
    pub fn new(p0: P, p1: P, p2: P, p3: P) -> (r: Self)
        ensures
            r.p0 == p0 && r.p1 == p1 && r.p2 == p2 && r.p3 == p3,
    {
        Self { p0, p1, p2, p3 }
    }
}

/// A segment of any of the four degrees, behind one degree-erasing tag.
#[derive(Clone, PartialEq, Debug)]
pub enum Bezier<P: Point> {
    C0(Bezier0<P>),
    C1(Bezier1<P>),
    C2(Bezier2<P>),
    C3(Bezier3<P>),
}

impl<P: Point> Curve<P> for Bezier0<P> {
    open spec fn in_dom(&self, t: Rat) -> bool {
        true
    }

    open spec fn val(&self, t: Rat) -> Seq<Rat> {
        self.point.coords()
    }

    open spec fn tan(&self, t: Rat) -> Seq<Rat> {
        Seq::new(P::dim(), |i: int| mul_r(self.point.coords()[i], zero_r()))
    }

    open spec fn start_c(&self) -> Seq<Rat> {
        self.point.coords()
    }

    open spec fn end_c(&self) -> Seq<Rat> {
        self.point.coords()
    }

    fn value_at(&self, _t: Rat) -> (r: P) {
        self.point.duplicate()
    }

    fn tangent_at(&self, _t: Rat) -> (r: P) {
        self.point.scale(Rat::zero())
    }

    fn start_point(&self) -> (r: P) {
        self.point.duplicate()
    }

    fn end_point(&self) -> (r: P) {
        self.point.duplicate()
    }
}

impl<P: Point + Distance> CurveLength<P> for Bezier0<P> {
    open spec fn elen(&self, precision: Rat) -> Rat {
        zero_r()
    }

    fn estimate_length(&self, _precision: Rat) -> (r: Rat) {
        Rat::zero()
    }
}

impl<P: Point> Curve<P> for Bezier1<P> {
    open spec fn in_dom(&self, t: Rat) -> bool {
        true
    }

    open spec fn val(&self, t: Rat) -> Seq<Rat> {
        Seq::new(P::dim(), |i: int| bez1_at(self.p0.coords()[i], self.p1.coords()[i], t))
    }

    open spec fn tan(&self, t: Rat) -> Seq<Rat> {
        Seq::new(P::dim(), |i: int| sub_r(self.p1.coords()[i], self.p0.coords()[i]))
    }

    open spec fn start_c(&self) -> Seq<Rat> {
        self.p0.coords()
    }

    open spec fn end_c(&self) -> Seq<Rat> {
        self.p1.coords()
    }

    fn value_at(&self, t: Rat) -> (r: P) {
        let r = self.p0.add(&self.p1.sub(&self.p0).scale(t));
        proof {
            assert(r.coords() =~= self.val(t));
        }
        r
    }

    fn tangent_at(&self, _t: Rat) -> (r: P) {
        self.p1.sub(&self.p0)
    }

    fn start_point(&self) -> (r: P) {
        self.p0.duplicate()
    }

    fn end_point(&self) -> (r: P) {
        self.p1.duplicate()
    }
}

impl<P: Point + Distance> CurveLength<P> for Bezier1<P> {
    open spec fn elen(&self, precision: Rat) -> Rat {
        P::dist_c(self.p0.coords(), self.p1.coords())
    }

    fn estimate_length(&self, _precision: Rat) -> (r: Rat) {
        self.p0.distance(&self.p1)
    }
}

impl<P: Point> Curve<P> for Bezier2<P> {
    open spec fn in_dom(&self, t: Rat) -> bool {
        true
    }

    open spec fn val(&self, t: Rat) -> Seq<Rat> {
        Seq::new(
            P::dim(),
            |i: int| bez2_at(self.p0.coords()[i], self.p1.coords()[i], self.p2.coords()[i], t),
        )
    }

    open spec fn tan(&self, t: Rat) -> Seq<Rat> {
        Seq::new(
            P::dim(),
            |i: int| bez2_tan_at(self.p0.coords()[i], self.p1.coords()[i], self.p2.coords()[i], t),
        )
    }

    open spec fn start_c(&self) -> Seq<Rat> {
        self.p0.coords()
    }

    open spec fn end_c(&self) -> Seq<Rat> {
        self.p2.coords()
    }

    fn value_at(&self, t: Rat) -> (r: P) {
        let t2 = t.times(t);
        let nt = Rat::one().minus(t);
        let nt2 = nt.times(nt);

        let two = Rat::one().plus(Rat::one());

        let r = self.p0.scale(nt2).add(&self.p1.scale(two.times(nt).times(t))).add(
            &self.p2.scale(t2),
        );
        proof {
            assert(r.coords() =~= self.val(t));
        }
        r
    }

    fn tangent_at(&self, t: Rat) -> (r: P) {
        let p0 = &self.p0;
        let p1 = &self.p1;
        let p2 = &self.p2;

        let two = Rat::one().plus(Rat::one());

        let t2 = t.plus(t);
        let nt2 = two.minus(t2);

        let v1 = p1.sub(p0).scale(nt2);
        let v2 = p2.sub(p1).scale(t2);

        let r = v1.add(&v2);
        proof {
            assert(r.coords() =~= self.tan(t));
        }
        r
    }

    fn start_point(&self) -> (r: P) {
        self.p0.duplicate()
    }

    fn end_point(&self) -> (r: P) {
        self.p2.duplicate()
    }
}

impl<P: Point + Distance> CurveLength<P> for Bezier2<P> {
    open spec fn elen(&self, precision: Rat) -> Rat {
        est2_s::<P>(
            self.p0.coords(),
            self.p1.coords(),
            self.p2.coords(),
            precision,
            SUBDIVISION_LIMIT as nat,
        )
    }

    fn estimate_length(&self, precision: Rat) -> (r: Rat) {
        est2_rec(&self.p0, &self.p1, &self.p2, precision, SUBDIVISION_LIMIT)
    }
}

/// The quadratic adaptive estimator, mirroring `est2_s` with an explicit
/// refinement budget.
fn est2_rec<P: Point + Distance>(p0: &P, p1: &P, p2: &P, precision: Rat, fuel: u32) -> (r: Rat)
    ensures
        r == est2_s::<P>(p0.coords(), p1.coords(), p2.coords(), precision, fuel as nat),
    decreases fuel,
{
    let min = p0.distance(p2);
    let max = p0.distance(p1).plus(p1.distance(p2));

    let half = Rat::one().divide(Rat::one().plus(Rat::one()));

    if max.eq_rat(Rat::zero()) {
        Rat::zero()
    } else if !max.finite() {
        Rat::non_finite()
    } else if max.minus(min).divide(max).lt(precision) || fuel == 0 {
        min.plus(max).times(half)
    } else {
        let m01 = p0.add(p1).scale(half);
        let m12 = p1.add(p2).scale(half);
        let m = m01.add(&m12).scale(half);
        proof {
            p0.coords_len();
            p1.coords_len();
            p2.coords_len();
            assert(m01.coords() =~= mid_s(p0.coords(), p1.coords()));
            assert(m12.coords() =~= mid_s(p1.coords(), p2.coords()));
            assert(m.coords() =~= mid_s(mid_s(p0.coords(), p1.coords()), mid_s(p1.coords(), p2.coords())));
        }
        let r1 = est2_rec(p0, &m01, &m, precision, fuel - 1);
        let r2 = est2_rec(&m, &m12, p2, precision, fuel - 1);
        r1.plus(r2)
    }
}

impl<P: Point> Curve<P> for Bezier3<P> {
    open spec fn in_dom(&self, t: Rat) -> bool {
        true
    }

    open spec fn val(&self, t: Rat) -> Seq<Rat> {
        Seq::new(
            P::dim(),
            |i: int|
                bez3_at(
                    self.p0.coords()[i],
                    self.p1.coords()[i],
                    self.p2.coords()[i],
                    self.p3.coords()[i],
                    t,
                ),
        )
    }

    open spec fn tan(&self, t: Rat) -> Seq<Rat> {
        Seq::new(
            P::dim(),
            |i: int|
                bez3_tan_at(
                    self.p0.coords()[i],
                    self.p1.coords()[i],
                    self.p2.coords()[i],
                    self.p3.coords()[i],
                    t,
                ),
        )
    }

    open spec fn start_c(&self) -> Seq<Rat> {
        self.p0.coords()
    }

    open spec fn end_c(&self) -> Seq<Rat> {
        self.p3.coords()
    }

    fn value_at(&self, t: Rat) -> (r: P) {
        let three = Rat::one().plus(Rat::one()).plus(Rat::one());

        let t2 = t.times(t);
        let t3 = t2.times(t);

        let nt = Rat::one().minus(t);
        let nt2 = nt.times(nt);
        let nt3 = nt2.times(nt);

        let r = self.p0.scale(nt3).add(&self.p1.scale(three.times(nt2).times(t))).add(
            &self.p2.scale(three.times(nt).times(t2)).add(&self.p3.scale(t3)),
        );
        proof {
            assert(r.coords() =~= self.val(t));
        }
        r
    }

    fn tangent_at(&self, t: Rat) -> (r: P) {
        let p0 = &self.p0;
        let p1 = &self.p1;
        let p2 = &self.p2;
        let p3 = &self.p3;

        let three = Rat::one().plus(Rat::one()).plus(Rat::one());
        let six = three.plus(three);

        let t2 = t.times(t);

        let nt = Rat::one().minus(t);
        let nt2 = nt.times(nt);

        let v1 = p1.sub(p0).scale(three.times(nt2));
        let v2 = p2.sub(p1).scale(six.times(nt).times(t));
        let v3 = p3.sub(p2).scale(three.times(t2));

        let r = v1.add(&v2).add(&v3);
        proof {
            assert(r.coords() =~= self.tan(t));
        }
        r
    }

    fn start_point(&self) -> (r: P) {
        self.p0.duplicate()
    }

    fn end_point(&self) -> (r: P) {
        self.p3.duplicate()
    }
}

impl<P: Point + Distance> CurveLength<P> for Bezier3<P> {
    open spec fn elen(&self, precision: Rat) -> Rat {
        est3_s::<P>(
            self.p0.coords(),
            self.p1.coords(),
            self.p2.coords(),
            self.p3.coords(),
            precision,
            SUBDIVISION_LIMIT as nat,
        )
    }

    fn estimate_length(&self, precision: Rat) -> (r: Rat) {
        est3_rec(&self.p0, &self.p1, &self.p2, &self.p3, precision, SUBDIVISION_LIMIT)
    }
}

/// The cubic adaptive estimator, mirroring `est3_s` with an explicit
/// refinement budget.
fn est3_rec<P: Point + Distance>(
    p0: &P,
    p1: &P,
    p2: &P,
    p3: &P,
    precision: Rat,
    fuel: u32,
) -> (r: Rat)
    ensures
        r == est3_s::<P>(p0.coords(), p1.coords(), p2.coords(), p3.coords(), precision, fuel as nat),
    decreases fuel,
{
    let min = p0.distance(p3);
    let max = p0.distance(p1).plus(p1.distance(p2)).plus(p2.distance(p3));

    let half = Rat::one().divide(Rat::one().plus(Rat::one()));

    if max.eq_rat(Rat::zero()) {
        Rat::zero()
    } else if !max.finite() {
        Rat::non_finite()
    } else if max.minus(min).divide(max).lt(precision) || fuel == 0 {
        min.plus(max).times(half)
    } else {
        let m01 = p0.add(p1).scale(half);
        let m12 = p1.add(p2).scale(half);
        let m23 = p2.add(p3).scale(half);
        let m012 = m01.add(&m12).scale(half);
        let m123 = m12.add(&m23).scale(half);
        let m = m012.add(&m123).scale(half);
        proof {
            p0.coords_len();
            p1.coords_len();
            p2.coords_len();
            p3.coords_len();
            assert(m01.coords() =~= mid_s(p0.coords(), p1.coords()));
            assert(m12.coords() =~= mid_s(p1.coords(), p2.coords()));
            assert(m23.coords() =~= mid_s(p2.coords(), p3.coords()));
            assert(m012.coords() =~= mid_s(mid_s(p0.coords(), p1.coords()), mid_s(p1.coords(), p2.coords())));
            assert(m123.coords() =~= mid_s(mid_s(p1.coords(), p2.coords()), mid_s(p2.coords(), p3.coords())));
            assert(m.coords() =~= mid_s(m012.coords(), m123.coords()));
        }
        let r1 = est3_rec(p0, &m01, &m012, &m, precision, fuel - 1);
        let r2 = est3_rec(&m, &m123, &m23, p3, precision, fuel - 1);
        r1.plus(r2)
    }
}

impl<P: Point> Curve<P> for Bezier<P> {
    open spec fn in_dom(&self, t: Rat) -> bool {
        true
    }

    open spec fn val(&self, t: Rat) -> Seq<Rat> {
        match self {
            Bezier::C0(c) => c.val(t),
            Bezier::C1(c) => c.val(t),
            Bezier::C2(c) => c.val(t),
            Bezier::C3(c) => c.val(t),
        }
    }

    open spec fn tan(&self, t: Rat) -> Seq<Rat> {
        match self {
            Bezier::C0(c) => c.tan(t),
            Bezier::C1(c) => c.tan(t),
            Bezier::C2(c) => c.tan(t),
            Bezier::C3(c) => c.tan(t),
        }
    }

    open spec fn start_c(&self) -> Seq<Rat> {
        match self {
            Bezier::C0(c) => c.start_c(),
            Bezier::C1(c) => c.start_c(),
            Bezier::C2(c) => c.start_c(),
            Bezier::C3(c) => c.start_c(),
        }
    }

    open spec fn end_c(&self) -> Seq<Rat> {
        match self {
            Bezier::C0(c) => c.end_c(),
            Bezier::C1(c) => c.end_c(),
            Bezier::C2(c) => c.end_c(),
            Bezier::C3(c) => c.end_c(),
        }
    }

    fn value_at(&self, t: Rat) -> (r: P) {
        match self {
            Bezier::C0(c) => c.value_at(t),
            Bezier::C1(c) => c.value_at(t),
            Bezier::C2(c) => c.value_at(t),
            Bezier::C3(c) => c.value_at(t),
        }
    }

    fn tangent_at(&self, t: Rat) -> (r: P) {
        match self {
            Bezier::C0(c) => c.tangent_at(t),
            Bezier::C1(c) => c.tangent_at(t),
            Bezier::C2(c) => c.tangent_at(t),
            Bezier::C3(c) => c.tangent_at(t),
        }
    }

    fn start_point(&self) -> (r: P) {
        match self {
            Bezier::C0(c) => c.start_point(),
            Bezier::C1(c) => c.start_point(),
            Bezier::C2(c) => c.start_point(),
            Bezier::C3(c) => c.start_point(),
        }
    }

    fn end_point(&self) -> (r: P) {
        match self {
            Bezier::C0(c) => c.end_point(),
            Bezier::C1(c) => c.end_point(),
            Bezier::C2(c) => c.end_point(),
            Bezier::C3(c) => c.end_point(),
        }
    }
}

impl<P: Point + Distance> CurveLength<P> for Bezier<P> {
    open spec fn elen(&self, precision: Rat) -> Rat {
        match self {
            Bezier::C0(c) => c.elen(precision),
            Bezier::C1(c) => c.elen(precision),
            Bezier::C2(c) => c.elen(precision),
            Bezier::C3(c) => c.elen(precision),
        }
    }

    fn estimate_length(&self, precision: Rat) -> (r: Rat) {
        match self {
            Bezier::C0(c) => c.estimate_length(precision),
            Bezier::C1(c) => c.estimate_length(precision),
            Bezier::C2(c) => c.estimate_length(precision),
            Bezier::C3(c) => c.estimate_length(precision),
        }
    }
}

} // verus!
