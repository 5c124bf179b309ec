//! The general interpolation laws of the segment evaluators, proved once for
//! every segment over any point type.

use crate::bezier::{bez1_at, half_s, two_s, Bezier0, Bezier1};
use crate::curve::Curve;
use crate::point::Point;
use crate::rat::{
    add_r, div_r, eq_r, from_int_r, lemma_cmp_rep, lemma_div_rep, lemma_from_int, lemma_mul_rep,
    lemma_mul_zero, lemma_norm_den1, lemma_norm_s, lemma_rep_equiv, norm_s, lemma_sub_rep, mul_r, one_r,
    rep, sub_r, zero_r, Rat,
};
use vstd::prelude::*;

verus! {

/// For every degree-0 segment: the value at any parameter is the stored
/// point, every finite coordinate of the tangent is exactly zero, and a
/// non-finite coordinate stays non-finite.
pub proof fn law_dot_is_constant<P: Point>(c: Bezier0<P>, t: Rat, i: int)
    requires
        0 <= i < P::dim(),
    ensures
        c.val(t) == c.point.coords(),
        c.point.coords()[i].is_fin() ==> c.tan(t)[i] == zero_r(),
        !c.point.coords()[i].is_fin() ==> !c.tan(t)[i].is_fin(),
{
    lemma_from_int(0);
    if c.point.coords()[i].is_fin() {
        lemma_mul_zero(c.point.coords()[i]);
    }
}

/// For every degree-1 segment, coordinate by coordinate: the value at zero
/// is the start control point, the value at one is the end control point,
/// and the value at one half denotes the midpoint of the two control points.
/// The hypotheses leave out only coordinates whose exact difference or whose
/// result leaves the representation.
pub proof fn law_line_interpolates<P: Point>(c: Bezier1<P>, i: int)
    requires
        0 <= i < P::dim(),
        c.p0.coords()[i].rat_inv(),
        c.p1.coords()[i].rat_inv(),
        c.p0.coords()[i].is_fin(),
        c.p1.coords()[i].is_fin(),
        sub_r(c.p1.coords()[i], c.p0.coords()[i]).is_fin(),
    ensures
        c.val(zero_r())[i].is_fin() && eq_r(c.val(zero_r())[i], c.p0.coords()[i]),
        c.val(one_r())[i].is_fin() ==> eq_r(c.val(one_r())[i], c.p1.coords()[i]),
        c.val(half_s())[i].is_fin() ==> rep(
            c.val(half_s())[i],
            c.p0.coords()[i].n() * c.p1.coords()[i].d() + c.p1.coords()[i].n()
                * c.p0.coords()[i].d(),
            2 * (c.p0.coords()[i].d() * c.p1.coords()[i].d()),
        ),
{
    let a = c.p0.coords()[i];
    let b = c.p1.coords()[i];
    let s = sub_r(b, a);
    lemma_from_int(0);
    lemma_from_int(1);
    assert(b.d() * a.d() > 0) by (nonlinear_arith)
        requires a.d() > 0 && b.d() > 0,
    ;
    lemma_norm_s(b.n() * a.d() - a.n() * b.d(), b.d() * a.d());
    lemma_sub_rep(b, a, b.n(), b.d(), a.n(), a.d());
    let sn = b.n() * a.d() - a.n() * b.d();
    let sd = b.d() * a.d();

    // value at zero: the difference vanishes and adding zero reduces p0
    assert(c.val(zero_r())[i] == bez1_at(a, b, zero_r()));
    lemma_mul_zero(s);
    assert(add_r(a, zero_r()) == norm_s(a.n() * 1 + 0 * a.d(), a.d() * 1));
    assert(a.n() * 1 + 0 * a.d() == a.n() && a.d() * 1 == a.d()) by (nonlinear_arith);
    lemma_norm_s(a.n(), a.d());
    assert(c.val(zero_r())[i].is_fin() && eq_r(c.val(zero_r())[i], a));

    // value at one: p0 plus the whole difference denotes p1
    assert(c.val(one_r())[i] == bez1_at(a, b, one_r()));
    let m1 = mul_r(s, one_r());
    if add_r(a, m1).is_fin() {
        assert(m1 == norm_s(s.n() * 1, s.d() * 1));
        assert(s.n() * 1 == s.n() && s.d() * 1 == s.d()) by (nonlinear_arith);
        lemma_norm_s(s.n(), s.d());
        assert(m1.is_fin());
        lemma_mul_rep(s, one_r(), sn, sd, 1, 1);
        crate::rat::lemma_add_rep(a, m1, a.n(), a.d(), sn * 1, sd * 1);
        let rn = a.n() * (sd * 1) + (sn * 1) * a.d();
        let rd = a.d() * (sd * 1);
        lemma_cmp_rep(add_r(a, m1), b, rn, rd, b.n(), b.d());
        assert(rn * b.d() == b.n() * rd) by (nonlinear_arith)
            requires
                rn == a.n() * ((b.d() * a.d()) * 1) + ((b.n() * a.d() - a.n() * b.d()) * 1)
                    * a.d(),
                rd == a.d() * ((b.d() * a.d()) * 1),
        ;
    }

    // value at one half: p0 plus half the difference denotes the midpoint
    assert(c.val(half_s())[i] == bez1_at(a, b, half_s()));
    let mh = mul_r(s, half_s());
    if add_r(a, mh).is_fin() {
        assert(two_s() == norm_s(1int * 1 + 1int * 1, 1int * 1));
        lemma_norm_den1(2);
        lemma_from_int(2);
        assert(two_s() == from_int_r(2));
        assert(div_r(one_r(), two_s()).is_fin()) by {
            assert(half_s() == norm_s(1int * 1, 1int * 2));
            lemma_norm_s(1, 2);
            assert(1int * 1 == 1 && 1int * 2 == 2) by (nonlinear_arith);
        }
        lemma_div_rep(one_r(), two_s(), 1, 1, 2, 1);
        assert(rep(half_s(), 1int * 1, 1int * 2));
        lemma_mul_rep(s, half_s(), sn, sd, 1int * 1, 1int * 2);
        crate::rat::lemma_add_rep(a, mh, a.n(), a.d(), sn * (1int * 1), sd * (1int * 2));
        let rn = a.n() * (sd * (1int * 2)) + (sn * (1int * 1)) * a.d();
        let rd = a.d() * (sd * (1int * 2));
        let tn = a.n() * b.d() + b.n() * a.d();
        let td = 2 * (a.d() * b.d());
        assert(rn * td == tn * rd && td > 0) by (nonlinear_arith)
            requires
                rn == a.n() * ((b.d() * a.d()) * (1 * 2)) + ((b.n() * a.d() - a.n() * b.d()) * (1
                    * 1)) * a.d(),
                rd == a.d() * ((b.d() * a.d()) * (1 * 2)),
                tn == a.n() * b.d() + b.n() * a.d(),
                td == 2 * (a.d() * b.d()),
                a.d() > 0,
                b.d() > 0,
        ;
        lemma_rep_equiv(add_r(a, mh), rn, rd, tn, td);
    }
}

} // verus!
