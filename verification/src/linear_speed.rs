//! The same curve as a passed one, but with a linear dependency between the
//! time and the distance.
//!
//! At construction the inner curve is sampled at uniform parameter steps, the
//! chord distances are accumulated, and the pairs (normalized cumulative
//! distance, parameter) are written into a smooth lookup table.  Tangent
//! queries consult the table first, so traversal speed is constant in arc
//! length; positions and endpoints delegate to the inner curve unchanged.

use crate::curve::{Curve, CurveLength};
use crate::distance::Distance;
use crate::point::Point;
use crate::rat::{
    add_r, clamp_r, div_r, from_int_r, le_r, lemma_add_grows, lemma_add_nonneg, lemma_cmp_rep,
    lemma_div_rep, lemma_from_int, lemma_le_trans, lemma_mul_rep, mul_r, one_r, zero_r, Rat,
    RAT_LIM,
};
use crate::smooth_array::{line_s, tangent_at_s, value_at_s, SmoothArray};
use core::marker::PhantomData;
use vstd::prelude::*;

verus! {

/// The parameter of the `j`-th sample: `j * (1 / steps_count)`, with the
/// first sample taken exactly at zero.
pub open spec fn step_t_of(steps_count: usize, j: int) -> Rat {
    if j == 0 {
        zero_r()
    } else {
        mul_r(from_int_r(j), div_r(one_r(), from_int_r(steps_count as int)))
    }
}

/// The coordinates of the `j`-th sample of the inner curve.
pub open spec fn point_at<P: Point, C: Curve<P>>(c: C, steps_count: usize, j: int) -> Seq<Rat> {
    c.val(step_t_of(steps_count, j))
}

/// The cumulative chord length over the first `k` sample segments.
pub open spec fn cum_len<P: Point + Distance, C: Curve<P>>(c: C, steps_count: usize, k: int) -> Rat
    decreases k,
{
    if k <= 0 {
        zero_r()
    } else {
        add_r(
            cum_len(c, steps_count, k - 1),
            P::dist_c(point_at(c, steps_count, k - 1), point_at(c, steps_count, k)),
        )
    }
}

/// The lookup table after the first `k` consecutive sample pairs have been
/// written as line segments mapping normalized distance to parameter.
pub open spec fn table_rec<P: Point + Distance, C: Curve<P>>(
    c: C,
    steps_count: usize,
    inv_len: Rat,
    data0: Seq<Rat>,
    k: int,
) -> Seq<Rat>
    decreases k,
{
    if k <= 0 {
        data0
    } else {
        let prev = table_rec(c, steps_count, inv_len, data0, k - 1);
        line_s(
            prev,
            mul_r(cum_len(c, steps_count, k - 1), inv_len),
            step_t_of(steps_count, k - 1),
            mul_r(cum_len(c, steps_count, k), inv_len),
            step_t_of(steps_count, k),
        )
    }
}

/// The same curve as a passed one, but with a linear dependency between the
/// time and the distance.
pub struct LinearSpeed<P: Point + Distance, C: Curve<P>> {
    curve: C,
    length: Rat,
    table: SmoothArray,
    phantom_data: PhantomData<P>,
}

impl<P: Point + Distance, C: Curve<P>> LinearSpeed<P, C> {
    /// The wrapped curve.
    pub closed spec fn inner_curve(&self) -> C {
        self.curve
    }

    /// The cached total length.
    pub closed spec fn cached_len(&self) -> Rat {
        self.length
    }

    /// The samples of the lookup table.
    pub closed spec fn table_view(&self) -> Seq<Rat> {
        self.table@
    }

    /// What construction leaves in the wrapper: the inner curve, the total
    /// accumulated chord length, and the table built from the normalized
    /// sample pairs.
    pub open spec fn built_from(&self, curve: C, table_size: usize, steps_count: usize) -> bool {
        &&& self.inner_curve() == curve
        &&& self.cached_len() == cum_len::<P, C>(curve, steps_count, steps_count as int)
        &&& self.table_view() == table_rec::<P, C>(
            curve,
            steps_count,
            div_r(one_r(), cum_len::<P, C>(curve, steps_count, steps_count as int)),
            Seq::new(table_size as nat, |i: int| zero_r()),
            steps_count as int,
        )
    }

    /// Sample the inner curve at `steps_count + 1` uniform parameters,
    /// accumulate the chord distances, and fill a `table_size`-sample lookup
    /// table mapping normalized distance to parameter.
    #[verifier::loop_isolation(false)]
    pub fn new(curve: C, table_size: usize, steps_count: usize) -> (r: Self)
        requires
            1 <= table_size,
            (table_size as int) < RAT_LIM as int,
            (steps_count as int) < RAT_LIM as int,
            steps_count < usize::MAX,
            forall|j: int|
                0 <= j <= steps_count as int ==> #[trigger] curve.in_dom(
                    step_t_of(steps_count, j),
                ),
        ensures
            r.built_from(curve, table_size, steps_count),
    {
        let mut table = SmoothArray::with_steps_count(table_size);

        proof {
            assert(curve.in_dom(step_t_of(steps_count, 0)));
        }
        let mut last_point = curve.value_at(Rat::zero());
        let mut total_length = Rat::zero();

        let mut t_by_offset: Vec<(Rat, Rat)> = Vec::new();
        t_by_offset.push((Rat::zero(), Rat::zero()));

        let inverted_steps = Rat::one().divide(Rat::of_usize(steps_count));

        let mut i: usize = 1;
        while i <= steps_count
            invariant
                1 <= i <= steps_count + 1,
                total_length == cum_len::<P, C>(curve, steps_count, i as int - 1),
                last_point.coords() == point_at::<P, C>(curve, steps_count, i as int - 1),
                t_by_offset@.len() == i as int,
                forall|j: int|
                    0 <= j < i ==> t_by_offset@[j] == (
                        cum_len::<P, C>(curve, steps_count, j),
                        step_t_of(steps_count, j),
                    ),
            decreases steps_count + 1 - i,
        {
            let iv = Rat::of_usize(i);
            let t = iv.times(inverted_steps);
            proof {
                assert(curve.in_dom(step_t_of(steps_count, i as int)));
            }
            let point = curve.value_at(t);
            let segment_length = last_point.distance(&point);
            total_length = total_length.plus(segment_length);
            t_by_offset.push((total_length, t));
            last_point = point;
            i = i + 1;
        }

        let inverted_length = Rat::one().divide(total_length);

        let ghost data0 = table@;
        let mut w: usize = 0;
        while w + 1 < t_by_offset.len()
            invariant
                0 <= w <= steps_count,
                t_by_offset@.len() == steps_count + 1,
                table@ == table_rec::<P, C>(curve, steps_count, inverted_length, data0, w as int),
            decreases steps_count - w,
        {
            let pair1 = t_by_offset[w];
            let pair2 = t_by_offset[w + 1];
            let (offset1, t1) = pair1;
            let (offset2, t2) = pair2;
            proof {
                lemma_line_bounds::<P, C>(curve, steps_count, w as int, total_length);
            }
            table.line((offset1.times(inverted_length), t1), (offset2.times(inverted_length), t2));
            w = w + 1;
        }

        Self { curve, length: total_length, table, phantom_data: PhantomData }
    }
}

/// The cumulative chord length is nonnegative whenever it is finite, and it
/// only grows with the segment count.
proof fn lemma_cum_len_nonneg<P: Point + Distance, C: Curve<P>>(c: C, steps_count: usize, k: int)
    ensures
        cum_len::<P, C>(c, steps_count, k).is_fin() ==> cum_len::<P, C>(c, steps_count, k).n()
            >= 0,
        cum_len::<P, C>(c, steps_count, k).is_fin() && k >= 1 ==> le_r(
            cum_len::<P, C>(c, steps_count, k - 1),
            cum_len::<P, C>(c, steps_count, k),
        ),
    decreases k,
{
    lemma_from_int(0);
    if k > 0 {
        let prev = cum_len::<P, C>(c, steps_count, k - 1);
        let d = P::dist_c(point_at(c, steps_count, k - 1), point_at(c, steps_count, k));
        lemma_cum_len_nonneg::<P, C>(c, steps_count, k - 1);
        P::dist_c_nonneg(point_at(c, steps_count, k - 1), point_at(c, steps_count, k));
        if cum_len::<P, C>(c, steps_count, k).is_fin() {
            lemma_add_nonneg(prev, d);
            lemma_add_grows(prev, d);
        }
    }
}

/// A normalized offset is a position in `[0, 1]` whenever it is finite: the
/// offsets are nonnegative, grow to the total, and division by the total
/// scales them below one.
proof fn lemma_line_bounds<P: Point + Distance, C: Curve<P>>(
    c: C,
    steps_count: usize,
    w: int,
    total: Rat,
)
    requires
        0 <= w,
        total == cum_len::<P, C>(c, steps_count, steps_count as int),
        w + 1 <= steps_count as int,
    ensures
        mul_r(cum_len::<P, C>(c, steps_count, w), div_r(one_r(), total)).is_fin() ==> le_r(
            zero_r(),
            mul_r(cum_len::<P, C>(c, steps_count, w), div_r(one_r(), total)),
        ),
        mul_r(cum_len::<P, C>(c, steps_count, w + 1), div_r(one_r(), total)).is_fin() ==> le_r(
            mul_r(cum_len::<P, C>(c, steps_count, w + 1), div_r(one_r(), total)),
            one_r(),
        ),
{
    lemma_from_int(0);
    lemma_from_int(1);
    let inv = div_r(one_r(), total);
    let off1 = cum_len::<P, C>(c, steps_count, w);
    let off2 = cum_len::<P, C>(c, steps_count, w + 1);
    lemma_cum_len_nonneg::<P, C>(c, steps_count, w);
    lemma_cum_len_nonneg::<P, C>(c, steps_count, steps_count as int);
    if inv.is_fin() {
        assert(total.is_fin() && total.n() != 0);
        assert(total.n() > 0);
        lemma_div_rep(one_r(), total, 1, 1, total.n(), total.d());
        assert(inv.n() * (1 * total.n()) == (1 * total.d()) * inv.d());
        assert(inv.n() > 0) by (nonlinear_arith)
            requires
                inv.n() * (1 * total.n()) == (1 * total.d()) * inv.d(),
                total.n() > 0,
                total.d() > 0,
                inv.d() > 0,
        ;
    }
    if mul_r(off1, inv).is_fin() {
        crate::rat::lemma_mul_nonneg(off1, inv);
        assert(le_r(zero_r(), mul_r(off1, inv)));
    }
    if mul_r(off2, inv).is_fin() {
        lemma_le_cum(c, steps_count, w + 1, steps_count as int);
        let on = off2.n();
        let od = off2.d();
        lemma_mul_rep(off2, inv, on, od, 1 * total.d(), 1 * total.n());
        lemma_cmp_rep(
            mul_r(off2, inv),
            one_r(),
            on * (1 * total.d()),
            od * (1 * total.n()),
            1,
            1,
        );
        assert(on * (1 * total.d()) * 1 <= 1 * (od * (1 * total.n()))) by (nonlinear_arith)
            requires on * total.d() <= total.n() * od,
        ;
    }
}

/// Every prefix of the accumulated length is at most the whole, as long as
/// the whole is finite.
proof fn lemma_le_cum<P: Point + Distance, C: Curve<P>>(c: C, steps_count: usize, j: int, k: int)
    requires
        0 <= j <= k,
        cum_len::<P, C>(c, steps_count, j).is_fin(),
        cum_len::<P, C>(c, steps_count, k).is_fin(),
    ensures
        le_r(cum_len::<P, C>(c, steps_count, j), cum_len::<P, C>(c, steps_count, k)),
    decreases k - j,
{
    lemma_from_int(0);
    if j == k {
        assert(le_r(cum_len::<P, C>(c, steps_count, j), cum_len::<P, C>(c, steps_count, k)));
    } else {
        lemma_cum_len_nonneg::<P, C>(c, steps_count, k);
        assert(cum_len::<P, C>(c, steps_count, k - 1).is_fin());
        lemma_le_cum::<P, C>(c, steps_count, j, k - 1);
        lemma_le_trans(
            cum_len::<P, C>(c, steps_count, j),
            cum_len::<P, C>(c, steps_count, k - 1),
            cum_len::<P, C>(c, steps_count, k),
        );
    }
}

impl<P: Point + Distance, C: Curve<P>> Curve<P> for LinearSpeed<P, C> {
    /// Queries are defined where the inner curve accepts both the raw
    /// parameter and the retimed parameter the table gives for it.
    closed spec fn in_dom(&self, t: Rat) -> bool {
        &&& self.curve.in_dom(t)
        &&& self.curve.in_dom(value_at_s(self.table@, clamp_r(t, zero_r(), one_r())))
    }

    closed spec fn val(&self, t: Rat) -> Seq<Rat> {
        self.curve.val(t)
    }

    closed spec fn tan(&self, t: Rat) -> Seq<Rat> {
        let tc = clamp_r(t, zero_r(), one_r());
        let t2 = value_at_s(self.table@, tc);
        Seq::new(
            P::dim(),
            |i: int| mul_r(self.curve.tan(t2)[i], tangent_at_s(self.table@, t2)),
        )
    }

    closed spec fn start_c(&self) -> Seq<Rat> {
        self.curve.start_c()
    }

    closed spec fn end_c(&self) -> Seq<Rat> {
        self.curve.end_c()
    }

    fn value_at(&self, t: Rat) -> (r: P) {
        self.curve.value_at(t)
    }

    fn tangent_at(&self, t: Rat) -> (r: P) {
        let t = t.clamp_rat(Rat::zero(), Rat::one());
        let t = self.table.value_at(t);
        self.curve.tangent_at(t).scale(self.table.tangent_at(t))
    }

    fn start_point(&self) -> (r: P) {
        self.curve.start_point()
    }

    fn end_point(&self) -> (r: P) {
        self.curve.end_point()
    }
}

impl<P: Point + Distance, C: Curve<P>> CurveLength<P> for LinearSpeed<P, C> {
    /// The cached total length; the precision argument is ignored, the
    /// length is fixed once the table is built.
    closed spec fn elen(&self, precision: Rat) -> Rat {
        self.length
    }

    fn estimate_length(&self, _precision: Rat) -> (r: Rat) {
        self.length
    }
}

/// Two wrappers built from the same inner curve and the same parameters
/// carry the same cached length, the same table, and answer every query
/// alike.
pub proof fn lemma_linear_speed_idempotent<P: Point + Distance, C: Curve<P>>(
    a: &LinearSpeed<P, C>,
    b: &LinearSpeed<P, C>,
    curve: C,
    table_size: usize,
    steps_count: usize,
)
    requires
        a.built_from(curve, table_size, steps_count),
        b.built_from(curve, table_size, steps_count),
    ensures
        a.cached_len() == b.cached_len(),
        a.table_view() == b.table_view(),
        forall|t: Rat| a.tan(t) == b.tan(t),
        forall|t: Rat| a.val(t) == b.val(t),
        forall|precision: Rat| #[trigger] a.elen(precision) == b.elen(precision),
{
    assert forall|t: Rat| a.tan(t) == b.tan(t) by {
        assert(a.tan(t) =~= b.tan(t));
    }
}

} // verus!
