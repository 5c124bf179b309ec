//! SmoothArray is a data structure that allows to interpolate values between
//! data points.  Indexes are in range 0.0..=1.0.
//!
//! The array stores one sample per implicit position `i / (len - 1)`; only
//! the values are stored.  `line` writes a linear interpolation over a range
//! of samples; `value_at` and `tangent_at` read back interpolated values and
//! finite-difference derivatives.

use crate::rat::{
    add_r, ceil_r, clamp_r, div_r, floor_r, fract_r, from_int_r, le_r, lemma_floor_ceil_nonneg,
    lemma_floor_in, lemma_from_int, lemma_mul_nonneg, lemma_norm_den1, lt_r, max_r, min_r, mul_r,
    nonfin, one_r, sub_r, zero_r, Rat, RAT_LIM,
};
use vstd::prelude::*;

verus! {

/// The number of samples, as a rational: `len / 1`.
pub open spec fn len_r(data: Seq<Rat>) -> Rat {
    from_int_r(data.len() as int)
}

/// The last valid array index, as a rational: `len - 1`.
pub open spec fn last_idx_s(data: Seq<Rat>) -> Rat {
    sub_r(len_r(data), one_r())
}

/// A position in `[0, 1]` mapped to the (possibly fractional) array index.
pub open spec fn to_idx_s(data: Seq<Rat>, index: Rat) -> Rat {
    mul_r(index, last_idx_s(data))
}

/// The interpolated sample at a (possibly fractional) array index, clamped
/// into the valid range: `v1 + (v2 - v1) * fract` between the two bracketing
/// samples.  A non-finite index reads as the non-finite value.
pub open spec fn val_scaled_s(data: Seq<Rat>, i: Rat) -> Rat {
    let ic = clamp_r(i, zero_r(), last_idx_s(data));
    if ic.is_fin() {
        let f = fract_r(ic);
        let v1 = data[floor_r(ic)];
        let v2 = data[ceil_r(ic)];
        add_r(v1, mul_r(sub_r(v2, v1), f))
    } else {
        nonfin()
    }
}

/// What `value_at` returns.
pub open spec fn value_at_s(data: Seq<Rat>, index: Rat) -> Rat {
    val_scaled_s(data, to_idx_s(data, index))
}

/// What `tangent_at` returns: a central (or one-sided, at the boundary)
/// finite difference, normalized back into position-space units.
pub open spec fn tangent_at_s(data: Seq<Rat>, index: Rat) -> Rat {
    let i = to_idx_s(data, index);
    let i1 = max_r(sub_r(i, one_r()), zero_r());
    let i2 = min_r(add_r(i, one_r()), last_idx_s(data));
    let v1 = val_scaled_s(data, i1);
    let v2 = val_scaled_s(data, i2);
    let dl = div_r(sub_r(i2, i1), last_idx_s(data));
    div_r(sub_r(v2, v1), dl)
}

/// The value `line` writes at array index `k`: the interpolation between
/// `v1` and `v2` at fraction `(k - i1s) * idi`.
pub open spec fn line_val_s(i1s: Rat, idi: Rat, v1: Rat, v2: Rat, k: int) -> Rat {
    let f = mul_r(sub_r(from_int_r(k), i1s), idi);
    add_r(mul_r(v1, sub_r(one_r(), f)), mul_r(v2, f))
}

/// What `line` leaves in the array: every sample from the ceiling of the
/// scaled start position through the end of the array is overwritten with
/// the interpolated value; nothing is written when the scaled start position
/// is non-finite.
pub open spec fn line_s(data: Seq<Rat>, i1: Rat, v1: Rat, i2: Rat, v2: Rat) -> Seq<Rat> {
    let i1s = to_idx_s(data, i1);
    let i2s = to_idx_s(data, i2);
    let idi = div_r(one_r(), sub_r(i2s, i1s));
    if i1s.is_fin() {
        Seq::new(
            data.len(),
            |k: int|
                if ceil_r(i1s) <= k {
                    line_val_s(i1s, idi, v1, v2, k)
                } else {
                    data[k]
                },
        )
    } else {
        data
    }
}

/// SmoothArray is a data structure that allows to interpolate values between
/// data points.  Indexes are in range 0.0..=1.0.
pub struct SmoothArray {
    data: Vec<Rat>,
}

impl View for SmoothArray {
    type V = Seq<Rat>;

    closed spec fn view(&self) -> Seq<Rat> {
        self.data@
    }
}

impl SmoothArray {
    #[verifier::type_invariant]
    spec fn array_inv(self) -> bool {
        1 <= self.data@.len() < RAT_LIM as int
    }

    /// A table of `steps_count` samples, all initialized to zero.
    pub fn with_steps_count(steps_count: usize) -> (r: SmoothArray)
        requires
            1 <= steps_count,
            (steps_count as int) < RAT_LIM as int,
        ensures
            r@ == Seq::new(steps_count as nat, |i: int| zero_r()),
    {
        let mut data: Vec<Rat> = Vec::new();
        let mut i: usize = 0;
        while i < steps_count
            invariant
                i <= steps_count,
                data@ =~= Seq::new(i as nat, |j: int| zero_r()),
            decreases steps_count - i,
        {
            data.push(Rat::zero());
            proof {
                assert(data@ =~= Seq::new((i + 1) as nat, |j: int| zero_r()));
            }
            i = i + 1;
        }
        SmoothArray { data }
    }

    /// The sample count, as a rational.
    fn len_rat(&self) -> (r: Rat)
        ensures
            r == len_r(self@),
    {
        proof {
            use_type_invariant(self);
        }
        Rat::of_usize(self.data.len())
    }

    /// The last valid array index, as a rational.
    fn last_index(&self) -> (r: Rat)
        ensures
            r == last_idx_s(self@),
    {
        self.len_rat().minus(Rat::one())
    }

    /// A position in `[0, 1]` mapped to the array-index scale.
    fn to_array_index(&self, index: Rat) -> (r: Rat)
        ensures
            r == to_idx_s(self@, index),
    {
        index.times(self.last_index())
    }

    /// The interpolated sample at a clamped fractional array index.
    fn value_at_scaled_index(&self, i: Rat) -> (r: Rat)
        ensures
            r == val_scaled_s(self@, i),
    {
        proof {
            use_type_invariant(self);
        }
        let last = self.last_index();
        let ic = i.clamp_rat(Rat::zero(), last);
        if !ic.finite() {
            return Rat::non_finite();
        }
        let f = ic.fract_rat();
        let n = self.data.len();
        proof {
            lemma_from_int(0);
            lemma_from_int(1);
            lemma_from_int(n as int);
            lemma_from_int(n as int - 1);
            lemma_norm_den1(n as int - 1);
            assert(last == from_int_r(n as int - 1));
            assert(le_r(from_int_r(0), ic) && le_r(ic, from_int_r(n as int - 1)));
            lemma_floor_in(ic, 0, n as int - 1);
        }
        let i1 = ic.floor_int();
        let i2 = ic.ceil_int();
        let v1 = self.data[i1 as usize];
        let v2 = self.data[i2 as usize];
        v1.plus(v2.minus(v1).times(f))
    }

    /// The interpolated value at a position in `[0, 1]`; positions outside
    /// the range are clamped, and a non-finite position reads as the
    /// non-finite value.
    pub fn value_at(&self, index: Rat) -> (r: Rat)
        ensures
            r == value_at_s(self@, index),
    {
        let i = self.to_array_index(index);
        self.value_at_scaled_index(i)
    }

    /// The finite-difference derivative at a position in `[0, 1]`.
    pub fn tangent_at(&self, index: Rat) -> (r: Rat)
        ensures
            r == tangent_at_s(self@, index),
    {
        let i = self.to_array_index(index);

        let i1 = i.minus(Rat::one()).max_rat(Rat::zero());
        let i2 = i.plus(Rat::one()).min_rat(self.last_index());

        let v1 = self.value_at_scaled_index(i1);
        let v2 = self.value_at_scaled_index(i2);

        let dl = i2.minus(i1).divide(self.last_index());

        v2.minus(v1).divide(dl)
    }

    /// Write a line segment between two `(position, value)` pairs: every
    /// sample from the scaled start position through the end of the array
    /// receives the interpolation between `v1` and `v2`.  Positions are
    /// normalized to `[0, 1]`; the inclusive upper bound guards the last
    /// sample from being skipped when the end position is exactly one.
    #[verifier::loop_isolation(false)]
    pub fn line(&mut self, p1: (Rat, Rat), p2: (Rat, Rat))
        requires
            p1.0.is_fin() ==> le_r(zero_r(), p1.0),
            p2.0.is_fin() ==> le_r(p2.0, one_r()),
        ensures
            final (self)@ == line_s(old(self)@, p1.0, p1.1, p2.0, p2.1),
    {
        proof {
            use_type_invariant(&*self);
        }
        let (i1, v1) = p1;
        let (i2, v2) = p2;
        let i1s = self.to_array_index(i1);
        let i2s = self.to_array_index(i2);

        let idi = Rat::one().divide(i2s.minus(i1s));

        if !i1s.finite() {
            proof {
                assert(self@ =~= line_s(old(self)@, p1.0, p1.1, p2.0, p2.1));
            }
            return;
        }
        proof {
            let len = self@.len() as int;
            lemma_from_int(0);
            lemma_from_int(1);
            lemma_from_int(len);
            lemma_from_int(len - 1);
            lemma_norm_den1(len - 1);
            assert(last_idx_s(self@) == from_int_r(len - 1));
            if i1.is_fin() {
                lemma_mul_nonneg(i1, last_idx_s(self@));
            }
            lemma_floor_ceil_nonneg(i1s);
        }
        let k0 = i1s.ceil_int();
        let hi = (self.data.len() - 1) as i64;
        let ghost data0 = self@;
        let mut k = k0;
        while k <= hi
            invariant
                k0 <= k,
                0 <= k0,
                hi == self@.len() - 1,
                self@.len() == data0.len(),
                1 <= data0.len() < RAT_LIM as int,
                k0 as int == ceil_r(i1s),
                i1s.is_fin(),
                forall|j: int|
                    0 <= j < self@.len() ==> self@[j] == (if k0 as int <= j < k as int {
                        line_val_s(i1s, idi, p1.1, p2.1, j)
                    } else {
                        data0[j]
                    }),
            decreases hi + 1 - k,
        {
            let f = Rat::of_int(k).minus(i1s).times(idi);
            let v = v1.times(Rat::one().minus(f)).plus(v2.times(f));
            proof {
                lemma_from_int(k as int);
                assert(v == line_val_s(i1s, idi, p1.1, p2.1, k as int));
            }
            self.data[k as usize] = v;
            k = k + 1;
        }
        proof {
            assert(self@ =~= line_s(data0, p1.0, p1.1, p2.0, p2.1));
        }
    }
}

} // verus!
