//! Exact rational scalars with a designated non-finite value.
//!
//! A `Rat` is either a finite fraction `num / den` with `den > 0` and both
//! magnitudes below `RAT_LIM`, or the single non-finite value (written with
//! `den == 0`).  Arithmetic is exact: every operation reduces its result by a
//! greatest common divisor and yields the non-finite value when an operand is
//! non-finite, when dividing by zero, or when the reduced result would not
//! fit the representation.  The non-finite value propagates through all
//! operations, the way floating-point infinities and NaNs do.

use vstd::arithmetic::div_mod::{
    lemma_fundamental_div_mod, lemma_fundamental_div_mod_converse_div,
    lemma_mod_division_less_than_divisor,
};
use vstd::math::abs;
use vstd::prelude::*;

verus! {

/// Magnitude bound on numerators and denominators of finite values: 2^62,
/// chosen so that a product of two in-range magnitudes fits in an `i128`.
pub const RAT_LIM: i64 = 0x4000_0000_0000_0000;

/// An exact rational scalar, or the non-finite value.
#[derive(Clone, Copy, Debug, PartialEq, Eq, Structural)]
pub struct Rat {
    num: i64,
    den: i64,
}

impl Rat {
    /// The numerator, as a mathematical integer.
    pub closed spec fn n(self) -> int {
        self.num as int
    }

    /// The denominator, as a mathematical integer; `0` marks the non-finite value.
    pub closed spec fn d(self) -> int {
        self.den as int
    }

    /// A value is finite when its denominator is positive.
    pub open spec fn is_fin(self) -> bool {
        self.d() > 0
    }

    /// Every exec value satisfies this bound; recover it with
    /// `use_type_invariant`.
    #[verifier::type_invariant]
    pub open spec fn rat_inv(self) -> bool {
        &&& 0 <= self.d() < RAT_LIM as int
        &&& -(RAT_LIM as int) < self.n() < RAT_LIM as int
        &&& self.d() == 0 ==> self.n() == 0
    }
}

/// The non-finite value.
pub closed spec fn nonfin() -> Rat {
    Rat { num: 0, den: 0 }
}

/// The finite value `n / 1`, or non-finite when `n` is out of range.
pub closed spec fn from_int_r(n: int) -> Rat {
    if -(RAT_LIM as int) < n < RAT_LIM as int {
        Rat { num: n as i64, den: 1 }
    } else {
        nonfin()
    }
}

pub open spec fn zero_r() -> Rat {
    from_int_r(0)
}

pub open spec fn one_r() -> Rat {
    from_int_r(1)
}

/// Euclid's greatest common divisor.
pub open spec fn gcd_s(a: nat, b: nat) -> nat
    decreases b,
{
    if b == 0 {
        a
    } else {
        gcd_s(b, a % b)
    }
}

/// `f` divides `x`.
pub open spec fn divides(f: int, x: int) -> bool {
    exists|k: int| x == #[trigger] (k * f)
}

/// The reduced rational of the fraction `n / d`, or non-finite when `d <= 0`
/// or the reduced fraction does not fit the representation.
pub closed spec fn norm_s(n: int, d: int) -> Rat {
    if d <= 0 {
        nonfin()
    } else {
        let g = gcd_s(abs(n), d as nat) as int;
        let n2 = n / g;
        let d2 = d / g;
        if -(RAT_LIM as int) < n2 < RAT_LIM as int && d2 < RAT_LIM as int {
            Rat { num: n2 as i64, den: d2 as i64 }
        } else {
            nonfin()
        }
    }
}

proof fn lemma_gcd_divides(a: nat, b: nat)
    ensures
        divides(gcd_s(a, b) as int, a as int),
        divides(gcd_s(a, b) as int, b as int),
        a > 0 || b > 0 ==> gcd_s(a, b) > 0,
    decreases b,
{
    if b == 0 {
        assert(a as int == 1 * (a as int)) by (nonlinear_arith);
        assert(b as int == 0 * (gcd_s(a, b) as int)) by (nonlinear_arith)
            requires b == 0,
        ;
    } else {
        lemma_mod_division_less_than_divisor(a as int, b as int);
        lemma_gcd_divides(b, a % b);
        let g = gcd_s(b, (a % b) as nat) as int;
        let kb = choose|k: int| b as int == #[trigger] (k * g);
        let kr = choose|k: int| (a % b) as int == #[trigger] (k * g);
        lemma_fundamental_div_mod(a as int, b as int);
        assert(a as int == b as int * (a as int / b as int) + (a as int % b as int));
        assert(a as int == (kb * (a as int / b as int) + kr) * g) by (nonlinear_arith)
            requires
                a as int == b as int * (a as int / b as int) + (a as int % b as int),
                b as int == kb * g,
                (a % b) as int == kr * g,
        ;
    }
}

/// Exact division by a positive common divisor keeps magnitudes and signs:
/// `x / g` is the exact quotient and is no larger in magnitude than `x`.
proof fn lemma_exact_div(x: int, g: int)
    requires
        g >= 1,
        divides(g, x),
    ensures
        x == (x / g) * g,
        abs(x / g) <= abs(x),
        x > 0 ==> x / g > 0,
        x == 0 ==> x / g == 0,
        x < 0 ==> x / g < 0,
{
    let k = choose|k: int| x == #[trigger] (k * g);
    assert((k * g) / g == k) by (nonlinear_arith)
        requires g >= 1,
    {
        vstd::arithmetic::div_mod::lemma_div_multiples_vanish(k, g);
    }
    assert(x / g == k);
    assert(x == (x / g) * g);
    assert(abs(k) <= abs(k * g) && (k * g > 0 ==> k > 0) && (k * g < 0 ==> k < 0) && (k * g == 0
        ==> k == 0)) by (nonlinear_arith)
        requires g >= 1,
    ;
}

/// What reduction guarantees: a finite result of `norm_s(n, d)` denotes
/// exactly `n / d`, and a fraction already within bounds reduces to a finite
/// value that is no larger, component by component.
pub proof fn lemma_norm_s(n: int, d: int)
    requires
        d > 0,
    ensures
        norm_s(n, d).is_fin() ==> norm_s(n, d).n() * d == n * norm_s(n, d).d(),
        norm_s(n, d).is_fin() ==> abs(norm_s(n, d).n()) <= abs(n) && norm_s(n, d).d() <= d,
        norm_s(n, d).is_fin() ==> (n > 0 <==> norm_s(n, d).n() > 0) && (n == 0 <==> norm_s(
            n,
            d,
        ).n() == 0),
        abs(n) < RAT_LIM as int && d < RAT_LIM as int ==> norm_s(n, d).is_fin(),
        norm_s(n, d).rat_inv(),
{
    lemma_gcd_divides(abs(n), d as nat);
    let g = gcd_s(abs(n), d as nat) as int;
    assert(g >= 1);
    assert(divides(g, abs(n) as int));
    assert(divides(g, n)) by {
        let k = choose|k: int| abs(n) as int == #[trigger] (k * g);
        if n >= 0 {
            assert(n == k * g);
        } else {
            assert(n == (-k) * g) by (nonlinear_arith)
                requires abs(n) as int == k * g && n < 0,
            ;
        }
    }
    lemma_exact_div(n, g);
    lemma_exact_div(d, g);
    let n2 = n / g;
    let d2 = d / g;
    assert(n2 * d == n * d2) by (nonlinear_arith)
        requires n == n2 * g && d == d2 * g,
    ;
}

impl Rat {
    /// The non-finite value, which every operation propagates.
    pub fn non_finite() -> (r: Rat)
        ensures r == nonfin(),
    {
        Rat { num: 0, den: 0 }
    }

    /// The integer `n` as a rational, or non-finite when out of range.
    pub fn of_int(n: i64) -> (r: Rat)
        ensures r == from_int_r(n as int),
    {
        if -RAT_LIM < n && n < RAT_LIM {
            Rat { num: n, den: 1 }
        } else {
            Rat { num: 0, den: 0 }
        }
    }

    /// The count `n` as a rational, or non-finite when out of range.
    pub fn of_usize(n: usize) -> (r: Rat)
        ensures r == from_int_r(n as int),
    {
        if (n as u64) < RAT_LIM as u64 {
            Rat { num: n as i64, den: 1 }
        } else {
            Rat { num: 0, den: 0 }
        }
    }

    pub fn zero() -> (r: Rat)
        ensures r == zero_r(),
    {
        Rat { num: 0, den: 1 }
    }

    pub fn one() -> (r: Rat)
        ensures r == one_r(),
    {
        Rat { num: 1, den: 1 }
    }

    /// The reduced value of the fraction `n / d`; non-finite when `d <= 0`.
    pub fn new(n: i64, d: i64) -> (r: Rat)
        ensures r == norm_s(n as int, d as int),
    {
        if d <= 0 {
            Rat { num: 0, den: 0 }
        } else {
            norm_i128(n as i128, d as i128)
        }
    }
}

/// Exact addition; non-finite when an operand is, or when the reduced sum
/// does not fit.
pub open spec fn add_r(a: Rat, b: Rat) -> Rat {
    if a.is_fin() && b.is_fin() {
        norm_s(a.n() * b.d() + b.n() * a.d(), a.d() * b.d())
    } else {
        nonfin()
    }
}

/// Exact subtraction, with the same non-finite rules as `add_r`.
pub open spec fn sub_r(a: Rat, b: Rat) -> Rat {
    if a.is_fin() && b.is_fin() {
        norm_s(a.n() * b.d() - b.n() * a.d(), a.d() * b.d())
    } else {
        nonfin()
    }
}

/// Exact multiplication, with the same non-finite rules as `add_r`.
pub open spec fn mul_r(a: Rat, b: Rat) -> Rat {
    if a.is_fin() && b.is_fin() {
        norm_s(a.n() * b.n(), a.d() * b.d())
    } else {
        nonfin()
    }
}

/// Exact division; non-finite also when the divisor is zero.
pub open spec fn div_r(a: Rat, b: Rat) -> Rat {
    if a.is_fin() && b.is_fin() && b.n() != 0 {
        if b.n() > 0 {
            norm_s(a.n() * b.d(), a.d() * b.n())
        } else {
            norm_s(-(a.n() * b.d()), a.d() * -b.n())
        }
    } else {
        nonfin()
    }
}

/// The absolute value; the non-finite value stays non-finite.
pub closed spec fn abs_r(a: Rat) -> Rat {
    if a.n() < 0 {
        Rat { num: (-a.n()) as i64, den: a.d() as i64 }
    } else {
        a
    }
}

/// Strict order on finite values; false whenever an operand is non-finite.
pub open spec fn lt_r(a: Rat, b: Rat) -> bool {
    a.is_fin() && b.is_fin() && a.n() * b.d() < b.n() * a.d()
}

/// Non-strict order on finite values; false whenever an operand is non-finite.
pub open spec fn le_r(a: Rat, b: Rat) -> bool {
    a.is_fin() && b.is_fin() && a.n() * b.d() <= b.n() * a.d()
}

/// Value equality on finite values; false whenever an operand is non-finite.
pub open spec fn eq_r(a: Rat, b: Rat) -> bool {
    a.is_fin() && b.is_fin() && a.n() * b.d() == b.n() * a.d()
}

/// The smaller argument; a non-finite argument is ignored.
pub open spec fn min_r(a: Rat, b: Rat) -> Rat {
    if !a.is_fin() {
        b
    } else if !b.is_fin() {
        a
    } else if lt_r(b, a) {
        b
    } else {
        a
    }
}

/// The larger argument; a non-finite argument is ignored.
pub open spec fn max_r(a: Rat, b: Rat) -> Rat {
    if !a.is_fin() {
        b
    } else if !b.is_fin() {
        a
    } else if lt_r(a, b) {
        b
    } else {
        a
    }
}

/// Clamp into `[lo, hi]`; the non-finite value stays non-finite.
pub open spec fn clamp_r(x: Rat, lo: Rat, hi: Rat) -> Rat {
    if !x.is_fin() {
        x
    } else if lt_r(x, lo) {
        lo
    } else if lt_r(hi, x) {
        hi
    } else {
        x
    }
}

/// The floor of a finite value (`0` for the non-finite value).
pub open spec fn floor_r(a: Rat) -> int {
    if a.is_fin() {
        a.n() / a.d()
    } else {
        0
    }
}

/// The ceiling of a finite value (`0` for the non-finite value).
pub open spec fn ceil_r(a: Rat) -> int {
    if a.is_fin() {
        -((-a.n()) / a.d())
    } else {
        0
    }
}

/// The fractional part `a - floor(a)`; the non-finite value stays non-finite.
pub open spec fn fract_r(a: Rat) -> Rat {
    if a.is_fin() {
        sub_r(a, from_int_r(floor_r(a)))
    } else {
        nonfin()
    }
}

/// A product of two in-range magnitudes stays well inside `i128`.
proof fn lemma_mul_bounds(a: int, b: int)
    requires
        -(RAT_LIM as int) < a < RAT_LIM as int,
        -(RAT_LIM as int) < b < RAT_LIM as int,
    ensures
        -0x1000_0000_0000_0000_0000_0000_0000_0000 < a * b
            < 0x1000_0000_0000_0000_0000_0000_0000_0000,
        a > 0 && b > 0 ==> a * b > 0,
        a > 0 && b < 0 ==> a * b < 0,
        a < 0 && b > 0 ==> a * b < 0,
        a == 0 || b == 0 ==> a * b == 0,
{
    assert((-0x1000_0000_0000_0000_0000_0000_0000_0000 < a * b
        < 0x1000_0000_0000_0000_0000_0000_0000_0000) && (a > 0 && b > 0 ==> a * b > 0) && (a > 0
        && b < 0 ==> a * b < 0) && (a < 0 && b > 0 ==> a * b < 0) && (a == 0 || b == 0 ==> a * b
        == 0)) by (nonlinear_arith)
        requires
            -(RAT_LIM as int) < a < RAT_LIM as int,
            -(RAT_LIM as int) < b < RAT_LIM as int,
    ;
}

impl Rat {
    /// Exact sum, mirroring `add_r`.
    pub fn plus(self, other: Rat) -> (r: Rat)
        ensures r == add_r(self, other),
    {
        proof {
            use_type_invariant(&self);
            use_type_invariant(&other);
            lemma_mul_bounds(self.n(), other.d());
            lemma_mul_bounds(other.n(), self.d());
            lemma_mul_bounds(self.n(), other.n());
            lemma_mul_bounds(self.d(), other.d());
            lemma_mul_bounds(self.d(), other.n());
        }
        if self.den == 0 || other.den == 0 {
            Rat { num: 0, den: 0 }
        } else {
            let nn = self.num as i128 * other.den as i128 + other.num as i128 * self.den as i128;
            let dd = self.den as i128 * other.den as i128;
            norm_i128(nn, dd)
        }
    }

    /// Exact difference, mirroring `sub_r`.
    pub fn minus(self, other: Rat) -> (r: Rat)
        ensures r == sub_r(self, other),
    {
        proof {
            use_type_invariant(&self);
            use_type_invariant(&other);
            lemma_mul_bounds(self.n(), other.d());
            lemma_mul_bounds(other.n(), self.d());
            lemma_mul_bounds(self.n(), other.n());
            lemma_mul_bounds(self.d(), other.d());
            lemma_mul_bounds(self.d(), other.n());
        }
        if self.den == 0 || other.den == 0 {
            Rat { num: 0, den: 0 }
        } else {
            let nn = self.num as i128 * other.den as i128 - other.num as i128 * self.den as i128;
            let dd = self.den as i128 * other.den as i128;
            norm_i128(nn, dd)
        }
    }

    /// Exact product, mirroring `mul_r`.
    pub fn times(self, other: Rat) -> (r: Rat)
        ensures r == mul_r(self, other),
    {
        proof {
            use_type_invariant(&self);
            use_type_invariant(&other);
            lemma_mul_bounds(self.n(), other.d());
            lemma_mul_bounds(other.n(), self.d());
            lemma_mul_bounds(self.n(), other.n());
            lemma_mul_bounds(self.d(), other.d());
            lemma_mul_bounds(self.d(), other.n());
        }
        if self.den == 0 || other.den == 0 {
            Rat { num: 0, den: 0 }
        } else {
            let nn = self.num as i128 * other.num as i128;
            let dd = self.den as i128 * other.den as i128;
            norm_i128(nn, dd)
        }
    }

    /// Exact quotient, mirroring `div_r`.
    pub fn divide(self, other: Rat) -> (r: Rat)
        ensures r == div_r(self, other),
    {
        proof {
            use_type_invariant(&self);
            use_type_invariant(&other);
            lemma_mul_bounds(self.n(), other.d());
            lemma_mul_bounds(other.n(), self.d());
            lemma_mul_bounds(self.n(), other.n());
            lemma_mul_bounds(self.d(), other.d());
            lemma_mul_bounds(self.d(), other.n());
        }
        if self.den == 0 || other.den == 0 || other.num == 0 {
            Rat { num: 0, den: 0 }
        } else {
            let nn = self.num as i128 * other.den as i128;
            let dd = self.den as i128 * other.num as i128;
            if other.num > 0 {
                norm_i128(nn, dd)
            } else {
                proof {
                    assert(self.d() * -other.n() == -(self.d() * other.n())) by (nonlinear_arith);
                }
                norm_i128(-nn, -dd)
            }
        }
    }

    /// Absolute value, mirroring `abs_r`.
    pub fn abs_rat(self) -> (r: Rat)
        ensures r == abs_r(self),
    {
        proof {
            use_type_invariant(&self);
        }
        if self.num < 0 {
            Rat { num: -self.num, den: self.den }
        } else {
            self
        }
    }

    /// Strict comparison, mirroring `lt_r`.
    pub fn lt(self, other: Rat) -> (r: bool)
        ensures r == lt_r(self, other),
    {
        proof {
            use_type_invariant(&self);
            use_type_invariant(&other);
            lemma_mul_bounds(self.n(), other.d());
            lemma_mul_bounds(other.n(), self.d());
            lemma_mul_bounds(self.n(), other.n());
            lemma_mul_bounds(self.d(), other.d());
            lemma_mul_bounds(self.d(), other.n());
        }
        self.den != 0 && other.den != 0 && (self.num as i128 * other.den as i128) < (
        other.num as i128 * self.den as i128)
    }

    /// Non-strict comparison, mirroring `le_r`.
    pub fn le(self, other: Rat) -> (r: bool)
        ensures r == le_r(self, other),
    {
        proof {
            use_type_invariant(&self);
            use_type_invariant(&other);
            lemma_mul_bounds(self.n(), other.d());
            lemma_mul_bounds(other.n(), self.d());
            lemma_mul_bounds(self.n(), other.n());
            lemma_mul_bounds(self.d(), other.d());
            lemma_mul_bounds(self.d(), other.n());
        }
        self.den != 0 && other.den != 0 && self.num as i128 * other.den as i128 <= other.num as i128
            * self.den as i128
    }

    /// Value equality, mirroring `eq_r`: equality of finite values, and false
    /// whenever an operand is non-finite.
    pub fn eq_rat(self, other: Rat) -> (r: bool)
        ensures r == eq_r(self, other),
    {
        proof {
            use_type_invariant(&self);
            use_type_invariant(&other);
            lemma_mul_bounds(self.n(), other.d());
            lemma_mul_bounds(other.n(), self.d());
            lemma_mul_bounds(self.n(), other.n());
            lemma_mul_bounds(self.d(), other.d());
            lemma_mul_bounds(self.d(), other.n());
        }
        self.den != 0 && other.den != 0 && self.num as i128 * other.den as i128 == other.num as i128
            * self.den as i128
    }

    /// Whether the value is finite.
    pub fn finite(self) -> (r: bool)
        ensures r == self.is_fin(),
    {
        proof {
            use_type_invariant(&self);
        }
        self.den != 0
    }

    /// Whether the value is the finite zero.
    pub fn is_zero(self) -> (r: bool)
        ensures r == (self.is_fin() && self.n() == 0),
    {
        proof {
            use_type_invariant(&self);
        }
        self.den != 0 && self.num == 0
    }

    /// The smaller value, mirroring `min_r`.
    pub fn min_rat(self, other: Rat) -> (r: Rat)
        ensures r == min_r(self, other),
    {
        if !self.finite() {
            other
        } else if !other.finite() {
            self
        } else if other.lt(self) {
            other
        } else {
            self
        }
    }

    /// The larger value, mirroring `max_r`.
    pub fn max_rat(self, other: Rat) -> (r: Rat)
        ensures r == max_r(self, other),
    {
        if !self.finite() {
            other
        } else if !other.finite() {
            self
        } else if self.lt(other) {
            other
        } else {
            self
        }
    }

    /// Clamp into `[lo, hi]`, mirroring `clamp_r`.
    pub fn clamp_rat(self, lo: Rat, hi: Rat) -> (r: Rat)
        ensures r == clamp_r(self, lo, hi),
    {
        if !self.finite() {
            self
        } else if self.lt(lo) {
            lo
        } else if hi.lt(self) {
            hi
        } else {
            self
        }
    }

    /// The floor as an integer, mirroring `floor_r`.
    pub fn floor_int(self) -> (r: i64)
        ensures r as int == floor_r(self),
    {
        proof {
            use_type_invariant(&self);
        }
        if self.den == 0 {
            0
        } else if self.num >= 0 {
            proof {
                lemma_nonneg_div(self.num as int, self.den as int);
            }
            self.num / self.den
        } else {
            let m = ((-(self.num as i128)) as u128 as u64).wrapping_add(self.den as u64 - 1)
                / self.den as u64;
            proof {
                lemma_floor_neg(-(self.num as int), self.den as int);
                lemma_nonneg_div(-(self.num as int) + self.den as int - 1, self.den as int);
            }
            -(m as i64)
        }
    }

    /// The ceiling as an integer, mirroring `ceil_r`.
    pub fn ceil_int(self) -> (r: i64)
        ensures r as int == ceil_r(self),
    {
        proof {
            use_type_invariant(&self);
        }
        if self.den == 0 {
            0
        } else if self.num >= 0 {
            let m = (self.num as u64).wrapping_add(self.den as u64 - 1) / self.den as u64;
            proof {
                lemma_floor_neg(self.num as int, self.den as int);
                lemma_nonneg_div(self.num as int + self.den as int - 1, self.den as int);
            }
            m as i64
        } else {
            proof {
                lemma_nonneg_div(-(self.num as int), self.den as int);
            }
            -((-self.num) / self.den)
        }
    }

    /// The numerator of the stored fraction.
    pub fn numer(self) -> (r: i64)
        ensures r as int == self.n(),
    {
        self.num
    }

    /// The denominator of the stored fraction; zero for the non-finite value.
    pub fn denom(self) -> (r: i64)
        ensures r as int == self.d(),
    {
        self.den
    }

    /// The fractional part, mirroring `fract_r`.
    pub fn fract_rat(self) -> (r: Rat)
        ensures r == fract_r(self),
    {
        proof {
            use_type_invariant(&self);
        }
        if self.den == 0 {
            Rat { num: 0, den: 0 }
        } else {
            self.minus(Rat::of_int(self.floor_int()))
        }
    }
}

/// For nonnegative `x` and positive `d`, mathematical division is the
/// truncating division the machine performs.
proof fn lemma_nonneg_div(x: int, d: int)
    requires
        x >= 0,
        d > 0,
    ensures
        0 <= x / d <= x,
{
    vstd::arithmetic::div_mod::lemma_div_pos_is_pos(x, d);
    vstd::arithmetic::div_mod::lemma_div_nonincreasing(x, d);
}

/// For nonnegative `x` and positive `d`: `-x` divided by `d` rounds away
/// from zero exactly as the ceiling of `x / d` does.
proof fn lemma_floor_neg(x: int, d: int)
    requires
        x >= 0,
        d > 0,
    ensures
        (-x) / d == -((x + d - 1) / d),
{
    let q = x / d;
    let r = x % d;
    lemma_fundamental_div_mod(x, d);
    lemma_mod_division_less_than_divisor(x, d);
    if r == 0 {
        assert(x + d - 1 == q * d + (d - 1) && -x == (-q) * d + 0) by (nonlinear_arith)
            requires x == d * q,
        ;
        lemma_fundamental_div_mod_converse_div(x + d - 1, d, q, d - 1);
        lemma_fundamental_div_mod_converse_div(-x, d, -q, 0);
    } else {
        assert(x + d - 1 == (q + 1) * d + (r - 1) && -x == (-q - 1) * d + (d - r))
            by (nonlinear_arith)
            requires x == d * q + r,
        ;
        lemma_fundamental_div_mod_converse_div(x + d - 1, d, q + 1, r - 1);
        lemma_fundamental_div_mod_converse_div(-x, d, -q - 1, d - r);
    }
}

/// `a` is finite and denotes the fraction `n / d`.
pub open spec fn rep(a: Rat, n: int, d: int) -> bool {
    d > 0 && a.is_fin() && a.n() * d == n * a.d()
}

/// Cancellation of a positive common factor.
proof fn lemma_cancel(x: int, y: int, c: int)
    requires
        c > 0,
        x * c == y * c,
    ensures
        x == y,
{
    assert(x == y) by (nonlinear_arith)
        requires c > 0 && x * c == y * c,
    ;
}

/// Integers in range convert exactly; out of range they convert to the
/// non-finite value.
pub proof fn lemma_from_int(n: int)
    ensures
        -(RAT_LIM as int) < n < RAT_LIM as int ==> from_int_r(n).is_fin() && from_int_r(n).n()
            == n && from_int_r(n).d() == 1 && rep(from_int_r(n), n, 1),
        !(-(RAT_LIM as int) < n < RAT_LIM as int) ==> from_int_r(n) == nonfin(),
        !nonfin().is_fin(),
        from_int_r(n).rat_inv(),
        nonfin().rat_inv(),
{
    if -(RAT_LIM as int) < n < RAT_LIM as int {
        assert(from_int_r(n).n() * 1 == n * from_int_r(n).d()) by (nonlinear_arith)
            requires from_int_r(n).n() == n && from_int_r(n).d() == 1,
        ;
    }
}

/// The absolute value keeps the denominator and takes the numerator's
/// magnitude; nonnegative values pass through unchanged.
pub proof fn lemma_abs_r(a: Rat)
    requires
        -(RAT_LIM as int) < a.n() < RAT_LIM as int,
    ensures
        abs_r(a).d() == a.d(),
        abs_r(a).n() == abs(a.n()),
        a.n() >= 0 ==> abs_r(a) == a,
{
}

/// Transitivity of cross-multiplication equality of fractions through a
/// positive middle denominator.
proof fn lemma_frac_trans(an: int, ad: int, bn: int, bd: int, cn: int, cd: int)
    requires
        bd > 0,
        an * bd == bn * ad,
        bn * cd == cn * bd,
    ensures
        an * cd == cn * ad,
{
    assert((an * cd) * bd == (cn * ad) * bd) by (nonlinear_arith)
        requires
            an * bd == bn * ad,
            bn * cd == cn * bd,
    ;
    lemma_cancel(an * cd, cn * ad, bd);
}

/// A fraction over denominator one reduces to the integer itself.
pub proof fn lemma_norm_den1(x: int)
    ensures
        norm_s(x, 1) == from_int_r(x),
{
    lemma_mod_division_less_than_divisor(abs(x) as int, 1);
    assert(gcd_s(abs(x), 1) == gcd_s(1, 0));
    vstd::arithmetic::div_mod::lemma_div_basics(x);
    vstd::arithmetic::div_mod::lemma_div_basics(1);
}

/// A finite product of nonnegative finite factors is nonnegative.
pub proof fn lemma_mul_nonneg(a: Rat, b: Rat)
    requires
        a.is_fin(),
        b.is_fin(),
        a.n() >= 0,
        b.n() >= 0,
        mul_r(a, b).is_fin(),
    ensures
        mul_r(a, b).n() >= 0,
{
    assert(a.n() * b.n() >= 0 && a.d() * b.d() > 0) by (nonlinear_arith)
        requires a.n() >= 0 && b.n() >= 0 && a.d() > 0 && b.d() > 0,
    ;
    lemma_norm_s(a.n() * b.n(), a.d() * b.d());
}

/// The floor and the ceiling of a finite value lie between any two integer
/// bounds the value lies between.
pub proof fn lemma_floor_in(a: Rat, lo: int, hi: int)
    requires
        a.is_fin(),
        -(RAT_LIM as int) < lo < RAT_LIM as int,
        -(RAT_LIM as int) < hi < RAT_LIM as int,
        le_r(from_int_r(lo), a),
        le_r(a, from_int_r(hi)),
    ensures
        lo <= floor_r(a) <= hi,
        lo <= ceil_r(a) <= hi,
{
    lemma_from_int(lo);
    lemma_from_int(hi);
    assert(a.n() >= lo * a.d() && a.n() <= hi * a.d());
    vstd::arithmetic::div_mod::lemma_div_is_ordered(lo * a.d(), a.n(), a.d());
    vstd::arithmetic::div_mod::lemma_div_is_ordered(a.n(), hi * a.d(), a.d());
    vstd::arithmetic::div_mod::lemma_div_multiples_vanish(lo, a.d());
    vstd::arithmetic::div_mod::lemma_div_multiples_vanish(hi, a.d());
    assert(lo * a.d() == a.d() * lo && hi * a.d() == a.d() * hi) by (nonlinear_arith);
    assert(lo <= floor_r(a) <= hi);
    assert(-a.n() >= a.d() * (-hi) && -a.n() <= a.d() * (-lo)) by (nonlinear_arith)
        requires a.n() >= lo * a.d() && a.n() <= hi * a.d(),
    ;
    vstd::arithmetic::div_mod::lemma_div_is_ordered(a.d() * (-hi), -a.n(), a.d());
    vstd::arithmetic::div_mod::lemma_div_is_ordered(-a.n(), a.d() * (-lo), a.d());
    vstd::arithmetic::div_mod::lemma_div_multiples_vanish(-lo, a.d());
    vstd::arithmetic::div_mod::lemma_div_multiples_vanish(-hi, a.d());
}

/// A finite sum of nonnegative finite terms is nonnegative.
pub proof fn lemma_add_nonneg(a: Rat, b: Rat)
    requires
        a.is_fin(),
        b.is_fin(),
        a.n() >= 0,
        b.n() >= 0,
        add_r(a, b).is_fin(),
    ensures
        add_r(a, b).n() >= 0,
{
    assert(a.n() * b.d() + b.n() * a.d() >= 0 && a.d() * b.d() > 0) by (nonlinear_arith)
        requires a.n() >= 0 && b.n() >= 0 && a.d() > 0 && b.d() > 0,
    ;
    lemma_norm_s(a.n() * b.d() + b.n() * a.d(), a.d() * b.d());
}

/// Adding a nonnegative finite term does not decrease a finite value.
pub proof fn lemma_add_grows(a: Rat, b: Rat)
    requires
        a.is_fin(),
        b.is_fin(),
        b.n() >= 0,
        add_r(a, b).is_fin(),
    ensures
        le_r(a, add_r(a, b)),
{
    lemma_add_rep(a, b, a.n(), a.d(), b.n(), b.d());
    lemma_cmp_rep(a, add_r(a, b), a.n(), a.d(), a.n() * b.d() + b.n() * a.d(), a.d() * b.d());
    assert(a.n() * (a.d() * b.d()) <= (a.n() * b.d() + b.n() * a.d()) * a.d()) by (nonlinear_arith)
        requires b.n() >= 0 && a.d() > 0 && b.d() > 0,
    ;
}

/// Scaling a nonnegative finite value by a factor of at most one does not
/// increase it.
pub proof fn lemma_mul_le_one(a: Rat, b: Rat)
    requires
        le_r(a, one_r()),
        b.is_fin(),
        b.n() >= 0,
        mul_r(a, b).is_fin(),
    ensures
        le_r(mul_r(a, b), b),
{
    lemma_from_int(1);
    lemma_mul_rep(a, b, a.n(), a.d(), b.n(), b.d());
    lemma_cmp_rep(mul_r(a, b), b, a.n() * b.n(), a.d() * b.d(), b.n(), b.d());
    assert((a.n() * b.n()) * b.d() <= b.n() * (a.d() * b.d())) by (nonlinear_arith)
        requires a.n() <= a.d() && b.n() >= 0 && b.d() > 0,
    ;
}

/// The order on finite values is transitive.
pub proof fn lemma_le_trans(a: Rat, b: Rat, c: Rat)
    requires
        le_r(a, b),
        le_r(b, c),
    ensures
        le_r(a, c),
{
    assert((a.n() * c.d()) * b.d() <= (c.n() * a.d()) * b.d()) by (nonlinear_arith)
        requires
            a.n() * b.d() <= b.n() * a.d(),
            b.n() * c.d() <= c.n() * b.d(),
            a.d() > 0,
            b.d() > 0,
            c.d() > 0,
    ;
    assert(a.n() * c.d() <= c.n() * a.d()) by (nonlinear_arith)
        requires (a.n() * c.d()) * b.d() <= (c.n() * a.d()) * b.d() && b.d() > 0,
    ;
}

/// The floor and the ceiling of a nonnegative finite value are nonnegative.
pub proof fn lemma_floor_ceil_nonneg(a: Rat)
    requires
        a.is_fin(),
        a.n() >= 0,
    ensures
        floor_r(a) >= 0,
        ceil_r(a) >= 0,
{
    vstd::arithmetic::div_mod::lemma_div_pos_is_pos(a.n(), a.d());
    vstd::arithmetic::div_mod::lemma_div_is_ordered(-a.n(), 0, a.d());
    vstd::arithmetic::div_mod::lemma_div_of0(a.d());
}

/// The magnitude of a difference: finite exactly when the difference is, and
/// then the nonnegative numerator of the difference over the same denominator.
pub proof fn lemma_abs_sub(a: Rat, b: Rat)
    ensures
        abs_r(sub_r(a, b)).is_fin() <==> sub_r(a, b).is_fin(),
        sub_r(a, b).is_fin() ==> abs_r(sub_r(a, b)).n() == abs(sub_r(a, b).n()) && abs_r(
            sub_r(a, b),
        ).d() == sub_r(a, b).d() && abs_r(sub_r(a, b)).n() >= 0,
{
    lemma_from_int(0);
    if a.is_fin() && b.is_fin() {
        assert(a.d() * b.d() > 0) by (nonlinear_arith)
            requires a.d() > 0 && b.d() > 0,
        ;
        lemma_norm_s(a.n() * b.d() - b.n() * a.d(), a.d() * b.d());
        let s = sub_r(a, b);
        if s.is_fin() {
            lemma_abs_r(s);
        }
    }
}

/// Finite sums denote the sum of what the operands denote.
pub proof fn lemma_add_rep(a: Rat, b: Rat, na: int, da: int, nb: int, db: int)
    requires
        rep(a, na, da),
        rep(b, nb, db),
        add_r(a, b).is_fin(),
    ensures
        rep(add_r(a, b), na * db + nb * da, da * db),
{
    let nn = a.n() * b.d() + b.n() * a.d();
    let dd = a.d() * b.d();
    assert(a.d() * b.d() > 0 && da * db > 0) by (nonlinear_arith)
        requires a.d() > 0 && b.d() > 0 && da > 0 && db > 0,
    ;
    lemma_norm_s(nn, dd);
    let r = norm_s(nn, dd);
    assert((a.n() * b.d()) * (da * db) == (na * db) * (a.d() * b.d())) by (nonlinear_arith)
        requires a.n() * da == na * a.d(),
    ;
    assert((b.n() * a.d()) * (da * db) == (nb * da) * (a.d() * b.d())) by (nonlinear_arith)
        requires b.n() * db == nb * b.d(),
    ;
    assert((a.n() * b.d() + b.n() * a.d()) * (da * db) == (a.n() * b.d()) * (da * db) + (b.n()
        * a.d()) * (da * db)) by (nonlinear_arith);
    assert((na * db + nb * da) * (a.d() * b.d()) == (na * db) * (a.d() * b.d()) + (nb * da) * (
    a.d() * b.d())) by (nonlinear_arith);
    lemma_frac_trans(r.n(), r.d(), nn, dd, na * db + nb * da, da * db);
}

/// Finite differences denote the difference of what the operands denote.
pub proof fn lemma_sub_rep(a: Rat, b: Rat, na: int, da: int, nb: int, db: int)
    requires
        rep(a, na, da),
        rep(b, nb, db),
        sub_r(a, b).is_fin(),
    ensures
        rep(sub_r(a, b), na * db - nb * da, da * db),
{
    let nn = a.n() * b.d() - b.n() * a.d();
    let dd = a.d() * b.d();
    assert(a.d() * b.d() > 0 && da * db > 0) by (nonlinear_arith)
        requires a.d() > 0 && b.d() > 0 && da > 0 && db > 0,
    ;
    lemma_norm_s(nn, dd);
    let r = norm_s(nn, dd);
    assert((a.n() * b.d()) * (da * db) == (na * db) * (a.d() * b.d())) by (nonlinear_arith)
        requires a.n() * da == na * a.d(),
    ;
    assert((b.n() * a.d()) * (da * db) == (nb * da) * (a.d() * b.d())) by (nonlinear_arith)
        requires b.n() * db == nb * b.d(),
    ;
    assert((a.n() * b.d() - b.n() * a.d()) * (da * db) == (a.n() * b.d()) * (da * db) - (b.n()
        * a.d()) * (da * db)) by (nonlinear_arith);
    assert((na * db - nb * da) * (a.d() * b.d()) == (na * db) * (a.d() * b.d()) - (nb * da) * (
    a.d() * b.d())) by (nonlinear_arith);
    lemma_frac_trans(r.n(), r.d(), nn, dd, na * db - nb * da, da * db);
}

/// Finite products denote the product of what the operands denote.
pub proof fn lemma_mul_rep(a: Rat, b: Rat, na: int, da: int, nb: int, db: int)
    requires
        rep(a, na, da),
        rep(b, nb, db),
        mul_r(a, b).is_fin(),
    ensures
        rep(mul_r(a, b), na * nb, da * db),
{
    let nn = a.n() * b.n();
    let dd = a.d() * b.d();
    assert(a.d() * b.d() > 0 && da * db > 0) by (nonlinear_arith)
        requires a.d() > 0 && b.d() > 0 && da > 0 && db > 0,
    ;
    lemma_norm_s(nn, dd);
    let r = norm_s(nn, dd);
    assert((a.n() * b.n()) * (da * db) == (na * b.n()) * (a.d() * db)) by (nonlinear_arith)
        requires a.n() * da == na * a.d(),
    ;
    assert((na * b.n()) * (a.d() * db) == (na * nb) * (a.d() * b.d())) by (nonlinear_arith)
        requires b.n() * db == nb * b.d(),
    ;
    lemma_frac_trans(r.n(), r.d(), nn, dd, na * nb, da * db);
}

/// Finite quotients denote the quotient of what the operands denote.
pub proof fn lemma_div_rep(a: Rat, b: Rat, na: int, da: int, nb: int, db: int)
    requires
        rep(a, na, da),
        rep(b, nb, db),
        div_r(a, b).is_fin(),
    ensures
        nb > 0 ==> rep(div_r(a, b), na * db, da * nb),
        nb < 0 ==> rep(div_r(a, b), -(na * db), -(da * nb)),
        nb != 0,
{
    assert(b.n() != 0);
    assert((nb > 0 <==> b.n() > 0) && (nb < 0 <==> b.n() < 0) && nb != 0) by (nonlinear_arith)
        requires b.n() * db == nb * b.d() && b.d() > 0 && db > 0 && b.n() != 0,
    ;
    if b.n() > 0 {
        let nn = a.n() * b.d();
        let dd = a.d() * b.n();
        assert(a.d() * b.n() > 0 && da * nb > 0) by (nonlinear_arith)
            requires a.d() > 0 && b.n() > 0 && da > 0 && nb > 0,
        ;
        lemma_norm_s(nn, dd);
        let r = norm_s(nn, dd);
        assert((a.n() * b.d()) * (da * nb) == (na * b.d()) * (a.d() * nb)) by (nonlinear_arith)
            requires a.n() * da == na * a.d(),
        ;
        assert((na * b.d()) * (a.d() * nb) == (na * db) * (a.d() * b.n())) by (nonlinear_arith)
            requires b.n() * db == nb * b.d(),
        ;
        lemma_frac_trans(r.n(), r.d(), nn, dd, na * db, da * nb);
    } else {
        let nn = -(a.n() * b.d());
        let dd = a.d() * -b.n();
        assert(a.d() * -b.n() > 0 && -(da * nb) > 0) by (nonlinear_arith)
            requires a.d() > 0 && b.n() < 0 && da > 0 && nb < 0,
        ;
        lemma_norm_s(nn, dd);
        let r = norm_s(nn, dd);
        assert((a.n() * b.d()) * (da * nb) == (na * b.d()) * (a.d() * nb)) by (nonlinear_arith)
            requires a.n() * da == na * a.d(),
        ;
        assert((na * b.d()) * (a.d() * nb) == (na * db) * (a.d() * b.n())) by (nonlinear_arith)
            requires b.n() * db == nb * b.d(),
        ;
        assert((-(a.n() * b.d())) * (-(da * nb)) == (a.n() * b.d()) * (da * nb) && (-(na * db)) * (
        a.d() * -b.n()) == (na * db) * (a.d() * b.n())) by (nonlinear_arith);
        lemma_frac_trans(r.n(), r.d(), nn, dd, -(na * db), -(da * nb));
    }
}

/// Comparisons act on what the operands denote.
pub proof fn lemma_cmp_rep(a: Rat, b: Rat, na: int, da: int, nb: int, db: int)
    requires
        rep(a, na, da),
        rep(b, nb, db),
    ensures
        lt_r(a, b) <==> na * db < nb * da,
        le_r(a, b) <==> na * db <= nb * da,
        eq_r(a, b) <==> na * db == nb * da,
{
    assert(((a.n() * b.d() < b.n() * a.d()) <==> na * db < nb * da) && ((a.n() * b.d() <= b.n()
        * a.d()) <==> na * db <= nb * da) && ((a.n() * b.d() == b.n() * a.d()) <==> na * db == nb
        * da)) by (nonlinear_arith)
        requires
            a.n() * da == na * a.d(),
            b.n() * db == nb * b.d(),
            a.d() > 0,
            b.d() > 0,
            da > 0,
            db > 0,
    ;
}

/// Multiplying any finite value by finite zero gives finite zero exactly.
pub proof fn lemma_mul_zero(a: Rat)
    requires
        a.is_fin(),
    ensures
        mul_r(a, zero_r()) == zero_r(),
{
    lemma_from_int(0);
    assert(mul_r(a, zero_r()) == norm_s(a.n() * 0, a.d() * 1));
    assert(a.n() * 0 == 0 && a.d() * 1 == a.d()) by (nonlinear_arith);
    lemma_zero_norm(a.d());
}

/// A value denotes every pair cross-equal to a pair it denotes.
pub proof fn lemma_rep_equiv(x: Rat, n1: int, d1: int, n2: int, d2: int)
    requires
        rep(x, n1, d1),
        n1 * d2 == n2 * d1,
        d2 > 0,
    ensures
        rep(x, n2, d2),
{
    lemma_frac_trans(x.n(), x.d(), n1, d1, n2, d2);
}

/// Reducing the fraction `0 / d` gives finite zero exactly.
proof fn lemma_zero_norm(d: int)
    requires
        0 < d,
    ensures
        norm_s(0, d) == zero_r(),
{
    lemma_from_int(0);
    assert(abs(0) == 0nat);
    assert(gcd_s(0, d as nat) == d as nat) by {
        vstd::arithmetic::div_mod::lemma_small_mod(0, d as nat);
        assert(gcd_s(0, d as nat) == gcd_s(d as nat, 0));
    }
    vstd::arithmetic::div_mod::lemma_div_by_self(d);
    assert(0int / d == 0) by {
        vstd::arithmetic::div_mod::lemma_div_of0(d);
    }
}

/// Euclid's algorithm, mirroring `gcd_s`.
fn gcd_u128(a0: u128, b0: u128) -> (g: u128)
    ensures g as nat == gcd_s(a0 as nat, b0 as nat),
{
    let mut a = a0;
    let mut b = b0;
    while b != 0
        invariant gcd_s(a as nat, b as nat) == gcd_s(a0 as nat, b0 as nat),
        decreases b,
    {
        let r = a % b;
        a = b;
        b = r;
    }
    a
}

/// Reduce the fraction `n / d` and keep it when it fits, mirroring `norm_s`.
fn norm_i128(n: i128, d: i128) -> (r: Rat)
    requires
        0 < d <= 0x2000_0000_0000_0000_0000_0000_0000_0000,
        -0x2000_0000_0000_0000_0000_0000_0000_0000 <= n
            <= 0x2000_0000_0000_0000_0000_0000_0000_0000,
    ensures
        r == norm_s(n as int, d as int),
{
    let neg = n < 0;
    let un: u128 = if neg {
        (-n) as u128
    } else {
        n as u128
    };
    assert(un as nat == abs(n as int));
    let ud: u128 = d as u128;
    let g = gcd_u128(un, ud);
    proof {
        lemma_gcd_divides(un as nat, ud as nat);
    }
    let n2 = un / g;
    let d2 = ud / g;
    proof {
        let gi = g as int;
        lemma_exact_div(ud as int, gi);
        lemma_exact_div(un as int, gi);
        assert(divides(gi, n as int)) by {
            let k = choose|k: int| un as int == #[trigger] (k * gi);
            if neg {
                assert(n as int == (-k) * gi) by (nonlinear_arith)
                    requires un as int == k * gi && n < 0 && un as int == abs(n as int),
                ;
            }
        }
        lemma_exact_div(n as int, gi);
        assert(n2 as int == abs((n as int) / gi)) by {
            assert(un as int / gi == n2 as int);
            if neg {
                assert((n as int) / gi == -(un as int / gi)) by (nonlinear_arith)
                    requires
                        n as int == ((n as int) / gi) * gi,
                        un as int == (un as int / gi) * gi,
                        un as int == abs(n as int),
                        n < 0,
                        gi >= 1,
                        (n as int) / gi < 0,
                ;
            }
        }
    }
    if n2 < RAT_LIM as u128 && d2 < RAT_LIM as u128 {
        if neg {
            Rat { num: -(n2 as i64), den: d2 as i64 }
        } else {
            Rat { num: n2 as i64, den: d2 as i64 }
        }
    } else {
        Rat { num: 0, den: 0 }
    }
}

} // verus!
