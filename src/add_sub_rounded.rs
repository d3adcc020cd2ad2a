use vstd::prelude::*;

use fpdec_core::RoundingMode;

use crate::decimal::{reduce, reduced, Decimal};
use crate::powers::{adjust_coeffs, adjust_ok, aligned, pow10, MAX_TEN_POW_EXP};
use crate::rounding::{default_rounding_mode, rounded_div};

verus! {

/// The number of fractional digits of the exact sum or difference of `a`
/// and `b`: the larger of the two.
pub open spec fn add_natural_scale(a: Decimal, b: Decimal) -> int {
    if a.n_frac_digits >= b.n_frac_digits {
        a.n_frac_digits as int
    } else {
        b.n_frac_digits as int
    }
}

/// The coefficient of `a` at the natural scale of `a` and `b`.
pub open spec fn lhs_aligned(a: Decimal, b: Decimal) -> int {
    aligned(a.coeff as int, a.n_frac_digits as int, add_natural_scale(a, b))
}

/// The coefficient of `b` at the natural scale of `a` and `b`.
pub open spec fn rhs_aligned(a: Decimal, b: Decimal) -> int {
    aligned(b.coeff as int, b.n_frac_digits as int, add_natural_scale(a, b))
}

/// Whether both coefficients can be brought to the natural scale in an
/// `i128`, and a reduction to `n` fractional digits has its power of ten.
pub open spec fn alignment_ok(a: Decimal, b: Decimal, n: u8) -> bool {
    &&& adjust_ok(a.coeff as int, a.n_frac_digits as int, b.coeff as int, b.n_frac_digits as int)
    &&& n < add_natural_scale(a, b) ==> add_natural_scale(a, b) - n <= MAX_TEN_POW_EXP
}

/// Whether `a + b` rounded to `n` fractional digits can be computed: the
/// aligned coefficients and their sum fit in an `i128`.
pub open spec fn add_rounded_ok(a: Decimal, b: Decimal, n: u8) -> bool {
    &&& alignment_ok(a, b, n)
    &&& i128::MIN <= lhs_aligned(a, b) + rhs_aligned(a, b) <= i128::MAX
}

/// Whether `a - b` rounded to `n` fractional digits can be computed: the
/// aligned coefficients and their difference fit in an `i128`.
pub open spec fn sub_rounded_ok(a: Decimal, b: Decimal, n: u8) -> bool {
    &&& alignment_ok(a, b, n)
    &&& i128::MIN <= lhs_aligned(a, b) - rhs_aligned(a, b) <= i128::MAX
}

/// `a + b` rounded to `n` fractional digits under `mode`.
pub open spec fn add_rounded_value(a: Decimal, b: Decimal, n: u8, mode: RoundingMode) -> Decimal {
    reduced(lhs_aligned(a, b) + rhs_aligned(a, b), add_natural_scale(a, b), n, mode)
}

/// `a - b` rounded to `n` fractional digits under `mode`.
pub open spec fn sub_rounded_value(a: Decimal, b: Decimal, n: u8, mode: RoundingMode) -> Decimal {
    reduced(lhs_aligned(a, b) - rhs_aligned(a, b), add_natural_scale(a, b), n, mode)
}

/// Addition giving a result rounded to a given number of fractional digits.
pub trait AddRounded<Rhs = Self>: Sized {
    /// The resulting type after applying `add_rounded`.
    type Output;

    /// Whether `add_rounded` is defined on these operands.
    spec fn add_rounded_requires(self, rhs: Rhs, n_frac_digits: u8) -> bool;

    /// The result of `add_rounded` when `mode` is the default rounding mode.
    spec fn spec_add_rounded(self, rhs: Rhs, n_frac_digits: u8, mode: RoundingMode) -> Self::Output;

    /// Returns `self` + `rhs`, rounded to `n_frac_digits` under the
    /// current default rounding mode.
    fn add_rounded(self, rhs: Rhs, n_frac_digits: u8) -> (r: Self::Output)
        requires
            self.add_rounded_requires(rhs, n_frac_digits),
        ensures
            exists|mode: RoundingMode| r == #[trigger] self.spec_add_rounded(rhs, n_frac_digits, mode),
    ;
}

/// Subtraction giving a result rounded to a given number of fractional
/// digits.
pub trait SubRounded<Rhs = Self>: Sized {
    /// The resulting type after applying `sub_rounded`.
    type Output;

    /// Whether `sub_rounded` is defined on these operands.
    spec fn sub_rounded_requires(self, rhs: Rhs, n_frac_digits: u8) -> bool;

    /// The result of `sub_rounded` when `mode` is the default rounding mode.
    spec fn spec_sub_rounded(self, rhs: Rhs, n_frac_digits: u8, mode: RoundingMode) -> Self::Output;

    /// Returns `self` - `rhs`, rounded to `n_frac_digits` under the
    /// current default rounding mode.
    fn sub_rounded(self, rhs: Rhs, n_frac_digits: u8) -> (r: Self::Output)
        requires
            self.sub_rounded_requires(rhs, n_frac_digits),
        ensures
            exists|mode: RoundingMode| r == #[trigger] self.spec_sub_rounded(rhs, n_frac_digits, mode),
    ;
}

impl Decimal {
    /// The coefficients of `self` and `other`, both at the larger of their
    /// scales.
    fn aligned_coeffs(self, other: Decimal) -> (r: (i128, i128))
        requires
            adjust_ok(self.coeff as int, self.n_frac_digits as int, other.coeff as int, other.n_frac_digits as int),
        ensures
            r.0 == lhs_aligned(self, other),
            r.1 == rhs_aligned(self, other),
    {
        let r = adjust_coeffs(self.coeff, self.n_frac_digits, other.coeff, other.n_frac_digits);
        proof {
            assert(pow10(0) == 1);
            let d = add_natural_scale(self, other);
            assert(aligned(self.coeff as int, d, d) == self.coeff);
            assert(aligned(other.coeff as int, d, d) == other.coeff);
        }
        r
    }

    /// Returns `self` + `other`, rounded to `n_frac_digits` under `mode`.
    ///
    /// Both coefficients are first brought to the larger of the two scales;
    /// where `n_frac_digits` is at least that scale, the exact sum is
    /// returned at it.
    pub fn add_rounded_with_mode(self, other: Decimal, n_frac_digits: u8, mode: RoundingMode) -> (r: Decimal)
        requires
            add_rounded_ok(self, other, n_frac_digits),
        ensures
            r == add_rounded_value(self, other, n_frac_digits, mode),
            n_frac_digits >= add_natural_scale(self, other) ==> r.n_frac_digits == add_natural_scale(self, other)
                && r.coeff == lhs_aligned(self, other) + rhs_aligned(self, other),
            n_frac_digits < add_natural_scale(self, other) ==> r.n_frac_digits == n_frac_digits
                && r.coeff == rounded_div(
                    lhs_aligned(self, other) + rhs_aligned(self, other),
                    pow10((add_natural_scale(self, other) - n_frac_digits) as nat),
                    mode,
                ),
    {
        let (x, y) = self.aligned_coeffs(other);
        let natural: u8 = if self.n_frac_digits >= other.n_frac_digits {
            self.n_frac_digits
        } else {
            other.n_frac_digits
        };
        reduce(x + y, natural, n_frac_digits, mode)
    }

    /// Returns `self` - `other`, rounded to `n_frac_digits` under `mode`.
    ///
    /// Both coefficients are first brought to the larger of the two scales;
    /// where `n_frac_digits` is at least that scale, the exact difference is
    /// returned at it.
    pub fn sub_rounded_with_mode(self, other: Decimal, n_frac_digits: u8, mode: RoundingMode) -> (r: Decimal)
        requires
            sub_rounded_ok(self, other, n_frac_digits),
        ensures
            r == sub_rounded_value(self, other, n_frac_digits, mode),
            n_frac_digits >= add_natural_scale(self, other) ==> r.n_frac_digits == add_natural_scale(self, other)
                && r.coeff == lhs_aligned(self, other) - rhs_aligned(self, other),
            n_frac_digits < add_natural_scale(self, other) ==> r.n_frac_digits == n_frac_digits
                && r.coeff == rounded_div(
                    lhs_aligned(self, other) - rhs_aligned(self, other),
                    pow10((add_natural_scale(self, other) - n_frac_digits) as nat),
                    mode,
                ),
    {
        let (x, y) = self.aligned_coeffs(other);
        let natural: u8 = if self.n_frac_digits >= other.n_frac_digits {
            self.n_frac_digits
        } else {
            other.n_frac_digits
        };
        reduce(x - y, natural, n_frac_digits, mode)
    }
}

impl AddRounded<Decimal> for Decimal {
    type Output = Decimal;

    open spec fn add_rounded_requires(self, rhs: Decimal, n_frac_digits: u8) -> bool {
        add_rounded_ok(self, rhs, n_frac_digits)
    }

    open spec fn spec_add_rounded(self, rhs: Decimal, n_frac_digits: u8, mode: RoundingMode) -> Decimal {
        add_rounded_value(self, rhs, n_frac_digits, mode)
    }

    fn add_rounded(self, rhs: Decimal, n_frac_digits: u8) -> (r: Decimal) {
        let mode = default_rounding_mode();
        let r = self.add_rounded_with_mode(rhs, n_frac_digits, mode);
        assert(r == self.spec_add_rounded(rhs, n_frac_digits, mode));
        r
    }
}

impl AddRounded<Decimal> for &Decimal {
    type Output = Decimal;

    open spec fn add_rounded_requires(self, rhs: Decimal, n_frac_digits: u8) -> bool {
        add_rounded_ok(*self, rhs, n_frac_digits)
    }

    open spec fn spec_add_rounded(self, rhs: Decimal, n_frac_digits: u8, mode: RoundingMode) -> Decimal {
        add_rounded_value(*self, rhs, n_frac_digits, mode)
    }

    fn add_rounded(self, rhs: Decimal, n_frac_digits: u8) -> (r: Decimal) {
        let r = (*self).add_rounded(rhs, n_frac_digits);
        proof {
            let mode = choose|mode: RoundingMode| r == #[trigger] add_rounded_value(*self, rhs, n_frac_digits, mode);
            assert(r == self.spec_add_rounded(rhs, n_frac_digits, mode));
        }
        r
    }
}

impl AddRounded<&Decimal> for Decimal {
    type Output = Decimal;

    open spec fn add_rounded_requires(self, rhs: &Decimal, n_frac_digits: u8) -> bool {
        add_rounded_ok(self, *rhs, n_frac_digits)
    }

    open spec fn spec_add_rounded(self, rhs: &Decimal, n_frac_digits: u8, mode: RoundingMode) -> Decimal {
        add_rounded_value(self, *rhs, n_frac_digits, mode)
    }

    fn add_rounded(self, rhs: &Decimal, n_frac_digits: u8) -> (r: Decimal) {
        let r = self.add_rounded(*rhs, n_frac_digits);
        proof {
            let mode = choose|mode: RoundingMode| r == #[trigger] add_rounded_value(self, *rhs, n_frac_digits, mode);
            assert(r == self.spec_add_rounded(rhs, n_frac_digits, mode));
        }
        r
    }
}

impl AddRounded<&Decimal> for &Decimal {
    type Output = Decimal;

    open spec fn add_rounded_requires(self, rhs: &Decimal, n_frac_digits: u8) -> bool {
        add_rounded_ok(*self, *rhs, n_frac_digits)
    }

    open spec fn spec_add_rounded(self, rhs: &Decimal, n_frac_digits: u8, mode: RoundingMode) -> Decimal {
        add_rounded_value(*self, *rhs, n_frac_digits, mode)
    }

    fn add_rounded(self, rhs: &Decimal, n_frac_digits: u8) -> (r: Decimal) {
        let r = (*self).add_rounded(*rhs, n_frac_digits);
        proof {
            let mode = choose|mode: RoundingMode| r == #[trigger] add_rounded_value(*self, *rhs, n_frac_digits, mode);
            assert(r == self.spec_add_rounded(rhs, n_frac_digits, mode));
        }
        r
    }
}

impl SubRounded<Decimal> for Decimal {
    type Output = Decimal;

    open spec fn sub_rounded_requires(self, rhs: Decimal, n_frac_digits: u8) -> bool {
        sub_rounded_ok(self, rhs, n_frac_digits)
    }

    open spec fn spec_sub_rounded(self, rhs: Decimal, n_frac_digits: u8, mode: RoundingMode) -> Decimal {
        sub_rounded_value(self, rhs, n_frac_digits, mode)
    }

    fn sub_rounded(self, rhs: Decimal, n_frac_digits: u8) -> (r: Decimal) {
        let mode = default_rounding_mode();
        let r = self.sub_rounded_with_mode(rhs, n_frac_digits, mode);
        assert(r == self.spec_sub_rounded(rhs, n_frac_digits, mode));
        r
    }
}

impl SubRounded<Decimal> for &Decimal {
    type Output = Decimal;

    open spec fn sub_rounded_requires(self, rhs: Decimal, n_frac_digits: u8) -> bool {
        sub_rounded_ok(*self, rhs, n_frac_digits)
    }

    open spec fn spec_sub_rounded(self, rhs: Decimal, n_frac_digits: u8, mode: RoundingMode) -> Decimal {
        sub_rounded_value(*self, rhs, n_frac_digits, mode)
    }

    fn sub_rounded(self, rhs: Decimal, n_frac_digits: u8) -> (r: Decimal) {
        let r = (*self).sub_rounded(rhs, n_frac_digits);
        proof {
            let mode = choose|mode: RoundingMode| r == #[trigger] sub_rounded_value(*self, rhs, n_frac_digits, mode);
            assert(r == self.spec_sub_rounded(rhs, n_frac_digits, mode));
        }
        r
    }
}

impl SubRounded<&Decimal> for Decimal {
    type Output = Decimal;

    open spec fn sub_rounded_requires(self, rhs: &Decimal, n_frac_digits: u8) -> bool {
        sub_rounded_ok(self, *rhs, n_frac_digits)
    }

    open spec fn spec_sub_rounded(self, rhs: &Decimal, n_frac_digits: u8, mode: RoundingMode) -> Decimal {
        sub_rounded_value(self, *rhs, n_frac_digits, mode)
    }

    fn sub_rounded(self, rhs: &Decimal, n_frac_digits: u8) -> (r: Decimal) {
        let r = self.sub_rounded(*rhs, n_frac_digits);
        proof {
            let mode = choose|mode: RoundingMode| r == #[trigger] sub_rounded_value(self, *rhs, n_frac_digits, mode);
            assert(r == self.spec_sub_rounded(rhs, n_frac_digits, mode));
        }
        r
    }
}

impl SubRounded<&Decimal> for &Decimal {
    type Output = Decimal;

    open spec fn sub_rounded_requires(self, rhs: &Decimal, n_frac_digits: u8) -> bool {
        sub_rounded_ok(*self, *rhs, n_frac_digits)
    }

    open spec fn spec_sub_rounded(self, rhs: &Decimal, n_frac_digits: u8, mode: RoundingMode) -> Decimal {
        sub_rounded_value(*self, *rhs, n_frac_digits, mode)
    }

    fn sub_rounded(self, rhs: &Decimal, n_frac_digits: u8) -> (r: Decimal) {
        let r = (*self).sub_rounded(*rhs, n_frac_digits);
        proof {
            let mode = choose|mode: RoundingMode| r == #[trigger] sub_rounded_value(*self, *rhs, n_frac_digits, mode);
            assert(r == self.spec_sub_rounded(rhs, n_frac_digits, mode));
        }
        r
    }
}

/// The four call shapes of `add_rounded`, on owned and borrowed operands,
/// have the same precondition and the same result.
pub proof fn lemma_add_rounded_call_shapes(a: Decimal, b: Decimal, n: u8, mode: RoundingMode)
    ensures
        (&a).add_rounded_requires(b, n) == a.add_rounded_requires(b, n),
        a.add_rounded_requires(&b, n) == a.add_rounded_requires(b, n),
        (&a).add_rounded_requires(&b, n) == a.add_rounded_requires(b, n),
        (&a).spec_add_rounded(b, n, mode) == a.spec_add_rounded(b, n, mode),
        a.spec_add_rounded(&b, n, mode) == a.spec_add_rounded(b, n, mode),
        (&a).spec_add_rounded(&b, n, mode) == a.spec_add_rounded(b, n, mode),
{
}

/// The four call shapes of `sub_rounded`, on owned and borrowed operands,
/// have the same precondition and the same result.
pub proof fn lemma_sub_rounded_call_shapes(a: Decimal, b: Decimal, n: u8, mode: RoundingMode)
    ensures
        (&a).sub_rounded_requires(b, n) == a.sub_rounded_requires(b, n),
        a.sub_rounded_requires(&b, n) == a.sub_rounded_requires(b, n),
        (&a).sub_rounded_requires(&b, n) == a.sub_rounded_requires(b, n),
        (&a).spec_sub_rounded(b, n, mode) == a.spec_sub_rounded(b, n, mode),
        a.spec_sub_rounded(&b, n, mode) == a.spec_sub_rounded(b, n, mode),
        (&a).spec_sub_rounded(&b, n, mode) == a.spec_sub_rounded(b, n, mode),
{
}

} // verus!
