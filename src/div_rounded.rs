use vstd::math::abs;
use vstd::prelude::*;

use fpdec_core::RoundingMode;

use crate::decimal::Decimal;
use crate::powers::{lemma_pow10_positive, pow10, ten_pow, MAX_TEN_POW_EXP};
use crate::rounding::{default_rounding_mode, div_i128_rounded, lemma_rounded_div_fits, lemma_rounded_div_within_one, rounded_div};

verus! {

/// The power of ten by which `a.coeff / b.coeff` must be scaled so that
/// the quotient of `a` and `b` has `n` fractional digits.
pub open spec fn div_shift(a: Decimal, b: Decimal, n: u8) -> int {
    n + b.n_frac_digits - a.n_frac_digits
}

/// The dividend of the integer division giving the quotient of `a` and `b`
/// at `n` fractional digits: `a.coeff`, scaled up where the shift is
/// positive.
pub open spec fn div_numerator(a: Decimal, b: Decimal, n: u8) -> int {
    if div_shift(a, b, n) >= 0 {
        a.coeff * pow10(div_shift(a, b, n) as nat)
    } else {
        a.coeff as int
    }
}

/// The divisor of that integer division: `b.coeff`, scaled up where the
/// shift is negative.
pub open spec fn div_denominator(a: Decimal, b: Decimal, n: u8) -> int {
    if div_shift(a, b, n) >= 0 {
        b.coeff as int
    } else {
        b.coeff * pow10((-div_shift(a, b, n)) as nat)
    }
}

/// Whether `a / b` rounded to `n` fractional digits can be computed: `b` is
/// not zero, the shift has a power of ten in the table, and the scaled
/// operands fit in an `i128` (a negative divisor and the dividend also
/// after negation).
pub open spec fn div_rounded_ok(a: Decimal, b: Decimal, n: u8) -> bool {
    &&& b.coeff != 0
    &&& -MAX_TEN_POW_EXP <= div_shift(a, b, n) <= MAX_TEN_POW_EXP
    &&& i128::MIN <= div_numerator(a, b, n) <= i128::MAX
    &&& i128::MIN <= div_denominator(a, b, n) <= i128::MAX
    &&& div_denominator(a, b, n) < 0 ==> div_numerator(a, b, n) != i128::MIN && div_denominator(a, b, n)
        != i128::MIN
}

/// `a / b` rounded to `n` fractional digits under `mode`.
pub open spec fn div_rounded_value(a: Decimal, b: Decimal, n: u8, mode: RoundingMode) -> Decimal {
    Decimal {
        coeff: rounded_div(div_numerator(a, b, n), div_denominator(a, b, n), mode) as i128,
        n_frac_digits: n,
    }
}

/// Division giving a result rounded to a given number of fractional digits.
pub trait DivRounded<Rhs = Self>: Sized {
    /// The resulting type after applying `div_rounded`.
    type Output;

    /// Whether `div_rounded` is defined on these operands.
    spec fn div_rounded_requires(self, rhs: Rhs, n_frac_digits: u8) -> bool;

    /// The result of `div_rounded` when `mode` is the default rounding mode.
    spec fn spec_div_rounded(self, rhs: Rhs, n_frac_digits: u8, mode: RoundingMode) -> Self::Output;

    /// Returns `self` / `rhs`, rounded to `n_frac_digits` under the
    /// current default rounding mode.
    fn div_rounded(self, rhs: Rhs, n_frac_digits: u8) -> (r: Self::Output)
        requires
            self.div_rounded_requires(rhs, n_frac_digits),
        ensures
            exists|mode: RoundingMode| r == #[trigger] self.spec_div_rounded(rhs, n_frac_digits, mode),
    ;
}

impl Decimal {
    /// Returns `self` / `other`, rounded to `n_frac_digits` under `mode`.
    ///
    /// The quotient always has `n_frac_digits` fractional digits.
    pub fn div_rounded_with_mode(self, other: Decimal, n_frac_digits: u8, mode: RoundingMode) -> (r: Decimal)
        requires
            div_rounded_ok(self, other, n_frac_digits),
        ensures
            r == div_rounded_value(self, other, n_frac_digits, mode),
            r.n_frac_digits == n_frac_digits,
            r.coeff == rounded_div(div_numerator(self, other, n_frac_digits), div_denominator(self, other, n_frac_digits), mode),
    {
        let shift: i16 = n_frac_digits as i16 + other.n_frac_digits as i16 - self.n_frac_digits as i16;
        let coeff = if shift >= 0 {
            let numerator = self.coeff * ten_pow(shift as u8);
            div_i128_rounded(numerator, other.coeff, mode)
        } else {
            let k: u8 = (-shift) as u8;
            let p = ten_pow(k);
            proof {
                lemma_pow10_positive(k as nat);
                assert(other.coeff * p != 0) by (nonlinear_arith)
                    requires other.coeff != 0, p > 0;
            }
            div_i128_rounded(self.coeff, other.coeff * p, mode)
        };
        Decimal { coeff, n_frac_digits }
    }
}

impl DivRounded<Decimal> for Decimal {
    type Output = Decimal;

    open spec fn div_rounded_requires(self, rhs: Decimal, n_frac_digits: u8) -> bool {
        div_rounded_ok(self, rhs, n_frac_digits)
    }

    open spec fn spec_div_rounded(self, rhs: Decimal, n_frac_digits: u8, mode: RoundingMode) -> Decimal {
        div_rounded_value(self, rhs, n_frac_digits, mode)
    }

    fn div_rounded(self, rhs: Decimal, n_frac_digits: u8) -> (r: Decimal) {
        let mode = default_rounding_mode();
        let r = self.div_rounded_with_mode(rhs, n_frac_digits, mode);
        assert(r == self.spec_div_rounded(rhs, n_frac_digits, mode));
        r
    }
}

impl DivRounded<Decimal> for &Decimal {
    type Output = Decimal;

    open spec fn div_rounded_requires(self, rhs: Decimal, n_frac_digits: u8) -> bool {
        div_rounded_ok(*self, rhs, n_frac_digits)
    }

    open spec fn spec_div_rounded(self, rhs: Decimal, n_frac_digits: u8, mode: RoundingMode) -> Decimal {
        div_rounded_value(*self, rhs, n_frac_digits, mode)
    }

    fn div_rounded(self, rhs: Decimal, n_frac_digits: u8) -> (r: Decimal) {
        let r = (*self).div_rounded(rhs, n_frac_digits);
        proof {
            let mode = choose|mode: RoundingMode| r == #[trigger] div_rounded_value(*self, rhs, n_frac_digits, mode);
            assert(r == self.spec_div_rounded(rhs, n_frac_digits, mode));
        }
        r
    }
}

impl DivRounded<&Decimal> for Decimal {
    type Output = Decimal;

    open spec fn div_rounded_requires(self, rhs: &Decimal, n_frac_digits: u8) -> bool {
        div_rounded_ok(self, *rhs, n_frac_digits)
    }

    open spec fn spec_div_rounded(self, rhs: &Decimal, n_frac_digits: u8, mode: RoundingMode) -> Decimal {
        div_rounded_value(self, *rhs, n_frac_digits, mode)
    }

    fn div_rounded(self, rhs: &Decimal, n_frac_digits: u8) -> (r: Decimal) {
        let r = self.div_rounded(*rhs, n_frac_digits);
        proof {
            let mode = choose|mode: RoundingMode| r == #[trigger] div_rounded_value(self, *rhs, n_frac_digits, mode);
            assert(r == self.spec_div_rounded(rhs, n_frac_digits, mode));
        }
        r
    }
}

impl DivRounded<&Decimal> for &Decimal {
    type Output = Decimal;

    open spec fn div_rounded_requires(self, rhs: &Decimal, n_frac_digits: u8) -> bool {
        div_rounded_ok(*self, *rhs, n_frac_digits)
    }

    open spec fn spec_div_rounded(self, rhs: &Decimal, n_frac_digits: u8, mode: RoundingMode) -> Decimal {
        div_rounded_value(*self, *rhs, n_frac_digits, mode)
    }

    fn div_rounded(self, rhs: &Decimal, n_frac_digits: u8) -> (r: Decimal) {
        let r = (*self).div_rounded(*rhs, n_frac_digits);
        proof {
            let mode = choose|mode: RoundingMode| r == #[trigger] div_rounded_value(*self, *rhs, n_frac_digits, mode);
            assert(r == self.spec_div_rounded(rhs, n_frac_digits, mode));
        }
        r
    }
}

/// A rounded quotient lies within one unit of its last digit of the exact
/// quotient: `|c * den - num| < |den|` for its coefficient `c`.
pub proof fn lemma_div_rounded_within_one(a: Decimal, b: Decimal, n: u8, mode: RoundingMode)
    requires
        div_rounded_ok(a, b, n),
    ensures
        ({
            let num = div_numerator(a, b, n);
            let den = div_denominator(a, b, n);
            let c = div_rounded_value(a, b, n, mode).coeff;
            -abs(den) < c * den - num < abs(den)
        }),
{
    let den = div_denominator(a, b, n);
    if div_shift(a, b, n) < 0 {
        let p = pow10((-div_shift(a, b, n)) as nat);
        lemma_pow10_positive((-div_shift(a, b, n)) as nat);
        assert(b.coeff * p != 0) by (nonlinear_arith)
            requires b.coeff != 0, p > 0;
    }
    lemma_rounded_div_within_one(div_numerator(a, b, n), den, mode);
    lemma_rounded_div_fits(div_numerator(a, b, n), den, mode);
}

/// The four call shapes of `div_rounded`, on owned and borrowed operands,
/// have the same precondition and the same result.
pub proof fn lemma_div_rounded_call_shapes(a: Decimal, b: Decimal, n: u8, mode: RoundingMode)
    ensures
        (&a).div_rounded_requires(b, n) == a.div_rounded_requires(b, n),
        a.div_rounded_requires(&b, n) == a.div_rounded_requires(b, n),
        (&a).div_rounded_requires(&b, n) == a.div_rounded_requires(b, n),
        (&a).spec_div_rounded(b, n, mode) == a.spec_div_rounded(b, n, mode),
        a.spec_div_rounded(&b, n, mode) == a.spec_div_rounded(b, n, mode),
        (&a).spec_div_rounded(&b, n, mode) == a.spec_div_rounded(b, n, mode),
{
}

} // verus!
