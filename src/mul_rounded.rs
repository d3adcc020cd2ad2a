use vstd::prelude::*;

use fpdec_core::RoundingMode;

use crate::decimal::{reduce, reduced, Decimal};
use crate::powers::{lemma_pow10_fits, lemma_pow10_positive, pow10, MAX_TEN_POW_EXP};
use crate::rounding::{default_rounding_mode, lemma_rounded_div_fits, lemma_rounded_div_within_one, rounded_div};

verus! {

/// The number of fractional digits of the exact product of `a` and `b`.
pub open spec fn mul_natural_scale(a: Decimal, b: Decimal) -> int {
    a.n_frac_digits + b.n_frac_digits
}

/// Whether `a * b` rounded to `n` fractional digits can be computed: the
/// natural scale fits in a `u8`, the exact product of the coefficients in
/// an `i128`, and the rounding divisor is a power of ten in the table.
pub open spec fn mul_rounded_ok(a: Decimal, b: Decimal, n: u8) -> bool {
    &&& mul_natural_scale(a, b) <= u8::MAX
    &&& i128::MIN <= a.coeff * b.coeff <= i128::MAX
    &&& n < mul_natural_scale(a, b) ==> mul_natural_scale(a, b) - n <= MAX_TEN_POW_EXP
}

/// `a * b` rounded to `n` fractional digits under `mode`: the exact product
/// where it has no more than `n` fractional digits, else the product's
/// coefficient divided by the power of ten of the excess and rounded.
pub open spec fn mul_rounded_value(a: Decimal, b: Decimal, n: u8, mode: RoundingMode) -> Decimal {
    reduced(a.coeff * b.coeff, mul_natural_scale(a, b), n, mode)
}

/// Multiplication giving a result rounded to a given number of fractional
/// digits.
pub trait MulRounded<Rhs = Self>: Sized {
    /// The resulting type after applying `mul_rounded`.
    type Output;

    /// Whether `mul_rounded` is defined on these operands.
    spec fn mul_rounded_requires(self, rhs: Rhs, n_frac_digits: u8) -> bool;

    /// The result of `mul_rounded` when `mode` is the default rounding mode.
    spec fn spec_mul_rounded(self, rhs: Rhs, n_frac_digits: u8, mode: RoundingMode) -> Self::Output;

    /// Returns `self` * `rhs`, rounded to `n_frac_digits` under the current
    /// default rounding mode.
    fn mul_rounded(self, rhs: Rhs, n_frac_digits: u8) -> (r: Self::Output)
        requires
            self.mul_rounded_requires(rhs, n_frac_digits),
        ensures
            exists|mode: RoundingMode| r == #[trigger] self.spec_mul_rounded(rhs, n_frac_digits, mode),
    ;
}

impl Decimal {
    /// Returns `self` * `other`, rounded to `n_frac_digits` under `mode`.
    ///
    /// Where `n_frac_digits` is at least the natural scale (the sum of the
    /// operands' fractional digits), the exact product is returned at the
    /// natural scale, not padded to `n_frac_digits`.
    pub fn mul_rounded_with_mode(self, other: Decimal, n_frac_digits: u8, mode: RoundingMode) -> (r: Decimal)
        requires
            mul_rounded_ok(self, other, n_frac_digits),
        ensures
            r == mul_rounded_value(self, other, n_frac_digits, mode),
            n_frac_digits >= mul_natural_scale(self, other) ==> r.n_frac_digits == mul_natural_scale(self, other)
                && r.coeff == self.coeff * other.coeff,
            n_frac_digits < mul_natural_scale(self, other) ==> r.n_frac_digits == n_frac_digits
                && r.coeff == rounded_div(
                    self.coeff * other.coeff,
                    pow10((mul_natural_scale(self, other) - n_frac_digits) as nat),
                    mode,
                ),
    {
        let max_n_frac_digits: u8 = self.n_frac_digits + other.n_frac_digits;
        reduce(self.coeff * other.coeff, max_n_frac_digits, n_frac_digits, mode)
    }
}

impl MulRounded<Decimal> for Decimal {
    type Output = Decimal;

    open spec fn mul_rounded_requires(self, rhs: Decimal, n_frac_digits: u8) -> bool {
        mul_rounded_ok(self, rhs, n_frac_digits)
    }

    open spec fn spec_mul_rounded(self, rhs: Decimal, n_frac_digits: u8, mode: RoundingMode) -> Decimal {
        mul_rounded_value(self, rhs, n_frac_digits, mode)
    }

    fn mul_rounded(self, rhs: Decimal, n_frac_digits: u8) -> (r: Decimal) {
        let mode = default_rounding_mode();
        let r = self.mul_rounded_with_mode(rhs, n_frac_digits, mode);
        assert(r == self.spec_mul_rounded(rhs, n_frac_digits, mode));
        r
    }
}

impl MulRounded<Decimal> for &Decimal {
    type Output = Decimal;

    open spec fn mul_rounded_requires(self, rhs: Decimal, n_frac_digits: u8) -> bool {
        mul_rounded_ok(*self, rhs, n_frac_digits)
    }

    open spec fn spec_mul_rounded(self, rhs: Decimal, n_frac_digits: u8, mode: RoundingMode) -> Decimal {
        mul_rounded_value(*self, rhs, n_frac_digits, mode)
    }

    fn mul_rounded(self, rhs: Decimal, n_frac_digits: u8) -> (r: Decimal) {
        let r = (*self).mul_rounded(rhs, n_frac_digits);
        proof {
            let mode = choose|mode: RoundingMode| r == #[trigger] mul_rounded_value(*self, rhs, n_frac_digits, mode);
            assert(r == self.spec_mul_rounded(rhs, n_frac_digits, mode));
        }
        r
    }
}

impl MulRounded<&Decimal> for Decimal {
    type Output = Decimal;

    open spec fn mul_rounded_requires(self, rhs: &Decimal, n_frac_digits: u8) -> bool {
        mul_rounded_ok(self, *rhs, n_frac_digits)
    }

    open spec fn spec_mul_rounded(self, rhs: &Decimal, n_frac_digits: u8, mode: RoundingMode) -> Decimal {
        mul_rounded_value(self, *rhs, n_frac_digits, mode)
    }

    fn mul_rounded(self, rhs: &Decimal, n_frac_digits: u8) -> (r: Decimal) {
        let r = self.mul_rounded(*rhs, n_frac_digits);
        proof {
            let mode = choose|mode: RoundingMode| r == #[trigger] mul_rounded_value(self, *rhs, n_frac_digits, mode);
            assert(r == self.spec_mul_rounded(rhs, n_frac_digits, mode));
        }
        r
    }
}

impl MulRounded<&Decimal> for &Decimal {
    type Output = Decimal;

    open spec fn mul_rounded_requires(self, rhs: &Decimal, n_frac_digits: u8) -> bool {
        mul_rounded_ok(*self, *rhs, n_frac_digits)
    }

    open spec fn spec_mul_rounded(self, rhs: &Decimal, n_frac_digits: u8, mode: RoundingMode) -> Decimal {
        mul_rounded_value(*self, *rhs, n_frac_digits, mode)
    }

    fn mul_rounded(self, rhs: &Decimal, n_frac_digits: u8) -> (r: Decimal) {
        let r = (*self).mul_rounded(*rhs, n_frac_digits);
        proof {
            let mode = choose|mode: RoundingMode| r == #[trigger] mul_rounded_value(*self, *rhs, n_frac_digits, mode);
            assert(r == self.spec_mul_rounded(rhs, n_frac_digits, mode));
        }
        r
    }
}

/// Rounded multiplication is commutative: swapping the operands changes
/// neither whether the result is defined nor the result, for every rounding
/// mode and target scale.
pub proof fn lemma_mul_rounded_commutative(a: Decimal, b: Decimal, n: u8, mode: RoundingMode)
    ensures
        mul_rounded_ok(a, b, n) == mul_rounded_ok(b, a, n),
        mul_rounded_value(a, b, n, mode) == mul_rounded_value(b, a, n, mode),
        a.spec_mul_rounded(b, n, mode) == b.spec_mul_rounded(a, n, mode),
{
    assert(a.coeff * b.coeff == b.coeff * a.coeff) by (nonlinear_arith);
}

/// The scale of a rounded product: where the target is at least the natural
/// scale, the result is the exact product at the natural scale; below it,
/// the result has exactly the target scale.
pub proof fn lemma_mul_rounded_scale(a: Decimal, b: Decimal, n: u8, mode: RoundingMode)
    requires
        mul_rounded_ok(a, b, n),
    ensures
        n >= mul_natural_scale(a, b) ==> mul_rounded_value(a, b, n, mode).n_frac_digits == mul_natural_scale(a, b)
            && mul_rounded_value(a, b, n, mode).coeff == a.coeff * b.coeff,
        n < mul_natural_scale(a, b) ==> mul_rounded_value(a, b, n, mode).n_frac_digits == n,
{
}

/// A rounded product lies within one unit of its last digit of the exact
/// product: scaled back to the natural scale, its coefficient differs from
/// the exact one by less than the power of ten that was divided out.
pub proof fn lemma_mul_rounded_within_one(a: Decimal, b: Decimal, n: u8, mode: RoundingMode)
    requires
        mul_rounded_ok(a, b, n),
        n < mul_natural_scale(a, b),
    ensures
        ({
            let k = pow10((mul_natural_scale(a, b) - n) as nat);
            let c = mul_rounded_value(a, b, n, mode).coeff;
            -k < c * k - a.coeff * b.coeff < k
        }),
{
    let k = pow10((mul_natural_scale(a, b) - n) as nat);
    lemma_pow10_positive((mul_natural_scale(a, b) - n) as nat);
    lemma_rounded_div_within_one(a.coeff * b.coeff, k, mode);
    lemma_pow10_fits((mul_natural_scale(a, b) - n) as nat);
    lemma_rounded_div_fits(a.coeff * b.coeff, k, mode);
}

/// The four call shapes of `mul_rounded`, on owned and borrowed operands,
/// have the same precondition and the same result.
pub proof fn lemma_mul_rounded_call_shapes(a: Decimal, b: Decimal, n: u8, mode: RoundingMode)
    ensures
        (&a).mul_rounded_requires(b, n) == a.mul_rounded_requires(b, n),
        a.mul_rounded_requires(&b, n) == a.mul_rounded_requires(b, n),
        (&a).mul_rounded_requires(&b, n) == a.mul_rounded_requires(b, n),
        (&a).spec_mul_rounded(b, n, mode) == a.spec_mul_rounded(b, n, mode),
        a.spec_mul_rounded(&b, n, mode) == a.spec_mul_rounded(b, n, mode),
        (&a).spec_mul_rounded(&b, n, mode) == a.spec_mul_rounded(b, n, mode),
{
}

} // verus!
