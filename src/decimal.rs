use vstd::prelude::*;

use fpdec_core::RoundingMode;

use crate::powers::{lemma_pow10_positive, pow10, ten_pow, MAX_TEN_POW_EXP};
use crate::rounding::{div_i128_rounded, rounded_div};

verus! {

/// A decimal number `coeff / 10^n_frac_digits`.
#[derive(Clone, Copy, Debug, PartialEq, Eq, Structural)]
pub struct Decimal {
    /// The signed coefficient.
    pub coeff: i128,
    /// The number of fractional digits.
    pub n_frac_digits: u8,
}

impl Decimal {
    /// The decimal `coeff / 10^n_frac_digits`.
    pub fn new_raw(coeff: i128, n_frac_digits: u8) -> (r: Decimal)
        ensures
            r.coeff == coeff,
            r.n_frac_digits == n_frac_digits,
    {
        Decimal { coeff, n_frac_digits }
    }
}

/// The exact coefficient `c` at scale `natural`, reduced to `n` fractional
/// digits under `mode` where `n < natural`, and left at `natural` otherwise.
pub open spec fn reduced(c: int, natural: int, n: u8, mode: RoundingMode) -> Decimal {
    if n < natural {
        Decimal { coeff: rounded_div(c, pow10((natural - n) as nat), mode) as i128, n_frac_digits: n }
    } else {
        Decimal { coeff: c as i128, n_frac_digits: natural as u8 }
    }
}

/// Reduces the coefficient `c` at scale `natural` to `n` fractional digits.
pub(crate) fn reduce(c: i128, natural: u8, n: u8, mode: RoundingMode) -> (r: Decimal)
    requires
        n < natural ==> natural - n <= MAX_TEN_POW_EXP,
    ensures
        r == reduced(c as int, natural as int, n, mode),
        n < natural ==> r.n_frac_digits == n
            && r.coeff == rounded_div(c as int, pow10((natural - n) as nat), mode),
        n >= natural ==> r.n_frac_digits == natural && r.coeff == c,
{
    if n < natural {
        let divisor = ten_pow(natural - n);
        proof {
            lemma_pow10_positive((natural - n) as nat);
        }
        Decimal { coeff: div_i128_rounded(c, divisor, mode), n_frac_digits: n }
    } else {
        // no need for rounding
        Decimal { coeff: c, n_frac_digits: natural }
    }
}

} // verus!
