use vstd::prelude::*;

verus! {

/// The largest exponent for which `10^n` fits in an `i128`.
pub const MAX_TEN_POW_EXP: u8 = 38;

/// `10^n`.
pub open spec fn pow10(n: nat) -> int
    decreases n,
{
    if n == 0 {
        1
    } else {
        10 * pow10((n - 1) as nat)
    }
}

/// Every power of ten is positive.
pub proof fn lemma_pow10_positive(n: nat)
    ensures
        pow10(n) > 0,
    decreases n,
{
    if n > 0 {
        lemma_pow10_positive((n - 1) as nat);
    }
}

/// The powers of ten up to `10^38` fit in an `i128`.
pub proof fn lemma_pow10_fits(n: nat)
    requires
        n <= MAX_TEN_POW_EXP,
    ensures
        pow10(n) <= i128::MAX,
    decreases MAX_TEN_POW_EXP - n,
{
    if n == MAX_TEN_POW_EXP {
        reveal_with_fuel(pow10, 39);
        assert(pow10(38) == 100_000_000_000_000_000_000_000_000_000_000_000_000int);
    } else {
        lemma_pow10_fits(n + 1);
        lemma_pow10_positive(n);
    }
}

/// `c` scaled from `from` to `to` fractional digits, for `from <= to`.
pub open spec fn aligned(c: int, from: int, to: int) -> int {
    c * pow10((to - from) as nat)
}

/// Relies on `fpdec_core::ten_pow`: a lookup in a table of the powers of
/// ten from `10^0` to `10^38`.
#[verifier::external_body]
pub(crate) fn ten_pow(n: u8) -> (r: i128)
    requires
        n <= MAX_TEN_POW_EXP,
    ensures
        r == pow10(n as nat),
{
    fpdec_core::ten_pow(n)
}

/// Whether `fpdec_core::adjust_coeffs` is defined on `(x, p)` and `(y, q)`:
/// the scale difference has a power of ten in the table and the scaled-up
/// coefficient fits.
pub open spec fn adjust_ok(x: int, p: int, y: int, q: int) -> bool {
    &&& (p < q ==> q - p <= MAX_TEN_POW_EXP && i128::MIN <= aligned(x, p, q) <= i128::MAX)
    &&& (q < p ==> p - q <= MAX_TEN_POW_EXP && i128::MIN <= aligned(y, q, p) <= i128::MAX)
}

/// Relies on `fpdec_core::adjust_coeffs`: the coefficient with fewer
/// fractional digits is multiplied by the power of ten of the difference,
/// the other is returned as it is.
#[verifier::external_body]
pub(crate) fn adjust_coeffs(x: i128, p: u8, y: i128, q: u8) -> (r: (i128, i128))
    requires
        adjust_ok(x as int, p as int, y as int, q as int),
    ensures
        r.0 == (if p < q { aligned(x as int, p as int, q as int) } else { x as int }),
        r.1 == (if q < p { aligned(y as int, q as int, p as int) } else { y as int }),
{
    fpdec_core::adjust_coeffs(x, p, y, q)
}

} // verus!
