use vstd::arithmetic::div_mod::{lemma_fundamental_div_mod, lemma_fundamental_div_mod_converse_mod};
use vstd::math::abs;
use vstd::prelude::*;

verus! {

/// The rounding modes of `fpdec_core`, visible to verification by variant.
#[verifier::external_type_specification]
pub struct ExRoundingMode(fpdec_core::RoundingMode);

/// `n / d` rounded to an integer according to `mode`, for a positive `d`.
///
/// With `q` the floor of `n / d` and `r` the remainder (`0 <= r < d`), an
/// exact division yields `q`; otherwise `mode` decides between `q` and
/// `q + 1`.
pub open spec fn rounded_div_pos(n: int, d: int, mode: fpdec_core::RoundingMode) -> int {
    let q = n / d;
    let r = n % d;
    if r == 0 {
        q
    } else {
        let up = match mode {
            fpdec_core::RoundingMode::Round05Up => (q >= 0 && q % 5 == 0) || (q < 0 && (q + 1) % 5 != 0),
            fpdec_core::RoundingMode::RoundCeiling => true,
            fpdec_core::RoundingMode::RoundDown => q < 0,
            fpdec_core::RoundingMode::RoundFloor => false,
            fpdec_core::RoundingMode::RoundHalfDown => 2 * r > d || (2 * r == d && q < 0),
            fpdec_core::RoundingMode::RoundHalfEven => 2 * r > d || (2 * r == d && q % 2 != 0),
            fpdec_core::RoundingMode::RoundHalfUp => 2 * r > d || (2 * r == d && q >= 0),
            fpdec_core::RoundingMode::RoundUp => q >= 0,
        };
        if up { q + 1 } else { q }
    }
}

/// `n / d` rounded to an integer according to `mode`, for a non-zero `d`.
pub open spec fn rounded_div(n: int, d: int, mode: fpdec_core::RoundingMode) -> int {
    if d < 0 {
        rounded_div_pos(-n, -d, mode)
    } else {
        rounded_div_pos(n, d, mode)
    }
}

/// How far `rounded_div(n, d, mode)`, scaled back by `d`, lies from `n`.
pub open spec fn rounding_error(n: int, d: int, mode: fpdec_core::RoundingMode) -> int {
    rounded_div(n, d, mode) * d - n
}

/// The rounded quotient lies within one unit of the exact quotient
/// (`|q * d - n| < |d|`), and an exact quotient is returned unchanged.
pub proof fn lemma_rounded_div_within_one(n: int, d: int, mode: fpdec_core::RoundingMode)
    requires
        d != 0,
    ensures
        -abs(d) < rounding_error(n, d, mode) < abs(d),
        n % d == 0 ==> rounding_error(n, d, mode) == 0,
{
    if d > 0 {
        lemma_rounded_div_pos_bounds(n, d, mode);
    } else {
        lemma_rounded_div_pos_bounds(-n, -d, mode);
        let q = rounded_div(n, d, mode);
        assert(q * (-d) - (-n) == -(q * d - n)) by (nonlinear_arith);
        if n % d == 0 {
            lemma_fundamental_div_mod(n, d);
            let k = n / d;
            assert(-n == k * (-d) + 0) by (nonlinear_arith)
                requires n == d * k + 0;
            lemma_fundamental_div_mod_converse_mod(-n, -d, k, 0);
        }
    }
}

/// For a positive divisor: `q` is the floor quotient or one above it, and
/// `q * d` lies within `d` of `n`.
proof fn lemma_rounded_div_pos_bounds(n: int, d: int, mode: fpdec_core::RoundingMode)
    requires
        d > 0,
    ensures
        rounded_div_pos(n, d, mode) == n / d || rounded_div_pos(n, d, mode) == n / d + 1,
        -d < rounded_div_pos(n, d, mode) * d - n < d,
        n % d == 0 ==> rounded_div_pos(n, d, mode) * d == n,
        rounded_div_pos(n, d, mode) == n / d ==> rounded_div_pos(n, d, mode) * d - n == -(n % d),
        rounded_div_pos(n, d, mode) == n / d + 1 ==> rounded_div_pos(n, d, mode) * d - n == d - n % d,
{
    lemma_fundamental_div_mod(n, d);
    let f = n / d;
    let r = n % d;
    assert(0 <= r < d);
    assert((f + 1) * d == f * d + d) by (nonlinear_arith);
    assert(d * f == f * d) by (nonlinear_arith);
}

/// Where the division itself can be carried out in an `i128` (including the
/// negation of both operands for a negative divisor), its rounded quotient
/// fits in an `i128` too.
pub proof fn lemma_rounded_div_fits(n: int, d: int, mode: fpdec_core::RoundingMode)
    requires
        d != 0,
        i128::MIN <= n <= i128::MAX,
        i128::MIN <= d <= i128::MAX,
        d < 0 ==> n != i128::MIN && d != i128::MIN,
    ensures
        i128::MIN <= rounded_div(n, d, mode) <= i128::MAX,
{
    let (m, e) = if d < 0 { (-n, -d) } else { (n, d) };
    lemma_rounded_div_pos_bounds(m, e, mode);
    lemma_fundamental_div_mod(m, e);
    let f = m / e;
    let r = m % e;
    if r == 0 {
        assert(i128::MIN <= f <= i128::MAX) by (nonlinear_arith)
            requires m == e * f, e >= 1, i128::MIN <= m <= i128::MAX;
    } else {
        assert(i128::MIN <= f && f + 1 <= i128::MAX) by (nonlinear_arith)
            requires m == e * f + r, 0 < r < e, i128::MIN <= m <= i128::MAX;
    }
}

/// The directed modes for a positive divisor: `RoundFloor` and
/// `RoundCeiling` round towards negative and positive infinity,
/// `RoundDown` towards zero and `RoundUp` away from zero.
pub proof fn lemma_rounded_div_directed(n: int, d: int)
    requires
        d > 0,
    ensures
        rounding_error(n, d, fpdec_core::RoundingMode::RoundFloor) <= 0,
        rounding_error(n, d, fpdec_core::RoundingMode::RoundCeiling) >= 0,
        n >= 0 ==> rounding_error(n, d, fpdec_core::RoundingMode::RoundDown) <= 0,
        n <= 0 ==> rounding_error(n, d, fpdec_core::RoundingMode::RoundDown) >= 0,
        n >= 0 ==> rounding_error(n, d, fpdec_core::RoundingMode::RoundUp) >= 0,
        n <= 0 ==> rounding_error(n, d, fpdec_core::RoundingMode::RoundUp) <= 0,
{
    lemma_fundamental_div_mod(n, d);
    lemma_rounded_div_pos_bounds(n, d, fpdec_core::RoundingMode::RoundFloor);
    lemma_rounded_div_pos_bounds(n, d, fpdec_core::RoundingMode::RoundCeiling);
    lemma_rounded_div_pos_bounds(n, d, fpdec_core::RoundingMode::RoundDown);
    lemma_rounded_div_pos_bounds(n, d, fpdec_core::RoundingMode::RoundUp);
    let f = n / d;
    let r = n % d;
    if n >= 0 && r != 0 {
        assert(f >= 0) by (nonlinear_arith)
            requires n == d * f + r, 0 <= r < d, n >= 0;
    }
    if n <= 0 && r != 0 {
        assert(f < 0) by (nonlinear_arith)
            requires n == d * f + r, 0 < r < d, n <= 0;
    }
}

/// The modes that round to nearest, for a positive divisor: the rounded
/// quotient is at most half a unit from the exact one, and a tie goes
/// towards zero (`RoundHalfDown`), away from zero (`RoundHalfUp`) or to the
/// even neighbour (`RoundHalfEven`).
pub proof fn lemma_rounded_div_nearest(n: int, d: int)
    requires
        d > 0,
    ensures
        -d <= 2 * rounding_error(n, d, fpdec_core::RoundingMode::RoundHalfDown) <= d,
        -d <= 2 * rounding_error(n, d, fpdec_core::RoundingMode::RoundHalfEven) <= d,
        -d <= 2 * rounding_error(n, d, fpdec_core::RoundingMode::RoundHalfUp) <= d,
        2 * (n % d) == d && n > 0 ==> rounding_error(n, d, fpdec_core::RoundingMode::RoundHalfDown) < 0,
        2 * (n % d) == d && n < 0 ==> rounding_error(n, d, fpdec_core::RoundingMode::RoundHalfDown) > 0,
        2 * (n % d) == d && n > 0 ==> rounding_error(n, d, fpdec_core::RoundingMode::RoundHalfUp) > 0,
        2 * (n % d) == d && n < 0 ==> rounding_error(n, d, fpdec_core::RoundingMode::RoundHalfUp) < 0,
        2 * (n % d) == d ==> rounded_div(n, d, fpdec_core::RoundingMode::RoundHalfEven) % 2 == 0,
{
    lemma_fundamental_div_mod(n, d);
    lemma_rounded_div_pos_bounds(n, d, fpdec_core::RoundingMode::RoundHalfDown);
    lemma_rounded_div_pos_bounds(n, d, fpdec_core::RoundingMode::RoundHalfEven);
    lemma_rounded_div_pos_bounds(n, d, fpdec_core::RoundingMode::RoundHalfUp);
    let f = n / d;
    let r = n % d;
    if n > 0 && r != 0 {
        assert(f >= 0) by (nonlinear_arith)
            requires n == d * f + r, 0 <= r < d, n > 0;
    }
    if n < 0 {
        assert(f < 0) by (nonlinear_arith)
            requires n == d * f + r, 0 <= r < d, n < 0;
    }
}

/// Relies on `fpdec_core::i128_div_rounded`: it negates both operands when
/// the divisor is negative, takes the floor quotient and remainder, and
/// moves the quotient up by one where `mode` asks for it.
#[verifier::external_body]
pub(crate) fn div_i128_rounded(divident: i128, divisor: i128, mode: fpdec_core::RoundingMode) -> (r: i128)
    requires
        divisor != 0,
        divisor < 0 ==> divident != i128::MIN && divisor != i128::MIN,
    ensures
        r == rounded_div(divident as int, divisor as int, mode),
{
    fpdec_core::i128_div_rounded(divident, divisor, Some(mode))
}

/// Relies on `RoundingMode::default` of `fpdec_core`, which reads the
/// current thread's default mode: nothing is known of the value.
#[verifier::external_body]
pub(crate) fn default_rounding_mode() -> (r: fpdec_core::RoundingMode) {
    fpdec_core::RoundingMode::default()
}

} // verus!
