//! Fixed-point decimal arithmetic with results rounded to a requested
//! number of fractional digits.

mod add_sub_rounded;
mod decimal;
mod div_rounded;
mod mul_rounded;
mod powers;
mod rounding;

pub use add_sub_rounded::{
    add_natural_scale, add_rounded_ok, add_rounded_value, alignment_ok, lemma_add_rounded_call_shapes,
    lemma_sub_rounded_call_shapes, lhs_aligned, rhs_aligned, sub_rounded_ok, sub_rounded_value,
    AddRounded, SubRounded,
};
pub use decimal::{reduced, Decimal};
pub use div_rounded::{
    div_denominator, div_numerator, div_rounded_ok, div_rounded_value, div_shift,
    lemma_div_rounded_call_shapes, lemma_div_rounded_within_one, DivRounded,
};
pub use fpdec_core::RoundingMode;
pub use mul_rounded::{
    lemma_mul_rounded_call_shapes, lemma_mul_rounded_commutative, lemma_mul_rounded_scale,
    lemma_mul_rounded_within_one, mul_natural_scale, mul_rounded_ok, mul_rounded_value, MulRounded,
};
pub use powers::{adjust_ok, aligned, lemma_pow10_fits, lemma_pow10_positive, pow10, MAX_TEN_POW_EXP};
pub use rounding::{
    lemma_rounded_div_directed, lemma_rounded_div_fits, lemma_rounded_div_nearest, lemma_rounded_div_within_one, rounded_div,
    rounded_div_pos, rounding_error, ExRoundingMode,
};
