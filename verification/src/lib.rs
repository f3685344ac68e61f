//! A fixed-point decimal number type with four decimal places, saturating
//! 64-bit-range arithmetic, exact decimal string parsing and formatting, and
//! an engine of overflow-safe operations on the wide backing integer.
//!
//! The raw inner value of a [`YololNumber`] is its real value multiplied by
//! the conversion factor of ten to the number of decimal places. Every
//! operation clamps its result to the 64-bit signed range instead of
//! wrapping or aborting, division by zero is an explicit failure (or the
//! documented zero fallback of the `/` operator), and formatting then
//! parsing returns every representable value unchanged, which
//! [`lemma_round_trip`] proves.

mod number;
pub mod prelude;
mod yolol_ops;

pub use number::{
    dec_digits, digit_char, digit_run_end, digit_val, digits_val, format_spec, frac_digits,
    frac_digits_of, frac_value, grammar_ok, is_digit, lemma_decimal_truncation, lemma_from_bool,
    lemma_round_trip, main_digits, main_end, parse_spec, sign_len, sign_of, FromStrError,
    YololNumber,
};
pub use yolol_ops::{
    abs_int, div_trunc, in_inner_range, lemma_div_trunc_bounds, lemma_rem_trunc_bounds, rem_trunc,
    saturate, YololOps, CONVERSION, MAX_INNER, MIN_INNER,
};
