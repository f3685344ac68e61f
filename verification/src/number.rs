//! The fixed-point core: construction, bounding, identities and raw access.
//!
//! A number's raw inner value equals its real value multiplied by the
//! conversion factor, and is always clamped to the 64-bit signed range, so
//! the stored form is a 64-bit integer; the wide backing arithmetic of
//! [`crate::yolol_ops`] supplies the headroom for intermediate results.

mod conversions;
mod error;
mod from_str;
mod ops;

pub use conversions::{
    dec_digits, digit_char, digit_val, format_spec, frac_digits, is_digit, lemma_from_bool,
};
pub use error::FromStrError;
pub use from_str::{
    digit_run_end, digits_val, frac_digits_of, frac_value, grammar_ok, lemma_decimal_truncation,
    lemma_round_trip, main_digits, main_end, parse_spec, sign_len, sign_of,
};

use crate::yolol_ops::{in_inner_range, rem_trunc, saturate, CONVERSION, MAX_INNER, MIN_INNER};
use vstd::prelude::*;

verus! {

/// A fixed-point decimal number with four decimal places, stored as its raw
/// inner value: the real value times the conversion factor, clamped to the
/// 64-bit signed range.
#[derive(Clone, Copy, Debug, PartialEq, Eq, PartialOrd, Ord, Structural)]
pub struct YololNumber(i64);

impl View for YololNumber {
    type V = int;

    /// A number's model is its raw inner value as a mathematical integer.
    closed spec fn view(&self) -> int {
        self.0 as int
    }
}

impl YololNumber {
    /// Clamps a wide raw value to the representable range and stores it.
    fn bound_raw(v: i128) -> (r: Self)
        ensures
            r@ == saturate(v as int),
    {
        if v > MAX_INNER {
            YololNumber(i64::MAX)
        } else if v < MIN_INNER {
            YololNumber(i64::MIN)
        } else {
            YololNumber(v as i64)
        }
    }

    /// Creates a number with the same value as the input, shifting it up by
    /// the conversion factor and clamping to the representable range.
    pub fn from_value(input: i64) -> (r: Self)
        ensures
            r@ == saturate(input * (CONVERSION as int)),
    {
        Self::bound_raw((input as i128) * CONVERSION)
    }

    /// Creates a number with the input used directly as the raw inner
    /// value, clamped to the representable range.
    pub fn from_inner(input: i128) -> (r: Self)
        ensures
            r@ == saturate(input as int),
    {
        Self::bound_raw(input)
    }

    /// Creates a number from values split into the main digits and the
    /// decimal digits: the main part is shifted up by the conversion factor
    /// and the decimal part is reduced modulo the conversion factor before
    /// the two are combined and the sum is clamped. The caller applies the
    /// sign to both parts, so a negative number hands in two non-positive
    /// components.
    ///
    /// The failure channel reports a part that cannot be carried into the
    /// backing type; with the wide backing every part fits, so the result
    /// is always present.
    pub fn from_split(main: i128, decimal: i128) -> (r: Option<Self>)
        ensures
            r is Some,
            r matches Some(n) ==> n@ == saturate(
                main * (CONVERSION as int) + rem_trunc(decimal as int, CONVERSION as int),
            ),
    {
        let d = match decimal.checked_rem(CONVERSION) {
            Some(d) => d,
            None => {
                proof {
                    assert(false);
                }
                0
            },
        };
        proof {
            crate::yolol_ops::lemma_rem_trunc_bounds(decimal as int, CONVERSION as int);
        }
        // A main part this far past the representable range settles the
        // clamp by itself, and keeping it out of the multiplication keeps
        // the scaled product within the wide backing type.
        if main >= 1000000000000000000000000000000 {
            Some(YololNumber(i64::MAX))
        } else if main <= -1000000000000000000000000000000 {
            Some(YololNumber(i64::MIN))
        } else {
            Some(Self::bound_raw(main * CONVERSION + d))
        }
    }

    /// Returns the raw inner value, unscaled.
    pub fn get_inner(self) -> (r: i128)
        ensures
            r as int == self@,
    {
        self.0 as i128
    }

    /// Returns the real value the number stands for, truncated toward zero:
    /// the raw inner value divided by the conversion factor.
    pub fn get_value(self) -> (r: i64)
        ensures
            r as int == crate::yolol_ops::div_trunc(self@, CONVERSION as int),
    {
        proof {
            crate::yolol_ops::lemma_div_trunc_bounds(self@, CONVERSION as int);
        }
        match (self.0 as i128).checked_div(CONVERSION) {
            Some(q) => q as i64,
            None => {
                proof {
                    assert(false);
                }
                0
            },
        }
    }

    /// The number of decimal places carried by the type.
    pub fn num_places() -> (r: u32)
        ensures
            r == 4,
    {
        4
    }

    /// The value used to shift between the raw inner value and the real
    /// value: ten to the number of decimal places.
    pub fn conversion_val() -> (r: i128)
        ensures
            r == CONVERSION,
    {
        CONVERSION
    }

    /// Clamps the value to the representable range. Every stored value
    /// already lies in that range, so the number comes back unchanged.
    pub fn bound(self) -> (r: Self)
        ensures
            r == self,
    {
        self
    }

    /// Returns the value zero.
    pub fn zero() -> (r: Self)
        ensures
            r@ == 0,
    {
        YololNumber(0)
    }

    /// Returns the value one.
    pub fn one() -> (r: Self)
        ensures
            r@ == CONVERSION as int,
    {
        YololNumber(10000)
    }

    /// Whether the number is zero.
    pub fn is_zero(&self) -> (r: bool)
        ensures
            r == (self@ == 0),
    {
        self.0 == 0
    }

    /// Returns the truthy identity, the value one.
    pub fn truthy() -> (r: Self)
        ensures
            r@ == CONVERSION as int,
    {
        Self::one()
    }

    /// Returns the falsy identity, the value zero.
    pub fn falsy() -> (r: Self)
        ensures
            r@ == 0,
    {
        Self::zero()
    }

    /// The smallest representable number.
    pub fn min_value() -> (r: Self)
        ensures
            r@ == MIN_INNER as int,
    {
        YololNumber(i64::MIN)
    }

    /// The largest representable number.
    pub fn max_value() -> (r: Self)
        ensures
            r@ == MAX_INNER as int,
    {
        YololNumber(i64::MAX)
    }

    /// Every stored raw inner value lies in the representable range.
    pub proof fn lemma_inner_in_range(self)
        ensures
            in_inner_range(self@),
    {
    }
}

} // verus!
