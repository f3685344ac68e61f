//! Arithmetic on the fixed-point number: the saturating operator surface,
//! the checked primitives beneath it, and the sign helpers.

use super::YololNumber;
use crate::yolol_ops::{
    abs_int, div_trunc, in_inner_range, lemma_div_trunc_bounds, lemma_rem_trunc_bounds, rem_trunc,
    saturate, YololOps, CONVERSION,
};
use vstd::prelude::*;

verus! {

impl YololNumber {
    /// Wraps an engine result, which always lies in the representable
    /// range, back into a number.
    fn from_engine(raw: i128) -> (r: Self)
        requires
            in_inner_range(raw as int),
        ensures
            r@ == raw as int,
    {
        YololNumber(raw as i64)
    }

    /// Saturating addition: the exact sum, clamped to the representable
    /// range.
    pub fn add(self, other: Self) -> (r: Self)
        ensures
            r@ == saturate(self@ + other@),
    {
        Self::from_engine((self.0 as i128).yolol_add(other.0 as i128))
    }

    /// Saturating subtraction: the exact difference, clamped to the
    /// representable range.
    pub fn sub(self, other: Self) -> (r: Self)
        ensures
            r@ == saturate(self@ - other@),
    {
        Self::from_engine((self.0 as i128).yolol_sub(other.0 as i128))
    }

    /// Saturating multiplication: both operands are pre-scaled, so the
    /// exact product is scaled back down by the conversion factor, then
    /// clamped to the representable range.
    pub fn mul(self, other: Self) -> (r: Self)
        ensures
            r@ == saturate(div_trunc(self@ * other@, CONVERSION as int)),
    {
        Self::from_engine((self.0 as i128).yolol_mul(other.0 as i128))
    }

    /// Yolol division; the division of a pre-scaled dividend by a zero
    /// divisor cannot fail here, so it falls back to zero. That default is
    /// deliberate: callers that need the failure use [`Self::checked_div`].
    pub fn div(self, other: Self) -> (r: Self)
        ensures
            r@ == if other@ == 0 {
                0
            } else {
                saturate(div_trunc(self@ * (CONVERSION as int), other@))
            },
    {
        match (self.0 as i128).yolol_div(other.0 as i128) {
            Some(raw) => Self::from_engine(raw),
            None => Self::zero(),
        }
    }

    /// Yolol remainder on raw values; a zero divisor yields zero, a
    /// deliberately different policy from division.
    pub fn rem(self, other: Self) -> (r: Self)
        ensures
            r@ == if other@ == 0 {
                0
            } else {
                rem_trunc(self@, other@)
            },
    {
        Self::from_engine((self.0 as i128).yolol_mod(other.0 as i128))
    }

    /// Negation, clamped to the representable range: negating the minimum
    /// saturates to the maximum.
    pub fn neg(self) -> (r: Self)
        ensures
            r@ == saturate(-self@),
    {
        Self::bound_raw(-(self.0 as i128))
    }

    /// Logical negation over the boolean bridge: zero becomes the truthy
    /// identity one, every other value becomes the falsy identity zero.
    pub fn not(self) -> (r: Self)
        ensures
            r@ == if self@ == 0 {
                CONVERSION as int
            } else {
                0
            },
    {
        if self.0 == 0 {
            Self::truthy()
        } else {
            Self::falsy()
        }
    }

    /// Checked addition of raw values. The wide backing arithmetic never
    /// overflows on stored values, so this always succeeds, with the sum
    /// clamped to the representable range.
    pub fn checked_add(&self, other: &Self) -> (r: Option<Self>)
        ensures
            r matches Some(n) && n@ == saturate(self@ + other@),
    {
        Some((*self).add(*other))
    }

    /// Checked subtraction of raw values; always succeeds, with the
    /// difference clamped to the representable range.
    pub fn checked_sub(&self, other: &Self) -> (r: Option<Self>)
        ensures
            r matches Some(n) && n@ == saturate(self@ - other@),
    {
        Some((*self).sub(*other))
    }

    /// Checked multiplication with the rescale by the conversion factor;
    /// always succeeds, with the product clamped to the representable
    /// range.
    pub fn checked_mul(&self, other: &Self) -> (r: Option<Self>)
        ensures
            r matches Some(n) && n@ == saturate(div_trunc(self@ * other@, CONVERSION as int)),
    {
        Some((*self).mul(*other))
    }

    /// Checked division of the pre-scaled dividend: division by exactly
    /// zero is an explicit failure, never an abort.
    pub fn checked_div(&self, other: &Self) -> (r: Option<Self>)
        ensures
            (r is Some) <==> other@ != 0,
            r matches Some(n) ==> n@ == saturate(div_trunc(self@ * (CONVERSION as int), other@)),
    {
        match (self.0 as i128).yolol_div(other.0 as i128) {
            Some(raw) => Some(Self::from_engine(raw)),
            None => None,
        }
    }

    /// Checked remainder on raw values: a zero divisor is an explicit
    /// failure.
    pub fn checked_rem(&self, other: &Self) -> (r: Option<Self>)
        ensures
            (r is Some) <==> other@ != 0,
            r matches Some(n) ==> n@ == rem_trunc(self@, other@),
    {
        if other.0 == 0 {
            None
        } else {
            Some((*self).rem(*other))
        }
    }

    /// The absolute value, clamped to the representable range: the
    /// magnitude of the minimum saturates to the maximum.
    pub fn abs(&self) -> (r: Self)
        ensures
            r@ == saturate(abs_int(self@)),
    {
        if self.0 < 0 {
            Self::bound_raw(-(self.0 as i128))
        } else {
            *self
        }
    }

    /// The positive difference: zero when `self` is at most `other`, else
    /// the clamped difference.
    pub fn abs_sub(&self, other: &Self) -> (r: Self)
        ensures
            r@ == if self@ <= other@ {
                0
            } else {
                saturate(self@ - other@)
            },
    {
        if self.0 <= other.0 {
            Self::zero()
        } else {
            let d = (*self).sub(*other);
            d.abs()
        }
    }

    /// The sign of the value, as a number: one for positive, minus one for
    /// negative, zero for zero.
    pub fn signum(&self) -> (r: Self)
        ensures
            r@ == if self@ > 0 {
                CONVERSION as int
            } else if self@ < 0 {
                -(CONVERSION as int)
            } else {
                0
            },
    {
        if self.0 > 0 {
            Self::one()
        } else if self.0 < 0 {
            Self::one().neg()
        } else {
            Self::zero()
        }
    }

    /// Whether the value is strictly positive.
    pub fn is_positive(&self) -> (r: bool)
        ensures
            r == (self@ > 0),
    {
        self.0 > 0
    }

    /// Whether the value is strictly negative.
    pub fn is_negative(&self) -> (r: bool)
        ensures
            r == (self@ < 0),
    {
        self.0 < 0
    }

    /// Drops the decimal places by dividing the raw value down by the
    /// conversion factor, truncating toward zero, and scaling back up.
    pub fn floor(self) -> (r: Self)
        ensures
            r@ == div_trunc(self@, CONVERSION as int) * (CONVERSION as int),
    {
        proof {
            lemma_div_trunc_bounds(self@, CONVERSION as int);
        }
        let q = match (self.0 as i128).checked_div(CONVERSION) {
            Some(q) => q,
            None => {
                proof {
                    assert(false);
                }
                0
            },
        };
        Self::bound_raw(q * CONVERSION)
    }

    /// Adds the distance from the last decimal places to the next whole
    /// value, clamping to the representable range. The adjustment is the
    /// conversion factor minus the decimal remainder, so a value that is
    /// already whole moves up to the next whole number.
    pub fn ceiling(self) -> (r: Self)
        ensures
            r@ == saturate(self@ + ((CONVERSION as int) - rem_trunc(self@, CONVERSION as int))),
    {
        proof {
            lemma_rem_trunc_bounds(self@, CONVERSION as int);
        }
        let first_decimal = match (self.0 as i128).checked_rem(CONVERSION) {
            Some(m) => m,
            None => {
                proof {
                    assert(false);
                }
                0
            },
        };
        let adjustment = CONVERSION - first_decimal;
        Self::bound_raw(self.0 as i128 + adjustment)
    }

    /// Clamps the value between the two bounds, which are given as real
    /// values and scaled up like [`Self::from_value`]; the lower bound wins
    /// where the bounds cross.
    pub fn clamp(self, min: i64, max: i64) -> (r: Self)
        ensures
            r@ == {
                let lo = saturate(min * (CONVERSION as int));
                let hi = saturate(max * (CONVERSION as int));
                if self@ < lo {
                    lo
                } else if self@ > hi {
                    hi
                } else {
                    self@
                }
            },
    {
        let lo = Self::from_value(min);
        let hi = Self::from_value(max);
        if self.0 < lo.0 {
            lo
        } else if self.0 > hi.0 {
            hi
        } else {
            self
        }
    }
}

impl core::ops::Add for YololNumber {
    type Output = YololNumber;

    /// Yolol addition through `+`: saturating, per [`YololNumber::add`].
    fn add(self, other: YololNumber) -> YololNumber {
        YololNumber::add(self, other)
    }
}

impl vstd::std_specs::ops::AddSpecImpl for YololNumber {
    open spec fn obeys_add_spec() -> bool {
        true
    }

    open spec fn add_req(self, rhs: YololNumber) -> bool {
        true
    }

    closed spec fn add_spec(self, rhs: YololNumber) -> YololNumber {
        YololNumber(saturate(self@ + rhs@) as i64)
    }
}

impl core::ops::Sub for YololNumber {
    type Output = YololNumber;

    /// Yolol subtraction through `-`: saturating, per [`YololNumber::sub`].
    fn sub(self, other: YololNumber) -> YololNumber {
        YololNumber::sub(self, other)
    }
}

impl vstd::std_specs::ops::SubSpecImpl for YololNumber {
    open spec fn obeys_sub_spec() -> bool {
        true
    }

    open spec fn sub_req(self, rhs: YololNumber) -> bool {
        true
    }

    closed spec fn sub_spec(self, rhs: YololNumber) -> YololNumber {
        YololNumber(saturate(self@ - rhs@) as i64)
    }
}

impl core::ops::Mul for YololNumber {
    type Output = YololNumber;

    /// Yolol multiplication through `*`: rescaled and saturating, per
    /// [`YololNumber::mul`].
    fn mul(self, other: YololNumber) -> YololNumber {
        YololNumber::mul(self, other)
    }
}

impl vstd::std_specs::ops::MulSpecImpl for YololNumber {
    open spec fn obeys_mul_spec() -> bool {
        true
    }

    open spec fn mul_req(self, rhs: YololNumber) -> bool {
        true
    }

    closed spec fn mul_spec(self, rhs: YololNumber) -> YololNumber {
        YololNumber(saturate(div_trunc(self@ * rhs@, CONVERSION as int)) as i64)
    }
}

impl core::ops::Div for YololNumber {
    type Output = YololNumber;

    /// Yolol division through `/`; division by zero falls back to zero,
    /// per [`YololNumber::div`].
    fn div(self, other: YololNumber) -> YololNumber {
        YololNumber::div(self, other)
    }
}

impl vstd::std_specs::ops::DivSpecImpl for YololNumber {
    open spec fn obeys_div_spec() -> bool {
        true
    }

    open spec fn div_req(self, rhs: YololNumber) -> bool {
        true
    }

    closed spec fn div_spec(self, rhs: YololNumber) -> YololNumber {
        if rhs@ == 0 {
            YololNumber(0)
        } else {
            YololNumber(saturate(div_trunc(self@ * (CONVERSION as int), rhs@)) as i64)
        }
    }
}

impl core::ops::Rem for YololNumber {
    type Output = YololNumber;

    /// Yolol remainder through `%`; a zero divisor yields zero, per
    /// [`YololNumber::rem`].
    fn rem(self, other: YololNumber) -> YololNumber {
        YololNumber::rem(self, other)
    }
}

impl vstd::std_specs::ops::RemSpecImpl for YololNumber {
    open spec fn obeys_rem_spec() -> bool {
        true
    }

    open spec fn rem_req(self, rhs: YololNumber) -> bool {
        true
    }

    closed spec fn rem_spec(self, rhs: YololNumber) -> YololNumber {
        if rhs@ == 0 {
            YololNumber(0)
        } else {
            YololNumber(rem_trunc(self@, rhs@) as i64)
        }
    }
}

impl core::ops::Neg for YololNumber {
    type Output = YololNumber;

    /// Negation through unary `-`: saturating, per [`YololNumber::neg`].
    fn neg(self) -> YololNumber {
        YololNumber::neg(self)
    }
}

impl vstd::std_specs::ops::NegSpecImpl for YololNumber {
    open spec fn obeys_neg_spec() -> bool {
        true
    }

    open spec fn neg_req(self) -> bool {
        true
    }

    closed spec fn neg_spec(self) -> YololNumber {
        YololNumber(saturate(-self@) as i64)
    }
}

impl core::ops::Not for YololNumber {
    type Output = YololNumber;

    /// Logical negation through `!`: the boolean bridge, per
    /// [`YololNumber::not`].
    fn not(self) -> YololNumber {
        YololNumber::not(self)
    }
}

impl vstd::std_specs::ops::NotSpecImpl for YololNumber {
    open spec fn obeys_not_spec() -> bool {
        true
    }

    open spec fn not_req(self) -> bool {
        true
    }

    closed spec fn not_spec(self) -> YololNumber {
        if self@ == 0 {
            YololNumber(10000)
        } else {
            YololNumber(0)
        }
    }
}

} // verus!
