//! The saturating arithmetic engine: overflow-safe add, sub, mul, div and
//! mod over the wide backing integer, together with the overflow probes.
//!
//! The externally observable range of a Yolol number never exceeds the
//! 64-bit signed bounds, even though the backing type is 128 bits wide; the
//! extra width is headroom for the intermediate products and scaled
//! dividends of multiplication and division.

use vstd::arithmetic::div_mod::lemma_div_nonincreasing;
use vstd::arithmetic::div_mod::lemma_div_pos_is_pos;
use vstd::prelude::*;

verus! {

/// Smallest raw inner value a Yolol number may hold: the 64-bit signed
/// minimum, reinterpreted in the backing type.
pub const MIN_INNER: i128 = -9223372036854775808;

/// Largest raw inner value a Yolol number may hold: the 64-bit signed
/// maximum, reinterpreted in the backing type.
pub const MAX_INNER: i128 = 9223372036854775807;

/// The factor between a real value and its raw inner form: ten to the number
/// of decimal places.
pub const CONVERSION: i128 = 10000;

/// Clamps a mathematical integer to the representable raw range.
pub open spec fn saturate(v: int) -> int {
    if v > MAX_INNER as int {
        MAX_INNER as int
    } else if v < MIN_INNER as int {
        MIN_INNER as int
    } else {
        v
    }
}

/// Whether a mathematical integer lies in the representable raw range.
pub open spec fn in_inner_range(v: int) -> bool {
    MIN_INNER as int <= v <= MAX_INNER as int
}

/// The magnitude of a mathematical integer.
pub open spec fn abs_int(v: int) -> int {
    if v < 0 {
        -v
    } else {
        v
    }
}

/// Division rounding toward zero, as the backing integer's division
/// behaves; `/` on `int` itself rounds toward negative infinity.
pub open spec fn div_trunc(x: int, d: int) -> int
    recommends
        d != 0,
{
    if x == 0 {
        0
    } else if x > 0 && d > 0 {
        x / d
    } else if x < 0 && d < 0 {
        (x * -1) / (d * -1)
    } else if x < 0 {
        ((x * -1) / d) * -1
    } else {
        (x / (d * -1)) * -1
    }
}

/// Remainder carrying the dividend's sign, as the backing integer's `%`
/// behaves.
pub open spec fn rem_trunc(x: int, d: int) -> int
    recommends
        d != 0,
{
    if x == 0 {
        0
    } else if x > 0 && d > 0 {
        x % d
    } else if x < 0 && d < 0 {
        ((x * -1) % (d * -1)) * -1
    } else if x < 0 {
        ((x * -1) % d) * -1
    } else {
        x % (d * -1)
    }
}

/// The magnitude of a truncating quotient never exceeds the dividend's.
pub proof fn lemma_div_trunc_bounds(x: int, d: int)
    requires
        d != 0,
    ensures
        abs_int(div_trunc(x, d)) <= abs_int(x),
        x >= 0 && d > 0 ==> 0 <= div_trunc(x, d),
{
    if x == 0 {
    } else if x > 0 && d > 0 {
        lemma_div_pos_is_pos(x, d);
        lemma_div_nonincreasing(x, d);
    } else if x < 0 && d < 0 {
        lemma_div_pos_is_pos(x * -1, d * -1);
        lemma_div_nonincreasing(x * -1, d * -1);
    } else if x < 0 {
        lemma_div_pos_is_pos(x * -1, d);
        lemma_div_nonincreasing(x * -1, d);
    } else {
        lemma_div_pos_is_pos(x, d * -1);
        lemma_div_nonincreasing(x, d * -1);
    }
}

/// A truncating remainder is smaller in magnitude than the divisor and
/// carries the dividend's sign.
pub proof fn lemma_rem_trunc_bounds(x: int, d: int)
    requires
        d != 0,
    ensures
        abs_int(rem_trunc(x, d)) < abs_int(d),
        x >= 0 ==> rem_trunc(x, d) >= 0,
        x <= 0 ==> rem_trunc(x, d) <= 0,
{
}

/// The capability set the fixed-point core asks of its backing integer:
/// saturating arithmetic in the representable raw range, failure-signalling
/// division, and the overflow probes the saturation logic rests on.
pub trait YololOps: Sized + Copy {
    /// The mathematical integer a backing value stands for.
    spec fn as_int(self) -> int;

    /// Saturating addition: the exact sum, clamped to the raw range.
    fn yolol_add(self, right: Self) -> (r: Self)
        ensures
            r.as_int() == saturate(self.as_int() + right.as_int()),
    ;

    /// Saturating subtraction: the exact difference, clamped to the raw range.
    fn yolol_sub(self, right: Self) -> (r: Self)
        ensures
            r.as_int() == saturate(self.as_int() - right.as_int()),
    ;

    /// Saturating multiplication of two pre-scaled raw values: the exact
    /// product is divided by the conversion factor again, then clamped.
    fn yolol_mul(self, right: Self) -> (r: Self)
        requires
            in_inner_range(self.as_int()),
            in_inner_range(right.as_int()),
        ensures
            r.as_int() == saturate(
                div_trunc(self.as_int() * right.as_int(), CONVERSION as int),
            ),
    ;

    /// Division of pre-scaled raw values: the dividend is scaled up by the
    /// conversion factor first; a zero divisor is an explicit failure,
    /// never an abort.
    fn yolol_div(self, right: Self) -> (r: Option<Self>)
        requires
            in_inner_range(self.as_int()),
            in_inner_range(right.as_int()),
        ensures
            (r is Some) <==> right.as_int() != 0,
            r matches Some(q) ==> q.as_int() == saturate(
                div_trunc(self.as_int() * (CONVERSION as int), right.as_int()),
            ),
    ;

    /// Remainder on raw values; a zero divisor yields zero, a deliberately
    /// different policy from division.
    fn yolol_mod(self, right: Self) -> (r: Self)
        requires
            in_inner_range(self.as_int()),
            in_inner_range(right.as_int()),
        ensures
            r.as_int() == if right.as_int() == 0 {
                0
            } else {
                rem_trunc(self.as_int(), right.as_int())
            },
            in_inner_range(r.as_int()),
    ;

    /// Whether adding `right` would land above the representable maximum.
    fn would_overflow_add(self, right: Self) -> (r: bool)
        ensures
            r == (self.as_int() + right.as_int() > MAX_INNER as int),
    ;

    /// Whether adding `right` would land below the representable minimum.
    fn would_underflow_add(self, right: Self) -> (r: bool)
        ensures
            r == (self.as_int() + right.as_int() < MIN_INNER as int),
    ;

    /// Compares against the representable maximum divided by `right`; a zero
    /// divisor reports no overflow, relying on the caller's earlier zero
    /// check.
    fn would_overflow_mul(self, right: Self) -> (r: bool)
        ensures
            r == (right.as_int() != 0 && self.as_int() > div_trunc(
                MAX_INNER as int,
                right.as_int(),
            )),
    ;

    /// Compares against the representable minimum divided by `right`; a zero
    /// divisor reports no underflow, relying on the caller's earlier zero
    /// check.
    fn would_underflow_mul(self, right: Self) -> (r: bool)
        ensures
            r == (right.as_int() != 0 && self.as_int() < div_trunc(
                MIN_INNER as int,
                right.as_int(),
            )),
    ;
}

impl YololOps for i128 {
    open spec fn as_int(self) -> int {
        self as int
    }

    fn yolol_add(self, right: i128) -> (r: i128) {
        match self.checked_add(right) {
            Some(s) => {
                if s > MAX_INNER {
                    MAX_INNER
                } else if s < MIN_INNER {
                    MIN_INNER
                } else {
                    s
                }
            },
            None => {
                if right > 0 {
                    MAX_INNER
                } else {
                    MIN_INNER
                }
            },
        }
    }

    fn yolol_sub(self, right: i128) -> (r: i128) {
        match self.checked_sub(right) {
            Some(s) => {
                if s > MAX_INNER {
                    MAX_INNER
                } else if s < MIN_INNER {
                    MIN_INNER
                } else {
                    s
                }
            },
            None => {
                if right < 0 {
                    MAX_INNER
                } else {
                    MIN_INNER
                }
            },
        }
    }

    fn yolol_mul(self, right: i128) -> (r: i128) {
        proof {
            assert(self * right <= 9223372036854775808 * 9223372036854775808
                && self * right >= -(9223372036854775808 * 9223372036854775808))
                by (nonlinear_arith)
                requires
                    -9223372036854775808 <= self <= 9223372036854775807,
                    -9223372036854775808 <= right <= 9223372036854775807,
            ;
        }
        let prod = self * right;
        match prod.checked_div(CONVERSION) {
            Some(q) => {
                if q > MAX_INNER {
                    MAX_INNER
                } else if q < MIN_INNER {
                    MIN_INNER
                } else {
                    q
                }
            },
            None => {
                proof {
                    lemma_div_trunc_bounds(prod as int, CONVERSION as int);
                    assert(false);
                }
                MIN_INNER
            },
        }
    }

    fn yolol_div(self, right: i128) -> (r: Option<i128>) {
        if right == 0 {
            return None;
        }
        let num = self * CONVERSION;
        match num.checked_div(right) {
            Some(q) => {
                if q > MAX_INNER {
                    Some(MAX_INNER)
                } else if q < MIN_INNER {
                    Some(MIN_INNER)
                } else {
                    Some(q)
                }
            },
            None => {
                proof {
                    lemma_div_trunc_bounds(num as int, right as int);
                    assert(false);
                }
                None
            },
        }
    }

    fn yolol_mod(self, right: i128) -> (r: i128) {
        if right == 0 {
            return 0;
        }
        proof {
            lemma_rem_trunc_bounds(self as int, right as int);
        }
        match self.checked_rem(right) {
            Some(m) => m,
            None => {
                proof {
                    assert(false);
                }
                0
            },
        }
    }

    fn would_overflow_add(self, right: i128) -> (r: bool) {
        match MAX_INNER.checked_sub(right) {
            Some(limit) => self > limit,
            None => false,
        }
    }

    fn would_underflow_add(self, right: i128) -> (r: bool) {
        match MIN_INNER.checked_sub(right) {
            Some(limit) => self < limit,
            None => false,
        }
    }

    fn would_overflow_mul(self, right: i128) -> (r: bool) {
        match MAX_INNER.checked_div(right) {
            Some(q) => self > q,
            None => {
                proof {
                    if right != 0 {
                        lemma_div_trunc_bounds(MAX_INNER as int, right as int);
                    }
                }
                false
            },
        }
    }

    fn would_underflow_mul(self, right: i128) -> (r: bool) {
        match MIN_INNER.checked_div(right) {
            Some(q) => self < q,
            None => {
                proof {
                    if right != 0 {
                        lemma_div_trunc_bounds(MIN_INNER as int, right as int);
                    }
                }
                false
            },
        }
    }
}

} // verus!
