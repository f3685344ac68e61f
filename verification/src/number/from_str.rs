//! The decimal-grammar parser: an optional sign, one or more whole digits,
//! and an optional decimal point followed by any number of decimal digits,
//! of which exactly the first four count, truncated, never rounded.

use super::conversions::{
    dec_digits, digit_char, digit_val, format_spec, frac_digits, is_digit,
};
use super::error::FromStrError;
use super::YololNumber;
use crate::yolol_ops::{abs_int, in_inner_range, rem_trunc, saturate, CONVERSION, MAX_INNER};
use vstd::arithmetic::div_mod::{
    lemma_div_denominator, lemma_fundamental_div_mod, lemma_multiply_divide_lt,
};
use vstd::prelude::*;
use vstd::string::StrSliceExecFns;

verus! {

/// How many leading characters of a string form its sign: one for a
/// leading plus or minus, none otherwise.
pub open spec fn sign_len(s: Seq<char>) -> int {
    if s.len() > 0 && (s[0] == '+' || s[0] == '-') {
        1
    } else {
        0
    }
}

/// The sign a string carries: minus one for a leading minus, one
/// otherwise.
pub open spec fn sign_of(s: Seq<char>) -> int {
    if s.len() > 0 && s[0] == '-' {
        -1
    } else {
        1
    }
}

/// The first position at or after `i` that does not hold a digit.
pub open spec fn digit_run_end(s: Seq<char>, i: int) -> int
    decreases s.len() - i,
{
    if i < s.len() && is_digit(s[i]) {
        digit_run_end(s, i + 1)
    } else {
        i
    }
}

/// The value of a run of digit characters, most significant first.
pub open spec fn digits_val(s: Seq<char>) -> int
    decreases s.len(),
{
    if s.len() == 0 {
        0
    } else {
        digits_val(s.drop_last()) * 10 + digit_val(s.last())
    }
}

/// Where the whole part's digits end.
pub open spec fn main_end(s: Seq<char>) -> int {
    digit_run_end(s, sign_len(s))
}

/// The whole part's digit characters.
pub open spec fn main_digits(s: Seq<char>) -> Seq<char> {
    s.subrange(sign_len(s), main_end(s))
}

/// The decimal part's digit characters: what follows the decimal point,
/// or nothing when there is no point.
pub open spec fn frac_digits_of(s: Seq<char>) -> Seq<char> {
    if main_end(s) == s.len() {
        Seq::<char>::empty()
    } else {
        s.subrange(main_end(s) + 1, s.len() as int)
    }
}

/// Whether a string fits the decimal grammar: an optional sign, one or
/// more whole digits, then either nothing or a decimal point followed by
/// digits only.
pub open spec fn grammar_ok(s: Seq<char>) -> bool {
    let m = main_end(s);
    m > sign_len(s) && (m == s.len() || (s[m] == '.' && digit_run_end(s, m + 1) == s.len()))
}

/// The raw value contributed by the decimal digits: exactly the first
/// four count, each in its decimal place; later digits are truncated
/// away, never rounded.
pub open spec fn frac_value(d: Seq<char>) -> int {
    if d.len() >= 4 {
        digits_val(d.subrange(0, 4))
    } else if d.len() == 3 {
        digits_val(d) * 10
    } else if d.len() == 2 {
        digits_val(d) * 100
    } else if d.len() == 1 {
        digits_val(d) * 1000
    } else {
        0
    }
}

/// What parsing a string yields: the grammar is checked first; then the
/// whole digits must fit the wide backing type, with magnitudes beyond
/// the representable range saturating through the final clamp; the sign
/// applies to the whole and decimal parts together.
pub open spec fn parse_spec(s: Seq<char>) -> Result<int, FromStrError> {
    if !grammar_ok(s) {
        Result::Err(FromStrError::InputVerificationFailure)
    } else if digits_val(main_digits(s)) > i128::MAX as int {
        Result::Err(FromStrError::MainDigitsParseError)
    } else {
        Result::Ok(
            saturate(
                sign_of(s) * (digits_val(main_digits(s)) * (CONVERSION as int) + frac_value(
                    frac_digits_of(s),
                )),
            ),
        )
    }
}

/// The digit value of a character, where there is one.
fn digit_of(c: char) -> (r: Option<u8>)
    ensures
        (r is Some) <==> is_digit(c),
        r matches Some(d) ==> d as int == digit_val(c) && d < 10,
{
    match c {
        '0' => Some(0u8),
        '1' => Some(1u8),
        '2' => Some(2u8),
        '3' => Some(3u8),
        '4' => Some(4u8),
        '5' => Some(5u8),
        '6' => Some(6u8),
        '7' => Some(7u8),
        '8' => Some(8u8),
        '9' => Some(9u8),
        _ => None,
    }
}

/// A digit run's value is never negative.
proof fn lemma_digits_val_nonneg(s: Seq<char>)
    requires
        forall|k: int| 0 <= k < s.len() ==> is_digit(s[k]),
    ensures
        digits_val(s) >= 0,
    decreases s.len(),
{
    if s.len() > 0 {
        lemma_digits_val_nonneg(s.drop_last());
    }
}

/// A digit run of at most four characters stays under its place bound.
proof fn lemma_digits_val_small(s: Seq<char>)
    requires
        forall|k: int| 0 <= k < s.len() ==> is_digit(s[k]),
        s.len() <= 4,
    ensures
        0 <= digits_val(s),
        digits_val(s) < if s.len() == 0 {
            1int
        } else if s.len() == 1 {
            10int
        } else if s.len() == 2 {
            100int
        } else if s.len() == 3 {
            1000int
        } else {
            10000int
        },
    decreases s.len(),
{
    if s.len() > 0 {
        lemma_digits_val_small(s.drop_last());
    }
}

/// Extending a digit run by one character multiplies its value by ten and
/// adds the new digit.
proof fn lemma_digits_val_extend(s: Seq<char>, a: int, i: int)
    requires
        0 <= a <= i < s.len(),
    ensures
        digits_val(s.subrange(a, i + 1)) == 10 * digits_val(s.subrange(a, i)) + digit_val(s[i]),
{
    assert(s.subrange(a, i + 1).drop_last() =~= s.subrange(a, i));
    assert(s.subrange(a, i + 1).last() == s[i]);
}

/// Extending a digit run never shrinks its value.
proof fn lemma_digits_val_step_ge(s: Seq<char>, a: int, i: int)
    requires
        0 <= a <= i < s.len(),
        forall|k: int| a <= k <= i ==> is_digit(s[k]),
    ensures
        digits_val(s.subrange(a, i + 1)) >= digits_val(s.subrange(a, i)),
{
    lemma_digits_val_extend(s, a, i);
    assert(forall|k: int| 0 <= k < s.subrange(a, i).len() ==> is_digit(s.subrange(a, i)[k]));
    lemma_digits_val_nonneg(s.subrange(a, i));
}

/// Pins the end of a digit run: everything from `i` to `j` is a digit and
/// `j` holds none (or is the end), so the run ends at `j`.
proof fn lemma_digit_run_end_at(s: Seq<char>, i: int, j: int)
    requires
        0 <= i <= j <= s.len(),
        forall|k: int| i <= k < j ==> is_digit(s[k]),
        j == s.len() || !is_digit(s[j]),
    ensures
        digit_run_end(s, i) == j,
    decreases j - i,
{
    if i < j {
        assert(is_digit(s[i]));
        lemma_digit_run_end_at(s, i + 1, j);
    }
}

/// The value of a single digit character, as a digit run.
proof fn lemma_digits_val_one(c: char)
    ensures
        digits_val(seq![c]) == digit_val(c),
{
    assert(seq![c].drop_last() =~= Seq::<char>::empty());
    assert(digits_val(Seq::<char>::empty()) == 0);
    assert(seq![c].last() == c);
}

/// Appending a digit character multiplies a run's value by ten and adds
/// the digit.
proof fn lemma_digits_val_push(s: Seq<char>, c: char)
    ensures
        digits_val(s.push(c)) == digits_val(s) * 10 + digit_val(c),
{
    assert(s.push(c).drop_last() =~= s);
    assert(s.push(c).last() == c);
}

/// A digit's character carries that digit's value.
proof fn lemma_digit_char_val(d: int)
    requires
        0 <= d <= 9,
    ensures
        is_digit(digit_char(d)),
        digit_val(digit_char(d)) == d,
{
}

/// The whole part's printed digits are digits and read back to its value.
proof fn lemma_dec_digits(n: nat)
    ensures
        dec_digits(n).len() >= 1,
        forall|k: int| 0 <= k < dec_digits(n).len() ==> is_digit(#[trigger] dec_digits(n)[k]),
        digits_val(dec_digits(n)) == n,
    decreases n,
{
    if n < 10 {
        lemma_digit_char_val(n as int);
        assert(dec_digits(n) =~= seq![digit_char(n as int)]);
        lemma_digits_val_one(digit_char(n as int));
        assert(digits_val(dec_digits(n)) == n);
    } else {
        lemma_dec_digits(n / 10);
        lemma_fundamental_div_mod(n as int, 10);
        lemma_digit_char_val((n % 10) as int);
        let t = dec_digits(n);
        assert(t =~= dec_digits(n / 10).push(digit_char((n % 10) as int)));
        assert(t.drop_last() =~= dec_digits(n / 10));
        assert(t.last() == digit_char((n % 10) as int));
        assert(digits_val(t) == digits_val(dec_digits(n / 10)) * 10 + (n % 10));
    }
}

/// A raw decimal remainder splits into its four decimal digit values.
proof fn lemma_digit_recompose(frac: int)
    requires
        0 <= frac < 10000,
    ensures
        frac == 1000 * (frac / 1000) + 100 * ((frac / 100) % 10) + 10 * ((frac / 10) % 10) + frac
            % 10,
        0 <= frac / 1000 <= 9,
        0 <= (frac / 100) % 10 <= 9,
        0 <= (frac / 10) % 10 <= 9,
        0 <= frac % 10 <= 9,
{
    lemma_fundamental_div_mod(frac, 10);
    lemma_fundamental_div_mod(frac / 10, 10);
    lemma_div_denominator(frac, 10, 10);
    lemma_fundamental_div_mod(frac / 100, 10);
    lemma_div_denominator(frac, 100, 10);
    lemma_multiply_divide_lt(frac, 1000, 10);
    vstd::arithmetic::div_mod::lemma_div_pos_is_pos(frac, 1000);
}

/// The printed decimal digits of a nonzero decimal remainder are the
/// decimal point followed by digits that read back to that remainder.
proof fn lemma_frac_digits(frac: int)
    requires
        1 <= frac < 10000,
    ensures
        frac_digits(frac).len() >= 2,
        frac_digits(frac)[0] == '.',
        forall|k: int|
            1 <= k < frac_digits(frac).len() ==> is_digit(#[trigger] frac_digits(frac)[k]),
        frac_value(frac_digits(frac).subrange(1, frac_digits(frac).len() as int)) == frac,
{
    lemma_digit_recompose(frac);
    let a = frac / 1000;
    let b = (frac / 100) % 10;
    let c = (frac / 10) % 10;
    let d = frac % 10;
    lemma_digit_char_val(a);
    lemma_digit_char_val(b);
    lemma_digit_char_val(c);
    lemma_digit_char_val(d);
    let fd = frac_digits(frac);
    let tail = fd.subrange(1, fd.len() as int);
    let t1 = seq![digit_char(a)];
    let t2 = t1.push(digit_char(b));
    let t3 = t2.push(digit_char(c));
    let t4 = t3.push(digit_char(d));
    lemma_digits_val_one(digit_char(a));
    lemma_digits_val_push(t1, digit_char(b));
    lemma_digits_val_push(t2, digit_char(c));
    lemma_digits_val_push(t3, digit_char(d));
    if d != 0 {
        assert(tail =~= t4);
        assert(tail.subrange(0, 4) =~= tail);
        assert(digits_val(tail) == ((a * 10 + b) * 10 + c) * 10 + d);
        assert(frac_value(tail) == digits_val(tail));
    } else if c != 0 {
        assert(tail =~= t3);
        assert(digits_val(tail) == (a * 10 + b) * 10 + c);
        assert(frac_value(tail) == digits_val(tail) * 10);
    } else if b != 0 {
        assert(tail =~= t2);
        assert(digits_val(tail) == a * 10 + b);
        assert(frac_value(tail) == digits_val(tail) * 100);
    } else {
        assert(tail =~= t1);
        assert(digits_val(tail) == a);
        assert(frac_value(tail) == digits_val(tail) * 1000);
    }
}

/// Decimal digits beyond the fourth place never affect the parsed value:
/// they are truncated, never rounded.
pub proof fn lemma_decimal_truncation(d: Seq<char>)
    requires
        d.len() >= 4,
    ensures
        frac_value(d) == frac_value(d.subrange(0, 4)),
{
    assert(d.subrange(0, 4).subrange(0, 4) =~= d.subrange(0, 4));
}

/// Formatting a representable raw value and parsing the result returns
/// exactly that value: the round trip is the defining correctness
/// property of the string conversion.
pub proof fn lemma_round_trip(raw: int)
    requires
        in_inner_range(raw),
    ensures
        parse_spec(format_spec(raw)) == Result::<int, FromStrError>::Ok(raw),
{
    let mag = abs_int(raw);
    let conv = CONVERSION as int;
    let main = mag / conv;
    let frac = mag % conv;
    lemma_fundamental_div_mod(mag, conv);
    vstd::arithmetic::div_mod::lemma_div_pos_is_pos(mag, conv);
    lemma_dec_digits(main as nat);
    let md = dec_digits(main as nat);
    let mdl = md.len() as int;
    let sign: Seq<char> = if raw < 0 {
        seq!['-']
    } else {
        Seq::<char>::empty()
    };
    let i0: int = if raw < 0 {
        1
    } else {
        0
    };
    let s = format_spec(raw);
    assert(digits_val(md) == main);
    if frac == 0 {
        assert(s =~= sign + md);
        assert(s.len() == i0 + mdl);
        assert(forall|k: int| i0 <= k < i0 + mdl ==> #[trigger] s[k] == md[k - i0]);
        assert(sign_len(s) == i0);
        assert(sign_of(s) == if raw < 0 {
            -1int
        } else {
            1int
        });
        lemma_digit_run_end_at(s, i0, i0 + mdl);
        assert(main_end(s) == i0 + mdl);
        assert(main_digits(s) =~= md);
        assert(grammar_ok(s));
        assert(frac_digits_of(s) =~= Seq::<char>::empty());
        assert(frac_value(frac_digits_of(s)) == 0);
        assert(digits_val(main_digits(s)) == main);
        assert(main <= MAX_INNER as int);
        assert(sign_of(s) * (main * conv + 0) == raw);
        assert(saturate(raw) == raw);
    } else {
        lemma_frac_digits(frac);
        let fd = frac_digits(frac);
        let fdl = fd.len() as int;
        assert(s =~= sign + md + fd);
        assert(s.len() == i0 + mdl + fdl);
        assert(forall|k: int| i0 <= k < i0 + mdl ==> #[trigger] s[k] == md[k - i0]);
        assert(forall|k: int| i0 + mdl <= k < s.len() ==> #[trigger] s[k] == fd[k - i0 - mdl]);
        assert(sign_len(s) == i0);
        assert(sign_of(s) == if raw < 0 {
            -1int
        } else {
            1int
        });
        assert(s[i0 + mdl] == fd[0]);
        assert(!is_digit('.'));
        lemma_digit_run_end_at(s, i0, i0 + mdl);
        assert(main_end(s) == i0 + mdl);
        assert(main_digits(s) =~= md);
        assert(forall|k: int|
            i0 + mdl + 1 <= k < s.len() ==> is_digit(#[trigger] s[k]));
        lemma_digit_run_end_at(s, i0 + mdl + 1, s.len() as int);
        assert(grammar_ok(s));
        assert(frac_digits_of(s) =~= fd.subrange(1, fdl));
        assert(frac_value(frac_digits_of(s)) == frac);
        assert(digits_val(main_digits(s)) == main);
        assert(main <= MAX_INNER as int);
        assert(sign_of(s) * (main * conv + frac) == raw);
        assert(saturate(raw) == raw);
    }
}

impl YololNumber {
    /// Parses the decimal string form of a Yolol number.
    ///
    /// The grammar is checked first: a failure there is
    /// [`FromStrError::InputVerificationFailure`]. Whole digits that do
    /// not fit the wide backing type are
    /// [`FromStrError::MainDigitsParseError`]; magnitudes that fit the
    /// backing type but pass the representable range saturate to the
    /// nearest bound instead of failing. No other failure can come back.
    pub fn from_str(s: &str) -> (r: Result<Self, FromStrError>)
        ensures
            match parse_spec(s@) {
                Result::Ok(v) => r matches Result::Ok(n) && n@ == v,
                Result::Err(e) => r matches Result::Err(e2) && e2 == e,
            },
    {
        let len = s.unicode_len();
        let mut i: usize = 0;
        let mut negative: bool = false;
        if len > 0 {
            let c0 = s.get_char(0);
            if c0 == '+' {
                i = 1;
            } else if c0 == '-' {
                negative = true;
                i = 1;
            }
        }
        proof {
            assert(i as int == sign_len(s@));
            assert(negative <==> sign_of(s@) == -1);
        }
        let start = i;
        let mut mval: u128 = 0;
        let mut too_big: bool = false;
        let mut stopped: bool = false;
        while !stopped && i < len
            invariant
                s@.len() == len,
                start <= i <= len,
                start as int == sign_len(s@),
                forall|k: int| start <= k < i as int ==> is_digit(s@[k]),
                stopped ==> i < len && !is_digit(s@[i as int]),
                !too_big ==> mval as int == digits_val(s@.subrange(start as int, i as int))
                    && mval as int <= i128::MAX as int,
                too_big ==> digits_val(s@.subrange(start as int, i as int)) > i128::MAX as int,
            decreases len - i, (if stopped { 0int } else { 1int }),
        {
            let c = s.get_char(i);
            match digit_of(c) {
                Option::None => {
                    stopped = true;
                },
                Option::Some(d) => {
                    proof {
                        lemma_digits_val_extend(s@, start as int, i as int);
                        if too_big {
                            lemma_digits_val_step_ge(s@, start as int, i as int);
                        }
                    }
                    if !too_big {
                        if mval > (170141183460469231731687303715884105727u128 - (d as u128))
                            / 10 {
                            proof {
                                lemma_fundamental_div_mod(
                                    i128::MAX as int - d as int,
                                    10,
                                );
                            }
                            too_big = true;
                        } else {
                            proof {
                                lemma_fundamental_div_mod(
                                    i128::MAX as int - d as int,
                                    10,
                                );
                            }
                            mval = mval * 10 + (d as u128);
                        }
                    }
                    i = i + 1;
                },
            }
        }
        proof {
            lemma_digit_run_end_at(s@, start as int, i as int);
            assert(main_end(s@) == i as int);
        }
        if i == start {
            return Result::Err(FromStrError::InputVerificationFailure);
        }
        let mend = i;
        let mut fval: u64 = 0;
        if i < len {
            let dot = s.get_char(i);
            if dot != '.' {
                return Result::Err(FromStrError::InputVerificationFailure);
            }
            let fstart = i + 1;
            let mut j = fstart;
            let mut count: usize = 0;
            while j < len
                invariant
                    s@.len() == len,
                    fstart <= j <= len,
                    1 <= fstart,
                    fstart == mend + 1 <= len,
                    main_end(s@) == mend as int,
                    s@[mend as int] == '.',
                    forall|k: int| fstart <= k < j as int ==> is_digit(s@[k]),
                    count as int == if j - fstart < 4 {
                        j as int - fstart as int
                    } else {
                        4int
                    },
                    fval as int == digits_val(
                        s@.subrange(fstart as int, fstart as int + count as int),
                    ),
                decreases len - j,
            {
                let c = s.get_char(j);
                match digit_of(c) {
                    Option::None => {
                        proof {
                            lemma_digit_run_end_at(s@, fstart as int, j as int);
                        }
                        return Result::Err(FromStrError::InputVerificationFailure);
                    },
                    Option::Some(d) => {
                        if count < 4 {
                            proof {
                                lemma_digits_val_small(
                                    s@.subrange(fstart as int, fstart as int + count as int),
                                );
                                lemma_digits_val_extend(
                                    s@,
                                    fstart as int,
                                    fstart as int + count as int,
                                );
                            }
                            fval = fval * 10 + (d as u64);
                            count = count + 1;
                        }
                        j = j + 1;
                    },
                }
            }
            proof {
                lemma_digit_run_end_at(s@, fstart as int, len as int);
                lemma_digits_val_small(s@.subrange(fstart as int, fstart as int + count as int));
                let d = frac_digits_of(s@);
                assert(d =~= s@.subrange(fstart as int, len as int));
                if count < 4 {
                    assert(d =~= s@.subrange(fstart as int, fstart as int + count as int));
                } else {
                    assert(d.subrange(0, 4) =~= s@.subrange(fstart as int, fstart as int + 4));
                }
            }
            let shift: u64 = if count == 0 {
                10000
            } else if count == 1 {
                1000
            } else if count == 2 {
                100
            } else if count == 3 {
                10
            } else {
                1
            };
            fval = fval * shift;
            proof {
                assert(fval as int == frac_value(frac_digits_of(s@)));
            }
        } else {
            proof {
                assert(frac_digits_of(s@) =~= Seq::<char>::empty());
            }
        }
        proof {
            assert(grammar_ok(s@));
        }
        if too_big {
            return Result::Err(FromStrError::MainDigitsParseError);
        }
        let main_mag: i128 = mval as i128;
        let frac_mag: i128 = fval as i128;
        let main_num: i128 = if negative {
            -main_mag
        } else {
            main_mag
        };
        let dec_num: i128 = if negative {
            -frac_mag
        } else {
            frac_mag
        };
        proof {
            assert(0 <= fval as int <= 9999);
            assert(rem_trunc(dec_num as int, CONVERSION as int) == dec_num as int);
        }
        match Self::from_split(main_num, dec_num) {
            Option::Some(n) => {
                proof {
                    let m = digits_val(main_digits(s@));
                    let f = frac_value(frac_digits_of(s@));
                    let conv = CONVERSION as int;
                    assert(m == mval as int);
                    assert(f == fval as int);
                    if negative {
                        assert(sign_of(s@) == -1);
                        assert(main_num as int == -m && dec_num as int == -f);
                        assert((-m) * conv == -(m * conv)) by (nonlinear_arith);
                        assert((-1) * (m * conv + f) == -(m * conv + f)) by (nonlinear_arith);
                        assert(main_num as int * conv + dec_num as int == sign_of(s@) * (m * conv
                            + f));
                    } else {
                        assert(sign_of(s@) == 1);
                        assert(main_num as int * conv + dec_num as int == sign_of(s@) * (m * conv
                            + f));
                    }
                }
                Result::Ok(n)
            },
            Option::None => {
                proof {
                    assert(false);
                }
                Result::Err(FromStrError::FromSplitCreationFailure)
            },
        }
    }

    /// Parses a decimal string, as [`Self::from_str`], but only for radix
    /// ten; any other radix is refused. Failures come back as their
    /// message text.
    pub fn from_str_radix(input: &str, radix: u32) -> (r: Result<Self, String>)
        ensures
            radix != 10 ==> r is Err,
            radix == 10 ==> match parse_spec(input@) {
                Result::Ok(v) => r matches Result::Ok(n) && n@ == v,
                Result::Err(e) => r is Err,
            },
    {
        if radix != 10 {
            return Result::Err("Only able to convert from strings in base 10!".to_owned());
        }
        match Self::from_str(input) {
            Result::Ok(n) => Result::Ok(n),
            Result::Err(e) => Result::Err(e.message().to_owned()),
        }
    }
}

impl core::str::FromStr for YololNumber {
    type Err = FromStrError;

    /// Parses with [`YololNumber::from_str`]; the inherent function
    /// carries the contract.
    fn from_str(input: &str) -> Result<Self, FromStrError> {
        YololNumber::from_str(input)
    }
}

} // verus!
