//! Conversions between the fixed-point number and other forms: the
//! canonical minimal decimal string, the boolean bridge, and raw-value
//! casts to and from the ordinary machine integers.

use super::YololNumber;
use crate::yolol_ops::{abs_int, in_inner_range, saturate, CONVERSION};
use vstd::prelude::*;
use vstd::std_specs::convert::FromSpec;
use vstd::string::StringExecFns;

verus! {

/// The character for one decimal digit value.
pub open spec fn digit_char(d: int) -> char {
    if d == 0 {
        '0'
    } else if d == 1 {
        '1'
    } else if d == 2 {
        '2'
    } else if d == 3 {
        '3'
    } else if d == 4 {
        '4'
    } else if d == 5 {
        '5'
    } else if d == 6 {
        '6'
    } else if d == 7 {
        '7'
    } else if d == 8 {
        '8'
    } else {
        '9'
    }
}

/// Whether a character is a decimal digit.
pub open spec fn is_digit(c: char) -> bool {
    c == '0' || c == '1' || c == '2' || c == '3' || c == '4' || c == '5' || c == '6' || c == '7'
        || c == '8' || c == '9'
}

/// The value of one decimal digit character.
pub open spec fn digit_val(c: char) -> int {
    if c == '0' {
        0
    } else if c == '1' {
        1
    } else if c == '2' {
        2
    } else if c == '3' {
        3
    } else if c == '4' {
        4
    } else if c == '5' {
        5
    } else if c == '6' {
        6
    } else if c == '7' {
        7
    } else if c == '8' {
        8
    } else {
        9
    }
}

/// The decimal digit characters of a natural number, most significant
/// first, with no leading zeros (a single zero for zero itself).
pub open spec fn dec_digits(n: nat) -> Seq<char>
    decreases n,
{
    if n < 10 {
        seq![digit_char(n as int)]
    } else {
        dec_digits(n / 10).push(digit_char((n % 10) as int))
    }
}

/// The decimal point and the decimal digit characters of a nonzero
/// fractional raw part, most significant place first, cut after the last
/// nonzero digit.
pub open spec fn frac_digits(frac: int) -> Seq<char>
    recommends
        1 <= frac < 10000,
{
    let d1 = digit_char(frac / 1000);
    let d2 = digit_char((frac / 100) % 10);
    let d3 = digit_char((frac / 10) % 10);
    let d4 = digit_char(frac % 10);
    if frac % 10 != 0 {
        seq!['.', d1, d2, d3, d4]
    } else if (frac / 10) % 10 != 0 {
        seq!['.', d1, d2, d3]
    } else if (frac / 100) % 10 != 0 {
        seq!['.', d1, d2]
    } else {
        seq!['.', d1]
    }
}

/// The canonical minimal decimal form of a raw inner value: a minus sign
/// only when strictly negative, the absolute whole part, and decimal
/// digits only up to the last nonzero digit, with no decimal point when
/// they are all zero.
pub open spec fn format_spec(raw: int) -> Seq<char>
    recommends
        in_inner_range(raw),
{
    let mag = abs_int(raw);
    let sign = if raw < 0 {
        seq!['-']
    } else {
        Seq::<char>::empty()
    };
    let frac = mag % (CONVERSION as int);
    if frac == 0 {
        sign + dec_digits((mag / (CONVERSION as int)) as nat)
    } else {
        sign + dec_digits((mag / (CONVERSION as int)) as nat) + frac_digits(frac)
    }
}

/// The digit characters of a digit-value sequence read back to front.
pub open spec fn rev_digit_chars(s: Seq<u64>) -> Seq<char>
    decreases s.len(),
{
    if s.len() == 0 {
        Seq::<char>::empty()
    } else {
        seq![digit_char(s.last() as int)] + rev_digit_chars(s.drop_last())
    }
}

/// Reading a sequence back to front turns a prepended value into an
/// appended character.
proof fn lemma_rev_digit_chars_front(x: u64, s: Seq<u64>)
    ensures
        rev_digit_chars(seq![x] + s) == rev_digit_chars(s).push(digit_char(x as int)),
    decreases s.len(),
{
    let t = seq![x] + s;
    if s.len() == 0 {
        assert(t =~= seq![x]);
        assert(t.len() == 1);
        assert(t.last() == x);
        assert(t.drop_last() =~= Seq::<u64>::empty());
        assert(rev_digit_chars(Seq::<u64>::empty()) == Seq::<char>::empty());
        assert(rev_digit_chars(t) == seq![digit_char(x as int)] + Seq::<char>::empty());
        assert(rev_digit_chars(s).push(digit_char(x as int)) =~= seq![digit_char(x as int)]);
        assert(rev_digit_chars(t) =~= seq![digit_char(x as int)]);
    } else {
        assert(t.len() == s.len() + 1);
        assert(t.drop_last() =~= seq![x] + s.drop_last());
        assert(t.last() == s.last());
        lemma_rev_digit_chars_front(x, s.drop_last());
        assert(rev_digit_chars(t) == seq![digit_char(s.last() as int)] + rev_digit_chars(
            seq![x] + s.drop_last(),
        ));
        assert(rev_digit_chars(t) == seq![digit_char(s.last() as int)] + rev_digit_chars(
            s.drop_last(),
        ).push(digit_char(x as int)));
        assert(rev_digit_chars(s) == seq![digit_char(s.last() as int)] + rev_digit_chars(
            s.drop_last(),
        ));
        assert(rev_digit_chars(t) =~= rev_digit_chars(s).push(digit_char(x as int)));
    }
}

/// The string for one decimal digit value.
fn digit_str(d: u64) -> (r: &'static str)
    requires
        d < 10,
    ensures
        r@ == seq![digit_char(d as int)],
{
    proof {
        reveal_strlit("0");
        reveal_strlit("1");
        reveal_strlit("2");
        reveal_strlit("3");
        reveal_strlit("4");
        reveal_strlit("5");
        reveal_strlit("6");
        reveal_strlit("7");
        reveal_strlit("8");
        reveal_strlit("9");
    }
    let r: &'static str = if d == 0 {
        "0"
    } else if d == 1 {
        "1"
    } else if d == 2 {
        "2"
    } else if d == 3 {
        "3"
    } else if d == 4 {
        "4"
    } else if d == 5 {
        "5"
    } else if d == 6 {
        "6"
    } else if d == 7 {
        "7"
    } else if d == 8 {
        "8"
    } else {
        "9"
    };
    proof {
        assert(r@ =~= seq![digit_char(d as int)]);
    }
    r
}

/// Appends the decimal digits of a whole value, most significant first.
fn append_whole(out: &mut String, n: u64)
    ensures
        final(out)@ == old(out)@ + dec_digits(n as nat),
{
    if n == 0 {
        proof {
            reveal_strlit("0");
        }
        out.append("0");
        proof {
            assert(dec_digits(0) =~= seq!['0']);
            assert(final(out)@ =~= old(out)@ + dec_digits(0));
        }
        return ;
    }
    let ghost prefix = out@;
    let mut digs: Vec<u64> = Vec::new();
    let mut m = n;
    while m > 0
        invariant
            dec_digits(n as nat) == (if m > 0 {
                dec_digits(m as nat)
            } else {
                Seq::<char>::empty()
            }) + rev_digit_chars(digs@),
            forall|j: int| 0 <= j < digs@.len() ==> digs@[j] < 10,
        decreases m,
    {
        let d = m % 10;
        let ghost old_digs = digs@;
        let ghost old_m = m as nat;
        digs.push(d);
        m = m / 10;
        proof {
            assert(digs@.drop_last() =~= old_digs);
            assert(digs@.last() == d);
            assert(rev_digit_chars(digs@) =~= seq![digit_char(d as int)] + rev_digit_chars(
                old_digs,
            ));
            if m > 0 {
                assert(dec_digits(old_m) == dec_digits(old_m / 10).push(
                    digit_char((old_m % 10) as int),
                ));
                assert(dec_digits(m as nat) + rev_digit_chars(digs@) =~= (dec_digits(old_m)
                    + rev_digit_chars(old_digs)));
            } else {
                assert(old_m < 10);
                assert(dec_digits(old_m) =~= seq![digit_char(old_m as int)]);
                assert(Seq::<char>::empty() + rev_digit_chars(digs@) =~= dec_digits(old_m)
                    + rev_digit_chars(old_digs));
            }
        }
    }
    let mut k = digs.len();
    while k > 0
        invariant
            k <= digs.len(),
            forall|j: int| 0 <= j < digs@.len() ==> digs@[j] < 10,
            out@ == prefix + rev_digit_chars(digs@.skip(k as int)),
            dec_digits(n as nat) == rev_digit_chars(digs@),
        decreases k,
    {
        k = k - 1;
        let d = digs[k];
        let ghost before = out@;
        out.append(digit_str(d));
        proof {
            assert(digs@.skip(k as int) =~= seq![digs@[k as int]] + digs@.skip(k as int + 1));
            lemma_rev_digit_chars_front(d, digs@.skip(k as int + 1));
            assert(out@ =~= prefix + rev_digit_chars(digs@.skip(k as int)));
        }
    }
    proof {
        assert(digs@.skip(0) =~= digs@);
        assert(out@ =~= prefix + dec_digits(n as nat));
    }
}

impl YololNumber {
    /// The canonical minimal decimal string form of the number.
    pub fn to_string(&self) -> (r: String)
        ensures
            r@ == format_spec(self@),
    {
        let mut out = String::new();
        let mag: u64 = if self.0 < 0 {
            proof {
                reveal_strlit("-");
            }
            out.append("-");
            (-(self.0 as i128)) as u64
        } else {
            self.0 as u64
        };
        let ghost sign_part = out@;
        let main = mag / 10000;
        let frac = mag % 10000;
        append_whole(&mut out, main);
        if frac != 0 {
            proof {
                reveal_strlit(".");
            }
            out.append(".");
            let d1 = frac / 1000;
            let d2 = (frac / 100) % 10;
            let d3 = (frac / 10) % 10;
            let d4 = frac % 10;
            if d4 != 0 {
                out.append(digit_str(d1));
                out.append(digit_str(d2));
                out.append(digit_str(d3));
                out.append(digit_str(d4));
            } else if d3 != 0 {
                out.append(digit_str(d1));
                out.append(digit_str(d2));
                out.append(digit_str(d3));
            } else if d2 != 0 {
                out.append(digit_str(d1));
                out.append(digit_str(d2));
            } else {
                out.append(digit_str(d1));
            }
            proof {
                assert(out@ =~= sign_part + dec_digits((mag / 10000) as nat) + frac_digits(
                    frac as int,
                ));
            }
        }
        proof {
            assert(out@ =~= format_spec(self@));
        }
        out
    }

    /// Treats the input as a raw inner value, clamped to the representable
    /// range; it is not scaled, so it should be larger by the conversion
    /// factor than the real value it stands for.
    pub fn from_i64(num: i64) -> (r: Option<Self>)
        ensures
            r matches Some(n) && n@ == num as int,
    {
        Some(YololNumber(num))
    }

    /// Treats the input as a raw inner value, clamped to the representable
    /// range; it is not scaled, so it should be larger by the conversion
    /// factor than the real value it stands for.
    pub fn from_u64(num: u64) -> (r: Option<Self>)
        ensures
            r matches Some(n) && n@ == saturate(num as int),
    {
        Some(Self::bound_raw(num as i128))
    }

    /// The raw inner value, unscaled; always available, as every stored
    /// value lies in the 64-bit signed range.
    pub fn to_i64(&self) -> (r: Option<i64>)
        ensures
            r matches Some(v) && v as int == self@,
    {
        Some(self.0)
    }

    /// The raw inner value, unscaled, when it is not negative.
    pub fn to_u64(&self) -> (r: Option<u64>)
        ensures
            (r is Some) <==> self@ >= 0,
            r matches Some(v) ==> v as int == self@,
    {
        if self.0 >= 0 {
            Some(self.0 as u64)
        } else {
            None
        }
    }
}

impl From<bool> for YololNumber {
    /// The boolean bridge: true is the truthy identity one, false the
    /// falsy identity zero.
    fn from(input: bool) -> (r: Self) {
        if input {
            Self::truthy()
        } else {
            Self::falsy()
        }
    }
}

impl vstd::std_specs::convert::FromSpecImpl<bool> for YololNumber {
    open spec fn obeys_from_spec() -> bool {
        true
    }

    closed spec fn from_spec(t: bool) -> Self {
        if t {
            YololNumber(10000)
        } else {
            YololNumber(0)
        }
    }
}

/// What the boolean bridge yields, seen through the number's model: one
/// for true, zero for false.
pub proof fn lemma_from_bool(t: bool)
    ensures
        (#[trigger] YololNumber::from_spec(t))@ == if t {
            CONVERSION as int
        } else {
            0
        },
{
}

} // verus!
