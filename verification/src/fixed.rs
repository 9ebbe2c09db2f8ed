//! Fixed-point numeric values.
//!
//! Raw tables carry fractional quantities (durations, effect strengths,
//! attribute multipliers). The model holds each as an integer count of
//! ten-thousandths, which makes every computation on them exact.

use vstd::prelude::*;
use crate::chars::{dec_digits, digit_char};

verus! {

/// A fractional quantity, held exactly as `units` ten-thousandths.
#[derive(Debug, Clone, Copy, PartialEq, Eq, Structural, Hash)]
pub struct FixedValue {
    pub units: i64,
}

impl FixedValue {
    /// The value holding exactly `units` ten-thousandths.
    pub fn from_units(units: i64) -> (r: FixedValue)
        ensures
            r.units == units,
    {
        FixedValue { units }
    }

    /// The value zero.
    pub fn zero() -> (r: FixedValue)
        ensures
            r.units == 0,
    {
        FixedValue { units: 0 }
    }

    /// The negated value.
    pub fn negate(self) -> (r: FixedValue)
        requires
            self.units > i64::MIN,
        ensures
            r.units == -self.units,
    {
        FixedValue { units: -self.units }
    }
}

/// `n / d` rounded to the nearest whole, halves away from zero.
pub open spec fn round_div(n: int, d: int) -> int {
    if n >= 0 {
        (2 * n + d) / (2 * d)
    } else {
        -((2 * -n + d) / (2 * d))
    }
}

/// The decimal digit string of an integer, with a leading minus sign when it
/// is negative.
pub open spec fn int_digits(n: int) -> Seq<char> {
    if n < 0 {
        seq!['-'] + dec_digits((-n) as nat)
    } else {
        dec_digits(n as nat)
    }
}

/// A count of hundredths rendered with up to two decimal places, trailing
/// zeros and a trailing bare point removed: 2000 is `20`, 125 is `1.25`,
/// 120 is `1.2`.
pub open spec fn trimmed_hundredths(h: int) -> Seq<char> {
    let sign: Seq<char> = if h < 0 { seq!['-'] } else { Seq::empty() };
    let m = if h < 0 { -h } else { h };
    let whole = dec_digits((m / 100) as nat);
    let fr = m % 100;
    if fr == 0 {
        sign + whole
    } else if fr % 10 == 0 {
        sign + whole + seq!['.', digit_char(fr / 10)]
    } else {
        sign + whole + seq!['.', digit_char(fr / 10), digit_char(fr % 10)]
    }
}

/// A count of ten-thousandths rendered exactly, with up to four decimal
/// places and trailing zeros removed: 10000 is `1`, -2500 is `-0.25`.
pub open spec fn plain_chars(units: int) -> Seq<char> {
    let sign: Seq<char> = if units < 0 { seq!['-'] } else { Seq::empty() };
    let m = if units < 0 { -units } else { units };
    let whole = dec_digits((m / 10000) as nat);
    let fr = m % 10000;
    if fr == 0 {
        sign + whole
    } else if fr % 10 != 0 {
        sign + whole + seq![
            '.',
            digit_char(fr / 1000),
            digit_char(fr / 100 % 10),
            digit_char(fr / 10 % 10),
            digit_char(fr % 10),
        ]
    } else if fr % 100 != 0 {
        sign + whole + seq![
            '.',
            digit_char(fr / 1000),
            digit_char(fr / 100 % 10),
            digit_char(fr / 10 % 10),
        ]
    } else if fr % 1000 != 0 {
        sign + whole + seq!['.', digit_char(fr / 1000), digit_char(fr / 100 % 10)]
    } else {
        sign + whole + seq!['.', digit_char(fr / 1000)]
    }
}

/// Rounds a count of ten-thousandths to the nearest hundredth, halves away
/// from zero.
pub fn round_to_hundredths(units: i64) -> (h: i64)
    ensures
        h as int == round_div(units as int, 100),
        h > i64::MIN,
{
    round_units(units, 100)
}

/// Rounds a count of ten-thousandths to the nearest whole, halves away from
/// zero.
pub fn round_to_whole(units: i64) -> (n: i64)
    ensures
        n as int == round_div(units as int, 10000),
        n > i64::MIN,
{
    round_units(units, 10000)
}

/// Divides by `d` rounding to the nearest, halves away from zero.
fn round_units(units: i64, d: i64) -> (r: i64)
    requires
        2 <= d <= 10000,
    ensures
        r as int == round_div(units as int, d as int),
        r > i64::MIN,
{
    let n: i128 = units as i128;
    if n >= 0 {
        let q: i128 = (2 * n + d as i128) / (2 * d as i128);
        proof {
            lemma_round_quotient_small(n as int, d as int);
        }
        q as i64
    } else {
        let q: i128 = (2 * -n + d as i128) / (2 * d as i128);
        proof {
            lemma_round_quotient_small(-n as int, d as int);
        }
        -(q as i64)
    }
}

/// The rounded quotient of a bounded non-negative numerator stays well inside
/// the 64-bit range.
proof fn lemma_round_quotient_small(n: int, d: int)
    requires
        0 <= n <= 0x8000000000000000,
        2 <= d <= 10000,
    ensures
        0 <= (2 * n + d) / (2 * d) <= i64::MAX,
{
    let q = (2 * n + d) / (2 * d);
    assert(q * (2 * d) <= 2 * n + d < (i64::MAX as int + 1) * (2 * d)) by (nonlinear_arith)
        requires
            0 <= n <= 0x8000000000000000,
            2 <= d <= 10000,
            q == (2 * n + d) / (2 * d),
    ;
    assert(q < i64::MAX as int + 1) by (nonlinear_arith)
        requires
            q * (2 * d) < (i64::MAX as int + 1) * (2 * d),
            2 <= d,
    ;
}

/// Appends the decimal digits of `n`, sign included, to `out`.
pub fn push_int_digits(n: i64, out: &mut Vec<char>)
    requires
        n > i64::MIN,
    ensures
        final(out)@ == old(out)@ + int_digits(n as int),
{
    if n < 0 {
        out.push('-');
        crate::chars::push_decimal((-n) as u64, out);
        assert(out@ =~= old(out)@ + int_digits(n as int));
    } else {
        crate::chars::push_decimal(n as u64, out);
    }
}

/// Appends the trimmed two-decimal rendering of a count of hundredths.
pub fn push_trimmed_hundredths(h: i64, out: &mut Vec<char>)
    requires
        h > i64::MIN,
    ensures
        final(out)@ == old(out)@ + trimmed_hundredths(h as int),
{
    let m: i64 = if h < 0 {
        out.push('-');
        -h
    } else {
        h
    };
    crate::chars::push_decimal((m / 100) as u64, out);
    let fr: i64 = m % 100;
    if fr != 0 {
        out.push('.');
        let d1: u8 = 48 + ((fr / 10) as u8);
        out.push(d1 as char);
        if fr % 10 != 0 {
            let d2: u8 = 48 + ((fr % 10) as u8);
            out.push(d2 as char);
        }
    }
    assert(out@ =~= old(out)@ + trimmed_hundredths(h as int));
}

/// Appends the exact rendering of a count of ten-thousandths.
#[verifier::rlimit(60)]
pub fn push_plain(units: i64, out: &mut Vec<char>)
    requires
        units > i64::MIN,
    ensures
        final(out)@ == old(out)@ + plain_chars(units as int),
{
    let m: i64 = if units < 0 {
        out.push('-');
        -units
    } else {
        units
    };
    crate::chars::push_decimal((m / 10000) as u64, out);
    let fr: i64 = m % 10000;
    if fr != 0 {
        out.push('.');
        let d1: u8 = 48 + ((fr / 1000) as u8);
        out.push(d1 as char);
        if fr % 1000 != 0 {
            let d2: u8 = 48 + ((fr / 100 % 10) as u8);
            out.push(d2 as char);
            if fr % 100 != 0 {
                let d3: u8 = 48 + ((fr / 10 % 10) as u8);
                out.push(d3 as char);
                if fr % 10 != 0 {
                    let d4: u8 = 48 + ((fr % 10) as u8);
                    out.push(d4 as char);
                }
            }
        }
    }
    assert(out@ =~= old(out)@ + plain_chars(units as int));
}

} // verus!
