//! Amounts of money in hundredths, and the decimal numerals that denote them.

use crate::text::{
    all_digits, append_text, decimal_digits, digit_value, digits_of, digits_value, is_digit,
    lemma_decimal_digits, lemma_position, only_digits, position, position_from, slice_of,
    two_digits, two_digits_of, value_of_digits,
};
use vstd::prelude::*;

verus! {

/// An amount of money that is not negative, counted in hundredths of the
/// currency unit. Whether it was received or paid is said beside it.
#[derive(Debug, Clone, Copy, PartialEq, Eq, Structural)]
pub struct Amount {
    /// The number of hundredths.
    pub minor_units: u64,
}

/// An amount as a numeral states it: a magnitude, and whether a minus sign
/// stood before it.
#[derive(Debug, Clone, Copy, PartialEq, Eq, Structural)]
pub struct SignedAmount {
    /// A minus sign stood before the numeral.
    pub negative: bool,
    /// The numeral without its sign.
    pub magnitude: Amount,
}

/// `s` without a leading sign.
pub open spec fn unsigned_part(s: Seq<char>) -> Seq<char> {
    if s.len() > 0 && (s[0] == '+' || s[0] == '-') {
        s.drop_first()
    } else {
        s
    }
}

/// `s` begins with a minus sign.
pub open spec fn has_minus(s: Seq<char>) -> bool {
    s.len() > 0 && s[0] == '-'
}

/// The digits of `s` before its decimal point.
pub open spec fn whole_part(s: Seq<char>) -> Seq<char> {
    unsigned_part(s).take(position(unsigned_part(s), '.'))
}

/// The digits of `s` after its decimal point.
pub open spec fn fraction_part(s: Seq<char>) -> Seq<char> {
    let body = unsigned_part(s);
    let p = position(body, '.');
    if p < body.len() {
        body.skip(p + 1)
    } else {
        Seq::empty()
    }
}

/// `s` is a decimal numeral: an optional sign, then digits with at most one
/// decimal point among them, and at least one digit.
pub open spec fn is_numeral(s: Seq<char>) -> bool {
    &&& all_digits(whole_part(s))
    &&& all_digits(fraction_part(s))
    &&& whole_part(s).len() + fraction_part(s).len() > 0
}

/// The first two digits of a fraction, as a number of hundredths.
pub open spec fn leading_hundredths(f: Seq<char>) -> nat {
    (if f.len() > 0 {
        digit_value(f[0]) * 10
    } else {
        0
    }) + (if f.len() > 1 {
        digit_value(f[1])
    } else {
        0
    })
}

/// What the third digit of a fraction adds to the hundredths: one where
/// it is five or more.
pub open spec fn rounding(f: Seq<char>) -> nat {
    if f.len() > 2 && digit_value(f[2]) >= 5 {
        1
    } else {
        0
    }
}

/// The magnitude of the numeral `s` in hundredths, rounded to the nearest
/// hundredth by the third place behind the point, a five upwards.
pub open spec fn hundredths_of(s: Seq<char>) -> nat {
    digits_value(whole_part(s)) * 100 + leading_hundredths(fraction_part(s)) + rounding(
        fraction_part(s),
    )
}

/// What the numeral `s` denotes, if it is one and its magnitude fits.
pub open spec fn numeral_value(s: Seq<char>) -> Option<SignedAmount> {
    if is_numeral(s) && hundredths_of(s) <= u64::MAX {
        Some(
            SignedAmount {
                negative: has_minus(s),
                magnitude: Amount { minor_units: hundredths_of(s) as u64 },
            },
        )
    } else {
        None
    }
}

/// The numeral of `n` hundredths with two places behind the separator `point`.
pub open spec fn amount_text(n: nat, point: char) -> Seq<char> {
    decimal_digits(n / 100) + seq![point] + two_digits(n % 100)
}

/// What the decimal numeral `v` denotes.
pub fn read_numeral(v: &[char]) -> (r: Option<SignedAmount>)
    ensures
        r == numeral_value(v@),
{
    let start: usize = if v.len() > 0 && (v[0] == '+' || v[0] == '-') {
        1
    } else {
        0
    };
    let negative = v.len() > 0 && v[0] == '-';
    let body = slice_of(v, start, v.len());
    assert(body@ =~= unsigned_part(v@));
    let point = position_from(body.as_slice(), '.', 0);
    assert(body@.skip(0) =~= body@);
    let whole = slice_of(body.as_slice(), 0, point);
    assert(whole@ =~= whole_part(v@));
    let fraction = if point < body.len() {
        slice_of(body.as_slice(), point + 1, body.len())
    } else {
        Vec::new()
    };
    assert(fraction@ =~= fraction_part(v@));
    if !only_digits(whole.as_slice()) || !only_digits(fraction.as_slice()) {
        return None;
    }
    if whole.len() == 0 && fraction.len() == 0 {
        return None;
    }
    let units = match value_of_digits(whole.as_slice()) {
        Some(n) => n,
        None => {
            return None;
        },
    };
    let mut part: u64 = 0;
    if fraction.len() > 0 {
        assert(is_digit(fraction@[0]));
        part = (fraction[0] as u32 - 48u32) as u64 * 10;
    }
    if fraction.len() > 1 {
        assert(is_digit(fraction@[1]));
        part = part + (fraction[1] as u32 - 48u32) as u64;
    }
    if fraction.len() > 2 {
        assert(is_digit(fraction@[2]));
        if fraction[2] as u32 - 48u32 >= 5 {
            part = part + 1;
        }
    }
    assert(part == leading_hundredths(fraction@) + rounding(fraction@));
    if units > (u64::MAX - part) / 100 {
        return None;
    }
    Some(SignedAmount { negative, magnitude: Amount { minor_units: units * 100 + part } })
}

/// The numeral of `amount` with two places behind the separator `point`.
pub fn write_amount(amount: Amount, point: char) -> (r: Vec<char>)
    ensures
        r@ == amount_text(amount.minor_units as nat, point),
{
    let mut r = digits_of(amount.minor_units / 100);
    r.push(point);
    let cents = two_digits_of((amount.minor_units % 100) as u8);
    append_text(&mut r, cents.as_slice());
    r
}

/// A numeral written with two places reads back as the same amount, whatever
/// the separator is replaced by before reading.
pub proof fn lemma_amount_text_reads_back(n: nat)
    requires
        n <= u64::MAX,
    ensures
        numeral_value(amount_text(n, '.')) == Some(
            SignedAmount { negative: false, magnitude: Amount { minor_units: n as u64 } },
        ),
{
    let whole = decimal_digits(n / 100);
    let s = amount_text(n, '.');
    lemma_decimal_digits(n / 100);
    assert(is_digit(whole[0]));
    assert(s[0] == whole[0]);
    assert(unsigned_part(s) == s);
    lemma_position(s, '.');
    assert(position(s, '.') == whole.len()) by {
        let p = position(s, '.');
        if p < whole.len() {
            assert(s[p] == whole[p]);
            assert(is_digit(whole[p]));
        }
        if p > whole.len() {
            assert(s[whole.len() as int] == '.');
        }
    }
    assert(whole_part(s) =~= whole);
    assert(fraction_part(s) =~= two_digits(n % 100));
    let f = two_digits(n % 100);
    assert(digit_value(f[0]) == (n % 100) / 10);
    assert(digit_value(f[1]) == (n % 100) % 10);
    assert(is_digit(f[0]) && is_digit(f[1]));
    assert(all_digits(f));
    assert(leading_hundredths(f) == n % 100);
    assert(rounding(f) == 0);
}

} // verus!
