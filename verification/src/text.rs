//! Numbers in decimal.
use crate::binary64::Binary64;
use vstd::prelude::*;
use vstd::string::*;

verus! {

/// The digit `d`, below ten.
pub open spec fn digit(d: nat) -> char {
    (48 + d) as char
}

/// `n` in decimal, without leading zeros.
pub open spec fn digits(n: nat) -> Seq<char>
    decreases n,
{
    if n < 10 {
        seq![digit(n)]
    } else {
        digits(n / 10).push(digit(n % 10))
    }
}

/// A number of tenths, with one digit after the point.
pub open spec fn one_decimal(tenths: nat) -> Seq<char> {
    digits(tenths / 10).push('.').push(digit(tenths % 10))
}

/// A fraction of `units` as a percentage, with one digit after the point.
pub open spec fn percentage(units: nat) -> Seq<char> {
    one_decimal(Binary64::tenths_of(Binary64::percent_units(units)))
}

fn digit_text(d: u128) -> (text: &'static str)
    requires
        d < 10,
    ensures
        text@ == seq![digit(d as nat)],
{
    proof {
        reveal_strlit("0");
        reveal_strlit("1");
        reveal_strlit("2");
        reveal_strlit("3");
        reveal_strlit("4");
        reveal_strlit("5");
        reveal_strlit("6");
        reveal_strlit("7");
        reveal_strlit("8");
        reveal_strlit("9");
    }
    if d == 0 {
        "0"
    } else if d == 1 {
        "1"
    } else if d == 2 {
        "2"
    } else if d == 3 {
        "3"
    } else if d == 4 {
        "4"
    } else if d == 5 {
        "5"
    } else if d == 6 {
        "6"
    } else if d == 7 {
        "7"
    } else if d == 8 {
        "8"
    } else {
        "9"
    }
}

/// `n` in decimal.
pub fn decimal_text(n: u128) -> (text: String)
    ensures
        text@ == digits(n as nat),
    decreases n,
{
    if n < 10 {
        digit_text(n).to_owned()
    } else {
        let mut text = decimal_text(n / 10);
        text.append(digit_text(n % 10));
        text
    }
}

/// A fraction as a percentage, with one digit after the point.
pub fn percentage_text(ratio: Binary64) -> (text: String)
    requires
        ratio.is_ratio(),
    ensures
        text@ == percentage(ratio.units()),
{
    let tenths = ratio.percent().tenths();
    let mut text = decimal_text(tenths / 10);
    proof {
        reveal_strlit(".");
    }
    text.append(".");
    text.append(digit_text(tenths % 10));
    assert(text@ == one_decimal(tenths as nat));
    text
}

} // verus!
