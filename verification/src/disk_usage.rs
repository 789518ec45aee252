//! The size of data as people read it: in bytes below a kibibyte, else in the
//! largest binary unit that does not exceed it, with three decimal places.
//!
//! The text is that of the size held as a binary double, divided by the unit
//! and rounded to thousandths, ties to the even one. All of it is worked out
//! in whole numbers.

use crate::clock::{digit_char, three_digits};
use vstd::prelude::*;
use vstd::string::StringExecFns;

verus! {

/// Bytes in a kibibyte.
pub const KIBI: u64 = 0x400;

/// Bytes in a mebibyte.
pub const MEBI: u64 = 0x10_0000;

/// Bytes in a gibibyte.
pub const GIBI: u64 = 0x4000_0000;

/// Bytes in a tebibyte.
pub const TEBI: u64 = 0x100_0000_0000;

/// The least count that a binary double does not hold exactly in every case:
/// two to the power 53.
pub const DOUBLE_LIMIT: u64 = 0x20_0000_0000_0000;

/// The quotient of `numerator` by `denominator`, rounded to the nearest
/// whole number, and to the even one of two that are equally near.
pub open spec fn round_half_even(numerator: int, denominator: int) -> int {
    let quotient = numerator / denominator;
    let rest = numerator % denominator;
    if 2 * rest < denominator {
        quotient
    } else if 2 * rest > denominator {
        quotient + 1
    } else if quotient % 2 == 0 {
        quotient
    } else {
        quotient + 1
    }
}

/// The distance between the binary doubles around `size`: one below two to
/// the power 53, and twice as much with every further bit.
pub open spec fn spacing(size: int) -> int
    decreases size,
{
    if size < DOUBLE_LIMIT {
        1
    } else {
        2 * spacing(size / 2)
    }
}

/// The count that the binary double nearest to `size` holds.
pub open spec fn as_double(size: int) -> int {
    round_half_even(size, spacing(size)) * spacing(size)
}

/// The thousandths of `unit` that `size`, held as a binary double, comes to.
pub open spec fn thousandths(size: int, unit: int) -> int {
    round_half_even(as_double(size) * 1000, unit)
}

/// The decimal digits of `n`.
pub open spec fn decimal(n: int) -> Seq<char>
    decreases n,
{
    if n < 10 {
        seq![digit_char(n)]
    } else {
        decimal(n / 10).push(digit_char(n % 10))
    }
}

/// The text of `size` in the unit of `unit` bytes, which is written `mark`.
pub open spec fn in_unit(size: int, unit: int, mark: Seq<char>) -> Seq<char> {
    let t = thousandths(size, unit);
    decimal(t / 1000) + seq!['.'] + three_digits(t % 1000) + mark
}

/// The text of a size in bytes.
pub open spec fn human_text(size: int) -> Seq<char> {
    if size >= TEBI {
        in_unit(size, TEBI as int, "T"@)
    } else if size >= GIBI {
        in_unit(size, GIBI as int, "G"@)
    } else if size >= MEBI {
        in_unit(size, MEBI as int, "M"@)
    } else if size >= KIBI {
        in_unit(size, KIBI as int, "K"@)
    } else {
        decimal(size)
    }
}

/// The quotient of `numerator` by `denominator`, rounded to the nearest
/// whole number, ties to the even one.
pub fn divide_round_half_even(numerator: u128, denominator: u128) -> (quotient: u128)
    requires
        denominator > 0,
    ensures
        quotient == round_half_even(numerator as int, denominator as int),
{
    let quotient = numerator / denominator;
    let rest = numerator % denominator;
    let up = if rest < denominator - rest {
        false
    } else if rest > denominator - rest {
        true
    } else {
        quotient % 2 == 1
    };
    if up {
        assert(quotient < u128::MAX) by (nonlinear_arith)
            requires
                quotient == numerator / denominator,
                rest == numerator % denominator,
                rest >= denominator - rest,
                denominator > 0,
                numerator <= u128::MAX,
        ;
        quotient + 1
    } else {
        quotient
    }
}

/// The count that the binary double nearest to `size` holds.
pub fn nearest_double(size: u64) -> (count: u128)
    ensures
        count == as_double(size as int),
        count <= 0x2_0000_0000_0000_0000,
{
    let mut unit: u64 = 1;
    let mut rest: u64 = size;
    while rest >= DOUBLE_LIMIT
        invariant
            unit >= 1,
            unit * rest <= size,
            spacing(size as int) == unit * spacing(rest as int),
        decreases rest,
    {
        assert(unit * 2 * (rest / 2) <= unit * rest) by (nonlinear_arith)
            requires
                unit >= 1,
        ;
        assert(unit * 2 <= u64::MAX) by (nonlinear_arith)
            requires
                unit * rest <= u64::MAX,
                rest >= 2,
                unit >= 1,
        ;
        assert(unit * (2 * spacing(rest as int / 2)) == unit * 2 * spacing(rest as int / 2))
            by (nonlinear_arith);
        rest = rest / 2;
        unit = unit * 2;
    }
    let steps = divide_round_half_even(size as u128, unit as u128);
    assert(steps * unit <= 0x2_0000_0000_0000_0000) by {
        let whole = size as int / unit as int;
        assert(whole * unit <= size) by (nonlinear_arith)
            requires
                whole == size as int / unit as int,
                unit >= 1,
                size >= 0,
        ;
        assert((whole + 1) * unit == whole * unit + unit) by (nonlinear_arith);
    }
    steps * (unit as u128)
}

/// The text of one decimal digit.
fn digit_text(d: u8) -> (text: &'static str)
    requires
        d < 10,
    ensures
        text@ == seq![digit_char(d as int)],
{
    proof {
        reveal_strlit("0");
        reveal_strlit("1");
        reveal_strlit("2");
        reveal_strlit("3");
        reveal_strlit("4");
        reveal_strlit("5");
        reveal_strlit("6");
        reveal_strlit("7");
        reveal_strlit("8");
        reveal_strlit("9");
    }
    if d == 0 {
        "0"
    } else if d == 1 {
        "1"
    } else if d == 2 {
        "2"
    } else if d == 3 {
        "3"
    } else if d == 4 {
        "4"
    } else if d == 5 {
        "5"
    } else if d == 6 {
        "6"
    } else if d == 7 {
        "7"
    } else if d == 8 {
        "8"
    } else {
        "9"
    }
}

/// The decimal digits of `n`.
pub fn decimal_text(n: u128) -> (text: String)
    ensures
        text@ == decimal(n as int),
    decreases n,
{
    if n < 10 {
        let mut text = String::new();
        text.append(digit_text(n as u8));
        text
    } else {
        let mut text = decimal_text(n / 10);
        text.append(digit_text((n % 10) as u8));
        text
    }
}

/// The text of `size` in the unit of `unit` bytes, which is written `mark`.
fn text_in_unit(size: u64, unit: u64, mark: &str) -> (text: String)
    requires
        unit > 0,
    ensures
        text@ == in_unit(size as int, unit as int, mark@),
{
    let t = divide_round_half_even(nearest_double(size) * 1000, unit as u128);
    let whole = t / 1000;
    let part = t % 1000;
    let mut text = decimal_text(whole);
    proof {
        reveal_strlit(".");
    }
    text.append(".");
    text.append(digit_text((part / 100 % 10) as u8));
    text.append(digit_text((part / 10 % 10) as u8));
    text.append(digit_text((part % 10) as u8));
    text.append(mark);
    text
}

/// Converts a size in bytes to the form people read.
pub fn to_human(size: u64) -> (text: String)
    ensures
        text@ == human_text(size as int),
{
    if size / TEBI > 0 {
        text_in_unit(size, TEBI, "T")
    } else if size / GIBI > 0 {
        text_in_unit(size, GIBI, "G")
    } else if size / MEBI > 0 {
        text_in_unit(size, MEBI, "M")
    } else if size / KIBI > 0 {
        text_in_unit(size, KIBI, "K")
    } else {
        decimal_text(size as u128)
    }
}

} // verus!
