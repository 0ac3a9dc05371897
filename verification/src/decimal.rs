//! Amounts as text: a balance counts ten-thousandths of a unit and is written
//! with exactly four digits behind the point.

use vstd::prelude::*;

verus! {

/// How many of the counted parts make one unit.
pub const UNIT: u64 = 10_000;

/// The character for a digit from 0 to 9.
pub open spec fn digit_char(digit: int) -> char {
    if digit == 0 {
        '0'
    } else if digit == 1 {
        '1'
    } else if digit == 2 {
        '2'
    } else if digit == 3 {
        '3'
    } else if digit == 4 {
        '4'
    } else if digit == 5 {
        '5'
    } else if digit == 6 {
        '6'
    } else if digit == 7 {
        '7'
    } else if digit == 8 {
        '8'
    } else {
        '9'
    }
}

/// A natural number in decimal, without leading zeros.
pub open spec fn decimal(n: nat) -> Seq<char>
    decreases n,
{
    if n < 10 {
        seq![digit_char(n as int)]
    } else {
        decimal(n / 10).push(digit_char((n % 10) as int))
    }
}

/// The four digits of a number below ten thousand, leading zeros included.
pub open spec fn four_digits(n: nat) -> Seq<char> {
    seq![
        digit_char((n / 1000) as int % 10),
        digit_char((n / 100) as int % 10),
        digit_char((n / 10) as int % 10),
        digit_char(n as int % 10),
    ]
}

/// A count of ten-thousandths written in units: a minus sign where it is
/// negative, the whole units, a point, and four digits.
pub open spec fn fixed4(parts: int) -> Seq<char> {
    let size: nat = if parts < 0 {
        (-parts) as nat
    } else {
        parts as nat
    };
    let sign: Seq<char> = if parts < 0 {
        seq!['-']
    } else {
        Seq::empty()
    };
    sign + decimal(size / 10_000) + seq!['.'] + four_digits(size % 10_000)
}

/// The text of one digit.
fn digit_text(digit: u8) -> (text: &'static str)
    requires
        digit < 10,
    ensures
        text@ == seq![digit_char(digit as int)],
{
    proof {
        reveal_strlit("0");
        reveal_strlit("1");
        reveal_strlit("2");
        reveal_strlit("3");
        reveal_strlit("4");
        reveal_strlit("5");
        reveal_strlit("6");
        reveal_strlit("7");
        reveal_strlit("8");
        reveal_strlit("9");
    }
    let text = if digit == 0 {
        "0"
    } else if digit == 1 {
        "1"
    } else if digit == 2 {
        "2"
    } else if digit == 3 {
        "3"
    } else if digit == 4 {
        "4"
    } else if digit == 5 {
        "5"
    } else if digit == 6 {
        "6"
    } else if digit == 7 {
        "7"
    } else if digit == 8 {
        "8"
    } else {
        "9"
    };
    assert(text@ =~= seq![digit_char(digit as int)]);
    text
}

/// Appends a natural number in decimal.
pub fn append_decimal(out: &mut String, n: u128)
    ensures
        final(out)@ == old(out)@ + decimal(n as nat),
    decreases n,
{
    if n >= 10 {
        append_decimal(out, n / 10);
    }
    out.append(digit_text((n % 10) as u8));
    assert(out@ =~= old(out)@ + decimal(n as nat));
}

/// Appends a count of ten-thousandths written in units with four digits
/// behind the point.
pub fn append_fixed4(out: &mut String, parts: i128)
    ensures
        final(out)@ == old(out)@ + fixed4(parts as int),
{
    proof {
        reveal_strlit("-");
        reveal_strlit(".");
    }
    let size: u128 = if parts < 0 {
        out.append("-");
        (-(parts + 1)) as u128 + 1
    } else {
        parts as u128
    };
    let rest: u128 = size % 10_000;
    append_decimal(out, size / 10_000);
    out.append(".");
    out.append(digit_text((rest / 1000 % 10) as u8));
    out.append(digit_text((rest / 100 % 10) as u8));
    out.append(digit_text((rest / 10 % 10) as u8));
    out.append(digit_text((rest % 10) as u8));
    assert(out@ =~= old(out)@ + fixed4(parts as int));
}

/// A count of ten-thousandths written in units with four digits behind the
/// point.
pub fn fixed4_text(parts: i128) -> (text: String)
    ensures
        text@ == fixed4(parts as int),
{
    let mut text = String::new();
    append_fixed4(&mut text, parts);
    assert(text@ =~= fixed4(parts as int));
    text
}

} // verus!
