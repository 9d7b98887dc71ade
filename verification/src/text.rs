//! Decimal text for counts and fixed-point values.

use vstd::prelude::*;
use vstd::string::StringExecFns;
use crate::fixed::ONE;

verus! {

/// The character of a decimal digit.
pub open spec fn digit(d: int) -> char {
    if d == 0 {
        '0'
    } else if d == 1 {
        '1'
    } else if d == 2 {
        '2'
    } else if d == 3 {
        '3'
    } else if d == 4 {
        '4'
    } else if d == 5 {
        '5'
    } else if d == 6 {
        '6'
    } else if d == 7 {
        '7'
    } else if d == 8 {
        '8'
    } else {
        '9'
    }
}

/// The decimal digits of `n`, without leading zeros.
pub open spec fn decimal(n: nat) -> Seq<char>
    decreases n,
{
    if n < 10 {
        seq![digit(n as int)]
    } else {
        decimal(n / 10).push(digit((n % 10) as int))
    }
}

/// The last `width` decimal digits of `n`, with leading zeros.
pub open spec fn padded(n: nat, width: nat) -> Seq<char>
    decreases width,
{
    if width == 0 {
        Seq::empty()
    } else {
        padded(n / 10, (width - 1) as nat).push(digit((n % 10) as int))
    }
}

/// The digits of the fraction `part / 10^width`, without trailing zeros.
pub open spec fn fraction(part: nat, width: nat) -> Seq<char>
    decreases width,
{
    if width == 0 {
        Seq::empty()
    } else if part % 10 == 0 {
        fraction(part / 10, (width - 1) as nat)
    } else {
        padded(part, width)
    }
}

/// The size of a raw value, without its sign.
pub open spec fn magnitude(x: i64) -> nat {
    if x < 0 {
        (-x) as nat
    } else {
        x as nat
    }
}

/// A minus sign for a negative value, nothing otherwise.
pub open spec fn sign(x: i64) -> Seq<char> {
    if x < 0 {
        seq!['-']
    } else {
        Seq::empty()
    }
}

/// A raw value in the shortest decimal form: its whole part, and after a point the digits
/// of its fraction up to the last that is not zero, if there is one.
pub open spec fn plain(x: i64) -> Seq<char> {
    let whole = magnitude(x) / (ONE as nat);
    let part = magnitude(x) % (ONE as nat);
    if part == 0 {
        sign(x) + decimal(whole)
    } else {
        sign(x) + decimal(whole) + seq!['.'] + fraction(part, 9)
    }
}

/// A raw size in hundredths, rounded to the nearest and on a tie to the even one.
pub open spec fn hundredths(size: nat) -> nat {
    let cut = size / 10_000_000;
    let rest = size % 10_000_000;
    if rest > 5_000_000 || (rest == 5_000_000 && cut % 2 == 1) {
        cut + 1
    } else {
        cut
    }
}

/// A count of hundredths as a number with two decimal places.
pub open spec fn two_places_of(count: nat) -> Seq<char> {
    decimal(count / 100) + seq!['.'] + padded(count % 100, 2)
}

/// A raw value with two decimal places.
pub open spec fn two_places(x: i64) -> Seq<char> {
    sign(x) + two_places_of(hundredths(magnitude(x)))
}

/// The text of one digit.
fn digit_text(d: u64) -> (t: &'static str)
    requires
        d < 10,
    ensures
        t@ == seq![digit(d as int)],
{
    proof {
        reveal_strlit("0");
        reveal_strlit("1");
        reveal_strlit("2");
        reveal_strlit("3");
        reveal_strlit("4");
        reveal_strlit("5");
        reveal_strlit("6");
        reveal_strlit("7");
        reveal_strlit("8");
        reveal_strlit("9");
    }
    let t: &'static str = if d == 0 {
        "0"
    } else if d == 1 {
        "1"
    } else if d == 2 {
        "2"
    } else if d == 3 {
        "3"
    } else if d == 4 {
        "4"
    } else if d == 5 {
        "5"
    } else if d == 6 {
        "6"
    } else if d == 7 {
        "7"
    } else if d == 8 {
        "8"
    } else {
        "9"
    };
    t
}

/// Appends the decimal digits of `n`.
pub fn push_decimal(out: &mut String, n: u64)
    ensures
        final(out)@ == old(out)@ + decimal(n as nat),
    decreases n,
{
    if n >= 10 {
        push_decimal(out, n / 10);
    }
    out.append(digit_text(n % 10));
}

/// Appends the last `width` digits of `n`, with leading zeros.
pub fn push_padded(out: &mut String, n: u64, width: u8)
    ensures
        final(out)@ == old(out)@ + padded(n as nat, width as nat),
    decreases width,
{
    if width > 0 {
        push_padded(out, n / 10, width - 1);
        out.append(digit_text(n % 10));
    }
}

/// Appends the digits of the fraction `part / 10^width`, without trailing zeros.
pub fn push_fraction(out: &mut String, part: u64, width: u8)
    ensures
        final(out)@ == old(out)@ + fraction(part as nat, width as nat),
    decreases width,
{
    if width > 0 {
        if part % 10 == 0 {
            push_fraction(out, part / 10, width - 1);
        } else {
            push_padded(out, part, width);
        }
    }
}

/// The size of a raw value, without its sign.
pub fn magnitude_of(x: i64) -> (m: u64)
    ensures
        m == magnitude(x),
{
    if x < 0 {
        (-(x as i128)) as u64
    } else {
        x as u64
    }
}

/// Appends a minus sign if `x` is negative.
fn push_sign(out: &mut String, x: i64)
    ensures
        final(out)@ == old(out)@ + sign(x),
{
    if x < 0 {
        proof {
            reveal_strlit("-");
        }
        out.append("-");
    }
}

/// Appends a decimal point.
fn push_point(out: &mut String)
    ensures
        final(out)@ == old(out)@ + seq!['.'],
{
    proof {
        reveal_strlit(".");
    }
    out.append(".");
}

/// Appends a raw value in its shortest decimal form.
pub fn push_plain(out: &mut String, x: i64)
    ensures
        final(out)@ == old(out)@ + plain(x),
{
    let size: u64 = magnitude_of(x);
    let whole: u64 = size / 1_000_000_000;
    let part: u64 = size % 1_000_000_000;
    push_sign(out, x);
    push_decimal(out, whole);
    if part != 0 {
        push_point(out);
        push_fraction(out, part, 9);
    }
}

/// Rounds a raw size to hundredths, ties to the even one.
pub fn hundredths_of(size: u64) -> (count: u64)
    ensures
        count == hundredths(size as nat),
{
    let cut: u64 = size / 10_000_000;
    let rest: u64 = size % 10_000_000;
    if rest > 5_000_000 || (rest == 5_000_000 && cut % 2 == 1) {
        cut + 1
    } else {
        cut
    }
}

/// Appends a count of hundredths as a number with two decimal places.
pub fn push_two_places_of(out: &mut String, count: u64)
    ensures
        final(out)@ == old(out)@ + two_places_of(count as nat),
{
    push_decimal(out, count / 100);
    push_point(out);
    push_padded(out, count % 100, 2);
}

/// Appends a raw value with two decimal places.
pub fn push_two_places(out: &mut String, x: i64)
    ensures
        final(out)@ == old(out)@ + two_places(x),
{
    push_sign(out, x);
    push_two_places_of(out, hundredths_of(magnitude_of(x)));
}

} // verus!
