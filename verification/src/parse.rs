//! Reading numbers, and lists of numbers, from text.
//!
//! A number is an optional sign, digits, and optionally a point and more digits, with at
//! least one digit in all; nothing may stand before or after it. Digits past the ninth
//! decimal place are read and dropped. A list separates its entries by commas, and a list
//! of harmonics separates its pairs by semicolons; an entry that is no number is left out.

use vstd::prelude::*;
use vstd::string::StrSliceExecFns;
use crate::fixed::ONE;

verus! {

/// Whether `c` is a decimal digit.
pub open spec fn is_digit(c: char) -> bool {
    48 <= c as u32 <= 57
}

/// The value of a decimal digit.
pub open spec fn digit_value(c: char) -> nat {
    (c as u32 - 48) as nat
}

/// The end of the longest run of digits that starts at `from`.
pub open spec fn digit_run(s: Seq<char>, from: int) -> int
    decreases s.len() - from,
{
    if 0 <= from < s.len() && is_digit(s[from]) {
        digit_run(s, from + 1)
    } else {
        from
    }
}

/// The number that a sequence of digits spells.
pub open spec fn digits_value(s: Seq<char>) -> nat
    decreases s.len(),
{
    if s.len() == 0 {
        0
    } else {
        digits_value(s.drop_last()) * 10 + digit_value(s.last())
    }
}

/// The value of the digits after the point, in units of a tenth of `weight` each place
/// further on; places whose weight has run out count for nothing.
pub open spec fn fraction_value(s: Seq<char>, weight: nat) -> nat
    decreases s.len(),
{
    if s.len() == 0 || weight == 0 {
        0
    } else {
        digit_value(s[0]) * weight + fraction_value(s.skip(1), weight / 10)
    }
}

/// The raw value that a text spells, if it is a number that fits.
pub open spec fn number(s: Seq<char>) -> Option<i64> {
    let signed = s.len() > 0 && (s[0] == '-' || s[0] == '+');
    let start: int = if signed {
        1
    } else {
        0
    };
    let whole_end = digit_run(s, start);
    let pointed = whole_end < s.len() && s[whole_end] == '.';
    let fraction_start = if pointed {
        whole_end + 1
    } else {
        whole_end
    };
    let fraction_end = digit_run(s, fraction_start);
    let whole = s.subrange(start, whole_end);
    let fraction = s.subrange(fraction_start, fraction_end);
    let size = digits_value(whole) * ONE + fraction_value(fraction, 100_000_000);
    if fraction_end == s.len() && whole.len() + fraction.len() > 0 && size <= i64::MAX {
        if s[0] == '-' {
            Some((-size) as i64)
        } else {
            Some(size as i64)
        }
    } else {
        None
    }
}

/// The first place from `from` on that holds `mark`, or the end of the text.
pub open spec fn piece_end(s: Seq<char>, from: int, mark: char) -> int
    decreases s.len() - from,
{
    if 0 <= from < s.len() && s[from] != mark {
        piece_end(s, from + 1, mark)
    } else {
        from
    }
}

/// The numbers among the comma-separated entries from `from` on.
pub open spec fn values_from(s: Seq<char>, from: int) -> Seq<i64>
    decreases s.len() - from,
{
    let end = piece_end(s, from, ',');
    let head = match number(s.subrange(from, end)) {
        Some(v) => seq![v],
        None => Seq::empty(),
    };
    if 0 <= from <= end < s.len() {
        head + values_from(s, end + 1)
    } else {
        head
    }
}

/// The pair that one entry of a list of harmonics spells: its first two comma-separated
/// parts, if there are two and both are numbers.
pub open spec fn pair_of(s: Seq<char>) -> Option<(i64, i64)> {
    let first_end = piece_end(s, 0, ',');
    let second_end = piece_end(s, first_end + 1, ',');
    if first_end < s.len() {
        match (number(s.subrange(0, first_end)), number(s.subrange(first_end + 1, second_end))) {
            (Some(frequency), Some(amplitude)) => Some((frequency, amplitude)),
            _ => None,
        }
    } else {
        None
    }
}

/// The pairs among the semicolon-separated entries from `from` on.
pub open spec fn pairs_from(s: Seq<char>, from: int) -> Seq<(i64, i64)>
    decreases s.len() - from,
{
    let end = piece_end(s, from, ';');
    let head = match pair_of(s.subrange(from, end)) {
        Some(p) => seq![p],
        None => Seq::empty(),
    };
    if 0 <= from <= end < s.len() {
        head + pairs_from(s, end + 1)
    } else {
        head
    }
}

/// The characters of a text.
pub fn chars_of(text: &str) -> (chars: Vec<char>)
    ensures
        chars@ == text@,
{
    let n: usize = text.unicode_len();
    let mut chars: Vec<char> = Vec::new();
    let mut i: usize = 0;
    while i < n
        invariant
            i <= n,
            n == text@.len(),
            chars@ == text@.take(i as int),
        decreases n - i,
    {
        let c: char = text.get_char(i);
        chars.push(c);
        i += 1;
    }
    chars
}

/// Finds the end of the run of digits from `from` on, within `chars[..to]`.
fn scan_digits(chars: &Vec<char>, from: usize, to: usize) -> (end: usize)
    requires
        from <= to <= chars@.len(),
    ensures
        from <= end <= to,
        end == digit_run(chars@.take(to as int), from as int),
{
    let ghost s = chars@.take(to as int);
    let mut i: usize = from;
    while i < to && chars[i] as u32 >= 48 && chars[i] as u32 <= 57
        invariant
            from <= i <= to,
            to <= chars@.len(),
            s == chars@.take(to as int),
            digit_run(s, from as int) == digit_run(s, i as int),
        decreases to - i,
    {
        i += 1;
    }
    i
}

/// Finds the first `mark` from `from` on, within `chars[..to]`.
fn scan_piece(chars: &Vec<char>, from: usize, to: usize, mark: char) -> (end: usize)
    requires
        from <= to <= chars@.len(),
    ensures
        from <= end <= to,
        end == piece_end(chars@.take(to as int), from as int, mark),
{
    let ghost s = chars@.take(to as int);
    let mut i: usize = from;
    while i < to && chars[i] != mark
        invariant
            from <= i <= to,
            to <= chars@.len(),
            s == chars@.take(to as int),
            piece_end(s, from as int, mark) == piece_end(s, i as int, mark),
        decreases to - i,
    {
        i += 1;
    }
    i
}

/// Every place inside a run of digits holds a digit.
pub proof fn lemma_run_holds_digits(s: Seq<char>, from: int, at: int)
    requires
        0 <= from <= at < digit_run(s, from),
    ensures
        at < s.len(),
        is_digit(s[at]),
    decreases s.len() - from,
{
    if from < s.len() && is_digit(s[from]) {
        if at > from {
            lemma_run_holds_digits(s, from + 1, at);
        }
    }
}

/// More digits never spell a smaller number.
pub proof fn lemma_digits_value_grows(s: Seq<char>, from: int, mid: int, to: int)
    requires
        0 <= from <= mid <= to <= s.len(),
    ensures
        digits_value(s.subrange(from, mid)) <= digits_value(s.subrange(from, to)),
    decreases to - mid,
{
    if mid < to {
        lemma_digits_value_grows(s, from, mid, to - 1);
        assert(s.subrange(from, to).drop_last() =~= s.subrange(from, to - 1));
    }
}

/// A copy of `chars[from..to]`.
fn piece_of(chars: &Vec<char>, from: usize, to: usize) -> (piece: Vec<char>)
    requires
        from <= to <= chars@.len(),
    ensures
        piece@ == chars@.subrange(from as int, to as int),
{
    let mut piece: Vec<char> = Vec::new();
    let mut i: usize = from;
    while i < to
        invariant
            from <= i <= to,
            to <= chars@.len(),
            piece@ == chars@.subrange(from as int, i as int),
        decreases to - i,
    {
        piece.push(chars[i]);
        i += 1;
    }
    piece
}

/// The number that the digits `chars[from..to]` spell, unless it is more than any whole
/// part that fits.
fn read_digits(chars: &Vec<char>, from: usize, to: usize) -> (r: Option<u64>)
    requires
        from <= to <= chars@.len(),
        forall|j: int| from <= j < to ==> is_digit(chars@[j]),
    ensures
        match r {
            Some(v) => v == digits_value(chars@.subrange(from as int, to as int)) && v <= 9_223_372_036,
            None => digits_value(chars@.subrange(from as int, to as int)) > 9_223_372_036,
        },
{
    let mut value: u64 = 0;
    let mut i: usize = from;
    while i < to
        invariant
            from <= i <= to,
            to <= chars@.len(),
            forall|j: int| from <= j < to ==> is_digit(chars@[j]),
            value == digits_value(chars@.subrange(from as int, i as int)),
            value <= 9_223_372_036,
        decreases to - i,
    {
        let digit: u64 = (chars[i] as u32 - 48) as u64;
        let next: u64 = value * 10 + digit;
        proof {
            let longer = chars@.subrange(from as int, i + 1);
            assert(longer.drop_last() =~= chars@.subrange(from as int, i as int));
            lemma_digits_value_grows(chars@, from as int, i + 1, to as int);
        }
        if next > 9_223_372_036 {
            return None;
        }
        value = next;
        i += 1;
    }
    Some(value)
}

/// The value of the digits `chars[from..to]` after a point, in raw units.
fn read_fraction(chars: &Vec<char>, from: usize, to: usize) -> (r: u64)
    requires
        from <= to <= chars@.len(),
        forall|j: int| from <= j < to ==> is_digit(chars@[j]),
    ensures
        r == fraction_value(chars@.subrange(from as int, to as int), 100_000_000),
        r < 1_000_000_000,
{
    let mut value: u64 = 0;
    let mut weight: u64 = 100_000_000;
    let mut i: usize = from;
    while i < to && weight > 0
        invariant
            from <= i <= to,
            to <= chars@.len(),
            forall|j: int| from <= j < to ==> is_digit(chars@[j]),
            weight <= 100_000_000,
            value + (if weight > 0 {
                10 * weight
            } else {
                1
            }) <= 1_000_000_000,
            fraction_value(chars@.subrange(from as int, to as int), 100_000_000) == value
                + fraction_value(chars@.subrange(i as int, to as int), weight as nat),
        decreases to - i,
    {
        let digit: u64 = (chars[i] as u32 - 48) as u64;
        proof {
            let rest = chars@.subrange(i as int, to as int);
            assert(rest.skip(1) =~= chars@.subrange(i + 1, to as int));
            assert(digit * weight <= 9 * weight) by (nonlinear_arith)
                requires
                    digit <= 9,
                    weight >= 0,
            ;
        }
        value = value + digit * weight;
        weight = weight / 10;
        i += 1;
    }
    value
}

/// Reads the number that `piece` spells.
fn read_number(piece: &Vec<char>) -> (r: Option<i64>)
    ensures
        r == number(piece@),
{
    let n: usize = piece.len();
    let ghost s = piece@;
    assert(s.take(n as int) =~= s);
    let negative: bool = n > 0 && piece[0] == '-';
    let start: usize = if n > 0 && (piece[0] == '-' || piece[0] == '+') {
        1
    } else {
        0
    };
    let whole_end: usize = scan_digits(piece, start, n);
    let fraction_start: usize = if whole_end < n && piece[whole_end] == '.' {
        whole_end + 1
    } else {
        whole_end
    };
    let fraction_end: usize = scan_digits(piece, fraction_start, n);
    if fraction_end != n || (whole_end - start) + (fraction_end - fraction_start) == 0 {
        return None;
    }
    proof {
        assert forall|j: int| start <= j < whole_end implies is_digit(s[j]) by {
            lemma_run_holds_digits(s, start as int, j);
        }
        assert forall|j: int| fraction_start <= j < fraction_end implies is_digit(s[j]) by {
            lemma_run_holds_digits(s, fraction_start as int, j);
        }
    }
    let part: u64 = read_fraction(piece, fraction_start, fraction_end);
    match read_digits(piece, start, whole_end) {
        Some(whole) => {
            let size: u128 = (whole as u128) * 1_000_000_000 + (part as u128);
            if size > i64::MAX as u128 {
                None
            } else if negative {
                Some(-(size as i64))
            } else {
                Some(size as i64)
            }
        },
        None => None,
    }
}

/// Reads the pair that one entry of a list of harmonics spells.
fn read_pair(piece: &Vec<char>) -> (r: Option<(i64, i64)>)
    ensures
        r == pair_of(piece@),
{
    let n: usize = piece.len();
    assert(piece@.take(n as int) =~= piece@);
    let first_end: usize = scan_piece(piece, 0, n, ',');
    if first_end >= n {
        return None;
    }
    let second_end: usize = scan_piece(piece, first_end + 1, n, ',');
    let first: Vec<char> = piece_of(piece, 0, first_end);
    let second: Vec<char> = piece_of(piece, first_end + 1, second_end);
    match read_number(&first) {
        Some(frequency) => match read_number(&second) {
            Some(amplitude) => Some((frequency, amplitude)),
            None => None,
        },
        None => None,
    }
}

/// Reads one number: `Some` raw value if the whole text is a number that fits an `i64`,
/// `None` otherwise.
pub fn parse_number(text: &str) -> (r: Option<i64>)
    ensures
        r == number(text@),
{
    let chars: Vec<char> = chars_of(text);
    read_number(&chars)
}

/// Reads a comma-separated list of numbers, leaving out the entries that are none.
pub fn parse_values(text: &str) -> (values: Vec<i64>)
    ensures
        values@ == values_from(text@, 0),
{
    let chars: Vec<char> = chars_of(text);
    let n: usize = chars.len();
    let mut values: Vec<i64> = Vec::new();
    let mut from: usize = 0;
    let mut done: bool = false;
    while !done
        invariant
            n == chars@.len(),
            chars@ == text@,
            chars@.take(n as int) == chars@,
            from <= n,
            done ==> values@ == values_from(chars@, 0),
            !done ==> values_from(chars@, 0) == values@ + values_from(chars@, from as int),
        decreases
                n - from + (if done {
                    0int
                } else {
                    1int
                }),
    {
        let end: usize = scan_piece(&chars, from, n, ',');
        let piece: Vec<char> = piece_of(&chars, from, end);
        if let Some(value) = read_number(&piece) {
            values.push(value);
        }
        if end < n {
            from = end + 1;
        } else {
            done = true;
        }
    }
    values
}

/// Reads a list of harmonics, `frequency,amplitude` pairs separated by semicolons,
/// leaving out the entries that are no pair of numbers.
pub fn parse_harmonics(text: &str) -> (pairs: Vec<(i64, i64)>)
    ensures
        pairs@ == pairs_from(text@, 0),
{
    let chars: Vec<char> = chars_of(text);
    let n: usize = chars.len();
    let mut pairs: Vec<(i64, i64)> = Vec::new();
    let mut from: usize = 0;
    let mut done: bool = false;
    while !done
        invariant
            n == chars@.len(),
            chars@ == text@,
            chars@.take(n as int) == chars@,
            from <= n,
            done ==> pairs@ == pairs_from(chars@, 0),
            !done ==> pairs_from(chars@, 0) == pairs@ + pairs_from(chars@, from as int),
        decreases
                n - from + (if done {
                    0int
                } else {
                    1int
                }),
    {
        let end: usize = scan_piece(&chars, from, n, ';');
        let piece: Vec<char> = piece_of(&chars, from, end);
        if let Some(pair) = read_pair(&piece) {
            pairs.push(pair);
        }
        if end < n {
            from = end + 1;
        } else {
            done = true;
        }
    }
    pairs
}

} // verus!
