//! Reading a signed integer from a line of text.

use crate::arith::wrap;
use crate::decimal::{decimal, digit_char, signed_decimal};
use vstd::prelude::*;
use vstd::string::*;

verus! {

/// Whether `c` is white space: one of the code points to which Unicode gives
/// the property `White_Space`.
pub open spec fn is_whitespace(c: char) -> bool {
    let code = c as u32;
    ||| 0x09 <= code <= 0x0D
    ||| code == 0x20
    ||| code == 0x85
    ||| code == 0xA0
    ||| code == 0x1680
    ||| 0x2000 <= code <= 0x200A
    ||| code == 0x2028
    ||| code == 0x2029
    ||| code == 0x202F
    ||| code == 0x205F
    ||| code == 0x3000
}

/// `s` without the white space at its start.
pub open spec fn trim_start(s: Seq<char>) -> Seq<char>
    decreases s.len(),
{
    if s.len() > 0 && is_whitespace(s.first()) {
        trim_start(s.drop_first())
    } else {
        s
    }
}

/// `s` without the white space at its end.
pub open spec fn trim_end(s: Seq<char>) -> Seq<char>
    decreases s.len(),
{
    if s.len() > 0 && is_whitespace(s.last()) {
        trim_end(s.drop_last())
    } else {
        s
    }
}

/// `s` without the white space at its start and at its end.
pub open spec fn trim(s: Seq<char>) -> Seq<char> {
    trim_end(trim_start(s))
}

/// Whether `c` is one of the ten decimal digits.
pub open spec fn is_digit(c: char) -> bool {
    '0' as u32 <= c as u32 <= '9' as u32
}

/// The number that the digit `c` writes.
pub open spec fn digit_value(c: char) -> nat
    recommends
        is_digit(c),
{
    if is_digit(c) {
        (c as u32 - '0' as u32) as nat
    } else {
        0
    }
}

/// Whether every character of `s` is a decimal digit.
pub open spec fn all_digits(s: Seq<char>) -> bool {
    forall|i: int| 0 <= i < s.len() ==> is_digit(#[trigger] s[i])
}

/// The number that the digits of `s` write in base ten.
pub open spec fn digits_value(s: Seq<char>) -> nat
    recommends
        all_digits(s),
    decreases s.len(),
{
    if s.len() == 0 {
        0
    } else {
        10 * digits_value(s.drop_last()) + digit_value(s.last())
    }
}

/// The integer that `s` writes: an optional sign, `+` or `-`, and then one or
/// more decimal digits and nothing else. `None` if `s` is not of that form.
pub open spec fn parse_int(s: Seq<char>) -> Option<int> {
    let signed = s.len() > 0 && (s[0] == '-' || s[0] == '+');
    let digits = if signed { s.drop_first() } else { s };
    if digits.len() == 0 || !all_digits(digits) {
        None
    } else if signed && s[0] == '-' {
        Some(-(digits_value(digits) as int))
    } else {
        Some(digits_value(digits) as int)
    }
}

/// The `i32` that `s` writes. `None` if `s` does not write an integer or
/// writes one outside the range of `i32`.
pub open spec fn parse_i32(s: Seq<char>) -> Option<i32> {
    match parse_int(s) {
        Some(v) if i32::MIN <= v <= i32::MAX => Some(v as i32),
        _ => None,
    }
}

/// Tells whether `c` is white space.
pub fn whitespace(c: char) -> (yes: bool)
    ensures
        yes == is_whitespace(c),
{
    let code = c as u32;
    (0x09 <= code && code <= 0x0D) || code == 0x20 || code == 0x85 || code == 0xA0 || code
        == 0x1680 || (0x2000 <= code && code <= 0x200A) || code == 0x2028 || code == 0x2029 || code
        == 0x202F || code == 0x205F || code == 0x3000
}

/// The characters of `text`, in order.
fn chars_of(text: &str) -> (chars: Vec<char>)
    ensures
        chars@ == text@,
{
    let mut chars: Vec<char> = Vec::new();
    for c in it: text.chars()
        invariant
            it.seq() == text@,
            chars@ == it.seq().take(it.index()),
    {
        chars.push(c);
    }
    chars
}

/// The value of a run of digits does not shrink when more digits follow.
proof fn lemma_digits_value_prefix(s: Seq<char>, k: int)
    requires
        0 <= k <= s.len(),
    ensures
        digits_value(s.take(k)) <= digits_value(s),
    decreases s.len(),
{
    if k < s.len() {
        assert(s.drop_last().take(k) =~= s.take(k));
        lemma_digits_value_prefix(s.drop_last(), k);
    } else {
        assert(s.take(k) =~= s);
    }
}

/// The bounds of `chars` without the white space at its start and end.
fn trim_bounds(chars: &Vec<char>) -> (bounds: (usize, usize))
    ensures
        bounds.0 <= bounds.1 <= chars.len(),
        chars@.subrange(bounds.0 as int, bounds.1 as int) == trim(chars@),
{
    let mut start: usize = 0;
    assert(chars@.skip(0) =~= chars@);
    while start < chars.len() && whitespace(chars[start])
        invariant
            start <= chars.len(),
            trim_start(chars@) == trim_start(chars@.skip(start as int)),
        decreases chars.len() - start,
    {
        assert(chars@.skip(start as int).drop_first() =~= chars@.skip(start + 1));
        start += 1;
    }
    let mut end: usize = chars.len();
    assert(chars@.subrange(start as int, end as int) =~= chars@.skip(start as int));
    while end > start && whitespace(chars[end - 1])
        invariant
            start <= end <= chars.len(),
            trim(chars@) == trim_end(chars@.subrange(start as int, end as int)),
        decreases end - start,
    {
        assert(chars@.subrange(start as int, end as int).drop_last() =~= chars@.subrange(
            start as int,
            end - 1,
        ));
        end -= 1;
    }
    (start, end)
}

/// Reads the run of digits `chars[from..to]`, as long as its value stays
/// within `limit`.
fn read_digits(chars: &Vec<char>, from: usize, to: usize, limit: i64) -> (value: Option<i64>)
    requires
        from <= to <= chars.len(),
        0 <= limit <= u32::MAX,
    ensures
        ({
            let digits = chars@.subrange(from as int, to as int);
            match value {
                Some(v) => all_digits(digits) && v == digits_value(digits) && v <= limit,
                None => !all_digits(digits) || digits_value(digits) > limit,
            }
        }),
{
    let ghost digits = chars@.subrange(from as int, to as int);
    let mut value: i64 = 0;
    let mut i: usize = from;
    while i < to
        invariant
            from <= i <= to <= chars.len(),
            0 <= limit <= u32::MAX,
            digits == chars@.subrange(from as int, to as int),
            all_digits(digits.take(i - from)),
            value == digits_value(digits.take(i - from)),
            0 <= value <= limit,
        decreases to - i,
    {
        let code = chars[i] as u32;
        if code < '0' as u32 || code > '9' as u32 {
            assert(!is_digit(digits[i - from]));
            return None;
        }
        let next: i64 = value * 10 + (code - '0' as u32) as i64;
        proof {
            let longer = digits.take(i - from + 1);
            assert(longer.drop_last() =~= digits.take(i - from));
            assert(longer.last() == chars[i as int]);
            assert(next == digits_value(longer));
            lemma_digits_value_prefix(digits, i - from + 1);
        }
        if next > limit {
            return None;
        }
        value = next;
        i += 1;
    }
    assert(digits.take(to - from) =~= digits);
    Some(value)
}

/// Reads a line as an `i32`: white space at its start and end is left out,
/// and the rest is an optional sign and then decimal digits.
pub fn parse_number(line: &str) -> (number: Option<i32>)
    ensures
        number == parse_i32(trim(line@)),
{
    let chars = chars_of(line);
    let (start, end) = trim_bounds(&chars);
    let ghost text = trim(line@);
    if start == end {
        return None;
    }
    let first = chars[start];
    let signed = first == '-' || first == '+';
    let negative = first == '-';
    let from = if signed { start + 1 } else { start };
    assert(chars@.subrange(from as int, end as int) =~= if signed { text.drop_first() } else { text });
    if from == end {
        return None;
    }
    let limit: i64 = if negative { 0x8000_0000 } else { 0x7fff_ffff };
    match read_digits(&chars, from, end, limit) {
        Some(value) => {
            let number: i64 = if negative { -value } else { value };
            Some(number as i32)
        },
        None => None,
    }
}

/// What is said of a line that was read: the number and its double, wrapped
/// around at the ends of the `i32` range, or that the line is no number.
pub open spec fn report_text(number: Option<i32>) -> Seq<char> {
    match number {
        Some(n) => "You entered: "@ + signed_decimal(n as int) + ". Double that is: "@
            + signed_decimal(wrap(2 * n)),
        None => "That's not a valid number!"@,
    }
}

/// Says what was read: the number and its double, or that there was none.
pub fn report_number(number: Option<i32>) -> (report: String)
    ensures
        report@ == report_text(number),
{
    match number {
        Some(n) => {
            let mut report = "You entered: ".to_owned();
            crate::decimal::append_signed_decimal(&mut report, n);
            report.append(". Double that is: ");
            crate::decimal::append_signed_decimal(&mut report, crate::arith::double(n));
            report
        },
        None => "That's not a valid number!".to_owned(),
    }
}

/// Reads a line as a number and says what was read.
pub fn report_line(line: &str) -> (report: String)
    ensures
        report@ == report_text(parse_i32(trim(line@))),
{
    report_number(parse_number(line))
}

/// The decimal notation of a number is made of digits, one at least, and
/// their value is the number.
pub proof fn lemma_decimal_digits(n: nat)
    ensures
        decimal(n).len() > 0,
        all_digits(decimal(n)),
        digits_value(decimal(n)) == n,
    decreases n,
{
    let s = decimal(n);
    if n >= 10 {
        lemma_decimal_digits(n / 10);
        assert(s.drop_last() =~= decimal(n / 10));
        assert(s.last() == digit_char(n % 10));
        assert(digit_value(digit_char(n % 10)) == n % 10);
    } else {
        assert(s.drop_last() =~= Seq::<char>::empty());
        assert(digits_value(s.drop_last()) == 0);
        assert(digit_value(digit_char(n)) == n);
    }
}

/// A number written in decimal reads back as itself: every `i32` can be
/// read, and reading undoes writing.
pub proof fn lemma_parse_decimal(n: i32)
    ensures
        trim(signed_decimal(n as int)) == signed_decimal(n as int),
        parse_i32(signed_decimal(n as int)) == Some(n),
{
    let s = signed_decimal(n as int);
    let magnitude: nat = if n < 0 { (-n) as nat } else { n as nat };
    let digits = decimal(magnitude);
    lemma_decimal_digits(magnitude);
    assert(is_digit(digits[0]));
    assert(is_digit(digits[digits.len() - 1]));
    if n < 0 {
        assert(s[0] == '-');
        assert(s.last() == digits.last());
        assert(s.drop_first() =~= digits);
    } else {
        assert(s == digits);
    }
    assert(!is_whitespace(s.first()));
    assert(!is_whitespace(s.last()));
    assert(parse_int(s) == Some(n as int));
}

} // verus!
