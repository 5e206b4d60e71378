//! Spans of time and their texts.

use vstd::prelude::*;
use crate::text;

verus! {

/// A span of time in nanoseconds.
#[derive(Clone, Copy, Debug, PartialEq, Eq, Structural)]
pub struct Span(pub u64);

/// The number of digits in front.
pub open spec fn digit_count(value: Seq<char>) -> nat
    decreases value.len(),
{
    if value.len() == 0 || !text::is_digit(value[0]) {
        0
    } else {
        1 + digit_count(value.skip(1))
    }
}

/// The digits in front are digits, and the first character behind them is none.
pub proof fn lemma_digit_count(value: Seq<char>)
    ensures
        digit_count(value) <= value.len(),
        forall|i: int| 0 <= i < digit_count(value) ==> text::is_digit(#[trigger] value[i]),
        digit_count(value) < value.len() ==> !text::is_digit(value[digit_count(value) as int]),
    decreases value.len(),
{
    if value.len() > 0 && text::is_digit(value[0]) {
        lemma_digit_count(value.skip(1));
        assert forall|i: int| 0 <= i < digit_count(value) implies text::is_digit(
            #[trigger] value[i],
        ) by {
            if i > 0 {
                assert(value.skip(1)[i - 1] == value[i]);
            }
        }
    }
}

/// The number of digits from an index on.
pub fn count_digits(value: &Vec<char>, from: usize) -> (result: usize)
    requires
        from <= value.len(),
    ensures
        result == digit_count(value@.skip(from as int)),
        from + result <= value.len(),
{
    let mut at: usize = from;
    assert(value@.skip(from as int).skip(0) == value@.skip(from as int));
    while at < value.len() && text::digit(value[at])
        invariant
            from <= at <= value.len(),
            digit_count(value@.skip(from as int)) == (at - from) + digit_count(
                value@.skip(at as int),
            ),
        decreases value.len() - at,
    {
        assert(value@.skip(at as int).skip(1) == value@.skip(at + 1));
        at = at + 1;
    }
    at - from
}

/// The unit in front: the length of its name, and its nanoseconds.
pub open spec fn unit_of(value: Seq<char>) -> Option<(nat, nat)> {
    if value.len() >= 2 && value[0] == 'n' && value[1] == 's' {
        Some((2, 1))
    } else if value.len() >= 2 && (value[0] == 'u' || value[0] == '\u{b5}' || value[0]
        == '\u{3bc}') && value[1] == 's' {
        Some((2, 1_000))
    } else if value.len() >= 2 && value[0] == 'm' && value[1] == 's' {
        Some((2, 1_000_000))
    } else if value.len() >= 1 && value[0] == 's' {
        Some((1, 1_000_000_000))
    } else if value.len() >= 1 && value[0] == 'm' {
        Some((1, 60_000_000_000))
    } else if value.len() >= 1 && value[0] == 'h' {
        Some((1, 3_600_000_000_000))
    } else {
        None
    }
}

/// The length of the name of the unit in front.
pub open spec fn unit_length(value: Seq<char>) -> nat {
    match unit_of(value) {
        Some((length, _)) => length,
        None => 0,
    }
}

/// The nanoseconds of the unit in front.
pub open spec fn unit_scale(value: Seq<char>) -> nat {
    match unit_of(value) {
        Some((_, scale)) => scale,
        None => 0,
    }
}

fn unit(value: &Vec<char>, at: usize) -> (result: Option<(usize, u64)>)
    requires
        at <= value.len(),
    ensures
        match (result, unit_of(value@.skip(at as int))) {
            (Some((count, nanos)), Some((length, scale))) => count == length && nanos == scale
                && at + count <= value.len() && count > 0 && nanos <= 3_600_000_000_000,
            (None, None) => true,
            _ => false,
        },
{
    let left: usize = value.len() - at;
    if left >= 2 && value[at] == 'n' && value[at + 1] == 's' {
        Some((2, 1))
    } else if left >= 2 && (value[at] == 'u' || value[at] == '\u{b5}' || value[at] == '\u{3bc}')
        && value[at + 1] == 's' {
        Some((2, 1_000))
    } else if left >= 2 && value[at] == 'm' && value[at + 1] == 's' {
        Some((2, 1_000_000))
    } else if left >= 1 && value[at] == 's' {
        Some((1, 1_000_000_000))
    } else if left >= 1 && value[at] == 'm' {
        Some((1, 60_000_000_000))
    } else if left >= 1 && value[at] == 'h' {
        Some((1, 3_600_000_000_000))
    } else {
        None
    }
}

/// One number with its unit, in front of a text.
#[verifier::ext_equal]
pub struct Piece {
    /// The digits before the point.
    pub whole: Seq<char>,
    /// The digits behind the point.
    pub fraction: Seq<char>,
    /// What follows the number.
    pub rest: Seq<char>,
}

/// The number in front of a text.
pub open spec fn piece_of(value: Seq<char>) -> Piece {
    let digits = digit_count(value) as int;
    let rest = value.skip(digits);
    if rest.len() > 0 && rest[0] == '.' {
        let tail = rest.skip(1);
        let count = digit_count(tail) as int;
        Piece { whole: value.take(digits), fraction: tail.take(count), rest: tail.skip(count) }
    } else {
        Piece { whole: value.take(digits), fraction: Seq::empty(), rest }
    }
}

/// What follows a number is no longer than the whole.
pub proof fn lemma_piece_shrinks(value: Seq<char>)
    ensures
        piece_of(value).rest.len() <= value.len(),
{
    lemma_digit_count(value);
    let rest = value.skip(digit_count(value) as int);
    if rest.len() > 0 && rest[0] == '.' {
        lemma_digit_count(rest.skip(1));
    }
}

/// The nanoseconds of a text that follows `total` nanoseconds, or why it is refused. The fractions
/// give the nanoseconds that the digits behind each point stand for, one for each number that has
/// such digits.
pub open spec fn total_of(
    input: Seq<char>,
    value: Seq<char>,
    total: nat,
    fractions: Seq<u64>,
) -> Result<nat, Seq<char>>
    decreases value.len(),
{
    if value.len() == 0 {
        Ok(total)
    } else {
        proof {
            lemma_piece_shrinks(value);
        }
        let piece = piece_of(value);
        let whole = text::digits_value(piece.whole);
        if whole > u64::MAX {
            Err("duration overflow"@)
        } else if piece.whole.len() == 0 && piece.fraction.len() == 0 {
            Err("invalid duration "@ + text::debug_text(input))
        } else {
            match unit_of(piece.rest) {
                None => Err("invalid duration unit in "@ + text::debug_text(input)),
                Some((length, scale)) => {
                    let part = if piece.fraction.len() > 0 && fractions.len() > 0 {
                        fractions[0] as nat
                    } else {
                        0
                    };
                    let nanos = whole * scale + part;
                    if total + nanos > i64::MAX {
                        Err("duration overflow"@)
                    } else {
                        total_of(
                            input,
                            piece.rest.skip(length as int),
                            total + nanos,
                            if piece.fraction.len() > 0 && fractions.len() > 0 {
                                fractions.skip(1)
                            } else {
                                fractions
                            },
                        )
                    }
                },
            }
        }
    }
}

/// A text without its sign.
pub open spec fn unsigned_part(input: Seq<char>) -> Seq<char> {
    if input.len() > 0 && (input[0] == '+' || input[0] == '-') {
        input.skip(1)
    } else {
        input
    }
}

/// The nanoseconds of a text, or why it is refused.
pub open spec fn span_of(input: Seq<char>, fractions: Seq<u64>) -> Result<nat, Seq<char>> {
    let value = unsigned_part(input);
    if value == seq!['0'] {
        Ok(0)
    } else if value.len() == 0 {
        Err("invalid duration "@ + text::debug_text(input))
    } else {
        match total_of(input, value, 0, fractions) {
            Err(reason) => Err(reason),
            Ok(total) => if input[0] == '-' && total != 0 {
                Err("duration must not be negative"@)
            } else {
                Ok(total)
            },
        }
    }
}

/// The digits behind a point and the unit of their number, for each number of a text that has such
/// digits, as far as the text can be read.
pub open spec fn fractions_of(value: Seq<char>) -> Seq<(Seq<char>, u64)>
    decreases value.len(),
{
    if value.len() == 0 {
        Seq::empty()
    } else {
        proof {
            lemma_piece_shrinks(value);
        }
        let piece = piece_of(value);
        if piece.whole.len() == 0 && piece.fraction.len() == 0 {
            Seq::empty()
        } else {
            match unit_of(piece.rest) {
                None => Seq::empty(),
                Some((length, scale)) => {
                    let rest = fractions_of(piece.rest.skip(length as int));
                    if piece.fraction.len() > 0 {
                        seq![(piece.fraction, scale as u64)] + rest
                    } else {
                        rest
                    }
                },
            }
        }
    }
}

/// One number with its unit, as it stands in a text.
struct Figure {
    whole: String,
    fraction: String,
    next: usize,
}

fn number(value: &Vec<char>, at: usize) -> (result: Figure)
    requires
        at <= value.len(),
    ensures
        result.whole@ == piece_of(value@.skip(at as int)).whole,
        result.fraction@ == piece_of(value@.skip(at as int)).fraction,
        at <= result.next <= value.len(),
        value@.skip(result.next as int) == piece_of(value@.skip(at as int)).rest,
{
    let ghost own = value@.skip(at as int);
    let digits: usize = count_digits(value, at);
    let whole = text::piece(value, at, at + digits);
    assert(own.take(digits as int) == value@.subrange(at as int, at + digits));
    assert(own.skip(digits as int) == value@.skip(at + digits));
    let point: usize = at + digits;
    if point < value.len() && value[point] == '.' {
        assert(own.skip(digits as int)[0] == '.');
        assert(own.skip(digits as int).skip(1) == value@.skip(point + 1));
        let count: usize = count_digits(value, point + 1);
        let fraction = text::piece(value, point + 1, point + 1 + count);
        assert(value@.skip(point + 1).take(count as int) == value@.subrange(
            point + 1,
            point + 1 + count,
        ));
        assert(value@.skip(point + 1).skip(count as int) == value@.skip(point + 1 + count));
        Figure { whole, fraction, next: point + 1 + count }
    } else {
        Figure { whole, fraction: String::new(), next: point }
    }
}

impl Span {
    /// The digits behind a point and the unit of their number, for each number of a text that has
    /// such digits.
    pub fn fractions(input: &str) -> (result: Vec<(String, u64)>)
        ensures
            result@.len() == fractions_of(unsigned_part(input@)).len(),
            forall|i: int|
                0 <= i < result@.len() ==> (#[trigger] result@[i]).0@ == fractions_of(
                    unsigned_part(input@),
                )[i].0 && result@[i].1 == fractions_of(unsigned_part(input@))[i].1,
    {
        let all = text::chars(input);
        let start: usize = if all.len() > 0 && (all[0] == '+' || all[0] == '-') {
            1
        } else {
            0
        };
        let ghost value = unsigned_part(input@);
        let ghost whole = fractions_of(value);
        assert(all@.skip(start as int) == value);
        let mut result: Vec<(String, u64)> = Vec::new();
        let mut at: usize = start;
        while at < all.len()
            invariant
                at <= all.len(),
                whole == fractions_of(unsigned_part(input@)),
                whole.len() == result@.len() + fractions_of(all@.skip(at as int)).len(),
                forall|i: int|
                    0 <= i < result@.len() ==> (#[trigger] result@[i]).0@ == whole[i].0
                        && result@[i].1 == whole[i].1,
                forall|i: int|
                    result@.len() <= i < whole.len() ==> #[trigger] whole[i] == fractions_of(
                        all@.skip(at as int),
                    )[i - result@.len()],
            decreases all.len() - at,
        {
            let ghost own = all@.skip(at as int);
            let item = number(&all, at);
            if item.whole.is_empty() && item.fraction.is_empty() {
                return result;
            }
            match unit(&all, item.next) {
                None => {
                    return result;
                },
                Some((count, scale)) => {
                    proof {
                        let piece = piece_of(own);
                        assert(piece.rest.skip(count as int) == all@.skip(item.next + count));
                        if piece.fraction.len() > 0 {
                            assert(whole[result@.len() as int] == (piece.fraction, scale));
                        }
                    }
                    let next: usize = item.next + count;
                    if !item.fraction.is_empty() {
                        result.push((item.fraction, scale));
                    }
                    at = next;
                },
            }
        }
        result
    }

    /// Reads a span. The fractions give the nanoseconds that the digits behind each point stand for,
    /// one for each number that has such digits.
    pub fn parse(input: &str, fractions: &Vec<u64>) -> (result: Result<Span, String>)
        ensures
            match (result, span_of(input@, fractions@)) {
                (Ok(span), Ok(total)) => span.0 == total,
                (Err(reason), Err(expected)) => reason@ == expected,
                _ => false,
            },
    {
        let all = text::chars(input);
        let signed = all.len() > 0 && (all[0] == '+' || all[0] == '-');
        let start: usize = if signed {
            1
        } else {
            0
        };
        let ghost value = unsigned_part(input@);
        assert(all@.skip(start as int) == value);
        if all.len() == start + 1 && all[start] == '0' {
            assert(value == seq!['0']);
            return Ok(Span(0));
        }
        assert(value != seq!['0']) by {
            if value == seq!['0'] {
                assert(value.len() == 1);
                assert(value[0] == '0');
                assert(all@[start as int] == value[0]);
            }
        }
        if all.len() == start {
            return Err(text::cat("invalid duration ", &text::quoted(input)));
        }
        let mut total: u64 = 0;
        let mut at: usize = start;
        let mut used: usize = 0;
        assert(fractions@.skip(0) == fractions@);
        while at < all.len()
            invariant
                at <= all.len(),
                used <= fractions.len(),
                total <= i64::MAX,
                total_of(input@, value, 0, fractions@) == total_of(
                    input@,
                    all@.skip(at as int),
                    total as nat,
                    fractions@.skip(used as int),
                ),
                value.len() > 0,
                value != seq!['0'],
                value == unsigned_part(input@),
            decreases all.len() - at,
        {
            let ghost own = all@.skip(at as int);
            let ghost piece = piece_of(own);
            proof {
                lemma_digit_count(own);
            }
            let item = number(&all, at);
            let mut whole: u64 = 0;
            if !item.whole.is_empty() {
                assert(text::all_digits(item.whole@));
                match text::unsigned(&item.whole) {
                    Some(found) => {
                        whole = found;
                    },
                    None => {
                        return Err("duration overflow".to_owned());
                    },
                }
            }
            assert(whole == text::digits_value(piece.whole));
            if item.whole.is_empty() && item.fraction.is_empty() {
                return Err(text::cat("invalid duration ", &text::quoted(input)));
            }
            let (count, scale) = match unit(&all, item.next) {
                Some(pair) => pair,
                None => {
                    return Err(text::cat("invalid duration unit in ", &text::quoted(input)));
                },
            };
            let fractional = !item.fraction.is_empty() && used < fractions.len();
            let part: u64 = if fractional {
                fractions[used]
            } else {
                0
            };
            assert(whole as u128 * scale as u128 <= 0xffff_ffff_ffff_ffff * 3_600_000_000_000)
                by (nonlinear_arith)
                requires
                    whole <= 0xffff_ffff_ffff_ffff,
                    scale <= 3_600_000_000_000,
            ;
            let product: u128 = whole as u128 * scale as u128;
            let nanos: u128 = product + part as u128;
            proof {
                assert(fractions@.skip(used as int).len() == fractions@.len() - used);
                if fractional {
                    assert(fractions@.skip(used as int)[0] == part);
                    assert(fractions@.skip(used as int).skip(1) == fractions@.skip(used + 1));
                }
                assert(piece.rest.skip(count as int) == all@.skip(item.next + count));
            }
            if total as u128 + nanos > 9_223_372_036_854_775_807 {
                return Err("duration overflow".to_owned());
            }
            total = (total as u128 + nanos) as u64;
            if fractional {
                used = used + 1;
            }
            at = item.next + count;
        }
        if all[0] == '-' && total != 0 {
            return Err("duration must not be negative".to_owned());
        }
        Ok(Span(total))
    }
}

/// The last digits of a number, with zeros in front.
pub open spec fn padded_of(value: nat, digits: nat) -> Seq<char>
    decreases digits,
{
    if digits == 0 {
        Seq::empty()
    } else {
        padded_of(value / 10, (digits - 1) as nat).push(text::digit_char(value % 10))
    }
}

fn padded(value: u64, digits: u64) -> (result: String)
    ensures
        result@ == padded_of(value as nat, digits as nat),
    decreases digits,
{
    if digits == 0 {
        return String::new();
    }
    let mut result = padded(value / 10, digits - 1);
    let unit: u8 = (value % 10) as u8;
    result.push((48 + unit) as char);
    result
}

/// A number with the digits behind its point, without zeros at their end.
pub open spec fn scaled_of(whole: nat, fraction: nat, digits: nat) -> Seq<char> {
    if fraction == 0 {
        text::decimal_of(whole)
    } else {
        text::decimal_of(whole) + "."@ + text::trim_end_char_of(padded_of(fraction, digits), '0')
    }
}

/// A number with the digits behind its point, without zeros at their end.
pub fn scaled(whole: u64, fraction: u64, digits: u64) -> (result: String)
    ensures
        result@ == scaled_of(whole as nat, fraction as nat, digits as nat),
{
    let front = text::decimal(whole);
    if fraction == 0 {
        front
    } else {
        text::cat3(&front, ".", &text::trim_end_char(&padded(fraction, digits), '0'))
    }
}

/// The text of a number of nanoseconds.
pub open spec fn span_text(nanos: nat) -> Seq<char> {
    let seconds = nanos / 1_000_000_000;
    if nanos == 0 {
        "0s"@
    } else if nanos < 1_000 {
        text::decimal_of(nanos) + "ns"@
    } else if nanos < 1_000_000 {
        scaled_of(nanos / 1_000, nanos % 1_000, 3) + "\u{b5}s"@
    } else if nanos < 1_000_000_000 {
        scaled_of(nanos / 1_000_000, nanos % 1_000_000, 6) + "ms"@
    } else {
        let hours = if seconds >= 3600 {
            text::decimal_of(seconds / 3600) + "h"@
        } else {
            Seq::empty()
        };
        let minutes = if seconds >= 60 {
            text::decimal_of(seconds / 60 % 60) + "m"@
        } else {
            Seq::empty()
        };
        hours + minutes + (scaled_of(seconds % 60, nanos % 1_000_000_000, 9) + "s"@)
    }
}

impl Span {
    /// The text of the span.
    pub fn text(&self) -> (result: String)
        ensures
            result@ == span_text(self.0 as nat),
    {
        let nanos: u64 = self.0;
        if nanos == 0 {
            return "0s".to_owned();
        }
        if nanos < 1_000 {
            return text::cat(&text::decimal(nanos), "ns");
        }
        if nanos < 1_000_000 {
            return text::cat(&scaled(nanos / 1_000, nanos % 1_000, 3), "\u{b5}s");
        }
        if nanos < 1_000_000_000 {
            return text::cat(&scaled(nanos / 1_000_000, nanos % 1_000_000, 6), "ms");
        }
        let seconds: u64 = nanos / 1_000_000_000;
        let hours = if seconds >= 3600 {
            text::cat(&text::decimal(seconds / 3600), "h")
        } else {
            String::new()
        };
        let minutes = if seconds >= 60 {
            text::cat(&text::decimal(seconds / 60 % 60), "m")
        } else {
            String::new()
        };
        let rest = text::cat(&scaled(seconds % 60, nanos % 1_000_000_000, 9), "s");
        text::cat3(&hours, &minutes, &rest)
    }
}

/// A power of ten.
pub open spec fn power_of_ten(exponent: nat) -> nat
    decreases exponent,
{
    if exponent == 0 {
        1
    } else {
        10 * power_of_ten((exponent - 1) as nat)
    }
}

proof fn lemma_padded(value: nat, digits: nat)
    ensures
        padded_of(value, digits).len() == digits,
        forall|i: int| 0 <= i < digits ==> text::is_digit(#[trigger] padded_of(value, digits)[i]),
    decreases digits,
{
    if digits > 0 {
        lemma_padded(value / 10, (digits - 1) as nat);
    }
}

proof fn lemma_padded_zeros(value: nat, digits: nat)
    requires
        value < power_of_ten(digits),
        forall|i: int| 0 <= i < digits ==> #[trigger] padded_of(value, digits)[i] == '0',
    ensures
        value == 0,
    decreases digits,
{
    if digits > 0 {
        let front = padded_of(value / 10, (digits - 1) as nat);
        let whole = padded_of(value, digits);
        lemma_padded(value / 10, (digits - 1) as nat);
        lemma_padded(value, digits);
        assert forall|i: int| 0 <= i < digits - 1 implies #[trigger] front[i] == '0' by {
            assert(whole[i] == front[i]);
        }
        lemma_padded_zeros(value / 10, (digits - 1) as nat);
        assert(whole[digits - 1] == text::digit_char(value % 10));
    }
}

proof fn lemma_trimmed_digits(value: Seq<char>)
    requires
        forall|i: int| 0 <= i < value.len() ==> text::is_digit(#[trigger] value[i]),
    ensures
        forall|i: int|
            0 <= i < text::trim_end_char_of(value, '0').len() ==> text::is_digit(
                #[trigger] text::trim_end_char_of(value, '0')[i],
            ),
        text::trim_end_char_of(value, '0').len() == 0 ==> forall|i: int|
            0 <= i < value.len() ==> #[trigger] value[i] == '0',
    decreases value.len(),
{
    if value.len() > 0 && value.last() == '0' {
        lemma_trimmed_digits(value.drop_last());
        if text::trim_end_char_of(value, '0').len() == 0 {
            assert forall|i: int| 0 <= i < value.len() implies #[trigger] value[i] == '0' by {
                if i < value.len() - 1 {
                    assert(value.drop_last()[i] == value[i]);
                }
            }
        }
    }
}

proof fn lemma_digits_front(digits: Seq<char>, rest: Seq<char>)
    requires
        forall|i: int| 0 <= i < digits.len() ==> text::is_digit(#[trigger] digits[i]),
        rest.len() == 0 || !text::is_digit(rest[0]),
    ensures
        digit_count(digits + rest) == digits.len(),
        (digits + rest).take(digits.len() as int) == digits,
        (digits + rest).skip(digits.len() as int) == rest,
    decreases digits.len(),
{
    let whole = digits + rest;
    assert(whole.take(digits.len() as int) =~= digits);
    assert(whole.skip(digits.len() as int) =~= rest);
    if digits.len() == 0 {
        assert(whole =~= rest);
    } else {
        assert(whole.skip(1) =~= digits.skip(1) + rest);
        assert(whole[0] == digits[0]);
        lemma_digits_front(digits.skip(1), rest);
    }
}

/// A number with its unit adds its nanoseconds.
proof fn lemma_number_counts(
    input: Seq<char>,
    whole: nat,
    fraction: Seq<char>,
    rest: Seq<char>,
    total: nat,
    fractions: Seq<u64>,
)
    requires
        whole <= u64::MAX,
        forall|i: int| 0 <= i < fraction.len() ==> text::is_digit(#[trigger] fraction[i]),
        unit_of(rest) is Some,
        (fraction.len() > 0) == (fractions.len() > 0),
    ensures
        ({
            let value = if fraction.len() > 0 {
                text::decimal_of(whole) + "."@ + fraction + rest
            } else {
                text::decimal_of(whole) + rest
            };
            let (length, scale) = unit_of(rest)->0;
            let part = if fraction.len() > 0 {
                fractions[0] as nat
            } else {
                0
            };
            let sum = total + (whole * scale + part);
            sum <= i64::MAX ==> total_of(input, value, total, fractions) == total_of(
                input,
                rest.skip(length as int),
                sum,
                if fraction.len() > 0 {
                    fractions.skip(1)
                } else {
                    fractions
                },
            )
        }),
{
    reveal_strlit(".");
    let digits = text::decimal_of(whole);
    text::lemma_decimal(whole);
    if fraction.len() > 0 {
        let value = digits + "."@ + fraction + rest;
        let tail = "."@ + (fraction + rest);
        assert(value =~= digits + tail);
        lemma_digits_front(digits, tail);
        assert(tail.skip(1) =~= fraction + rest);
        lemma_digits_front(fraction, rest);
        assert(piece_of(value) == (Piece { whole: digits, fraction, rest }));
    } else {
        let value = digits + rest;
        lemma_digits_front(digits, rest);
        assert(piece_of(value) =~= (Piece { whole: digits, fraction: Seq::empty(), rest }));
    }
}

/// The nanoseconds that stand behind the point in the text of a span.
pub open spec fn fraction_of(nanos: nat) -> nat {
    if nanos < 1_000 {
        0
    } else if nanos < 1_000_000 {
        nanos % 1_000
    } else if nanos < 1_000_000_000 {
        nanos % 1_000_000
    } else {
        nanos % 1_000_000_000
    }
}

/// The fractions that the text of a span needs.
pub open spec fn own_fractions(nanos: nat) -> Seq<u64> {
    if fraction_of(nanos) == 0 {
        Seq::empty()
    } else {
        seq![fraction_of(nanos) as u64]
    }
}

proof fn lemma_scaled_counts(
    input: Seq<char>,
    whole: nat,
    fraction: nat,
    digits: nat,
    unit: Seq<char>,
    total: nat,
)
    requires
        whole <= u64::MAX,
        fraction < power_of_ten(digits),
        fraction <= u64::MAX,
        unit_of(unit) is Some,
        unit_length(unit) == unit.len(),
        total + whole * unit_scale(unit) + fraction <= i64::MAX,
    ensures
        total_of(
            input,
            scaled_of(whole, fraction, digits) + unit,
            total,
            if fraction == 0 {
                Seq::empty()
            } else {
                seq![fraction as u64]
            },
        ) == Ok::<nat, Seq<char>>(total + whole * unit_scale(unit) + fraction),
{
    let (length, scale) = unit_of(unit)->0;
    assert(unit.skip(length as int) =~= Seq::<char>::empty());
    if fraction == 0 {
        lemma_number_counts(input, whole, Seq::empty(), unit, total, Seq::empty());
    } else {
        let padded = padded_of(fraction, digits);
        let trimmed = text::trim_end_char_of(padded, '0');
        lemma_padded(fraction, digits);
        lemma_trimmed_digits(padded);
        if trimmed.len() == 0 {
            lemma_padded_zeros(fraction, digits);
        }
        lemma_number_counts(input, whole, trimmed, unit, total, seq![fraction as u64]);
        assert(seq![fraction as u64].skip(1) =~= Seq::<u64>::empty());
    }
}

/// The text of a span is read back as the span, given the nanoseconds behind its point.
pub proof fn lemma_text_reads_back(nanos: nat)
    requires
        nanos <= i64::MAX,
    ensures
        span_of(span_text(nanos), own_fractions(nanos)) == Ok::<nat, Seq<char>>(nanos),
{
    if nanos < 1_000_000_000 {
        lemma_small_counts(nanos);
    } else {
        lemma_large_counts(nanos);
    }
}

proof fn lemma_scaled_front(whole: nat, fraction: nat, digits: nat, behind: Seq<char>)
    requires
        behind.len() > 0,
    ensures
        (scaled_of(whole, fraction, digits) + behind).len() >= 2,
        text::is_digit((scaled_of(whole, fraction, digits) + behind)[0]),
{
    text::lemma_decimal(whole);
    assert(text::is_digit(text::decimal_of(whole)[0]));
}

proof fn lemma_small_counts(nanos: nat)
    requires
        nanos < 1_000_000_000,
    ensures
        total_of(span_text(nanos), span_text(nanos), 0, own_fractions(nanos)) == Ok::<
            nat,
            Seq<char>,
        >(nanos),
        span_text(nanos).len() >= 2,
        text::is_digit(span_text(nanos)[0]),
{
    let input = span_text(nanos);
    if nanos == 0 {
        reveal_strlit("0s");
        reveal_strlit("s");
        assert(text::decimal_of(0) =~= seq!['0']);
        assert("0s"@ =~= scaled_of(0, 0, 9) + "s"@);
        assert(power_of_ten(9) > 0) by {
            reveal_with_fuel(power_of_ten, 10);
        }
        lemma_scaled_counts(input, 0, 0, 9, "s"@, 0);
    } else if nanos < 1_000 {
        reveal_strlit("ns");
        assert(input == scaled_of(nanos, 0, 3) + "ns"@);
        assert(power_of_ten(3) > 0) by {
            reveal_with_fuel(power_of_ten, 10);
        }
        assert(unit_scale("ns"@) == 1);
        assert(nanos * unit_scale("ns"@) == nanos) by (nonlinear_arith)
            requires
                unit_scale("ns"@) == 1,
        ;
        lemma_scaled_counts(input, nanos, 0, 3, "ns"@, 0);
        lemma_scaled_front(nanos, 0, 3, "ns"@);
    } else if nanos < 1_000_000 {
        lemma_micros(nanos);
    } else {
        reveal_strlit("ms");
        assert(power_of_ten(6) == 1_000_000) by {
            reveal_with_fuel(power_of_ten, 10);
        }
        assert(unit_scale("ms"@) == 1_000_000);
        assert((nanos / 1_000_000) * unit_scale("ms"@) == (nanos / 1_000_000) * 1_000_000);
        lemma_scaled_counts(input, nanos / 1_000_000, nanos % 1_000_000, 6, "ms"@, 0);
        lemma_scaled_front(nanos / 1_000_000, nanos % 1_000_000, 6, "ms"@);
    }
}

proof fn lemma_micros(nanos: nat)
    requires
        1_000 <= nanos < 1_000_000,
    ensures
        total_of(span_text(nanos), span_text(nanos), 0, own_fractions(nanos)) == Ok::<
            nat,
            Seq<char>,
        >(nanos),
        span_text(nanos).len() >= 2,
        text::is_digit(span_text(nanos)[0]),
{
    let input = span_text(nanos);
    reveal_strlit("\u{b5}s");
    let unit = "\u{b5}s"@;
    assert(unit.len() == 2);
    assert(unit[0] == '\u{b5}' && unit[1] == 's');
    assert(unit_of(unit) == Some((2nat, 1_000nat)));
    assert(power_of_ten(3) == 1_000) by {
        reveal_with_fuel(power_of_ten, 10);
    }
    assert(nanos / 1_000 * 1_000 + nanos % 1_000 == nanos);
    lemma_scaled_counts(input, nanos / 1_000, nanos % 1_000, 3, unit, 0);
    lemma_scaled_front(nanos / 1_000, nanos % 1_000, 3, unit);
}

/// The parts of a span that is a second or more.
proof fn lemma_parts(nanos: nat)
    ensures
        ({
            let seconds = nanos / 1_000_000_000;
            let before = seconds / 3600 * 3_600_000_000_000 + seconds / 60 % 60 * 60_000_000_000;
            &&& before + seconds % 60 * 1_000_000_000 + nanos % 1_000_000_000 == nanos
            &&& seconds < 3600 ==> seconds / 3600 == 0
            &&& seconds < 60 ==> before == 0
        }),
{
    let seconds = nanos / 1_000_000_000;
    assert(seconds / 3600 * 3600 + seconds / 60 % 60 * 60 + seconds % 60 == seconds);
}

/// The last part of a span that is a second or more.
proof fn lemma_last_counts(input: Seq<char>, nanos: nat, before: nat)
    requires
        before + nanos / 1_000_000_000 % 60 * 1_000_000_000 + nanos % 1_000_000_000 == nanos,
        1_000_000_000 <= nanos <= i64::MAX,
    ensures
        ({
            let seconds = nanos / 1_000_000_000;
            let last = scaled_of(seconds % 60, nanos % 1_000_000_000, 9) + "s"@;
            &&& total_of(input, last, before, own_fractions(nanos)) == Ok::<nat, Seq<char>>(nanos)
            &&& last.len() >= 2
            &&& text::is_digit(last[0])
        }),
{
    let seconds = nanos / 1_000_000_000;
    assert(power_of_ten(9) == 1_000_000_000) by {
        reveal_with_fuel(power_of_ten, 10);
    }
    reveal_strlit("s");
    assert(unit_scale("s"@) == 1_000_000_000);
    assert(seconds % 60 * unit_scale("s"@) == seconds % 60 * 1_000_000_000);
    lemma_scaled_front(seconds % 60, nanos % 1_000_000_000, 9, "s"@);
    lemma_scaled_counts(input, seconds % 60, nanos % 1_000_000_000, 9, "s"@, before);
}

proof fn lemma_large_counts(nanos: nat)
    requires
        1_000_000_000 <= nanos <= i64::MAX,
    ensures
        total_of(span_text(nanos), span_text(nanos), 0, own_fractions(nanos)) == Ok::<
            nat,
            Seq<char>,
        >(nanos),
        span_text(nanos).len() >= 2,
        text::is_digit(span_text(nanos)[0]),
{
    let seconds = nanos / 1_000_000_000;
    lemma_parts(nanos);
    if seconds >= 3600 {
        lemma_counts_hours(nanos);
    } else if seconds >= 60 {
        lemma_counts_minutes(nanos);
    } else {
        let input = span_text(nanos);
        let last = scaled_of(seconds % 60, nanos % 1_000_000_000, 9) + "s"@;
        assert(input =~= last);
        lemma_last_counts(input, nanos, 0);
    }
}

proof fn lemma_counts_minutes(nanos: nat)
    requires
        60_000_000_000 <= nanos < 3_600_000_000_000,
    ensures
        total_of(span_text(nanos), span_text(nanos), 0, own_fractions(nanos)) == Ok::<
            nat,
            Seq<char>,
        >(nanos),
        span_text(nanos).len() >= 2,
        text::is_digit(span_text(nanos)[0]),
{
    let input = span_text(nanos);
    let seconds = nanos / 1_000_000_000;
    let minutes = seconds / 60 % 60;
    let last = scaled_of(seconds % 60, nanos % 1_000_000_000, 9) + "s"@;
    lemma_parts(nanos);
    lemma_last_counts(input, nanos, minutes * 60_000_000_000);
    assert(input =~= text::decimal_of(minutes) + "m"@ + last);
    lemma_minutes(input, minutes, last, 0, own_fractions(nanos));
    text::lemma_decimal(minutes);
    assert(text::is_digit(text::decimal_of(minutes)[0]));
}

proof fn lemma_counts_hours(nanos: nat)
    requires
        3_600_000_000_000 <= nanos <= i64::MAX,
    ensures
        total_of(span_text(nanos), span_text(nanos), 0, own_fractions(nanos)) == Ok::<
            nat,
            Seq<char>,
        >(nanos),
        span_text(nanos).len() >= 2,
        text::is_digit(span_text(nanos)[0]),
{
    let input = span_text(nanos);
    let seconds = nanos / 1_000_000_000;
    let hours = seconds / 3600;
    let minutes = seconds / 60 % 60;
    let last = scaled_of(seconds % 60, nanos % 1_000_000_000, 9) + "s"@;
    let behind = text::decimal_of(minutes) + "m"@ + last;
    lemma_parts(nanos);
    lemma_last_counts(
        input,
        nanos,
        hours * 3_600_000_000_000 + minutes * 60_000_000_000,
    );
    assert(input =~= text::decimal_of(hours) + ("h"@ + behind));
    lemma_hours(input, hours, behind, own_fractions(nanos));
    lemma_minutes(input, minutes, last, hours * 3_600_000_000_000, own_fractions(nanos));
    text::lemma_decimal(hours);
    assert(text::is_digit(text::decimal_of(hours)[0]));
}

proof fn lemma_hours(input: Seq<char>, hours: nat, behind: Seq<char>, fractions: Seq<u64>)
    requires
        hours * 3_600_000_000_000 <= i64::MAX,
    ensures
        total_of(input, text::decimal_of(hours) + ("h"@ + behind), 0, fractions) == total_of(
            input,
            behind,
            hours * 3_600_000_000_000,
            fractions,
        ),
{
    reveal_strlit("h");
    let tail = "h"@ + behind;
    text::lemma_decimal(hours);
    lemma_digits_front(text::decimal_of(hours), tail);
    let value = text::decimal_of(hours) + tail;
    assert(piece_of(value) =~= (Piece {
        whole: text::decimal_of(hours),
        fraction: Seq::empty(),
        rest: tail,
    }));
    assert(tail.skip(1) =~= behind);
    assert(unit_of(tail) == Some((1nat, 3_600_000_000_000nat)));
}

proof fn lemma_minutes(
    input: Seq<char>,
    minutes: nat,
    behind: Seq<char>,
    total: nat,
    fractions: Seq<u64>,
)
    requires
        total + minutes * 60_000_000_000 <= i64::MAX,
        behind.len() > 0,
        text::is_digit(behind[0]),
    ensures
        total_of(input, text::decimal_of(minutes) + "m"@ + behind, total, fractions) == total_of(
            input,
            behind,
            total + minutes * 60_000_000_000,
            fractions,
        ),
{
    reveal_strlit("m");
    let tail = "m"@ + behind;
    text::lemma_decimal(minutes);
    lemma_digits_front(text::decimal_of(minutes), tail);
    let value = text::decimal_of(minutes) + "m"@ + behind;
    assert(value =~= text::decimal_of(minutes) + tail);
    assert(piece_of(value) =~= (Piece {
        whole: text::decimal_of(minutes),
        fraction: Seq::empty(),
        rest: tail,
    }));
    assert(tail.skip(1) =~= behind);
    assert(unit_of(tail) == Some((1nat, 60_000_000_000nat)));
}

/// The units of a duration, and what they are in nanoseconds.
pub proof fn lemma_units(rest: Seq<char>)
    ensures
        unit_of(seq!['n', 's'] + rest) == Some((2nat, 1nat)),
        unit_of(seq!['u', 's'] + rest) == Some((2nat, 1_000nat)),
        unit_of(seq!['m', 's'] + rest) == Some((2nat, 1_000_000nat)),
        unit_of(seq!['s'] + rest) == Some((1nat, 1_000_000_000nat)),
        rest.len() == 0 || rest[0] != 's' ==> unit_of(seq!['m'] + rest) == Some((1nat, 60_000_000_000nat)),
        unit_of(seq!['h'] + rest) == Some((1nat, 3_600_000_000_000nat)),
        rest.len() == 0 || (rest[0] != 'n' && rest[0] != 'u' && rest[0] != '\u{b5}' && rest[0] != '\u{3bc}'
            && rest[0] != 'm' && rest[0] != 's' && rest[0] != 'h') ==> unit_of(rest) is None,
{
}

/// A duration is none below zero and none that is empty; zero needs no unit.
pub proof fn lemma_duration_bounds(input: Seq<char>, fractions: Seq<u64>)
    ensures
        span_of(seq!['0'], fractions) == Ok::<nat, Seq<char>>(0),
        input.len() == 0 ==> span_of(input, fractions) is Err,
        input == seq!['-'] || input == seq!['+'] ==> span_of(input, fractions) is Err,
        span_of(input, fractions) matches Ok(nanos) ==> nanos <= i64::MAX,
        input.len() > 0 && input[0] == '-' && span_of(input, fractions) is Ok ==> span_of(
            input,
            fractions,
        )->Ok_0 == 0,
{
    let zero = seq!['0'];
    assert(unsigned_part(zero) == zero);
    assert(seq!['-'].skip(1) =~= Seq::<char>::empty());
    assert(seq!['+'].skip(1) =~= Seq::<char>::empty());
    lemma_total_bounded(input, unsigned_part(input), 0, fractions);
}

proof fn lemma_total_bounded(input: Seq<char>, value: Seq<char>, total: nat, fractions: Seq<u64>)
    requires
        total <= i64::MAX,
    ensures
        total_of(input, value, total, fractions) matches Ok(sum) ==> total <= sum <= i64::MAX,
    decreases value.len(),
{
    if value.len() > 0 {
        lemma_piece_shrinks(value);
        let piece = piece_of(value);
        match unit_of(piece.rest) {
            Some((length, scale)) => {
                let whole = text::digits_value(piece.whole);
                let part = if piece.fraction.len() > 0 && fractions.len() > 0 {
                    fractions[0] as nat
                } else {
                    0
                };
                let nanos = whole * scale + part;
                assert(whole * scale >= 0) by (nonlinear_arith)
                    requires
                        whole >= 0,
                        scale >= 0,
                ;
                if total + nanos <= i64::MAX {
                    lemma_total_bounded(
                        input,
                        piece.rest.skip(length as int),
                        total + nanos,
                        if piece.fraction.len() > 0 && fractions.len() > 0 {
                            fractions.skip(1)
                        } else {
                            fractions
                        },
                    );
                }
            },
            None => {},
        }
    }
}

/// A duration is made of numbers with units, one after the other; each adds its own.
pub proof fn lemma_span_read(input: Seq<char>, value: Seq<char>, total: nat, fractions: Seq<u64>, length: nat, scale: nat)
    requires
        value.len() > 0,
    ensures
        ({
            let piece = piece_of(value);
            let whole = text::digits_value(piece.whole);
            &&& piece.whole.len() == 0 && piece.fraction.len() == 0 && whole <= u64::MAX ==> total_of(
                input,
                value,
                total,
                fractions,
            ) is Err
            &&& unit_of(piece.rest) is None ==> total_of(input, value, total, fractions) is Err
            &&& whole > u64::MAX ==> total_of(input, value, total, fractions) is Err
            &&& whole <= u64::MAX && piece.whole.len() > 0 && piece.fraction.len() == 0 && unit_of(piece.rest)
                == Some((length, scale)) && total + whole * scale > i64::MAX ==> total_of(
                input,
                value,
                total,
                fractions,
            ) is Err
            &&& whole <= u64::MAX && piece.whole.len() > 0 && piece.fraction.len() == 0 && unit_of(piece.rest)
                == Some((length, scale)) && total + whole * scale <= i64::MAX ==> total_of(
                input,
                value,
                total,
                fractions,
            ) == total_of(input, piece.rest.skip(length as int), total + whole * scale, fractions)
        }),
        total_of(input, Seq::empty(), total, fractions) == Ok::<nat, Seq<char>>(total),
{
}

/// A lone zero is a duration; nothing is none, and none is negative.
pub proof fn lemma_span_signs(input: Seq<char>, fractions: Seq<u64>)
    ensures
        span_of(seq!['0'], fractions) == Ok::<nat, Seq<char>>(0),
        span_of(seq!['-', '0'], fractions) == Ok::<nat, Seq<char>>(0),
        span_of(Seq::empty(), fractions) is Err,
        input.len() > 0 && input[0] == '-' ==> (span_of(input, fractions) matches Ok(total) ==> total == 0),
{
    assert(unsigned_part(seq!['0']) =~= seq!['0']);
    assert(unsigned_part(seq!['-', '0']) =~= seq!['0']);
}

/// How a duration is written.
pub proof fn lemma_span_written(nanos: nat)
    ensures
        nanos == 0 ==> span_text(nanos) == "0s"@,
        0 < nanos < 1_000 ==> span_text(nanos) == text::decimal_of(nanos) + "ns"@,
        1_000 <= nanos < 1_000_000 ==> span_text(nanos) == scaled_of(nanos / 1_000, nanos % 1_000, 3) + "\u{b5}s"@,
        1_000_000 <= nanos < 1_000_000_000 ==> span_text(nanos) == scaled_of(
            nanos / 1_000_000,
            nanos % 1_000_000,
            6,
        ) + "ms"@,
        1_000_000_000 <= nanos < 60_000_000_000 ==> span_text(nanos) == scaled_of(
            nanos / 1_000_000_000,
            nanos % 1_000_000_000,
            9,
        ) + "s"@,
        scaled_of(nanos, 0, 9) == text::decimal_of(nanos),
        nanos > 0 ==> scaled_of(0, nanos, 9) == text::decimal_of(0) + "."@ + text::trim_end_char_of(
            padded_of(nanos, 9),
            '0',
        ),
{
    if 1_000_000_000 <= nanos < 60_000_000_000 {
        let seconds = nanos / 1_000_000_000;
        assert(seconds < 60);
        let tail = scaled_of(seconds % 60, nanos % 1_000_000_000, 9) + "s"@;
        assert(Seq::<char>::empty() + Seq::<char>::empty() + tail =~= tail);
    }
}

} // verus!
