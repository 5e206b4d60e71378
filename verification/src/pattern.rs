//! Regular expressions and media types, by their text.

use vstd::prelude::*;
use crate::net::error::lossy_text;
use crate::{address, text};

verus! {

/// Whether `regex` compiles the expression.
pub uninterp spec fn regex_valid(pattern: Seq<char>) -> bool;

/// Whether `regex` finds the expression in the value; false where it does not compile.
pub uninterp spec fn regex_found(pattern: Seq<char>, value: Seq<char>) -> bool;

/// Compiles an expression: whether `regex::Regex::new` accepts it, which depends on its text alone.
#[verifier::external_body]
pub(crate) fn compiles(pattern: &str) -> (result: bool)
    ensures
        result == regex_valid(pattern@),
{
    regex::Regex::new(pattern).is_ok()
}

/// Searches a value: `regex::Regex::is_match` of the compiled expression, which depends on the two
/// texts alone.
#[verifier::external_body]
pub(crate) fn found(pattern: &str, value: &str) -> (result: bool)
    ensures
        result == regex_found(pattern@, value@),
{
    regex::Regex::new(pattern).is_ok_and(|regex| regex.is_match(value))
}

/// The texts in which `regex` finds the expression, from left to right; none where it does not compile.
pub uninterp spec fn regex_matches(pattern: Seq<char>, value: Seq<char>) -> Seq<Seq<char>>;

/// The texts between those in which `regex` finds the expression.
pub uninterp spec fn regex_gaps(pattern: Seq<char>, value: Seq<char>) -> Seq<Seq<char>>;

/// The texts in which an expression is found: `regex::Regex::find_iter`, which depends on the two
/// texts alone.
#[verifier::external_body]
pub(crate) fn matches_in(pattern: &str, value: &str) -> (result: Vec<String>)
    ensures
        text::views(result@) == regex_matches(pattern@, value@),
{
    let regex = regex::Regex::new(pattern).ok();
    regex.iter().flat_map(|regex| regex.find_iter(value)).map(|found| found.as_str().to_owned()).collect()
}

/// Puts texts into the gaps between others.
pub open spec fn woven(gaps: Seq<Seq<char>>, inner: Seq<Seq<char>>) -> Seq<char>
    decreases inner.len(),
{
    if inner.len() == 0 || gaps.len() == 0 {
        gaps.last()
    } else {
        woven(gaps.drop_last(), inner.drop_last()) + inner.last() + gaps.last()
    }
}

/// Whether the gaps and the texts in which an expression is found make up a value.
pub open spec fn make_up(gaps: Seq<Seq<char>>, found: Seq<Seq<char>>, value: Seq<char>) -> bool {
    gaps.len() == found.len() + 1 && woven(gaps, found) == value
}

/// The texts between those in which an expression is found: `regex::Regex::split`, which depends on
/// the two texts alone. There is one more of them than there are matches, and they and the matches
/// make up the value. Where the expression does not compile, the value is the only one.
#[verifier::external_body]
pub(crate) fn gaps_in(pattern: &str, value: &str) -> (result: Vec<String>)
    ensures
        text::views(result@) == regex_gaps(pattern@, value@),
        make_up(text::views(result@), regex_matches(pattern@, value@), value@),
{
    match regex::Regex::new(pattern) {
        Ok(regex) => regex.split(value).map(str::to_owned).collect(),
        Err(_) => vec![value.to_owned()],
    }
}

/// The groups of the first text in which `regex` finds the expression; nothing where it finds none.
pub uninterp spec fn regex_groups(pattern: Seq<char>, value: Seq<char>) -> Option<
    Seq<Option<Seq<char>>>,
>;

/// The contents of groups.
pub open spec fn group_views(groups: Option<Vec<Option<String>>>) -> Option<Seq<Option<Seq<char>>>> {
    match groups {
        Some(groups) => Some(groups@.map_values(|group: Option<String>| text::view_of(group))),
        None => None,
    }
}

/// The groups of the first text in which an expression is found: `regex::Regex::captures` but for the
/// whole text, which depends on the two texts alone.
#[verifier::external_body]
pub(crate) fn groups_in(pattern: &str, value: &str) -> (result: Option<Vec<Option<String>>>)
    ensures
        group_views(result) == regex_groups(pattern@, value@),
{
    let captures = regex::Regex::new(pattern).ok()?.captures(value)?;
    Some(captures.iter().skip(1).map(|group| group.map(|found| found.as_str().to_owned())).collect())
}

/// The type and the subtype that `mime` reads in a text.
pub uninterp spec fn mime_essence(value: Seq<char>) -> Option<Seq<char>>;

/// Reads the type and the subtype of a media type: `mime::Mime::essence_str`, which depends on the text
/// alone.
#[verifier::external_body]
pub(crate) fn essence(value: &str) -> (result: Option<String>)
    ensures
        text::view_of(result) == mime_essence(value@),
{
    value.parse::<mime::Mime>().ok().map(|parsed| parsed.essence_str().to_owned())
}

/// A media type: as it is written in full, and whether it has parameters.
pub struct MediaType {
    pub text: String,
    pub parameters: bool,
}

/// What `mime` reads in a text: the media type as it writes it, and whether it has parameters.
pub uninterp spec fn media_type_of(value: Seq<char>) -> Option<(Seq<char>, bool)>;

/// Reads a media type: `str::parse` into `mime::Mime`, its `Display` and whether `params` gives any,
/// all of which depend on the text alone.
#[verifier::external_body]
pub(crate) fn media_type(value: &str) -> (result: Option<MediaType>)
    ensures
        match result {
            Some(inner) => media_type_of(value@) == Some((inner.text@, inner.parameters)),
            None => media_type_of(value@) is None,
        },
{
    let parsed = value.parse::<mime::Mime>().ok()?;
    Some(MediaType { text: parsed.to_string(), parameters: parsed.params().next().is_some() })
}

/// A character that stays as it is in an encoded query.
pub open spec fn is_unreserved(byte: u8) -> bool {
    ||| 48 <= byte <= 57
    ||| 65 <= byte <= 90
    ||| 97 <= byte <= 122
    ||| byte == 45
    ||| byte == 46
    ||| byte == 95
    ||| byte == 126
}

/// The capital hexadecimal digit with the given value.
pub open spec fn upper_hex_digit(value: int) -> char {
    if value < 10 {
        (48 + value) as char
    } else {
        (55 + value) as char
    }
}

/// Each byte of a query as it is where it is unreserved, a space as a plus sign, and every other byte
/// as a percent sign and two digits.
pub open spec fn form_of(value: Seq<u8>) -> Seq<char>
    decreases value.len(),
{
    if value.len() == 0 {
        Seq::empty()
    } else {
        let last = value.last();
        let front = form_of(value.drop_last());
        if is_unreserved(last) {
            front.push(last as char)
        } else if last == 32 {
            front.push('+')
        } else {
            front.push('%').push(upper_hex_digit(last as int / 16)).push(
                upper_hex_digit(last as int % 16),
            )
        }
    }
}

/// A character of an encoded query.
pub open spec fn is_form_char(ch: char) -> bool {
    text::is_alnum(ch) || ch == '-' || ch == '.' || ch == '_' || ch == '~' || ch == '%' || ch == '+'
}

/// An encoded query holds none but such characters.
pub proof fn lemma_form_chars(value: Seq<u8>)
    ensures
        text::every(form_of(value), |ch: char| is_form_char(ch)),
    decreases value.len(),
{
    if value.len() > 0 {
        lemma_form_chars(value.drop_last());
        let front = form_of(value.drop_last());
        let all = form_of(value);
        let test = |ch: char| is_form_char(ch);
        let last = value.last();
        assert(text::every(front, test));
        assert forall|i: int| 0 <= i < all.len() implies test(#[trigger] all[i]) by {
            if i < front.len() {
                assert(test(front[i]));
            }
        }
    }
}

/// The encoded form of one byte: `percent_encoding::percent_encode_byte`, a percent sign and two
/// capital hexadecimal digits.
#[verifier::external_body]
fn encoded_byte(byte: u8) -> (result: &'static str)
    ensures
        result@ == seq![
            '%',
            upper_hex_digit(byte as int / 16),
            upper_hex_digit(byte as int % 16),
        ],
{
    percent_encoding::percent_encode_byte(byte)
}

/// Encodes a value for a query: letters, digits, `-`, `.`, `_` and `~` stay, a space becomes a plus
/// sign, and every other byte of the UTF-8 form a percent sign and two capital hexadecimal digits.
pub fn form_encoded(value: &str) -> (result: String)
    ensures
        result@ == form_of(vstd::utf8::encode_utf8(value@)),
{
    let bytes = text::bytes(value);
    let mut result = String::new();
    let mut index: usize = 0;
    assert(result@ == form_of(bytes@.take(0)));
    while index < bytes.len()
        invariant
            index <= bytes.len(),
            result@ == form_of(bytes@.take(index as int)),
        decreases bytes.len() - index,
    {
        let byte: u8 = bytes[index];
        let ghost front = form_of(bytes@.take(index as int));
        proof {
            assert(bytes@.take(index + 1).drop_last() == bytes@.take(index as int));
            assert(bytes@.take(index + 1).last() == byte);
        }
        if (48 <= byte && byte <= 57) || (65 <= byte && byte <= 90) || (97 <= byte && byte <= 122)
            || byte == 45 || byte == 46 || byte == 95 || byte == 126 {
            result.push(byte as char);
        } else if byte == 32 {
            result.push('+');
        } else {
            result.append(encoded_byte(byte));
            assert(result@ == front.push('%').push(upper_hex_digit(byte as int / 16)).push(
                upper_hex_digit(byte as int % 16),
            ));
        }
        index = index + 1;
    }
    assert(bytes@.take(bytes@.len() as int) == bytes@);
    result
}

/// Whether a character has a meaning of its own in an expression.
pub open spec fn is_meta(ch: char) -> bool {
    ||| ch == '\\'
    ||| ch == '.'
    ||| ch == '+'
    ||| ch == '*'
    ||| ch == '?'
    ||| ch == '('
    ||| ch == ')'
    ||| ch == '|'
    ||| ch == '['
    ||| ch == ']'
    ||| ch == '{'
    ||| ch == '}'
    ||| ch == '^'
    ||| ch == '$'
    ||| ch == '#'
    ||| ch == '&'
    ||| ch == '-'
    ||| ch == '~'
}

/// The expression for a text taken literally: a backslash stands in front of each character that has a
/// meaning of its own.
pub open spec fn regex_escaped(value: Seq<char>) -> Seq<char>
    decreases value.len(),
{
    if value.len() == 0 {
        Seq::empty()
    } else if is_meta(value.last()) {
        regex_escaped(value.drop_last()).push('\\').push(value.last())
    } else {
        regex_escaped(value.drop_last()).push(value.last())
    }
}

/// Writes an expression for a literal text: `regex::escape` puts a backslash in front of each character
/// that has a meaning of its own.
#[verifier::external_body]
pub(crate) fn escaped(value: &str) -> (result: String)
    ensures
        result@ == regex_escaped(value@),
{
    regex::escape(value)
}

/// The value of a hexadecimal digit.
pub open spec fn hex_value(byte: u8) -> Option<int> {
    if 48 <= byte <= 57 {
        Some(byte - 48)
    } else if 65 <= byte <= 70 {
        Some(byte - 55)
    } else if 97 <= byte <= 102 {
        Some(byte - 87)
    } else {
        None
    }
}

/// The bytes for which encoded ones stand: a percent sign and two hexadecimal digits stand for one, and
/// every other byte for itself.
pub open spec fn percent_bytes(value: Seq<u8>) -> Seq<u8>
    decreases value.len(),
{
    if value.len() == 0 {
        Seq::empty()
    } else if value[0] == 37 && value.len() > 2 && hex_value(value[1]) is Some && hex_value(value[2])
        is Some {
        seq![(hex_value(value[1])->0 * 16 + hex_value(value[2])->0) as u8] + percent_bytes(
            value.skip(3),
        )
    } else {
        seq![value[0]] + percent_bytes(value.skip(1))
    }
}

/// The reason that is given where decoded bytes are no UTF-8.
pub uninterp spec fn percent_fault(value: Seq<char>) -> Seq<char>;

/// The text for which an encoded one stands, or the reason where the bytes are no UTF-8.
pub open spec fn percent_decoded(value: Seq<char>) -> Result<Seq<char>, Seq<char>> {
    match text::utf8_text(percent_bytes(vstd::utf8::encode_utf8(value))) {
        Some(inner) => Ok(inner),
        None => Err(percent_fault(value)),
    }
}

/// Decodes a text: `percent_encoding::percent_decode_str` decodes the bytes, and `decode_utf8` reads them
/// as UTF-8. The reason is the text of the error, which depends on the text alone.
#[verifier::external_body]
pub(crate) fn percent_decode(value: &str) -> (result: Result<String, String>)
    ensures
        address::written_as(result) == percent_decoded(value@),
        result matches Err(reason) ==> reason@ == percent_fault(value@),
{
    let decoded = percent_encoding::percent_decode_str(value).decode_utf8();
    decoded.map(String::from).map_err(|error| error.to_string())
}

/// The text for which an encoded one stands, where bytes that are no UTF-8 are replaced.
pub open spec fn percent_lossy(value: Seq<char>) -> Seq<char> {
    lossy_text(percent_bytes(vstd::utf8::encode_utf8(value)))
}

/// Decodes a text: `percent_encoding::percent_decode_str` decodes the bytes, and `decode_utf8_lossy` reads
/// them as `String::from_utf8_lossy` does.
#[verifier::external_body]
pub(crate) fn percent_decode_lossy(value: &str) -> (result: String)
    ensures
        result@ == percent_lossy(value@),
{
    percent_encoding::percent_decode_str(value).decode_utf8_lossy().into_owned()
}

/// The pairs that `url` reads in a query.
pub uninterp spec fn query_pairs(value: Seq<char>) -> Seq<(Seq<char>, Seq<char>)>;

/// Reads the pairs of a query: `url::form_urlencoded::parse`, which depends on the text alone.
#[verifier::external_body]
pub(crate) fn pairs_in(value: &str) -> (result: Vec<(String, String)>)
    ensures
        address::pair_views(result@) == query_pairs(value@),
{
    url::form_urlencoded::parse(value.as_bytes()).into_owned().collect()
}

/// A form keeps letters, digits and a few marks as they are, writes a space as a plus, and any other byte with a percent
/// sign and two digits.
pub proof fn lemma_form_written(value: Seq<u8>, byte: u8)
    ensures
        (48 <= byte <= 57) || (65 <= byte <= 90) || (97 <= byte <= 122) || byte == 45 || byte == 46 || byte
            == 95 || byte == 126 ==> form_of(value.push(byte)) == form_of(value).push(byte as char),
        form_of(value.push(32)) == form_of(value).push('+'),
        form_of(value.push(38)) == form_of(value) + seq!['%', '2', '6'],
        form_of(value.push(43)) == form_of(value) + seq!['%', '2', 'B'],
        form_of(value.push(47)) == form_of(value) + seq!['%', '2', 'F'],
        form_of(value.push(61)) == form_of(value) + seq!['%', '3', 'D'],
{
    assert(value.push(byte).drop_last() =~= value);
    assert(value.push(32).drop_last() =~= value);
    assert(value.push(38).drop_last() =~= value);
    assert(value.push(43).drop_last() =~= value);
    assert(value.push(47).drop_last() =~= value);
    assert(value.push(61).drop_last() =~= value);
    assert(form_of(value.push(38)) =~= form_of(value) + seq!['%', '2', '6']);
    assert(form_of(value.push(43)) =~= form_of(value) + seq!['%', '2', 'B']);
    assert(form_of(value.push(47)) =~= form_of(value) + seq!['%', '2', 'F']);
    assert(form_of(value.push(61)) =~= form_of(value) + seq!['%', '3', 'D']);
}

/// A percent sign with two digits stands for its byte, and any other byte for itself.
pub proof fn lemma_percent_read(rest: Seq<u8>, byte: u8)
    ensures
        percent_bytes(seq![37u8, 50u8, 70u8] + rest) == seq![47u8] + percent_bytes(rest),
        percent_bytes(seq![37u8, 50u8, 102u8] + rest) == seq![47u8] + percent_bytes(rest),
        percent_bytes(seq![37u8, 50u8, 69u8] + rest) == seq![46u8] + percent_bytes(rest),
        byte != 37 ==> percent_bytes(seq![byte] + rest) == seq![byte] + percent_bytes(rest),
        percent_bytes(Seq::empty()).len() == 0,
{
    let upper = seq![37u8, 50u8, 70u8] + rest;
    let lower = seq![37u8, 50u8, 102u8] + rest;
    let dot = seq![37u8, 50u8, 69u8] + rest;
    assert(upper.skip(3) =~= rest);
    assert(lower.skip(3) =~= rest);
    assert(dot.skip(3) =~= rest);
    assert((seq![byte] + rest).skip(1) =~= rest);
}

} // verus!
