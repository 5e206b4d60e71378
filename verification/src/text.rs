//! Strings as sequences of characters: trimming, splitting, searching, ordering and numbers.
//!
//! Every function is stated over `Seq<char>`, the view that Verus gives to `str` and `String`.

use vstd::prelude::*;

verus! {

/// `String::push` appends one character, as its documentation says.
pub assume_specification[ String::push ](string: &mut String, ch: char)
    ensures
        final(string)@ == old(string)@.push(ch),
;

/// `String::is_empty` tells whether there is no character, as its documentation says.
pub assume_specification[ String::is_empty ](string: &String) -> (result: bool)
    ensures
        result == (string@.len() == 0),
;

/// The text that the formatter of `{:?}` gives for a string.
pub uninterp spec fn debug_text(value: Seq<char>) -> Seq<char>;

/// Formats a string as `{:?}` does: `std::format` with the `Debug` form of `str`, which depends on
/// the string alone. Which characters are escaped is left to std.
#[verifier::external_body]
pub(crate) fn quoted(value: &str) -> (result: String)
    ensures
        result@ == debug_text(value@),
{
    format!("{value:?}")
}

/// The views of a sequence of strings.
pub open spec fn views(items: Seq<String>) -> Seq<Seq<char>> {
    items.map_values(|item: String| item@)
}

/// The characters of a string.
pub fn chars(value: &str) -> (result: Vec<char>)
    ensures
        result@ == value@,
{
    let mut result: Vec<char> = Vec::new();
    for ch in iter: value.chars()
        invariant
            iter.seq() == value@,
            result@ == value@.take(iter.index() as int),
    {
        proof {
            assert(value@.take(iter.index() + 1) == value@.take(iter.index() as int).push(ch));
        }
        result.push(ch);
    }
    assert(value@.take(value@.len() as int) == value@);
    result
}

/// The string made of the characters from `from` up to `to`.
pub fn piece(value: &Vec<char>, from: usize, to: usize) -> (result: String)
    requires
        from <= to <= value.len(),
    ensures
        result@ == value@.subrange(from as int, to as int),
{
    let mut result = String::new();
    let mut index: usize = from;
    assert(result@ == value@.subrange(from as int, from as int));
    while index < to
        invariant
            from <= index <= to <= value.len(),
            result@ == value@.subrange(from as int, index as int),
        decreases to - index,
    {
        proof {
            assert(value@.subrange(from as int, index + 1) == value@.subrange(
                from as int,
                index as int,
            ).push(value@[index as int]));
        }
        result.push(value[index]);
        index = index + 1;
    }
    result
}

/// The string made of the given characters.
pub fn text(value: &Vec<char>) -> (result: String)
    ensures
        result@ == value@,
{
    assert(value@.subrange(0, value@.len() as int) == value@);
    piece(value, 0, value.len())
}

/// Whether two strings have the same characters.
pub fn same(left: &str, right: &str) -> (result: bool)
    ensures
        result == (left@ == right@),
{
    let left_chars = chars(left);
    let right_chars = chars(right);
    if left_chars.len() != right_chars.len() {
        return false;
    }
    let mut index: usize = 0;
    while index < left_chars.len()
        invariant
            left_chars@ == left@,
            right_chars@ == right@,
            left_chars.len() == right_chars.len(),
            index <= left_chars.len(),
            forall|i: int| 0 <= i < index ==> left@[i] == right@[i],
        decreases left_chars.len() - index,
    {
        if left_chars[index] != right_chars[index] {
            assert(left@[index as int] != right@[index as int]);
            return false;
        }
        index = index + 1;
    }
    assert(left@ =~= right@);
    true
}

/// Whether a list of strings holds one with the given characters.
pub open spec fn holds(items: Seq<String>, value: Seq<char>) -> bool {
    exists|i: int| 0 <= i < items.len() && #[trigger] items[i]@ == value
}

/// Whether the list holds the string.
pub fn contains_string(items: &Vec<String>, value: &str) -> (result: bool)
    ensures
        result == holds(items@, value@),
{
    let mut index: usize = 0;
    while index < items.len()
        invariant
            index <= items.len(),
            forall|i: int| 0 <= i < index ==> #[trigger] items@[i]@ != value@,
        decreases items.len() - index,
    {
        if same(&items[index], value) {
            assert(items@[index as int]@ == value@);
            return true;
        }
        index = index + 1;
    }
    false
}

/// Two strings in a row.
pub fn cat(first: &str, second: &str) -> (result: String)
    ensures
        result@ == first@ + second@,
{
    let mut result = first.to_owned();
    result.append(second);
    result
}

/// Three strings in a row.
pub fn cat3(first: &str, second: &str, third: &str) -> (result: String)
    ensures
        result@ == first@ + second@ + third@,
{
    let mut result = first.to_owned();
    result.append(second);
    result.append(third);
    result
}

/// Five strings in a row.
pub fn cat5(first: &str, second: &str, third: &str, fourth: &str, fifth: &str) -> (result: String)
    ensures
        result@ == first@ + second@ + third@ + fourth@ + fifth@,
{
    let mut result = first.to_owned();
    result.append(second);
    result.append(third);
    result.append(fourth);
    result.append(fifth);
    result
}

/// The characters with the Unicode property `White_Space`.
pub open spec fn is_space(ch: char) -> bool {
    ||| '\u{9}' <= ch <= '\u{d}'
    ||| ch == ' '
    ||| ch == '\u{85}'
    ||| ch == '\u{a0}'
    ||| ch == '\u{1680}'
    ||| '\u{2000}' <= ch <= '\u{200a}'
    ||| ch == '\u{2028}'
    ||| ch == '\u{2029}'
    ||| ch == '\u{202f}'
    ||| ch == '\u{205f}'
    ||| ch == '\u{3000}'
}

/// Whether the character is white space.
pub fn space(ch: char) -> (result: bool)
    ensures
        result == is_space(ch),
{
    ('\u{9}' <= ch && ch <= '\u{d}') || ch == ' ' || ch == '\u{85}' || ch == '\u{a0}' || ch
        == '\u{1680}' || ('\u{2000}' <= ch && ch <= '\u{200a}') || ch == '\u{2028}' || ch
        == '\u{2029}' || ch == '\u{202f}' || ch == '\u{205f}' || ch == '\u{3000}'
}

/// The sequence without the white space in front.
pub open spec fn trim_start_of(value: Seq<char>) -> Seq<char>
    decreases value.len(),
{
    if value.len() > 0 && is_space(value[0]) {
        trim_start_of(value.drop_first())
    } else {
        value
    }
}

/// The sequence without the white space at its end.
pub open spec fn trim_end_of(value: Seq<char>) -> Seq<char>
    decreases value.len(),
{
    if value.len() > 0 && is_space(value.last()) {
        trim_end_of(value.drop_last())
    } else {
        value
    }
}

/// The sequence without the white space at either end.
pub open spec fn trim_of(value: Seq<char>) -> Seq<char> {
    trim_end_of(trim_start_of(value))
}

/// The string without the white space at either end.
pub fn trim(value: &str) -> (result: String)
    ensures
        result@ == trim_of(value@),
{
    let all = chars(value);
    let mut from: usize = 0;
    assert(value@.subrange(0, value@.len() as int) == value@);
    while from < all.len() && space(all[from])
        invariant
            all@ == value@,
            from <= all.len(),
            trim_start_of(value@.subrange(from as int, value@.len() as int)) == trim_start_of(
                value@,
            ),
        decreases all.len() - from,
    {
        proof {
            let rest = value@.subrange(from as int, value@.len() as int);
            assert(rest[0] == value@[from as int]);
            assert(rest.drop_first() == value@.subrange(from + 1, value@.len() as int));
        }
        from = from + 1;
    }
    proof {
        let rest = value@.subrange(from as int, value@.len() as int);
        assert(rest.len() > 0 ==> rest[0] == value@[from as int]);
        assert(trim_start_of(value@) == rest);
    }
    let mut to: usize = all.len();
    while to > from && space(all[to - 1])
        invariant
            all@ == value@,
            from <= to <= all.len(),
            trim_start_of(value@) == value@.subrange(from as int, value@.len() as int),
            trim_end_of(value@.subrange(from as int, to as int)) == trim_end_of(
                trim_start_of(value@),
            ),
        decreases to,
    {
        proof {
            let rest = value@.subrange(from as int, to as int);
            assert(rest.last() == value@[to - 1]);
            assert(rest.drop_last() == value@.subrange(from as int, to - 1));
        }
        to = to - 1;
    }
    proof {
        let rest = value@.subrange(from as int, to as int);
        assert(rest.len() > 0 ==> rest.last() == value@[to - 1]);
    }
    piece(&all, from, to)
}

/// Trimming leaves no white space at either end.
pub proof fn lemma_trim_ends(value: Seq<char>)
    ensures
        trim_of(value).len() > 0 ==> !is_space(trim_of(value)[0]) && !is_space(
            trim_of(value).last(),
        ),
{
    lemma_trim_start_front(value);
    lemma_trim_end_front(trim_start_of(value));
}

proof fn lemma_trim_start_front(value: Seq<char>)
    ensures
        trim_start_of(value).len() > 0 ==> !is_space(trim_start_of(value)[0]),
    decreases value.len(),
{
    if value.len() > 0 && is_space(value[0]) {
        lemma_trim_start_front(value.drop_first());
    }
}

proof fn lemma_trim_end_front(value: Seq<char>)
    ensures
        trim_end_of(value).len() > 0 ==> !is_space(trim_end_of(value).last()) && trim_end_of(
            value,
        )[0] == value[0],
    decreases value.len(),
{
    if value.len() > 0 && is_space(value.last()) {
        lemma_trim_end_front(value.drop_last());
    }
}

/// Trimming a trimmed text changes nothing.
pub proof fn lemma_trim_again(value: Seq<char>)
    ensures
        trim_of(trim_of(value)) == trim_of(value),
{
    lemma_trim_ends(value);
}

/// A string without white space is its own trimmed form.
pub proof fn lemma_trim_solid(value: Seq<char>)
    requires
        forall|i: int| 0 <= i < value.len() ==> !is_space(#[trigger] value[i]),
    ensures
        trim_of(value) == value,
{
    if value.len() > 0 {
        assert(!is_space(value[0]));
        assert(!is_space(value.last()));
    }
}

/// The character with an ASCII capital made small.
pub open spec fn lower_of(ch: char) -> char {
    if 'A' <= ch <= 'Z' {
        ((ch as int) + 32) as char
    } else {
        ch
    }
}

/// The sequence with ASCII capitals made small.
pub open spec fn lowercase_of(value: Seq<char>) -> Seq<char> {
    value.map_values(|ch: char| lower_of(ch))
}

/// The character with an ASCII capital made small.
pub fn lower(ch: char) -> (result: char)
    ensures
        result == lower_of(ch),
{
    if 'A' <= ch && ch <= 'Z' {
        let code: u8 = ch as u8;
        (code + 32) as char
    } else {
        ch
    }
}

/// The capital for a small ASCII letter; any other character is left alone.
pub open spec fn upper_of(ch: char) -> char {
    if 'a' <= ch && ch <= 'z' {
        ((ch as u32) - 32) as char
    } else {
        ch
    }
}

/// The capital for a small ASCII letter; any other character is left alone.
pub fn upper(ch: char) -> (result: char)
    ensures
        result == upper_of(ch),
{
    if 'a' <= ch && ch <= 'z' {
        ((ch as u32 - 32) as u8) as char
    } else {
        ch
    }
}

/// The string with ASCII capitals made small.
pub fn lowercase(value: &str) -> (result: String)
    ensures
        result@ == lowercase_of(value@),
{
    let all = chars(value);
    let mut result = String::new();
    let mut index: usize = 0;
    while index < all.len()
        invariant
            all@ == value@,
            index <= all.len(),
            result@ == lowercase_of(value@.take(index as int)),
        decreases all.len() - index,
    {
        proof {
            assert(value@.take(index + 1) == value@.take(index as int).push(value@[index as int]));
            assert(lowercase_of(value@.take(index + 1)) == lowercase_of(
                value@.take(index as int),
            ).push(lower_of(value@[index as int])));
        }
        result.push(lower(all[index]));
        index = index + 1;
    }
    assert(value@.take(value@.len() as int) == value@);
    result
}

/// The text with each small ASCII letter made a capital.
pub open spec fn uppercase_of(value: Seq<char>) -> Seq<char> {
    value.map_values(|ch: char| upper_of(ch))
}

/// The text with each small ASCII letter made a capital.
pub fn uppercase(value: &str) -> (result: String)
    ensures
        result@ == uppercase_of(value@),
{
    let all = chars(value);
    let mut result = String::new();
    let mut index: usize = 0;
    assert(result@ =~= uppercase_of(value@).take(0));
    while index < all.len()
        invariant
            index <= all.len(),
            all@ == value@,
            result@ == uppercase_of(value@).take(index as int),
        decreases all.len() - index,
    {
        proof {
            assert(uppercase_of(value@).take(index + 1) == uppercase_of(value@).take(
                index as int,
            ).push(upper_of(value@[index as int])));
        }
        result.push(upper(all[index]));
        index = index + 1;
    }
    assert(uppercase_of(value@).take(value@.len() as int) == uppercase_of(value@));
    result
}

/// Whether two sequences are equal once ASCII capitals are made small.
pub open spec fn same_folded(left: Seq<char>, right: Seq<char>) -> bool {
    lowercase_of(left) == lowercase_of(right)
}

/// Whether two strings are equal once ASCII capitals are made small.
pub fn same_ignoring_case(left: &str, right: &str) -> (result: bool)
    ensures
        result == same_folded(left@, right@),
{
    same(&lowercase(left), &lowercase(right))
}

pub open spec fn is_digit(ch: char) -> bool {
    '0' <= ch <= '9'
}

pub open spec fn is_lower(ch: char) -> bool {
    'a' <= ch <= 'z'
}

pub open spec fn is_upper(ch: char) -> bool {
    'A' <= ch <= 'Z'
}

/// An ASCII letter.
pub open spec fn is_letter(ch: char) -> bool {
    is_lower(ch) || is_upper(ch)
}

/// An ASCII letter or digit.
pub open spec fn is_alnum(ch: char) -> bool {
    is_letter(ch) || is_digit(ch)
}

/// Whether the character is an ASCII digit.
pub fn digit(ch: char) -> (result: bool)
    ensures
        result == is_digit(ch),
{
    '0' <= ch && ch <= '9'
}

/// Whether the character is a small ASCII letter.
pub fn small(ch: char) -> (result: bool)
    ensures
        result == is_lower(ch),
{
    'a' <= ch && ch <= 'z'
}

/// Whether the character is an ASCII letter.
pub fn letter(ch: char) -> (result: bool)
    ensures
        result == is_letter(ch),
{
    ('a' <= ch && ch <= 'z') || ('A' <= ch && ch <= 'Z')
}

/// Whether the character is an ASCII letter or digit.
pub fn alnum(ch: char) -> (result: bool)
    ensures
        result == is_alnum(ch),
{
    letter(ch) || digit(ch)
}

/// Whether the string starts with the prefix.
pub fn starts_with(value: &str, prefix: &str) -> (result: bool)
    ensures
        result == prefix@.is_prefix_of(value@),
{
    let all = chars(value);
    let front = chars(prefix);
    if front.len() > all.len() {
        return false;
    }
    let mut index: usize = 0;
    while index < front.len()
        invariant
            all@ == value@,
            front@ == prefix@,
            front.len() <= all.len(),
            index <= front.len(),
            forall|i: int| 0 <= i < index ==> value@[i] == prefix@[i],
        decreases front.len() - index,
    {
        if all[index] != front[index] {
            assert(value@.subrange(0, prefix@.len() as int)[index as int] != prefix@[index as int]);
            return false;
        }
        index = index + 1;
    }
    assert(value@.subrange(0, prefix@.len() as int) =~= prefix@);
    true
}

/// Whether the string ends with the suffix.
pub fn ends_with(value: &str, suffix: &str) -> (result: bool)
    ensures
        result == suffix@.is_suffix_of(value@),
{
    let all = chars(value);
    let back = chars(suffix);
    if back.len() > all.len() {
        return false;
    }
    let start: usize = all.len() - back.len();
    let mut index: usize = 0;
    while index < back.len()
        invariant
            all@ == value@,
            back@ == suffix@,
            start + back.len() == all.len(),
            index <= back.len(),
            forall|i: int| 0 <= i < index ==> value@[start + i] == suffix@[i],
        decreases back.len() - index,
    {
        if all[start + index] != back[index] {
            assert(value@.subrange(start as int, value@.len() as int)[index as int]
                != suffix@[index as int]);
            return false;
        }
        index = index + 1;
    }
    assert(value@.subrange(start as int, value@.len() as int) =~= suffix@);
    true
}

/// What follows the prefix, where the string starts with it.
pub open spec fn after_prefix(value: Seq<char>, prefix: Seq<char>) -> Option<Seq<char>> {
    if prefix.is_prefix_of(value) {
        Some(value.skip(prefix.len() as int))
    } else {
        None
    }
}

/// What comes before the suffix, where the string ends with it.
pub open spec fn before_suffix(value: Seq<char>, suffix: Seq<char>) -> Option<Seq<char>> {
    if suffix.is_suffix_of(value) {
        Some(value.take(value.len() - suffix.len()))
    } else {
        None
    }
}

/// The view of an optional string.
pub open spec fn view_of(value: Option<String>) -> Option<Seq<char>> {
    match value {
        Some(inner) => Some(inner@),
        None => None,
    }
}

/// What follows the prefix, where the string starts with it.
pub fn strip_prefix(value: &str, prefix: &str) -> (result: Option<String>)
    ensures
        view_of(result) == after_prefix(value@, prefix@),
{
    if starts_with(value, prefix) {
        let all = chars(value);
        let count: usize = chars(prefix).len();
        assert(value@.skip(prefix@.len() as int) == value@.subrange(
            prefix@.len() as int,
            value@.len() as int,
        ));
        Some(piece(&all, count, all.len()))
    } else {
        None
    }
}

/// What comes before the suffix, where the string ends with it.
pub fn strip_suffix(value: &str, suffix: &str) -> (result: Option<String>)
    ensures
        view_of(result) == before_suffix(value@, suffix@),
{
    if ends_with(value, suffix) {
        let all = chars(value);
        let count: usize = chars(suffix).len();
        assert(value@.take(value@.len() - suffix@.len()) == value@.subrange(
            0,
            value@.len() - suffix@.len(),
        ));
        Some(piece(&all, 0, all.len() - count))
    } else {
        None
    }
}

/// The index of the first occurrence of the character, or the length where there is none.
pub open spec fn index_in(value: Seq<char>, ch: char) -> int
    decreases value.len(),
{
    if value.len() == 0 || value[0] == ch {
        0
    } else {
        1 + index_in(value.drop_first(), ch)
    }
}

/// The index of the first occurrence is the least index of the character.
pub proof fn lemma_index_in(value: Seq<char>, ch: char)
    ensures
        0 <= index_in(value, ch) <= value.len(),
        index_in(value, ch) < value.len() ==> value[index_in(value, ch)] == ch,
        forall|i: int| 0 <= i < index_in(value, ch) ==> value[i] != ch,
    decreases value.len(),
{
    if value.len() > 0 && value[0] != ch {
        let rest = value.drop_first();
        lemma_index_in(rest, ch);
        assert forall|i: int| 0 <= i < index_in(value, ch) implies value[i] != ch by {
            if i > 0 {
                assert(rest[i - 1] == value[i]);
            }
        }
    }
}

/// The least index of the character is the index of its first occurrence.
pub proof fn lemma_index_is(value: Seq<char>, ch: char, at: int)
    requires
        0 <= at <= value.len(),
        at < value.len() ==> value[at] == ch,
        forall|i: int| 0 <= i < at ==> value[i] != ch,
    ensures
        index_in(value, ch) == at,
{
    lemma_index_in(value, ch);
    let found = index_in(value, ch);
    if found < at {
        assert(value[found] == ch);
    }
}

/// The index of the first occurrence of the character from `from` on, or the length.
pub fn index_from(value: &Vec<char>, from: usize, ch: char) -> (result: usize)
    requires
        from <= value.len(),
    ensures
        from <= result <= value.len(),
        result == from + index_in(value@.skip(from as int), ch),
{
    let mut index: usize = from;
    while index < value.len() && value[index] != ch
        invariant
            from <= index <= value.len(),
            forall|i: int| from <= i < index ==> value@[i] != ch,
        decreases value.len() - index,
    {
        index = index + 1;
    }
    proof {
        let rest = value@.skip(from as int);
        assert(forall|i: int| 0 <= i < rest.len() ==> rest[i] == value@[from + i]);
        lemma_index_is(rest, ch, index - from);
    }
    index
}

/// Whether the character occurs in the string.
pub fn contains_char(value: &str, ch: char) -> (result: bool)
    ensures
        result == value@.contains(ch),
{
    let all = chars(value);
    assert(value@.skip(0) == value@);
    let at: usize = index_from(&all, 0, ch);
    proof {
        lemma_index_in(value@, ch);
    }
    if at < all.len() {
        assert(value@[at as int] == ch);
        true
    } else {
        false
    }
}

/// The parts before and after the first occurrence of the character.
pub open spec fn split_once_of(value: Seq<char>, ch: char) -> Option<(Seq<char>, Seq<char>)> {
    let at = index_in(value, ch);
    if at < value.len() {
        Some((value.take(at), value.skip(at + 1)))
    } else {
        None
    }
}

/// The view of an optional string slice.
pub open spec fn str_view(value: Option<&str>) -> Option<Seq<char>> {
    match value {
        Some(inner) => Some(inner@),
        None => None,
    }
}

/// The view of an optional pair of strings.
pub open spec fn pair_of(value: Option<(String, String)>) -> Option<(Seq<char>, Seq<char>)> {
    match value {
        Some((left, right)) => Some((left@, right@)),
        None => None,
    }
}

/// The parts before and after the first occurrence of the character.
pub fn split_once(value: &str, ch: char) -> (result: Option<(String, String)>)
    ensures
        pair_of(result) == split_once_of(value@, ch),
{
    let all = chars(value);
    assert(value@.skip(0) == value@);
    let at: usize = index_from(&all, 0, ch);
    if at < all.len() {
        assert(value@.take(at as int) == value@.subrange(0, at as int));
        assert(value@.skip(at + 1) == value@.subrange(at + 1, value@.len() as int));
        Some((piece(&all, 0, at), piece(&all, at + 1, all.len())))
    } else {
        None
    }
}

/// The index of the last occurrence of the character, or -1.
pub open spec fn last_index_in(value: Seq<char>, ch: char) -> int
    decreases value.len(),
{
    if value.len() == 0 {
        -1
    } else if value.last() == ch {
        value.len() - 1
    } else {
        last_index_in(value.drop_last(), ch)
    }
}

/// The parts before and after the last occurrence of the character.
pub open spec fn rsplit_once_of(value: Seq<char>, ch: char) -> Option<(Seq<char>, Seq<char>)> {
    let at = last_index_in(value, ch);
    if at >= 0 {
        Some((value.take(at), value.skip(at + 1)))
    } else {
        None
    }
}

/// The parts before and after the last occurrence of the character.
pub fn rsplit_once(value: &str, ch: char) -> (result: Option<(String, String)>)
    ensures
        pair_of(result) == rsplit_once_of(value@, ch),
{
    let all = chars(value);
    let mut count: usize = all.len();
    assert(value@.take(value@.len() as int) == value@);
    while count > 0 && all[count - 1] != ch
        invariant
            all@ == value@,
            count <= all.len(),
            last_index_in(value@.take(count as int), ch) == last_index_in(value@, ch),
        decreases count,
    {
        proof {
            let front = value@.take(count as int);
            assert(front.last() == value@[count - 1]);
            assert(front.drop_last() == value@.take(count - 1));
        }
        count = count - 1;
    }
    if count == 0 {
        assert(value@.take(0).len() == 0);
        None
    } else {
        proof {
            assert(value@.take(count as int).last() == value@[count - 1]);
            assert(value@.take(count - 1) == value@.subrange(0, count - 1));
            assert(value@.skip(count as int) == value@.subrange(count as int, value@.len() as int));
        }
        Some((piece(&all, 0, count - 1), piece(&all, count, all.len())))
    }
}

/// The parts between the occurrences of the character.
pub open spec fn split_of(value: Seq<char>, ch: char) -> Seq<Seq<char>>
    decreases value.len(),
    via split_of_shrinks
{
    let at = index_in(value, ch);
    if at < value.len() {
        seq![value.take(at)] + split_of(value.skip(at + 1), ch)
    } else {
        seq![value]
    }
}

#[via_fn]
proof fn split_of_shrinks(value: Seq<char>, ch: char) {
    lemma_index_in(value, ch);
}

/// The parts between the occurrences of the character.
pub fn split(value: &str, ch: char) -> (result: Vec<String>)
    ensures
        views(result@) == split_of(value@, ch),
        result.len() >= 1,
{
    let all = chars(value);
    let mut result: Vec<String> = Vec::new();
    let mut from: usize = 0;
    assert(value@.skip(0) == value@);
    assert(views(result@) + split_of(value@, ch) == split_of(value@, ch));
    loop
        invariant
            all@ == value@,
            from <= all.len(),
            views(result@) + split_of(value@.skip(from as int), ch) == split_of(value@, ch),
        decreases all.len() - from,
    {
        let at: usize = index_from(&all, from, ch);
        let ghost rest = value@.skip(from as int);
        let ghost before = views(result@);
        if at < all.len() {
            let part = piece(&all, from, at);
            proof {
                assert(part@ == rest.take(at - from));
                assert(rest.skip(at - from + 1) == value@.skip(at + 1));
                assert(views(result@.push(part)) == before.push(part@));
                assert(before.push(part@) + split_of(value@.skip(at + 1), ch) == before + (
                seq![part@] + split_of(value@.skip(at + 1), ch)));
            }
            result.push(part);
            from = at + 1;
        } else {
            let part = piece(&all, from, all.len());
            proof {
                assert(part@ == rest);
                assert(views(result@.push(part)) == before.push(part@));
                assert(before.push(part@) == before + seq![part@]);
            }
            result.push(part);
            return result;
        }
    }
}

/// Whether the second sequence occurs in the first.
pub open spec fn occurs(value: Seq<char>, part: Seq<char>) -> bool {
    exists|at: int|
        0 <= at <= value.len() - part.len() && #[trigger] value.subrange(at, at + part.len())
            == part
}

/// Whether the second string occurs in the first.
pub fn contains_text(value: &str, part: &str) -> (result: bool)
    ensures
        result == occurs(value@, part@),
{
    let all = chars(value);
    let inner = chars(part);
    if inner.len() > all.len() {
        return false;
    }
    let last: usize = all.len() - inner.len();
    let mut at: usize = 0;
    while at <= last
        invariant
            all@ == value@,
            inner@ == part@,
            last + inner.len() == all.len(),
            at <= last + 1,
            forall|i: int|
                0 <= i < at ==> #[trigger] value@.subrange(i, i + part@.len()) != part@,
        decreases last + 1 - at,
    {
        let mut index: usize = 0;
        while index < inner.len() && all[at + index] == inner[index]
            invariant
                all@ == value@,
                inner@ == part@,
                at + inner.len() <= all.len(),
                index <= inner.len(),
                forall|i: int| 0 <= i < index ==> value@[at + i] == part@[i],
            decreases inner.len() - index,
        {
            index = index + 1;
        }
        if index == inner.len() {
            assert(value@.subrange(at as int, at + part@.len()) =~= part@);
            return true;
        }
        assert(value@.subrange(at as int, at + part@.len())[index as int] != part@[index as int]);
        if at == last {
            return false;
        }
        at = at + 1;
    }
    false
}

/// The number of bytes that UTF-8 takes for the character.
pub open spec fn width_of(ch: char) -> nat {
    if ch >= '\u{10000}' {
        4
    } else if ch >= '\u{800}' {
        3
    } else if ch >= '\u{80}' {
        2
    } else {
        1
    }
}

/// The number of bytes that UTF-8 takes for the character.
pub fn width(ch: char) -> (result: usize)
    ensures
        result == width_of(ch),
{
    if ch >= '\u{10000}' {
        4
    } else if ch >= '\u{800}' {
        3
    } else if ch >= '\u{80}' {
        2
    } else {
        1
    }
}

/// The number of bytes that UTF-8 takes for the sequence.
pub open spec fn byte_len(value: Seq<char>) -> nat
    decreases value.len(),
{
    if value.len() == 0 {
        0
    } else {
        byte_len(value.drop_last()) + width_of(value.last())
    }
}

/// Every character takes at least one byte and at most four.
pub proof fn lemma_byte_len_bounds(value: Seq<char>)
    ensures
        value.len() <= byte_len(value) <= 4 * value.len(),
    decreases value.len(),
{
    if value.len() > 0 {
        lemma_byte_len_bounds(value.drop_last());
    }
}

proof fn lemma_byte_len_grows(value: Seq<char>, count: int)
    requires
        0 <= count <= value.len(),
    ensures
        byte_len(value.take(count)) <= byte_len(value),
    decreases value.len() - count,
{
    if count < value.len() {
        assert(value.take(count + 1).drop_last() == value.take(count));
        lemma_byte_len_grows(value, count + 1);
    } else {
        assert(value.take(count) == value);
    }
}

/// Whether the UTF-8 form of the string takes at most `limit` bytes.
pub fn fits(value: &str, limit: usize) -> (result: bool)
    ensures
        result == (byte_len(value@) <= limit),
{
    let all = chars(value);
    let mut used: usize = 0;
    let mut index: usize = 0;
    while index < all.len()
        invariant
            all@ == value@,
            index <= all.len(),
            used == byte_len(value@.take(index as int)),
            used <= limit,
        decreases all.len() - index,
    {
        let ch = all[index];
        let width: usize = if ch >= '\u{10000}' {
            4
        } else if ch >= '\u{800}' {
            3
        } else if ch >= '\u{80}' {
            2
        } else {
            1
        };
        proof {
            assert(value@.take(index + 1).drop_last() == value@.take(index as int));
            assert(value@.take(index + 1).last() == ch);
            lemma_byte_len_grows(value@, index + 1);
        }
        if width > limit - used {
            return false;
        }
        used = used + width;
        index = index + 1;
    }
    assert(value@.take(value@.len() as int) == value@);
    true
}

/// Strict order of strings: the first difference decides, and a proper prefix comes first. It is
/// the order of the UTF-8 bytes too.
pub open spec fn precedes(left: Seq<char>, right: Seq<char>) -> bool
    decreases left.len(),
{
    if right.len() == 0 {
        false
    } else if left.len() == 0 {
        true
    } else if left[0] == right[0] {
        precedes(left.drop_first(), right.drop_first())
    } else {
        left[0] < right[0]
    }
}

/// No string comes before itself.
pub proof fn lemma_precedes_irreflexive(value: Seq<char>)
    ensures
        !precedes(value, value),
    decreases value.len(),
{
    if value.len() > 0 {
        lemma_precedes_irreflexive(value.drop_first());
    }
}

/// The order is transitive.
pub proof fn lemma_precedes_transitive(first: Seq<char>, second: Seq<char>, third: Seq<char>)
    requires
        precedes(first, second),
        precedes(second, third),
    ensures
        precedes(first, third),
    decreases first.len(),
{
    if first.len() > 0 && first[0] == second[0] && second[0] == third[0] {
        lemma_precedes_transitive(first.drop_first(), second.drop_first(), third.drop_first());
    }
}

/// Of two different strings, one comes before the other.
pub proof fn lemma_precedes_total(left: Seq<char>, right: Seq<char>)
    ensures
        left == right || precedes(left, right) || precedes(right, left),
    decreases left.len(),
{
    if left.len() == 0 || right.len() == 0 {
        if left.len() == 0 && right.len() == 0 {
            assert(left =~= right);
        }
    } else if left[0] == right[0] {
        lemma_precedes_total(left.drop_first(), right.drop_first());
        if left.drop_first() == right.drop_first() {
            assert(left =~= seq![left[0]] + left.drop_first());
            assert(right =~= seq![right[0]] + right.drop_first());
        }
    }
}

/// Whether the first string comes before the second.
pub fn before(left: &str, right: &str) -> (result: bool)
    ensures
        result == precedes(left@, right@),
{
    let left_chars = chars(left);
    let right_chars = chars(right);
    let mut index: usize = 0;
    assert(left@.skip(0) == left@);
    assert(right@.skip(0) == right@);
    loop
        invariant
            left_chars@ == left@,
            right_chars@ == right@,
            index <= left_chars.len(),
            index <= right_chars.len(),
            precedes(left@.skip(index as int), right@.skip(index as int)) == precedes(
                left@,
                right@,
            ),
        decreases left_chars.len() - index,
    {
        let ghost a = left@.skip(index as int);
        let ghost b = right@.skip(index as int);
        if index == right_chars.len() {
            assert(b.len() == 0);
            return false;
        }
        if index == left_chars.len() {
            assert(a.len() == 0);
            return true;
        }
        assert(a[0] == left@[index as int]);
        assert(b[0] == right@[index as int]);
        if left_chars[index] != right_chars[index] {
            return left_chars[index] < right_chars[index];
        }
        proof {
            assert(a.drop_first() == left@.skip(index + 1));
            assert(b.drop_first() == right@.skip(index + 1));
        }
        index = index + 1;
    }
}

/// The digit with the given value.
pub open spec fn digit_char(value: nat) -> char {
    (48 + value) as char
}

/// The decimal digits of a number, without leading zeros.
pub open spec fn decimal_of(value: nat) -> Seq<char>
    decreases value,
{
    if value < 10 {
        seq![digit_char(value)]
    } else {
        decimal_of(value / 10).push(digit_char(value % 10))
    }
}

/// The decimal digits of a number, without leading zeros.
pub fn decimal(value: u64) -> (result: String)
    ensures
        result@ == decimal_of(value as nat),
    decreases value,
{
    let unit: u8 = (value % 10) as u8;
    let last: char = (48 + unit) as char;
    if value < 10 {
        let mut result = String::new();
        result.push(last);
        assert(result@ == decimal_of(value as nat));
        result
    } else {
        let mut result = decimal(value / 10);
        result.push(last);
        result
    }
}

/// The decimal form of a number that may be negative.
pub open spec fn signed_of(value: int) -> Seq<char> {
    if value < 0 {
        "-"@ + decimal_of((-value) as nat)
    } else {
        decimal_of(value as nat)
    }
}

/// The decimal form of a number that may be negative.
pub fn signed(value: i32) -> (result: String)
    ensures
        result@ == signed_of(value as int),
{
    if value < 0 {
        let wide: i64 = value as i64;
        cat("-", &decimal((-wide) as u64))
    } else {
        decimal(value as u64)
    }
}

/// The number that a sequence of digits stands for.
pub open spec fn digits_value(value: Seq<char>) -> nat
    decreases value.len(),
{
    if value.len() == 0 {
        0
    } else {
        (digits_value(value.drop_last()) * 10 + (value.last() as int - 48)) as nat
    }
}

/// Whether the sequence is made of ASCII digits alone, at least one.
pub open spec fn all_digits(value: Seq<char>) -> bool {
    value.len() > 0 && forall|i: int| 0 <= i < value.len() ==> is_digit(#[trigger] value[i])
}

/// The digits of a number are digits and stand for the number.
pub proof fn lemma_decimal(value: nat)
    ensures
        all_digits(decimal_of(value)),
        digits_value(decimal_of(value)) == value,
    decreases value,
{
    let digits = decimal_of(value);
    if value < 10 {
        assert(digits.drop_last() =~= Seq::<char>::empty());
        assert(digits_value(Seq::<char>::empty()) == 0);
    } else {
        lemma_decimal(value / 10);
        assert(digits.drop_last() =~= decimal_of(value / 10));
    }
}

/// What `u64` parsing gives for the sequence: an optional plus sign and digits within range.
pub open spec fn unsigned_of(value: Seq<char>) -> Option<u64> {
    let digits = if value.len() > 0 && value[0] == '+' {
        value.skip(1)
    } else {
        value
    };
    if all_digits(digits) && digits_value(digits) <= u64::MAX {
        Some(digits_value(digits) as u64)
    } else {
        None
    }
}

proof fn lemma_digits_value_grows(value: Seq<char>, count: int)
    requires
        all_digits(value),
        0 <= count <= value.len(),
    ensures
        digits_value(value.take(count)) <= digits_value(value),
    decreases value.len() - count,
{
    if count < value.len() {
        assert(value.take(count + 1).drop_last() == value.take(count));
        assert(value.take(count + 1).last() == value[count]);
        assert(is_digit(value[count]));
        lemma_digits_value_grows(value, count + 1);
    } else {
        assert(value.take(count) == value);
    }
}

/// Parses an unsigned decimal number.
pub fn unsigned(value: &str) -> (result: Option<u64>)
    ensures
        result == unsigned_of(value@),
{
    let all = chars(value);
    let start: usize = if all.len() > 0 && all[0] == '+' {
        1
    } else {
        0
    };
    let ghost digits = value@.skip(start as int);
    assert(start == 0 ==> digits == value@);
    if start == all.len() {
        assert(digits.len() == 0);
        return None;
    }
    let mut number: u64 = 0;
    let mut over = false;
    let mut index: usize = start;
    while index < all.len()
        invariant
            all@ == value@,
            start <= index <= all.len(),
            start == (if value@.len() > 0 && value@[0] == '+' {
                1int
            } else {
                0int
            }),
            digits == value@.skip(start as int),
            start == 0 ==> digits == value@,
            forall|i: int| 0 <= i < index - start ==> is_digit(#[trigger] digits[i]),
            !over ==> number == digits_value(digits.take(index - start)),
            over ==> digits_value(digits.take(index - start)) > u64::MAX,
        decreases all.len() - index,
    {
        let ch = all[index];
        assert(digits[index - start] == ch);
        if !digit(ch) {
            assert(!is_digit(digits[index - start]));
            return None;
        }
        let unit: u64 = (ch as u8 - 48) as u64;
        proof {
            let next = digits.take(index - start + 1);
            assert(next.drop_last() == digits.take(index - start));
            assert(next.last() == ch);
        }
        if !over {
            let wide: u128 = number as u128 * 10 + unit as u128;
            if wide > 0xffff_ffff_ffff_ffff {
                over = true;
            } else {
                number = wide as u64;
            }
        }
        index = index + 1;
    }
    assert(digits.take(digits.len() as int) == digits);
    if over {
        None
    } else {
        Some(number)
    }
}

/// The ascending list with one more string in its place, behind those that are not after it.
pub open spec fn placed(items: Seq<Seq<char>>, value: Seq<char>) -> Seq<Seq<char>>
    decreases items.len(),
{
    if items.len() > 0 && precedes(value, items.last()) {
        placed(items.drop_last(), value).push(items.last())
    } else {
        items.push(value)
    }
}

/// The strings in order.
pub open spec fn sorted_of(items: Seq<Seq<char>>) -> Seq<Seq<char>>
    decreases items.len(),
{
    if items.len() == 0 {
        items
    } else {
        placed(sorted_of(items.drop_last()), items.last())
    }
}

/// Whether no string comes before one in front of it.
pub open spec fn in_order(items: Seq<Seq<char>>) -> bool {
    forall|i: int, j: int|
        0 <= i < j < items.len() ==> !precedes(#[trigger] items[j], #[trigger] items[i])
}

proof fn lemma_placed(items: Seq<Seq<char>>, value: Seq<char>)
    requires
        in_order(items),
    ensures
        in_order(placed(items, value)),
        placed(items, value).to_multiset() == items.to_multiset().insert(value),
    decreases items.len(),
{
    broadcast use vstd::seq_lib::group_to_multiset_ensures;

    let result = placed(items, value);
    if items.len() > 0 && precedes(value, items.last()) {
        let front = items.drop_last();
        lemma_placed(front, value);
        let inner = placed(front, value);
        assert forall|i: int, j: int| 0 <= i < j < result.len() implies !precedes(
            #[trigger] result[j],
            #[trigger] result[i],
        ) by {
            if j < inner.len() {
                assert(result[i] == inner[i] && result[j] == inner[j]);
            } else {
                assert(result[i] == inner[i]);
                assert(inner.to_multiset().contains(inner[i])) by {
                    assert(inner.contains(inner[i]));
                }
                if inner[i] != value {
                    assert(front.to_multiset().contains(inner[i]));
                    assert(front.contains(inner[i]));
                    let k = choose|k: int| 0 <= k < front.len() && front[k] == inner[i];
                    assert(items[k] == inner[i]);
                    assert(!precedes(items[items.len() - 1], items[k]));
                } else if precedes(items.last(), value) {
                    lemma_precedes_transitive(value, items.last(), value);
                    lemma_precedes_irreflexive(value);
                }
            }
        }
        assert(items =~= front.push(items.last()));
        assert(result =~= inner.push(items.last()));
    } else {
        assert forall|i: int, j: int| 0 <= i < j < result.len() implies !precedes(
            #[trigger] result[j],
            #[trigger] result[i],
        ) by {
            if j == items.len() {
                let last = items.last();
                if precedes(value, items[i]) && i < items.len() - 1 {
                    lemma_precedes_total(items[i], last);
                    if items[i] != last && precedes(items[i], last) {
                        lemma_precedes_transitive(value, items[i], last);
                    }
                    assert(!precedes(items[items.len() - 1], items[i]));
                }
            }
        }
    }
}

/// Sorting gives the same strings in order.
pub proof fn lemma_sorted(items: Seq<Seq<char>>)
    ensures
        in_order(sorted_of(items)),
        sorted_of(items).to_multiset() == items.to_multiset(),
        sorted_of(items).len() == items.len(),
    decreases items.len(),
{
    broadcast use vstd::seq_lib::group_to_multiset_ensures;

    if items.len() > 0 {
        lemma_sorted(items.drop_last());
        lemma_placed(sorted_of(items.drop_last()), items.last());
        assert(items =~= items.drop_last().push(items.last()));
        assert(sorted_of(items).to_multiset().len() == sorted_of(items).len());
        assert(items.to_multiset().len() == items.len());
    }
}

/// What is in order is left as it is.
pub proof fn lemma_sorted_again(items: Seq<Seq<char>>)
    requires
        in_order(items),
    ensures
        sorted_of(items) == items,
    decreases items.len(),
{
    if items.len() > 0 {
        lemma_sorted_again(items.drop_last());
        assert(items =~= items.drop_last().push(items.last()));
        if items.len() > 1 {
            assert(!precedes(items[items.len() - 1], items[items.len() - 2]));
        }
    }
}

/// Making capitals small twice is making them small once, and keeps what is white space.
pub proof fn lemma_lowercase_again(value: Seq<char>)
    ensures
        lowercase_of(lowercase_of(value)) == lowercase_of(value),
        forall|i: int|
            0 <= i < value.len() ==> is_space(#[trigger] lowercase_of(value)[i]) == is_space(value[i]),
{
    assert(lowercase_of(lowercase_of(value)) =~= lowercase_of(value));
}

/// The strings in order.
pub fn sorted(items: &Vec<String>) -> (result: Vec<String>)
    ensures
        views(result@) == sorted_of(views(items@)),
{
    let mut result: Vec<String> = Vec::new();
    let mut index: usize = 0;
    assert(views(result@) == sorted_of(views(items@).take(0)));
    while index < items.len()
        invariant
            index <= items.len(),
            result.len() == index,
            views(result@) == sorted_of(views(items@).take(index as int)),
        decreases items.len() - index,
    {
        let value = items[index].clone();
        let ghost before = views(result@);
        let mut at: usize = result.len();
        assert(before.take(at as int) == before);
        assert(before.skip(at as int) == Seq::<Seq<char>>::empty());
        assert(placed(before, value@) == placed(before.take(at as int), value@) + before.skip(
            at as int,
        ));
        while at > 0 && crate::text::before(&value, &result[at - 1])
            invariant
                at <= result.len(),
                before == views(result@),
                placed(before, value@) == placed(before.take(at as int), value@) + before.skip(
                    at as int,
                ),
            decreases at,
        {
            proof {
                let front = before.take(at as int);
                assert(front.last() == result@[at - 1]@);
                assert(front.drop_last() == before.take(at - 1));
                assert(before.skip(at - 1) == seq![before[at - 1]] + before.skip(at as int));
                assert(placed(front, value@) == placed(before.take(at - 1), value@).push(
                    front.last(),
                ));
                assert(placed(front, value@) + before.skip(at as int) == placed(
                    before.take(at - 1),
                    value@,
                ) + before.skip(at - 1));
            }
            at = at - 1;
        }
        proof {
            let front = before.take(at as int);
            if at > 0 {
                assert(front.last() == result@[at - 1]@);
            }
            assert(placed(front, value@) == front.push(value@));
            assert(views(result@.insert(at as int, value)) == front.push(value@) + before.skip(
                at as int,
            ));
            let next = views(items@).take(index + 1);
            assert(next.drop_last() == views(items@).take(index as int));
            assert(next.last() == value@);
        }
        result.insert(at, value);
        index = index + 1;
    }
    assert(views(items@).take(items@.len() as int) == views(items@));
    result
}

/// The UTF-8 form of a character has the width of the character.
proof fn lemma_scalar_width(ch: char)
    ensures
        vstd::utf8::encode_scalar(ch as u32).len() == width_of(ch),
{
    vstd::utf8::char_is_scalar(ch);
}

/// The byte length is the length of the UTF-8 form.
pub proof fn lemma_byte_len_utf8(value: Seq<char>)
    ensures
        byte_len(value) == vstd::utf8::encode_utf8(value).len(),
    decreases value.len(),
{
    if value.len() > 0 {
        lemma_scalar_width(value[0]);
        lemma_byte_len_utf8(value.drop_first());
        lemma_byte_len_front(value);
    }
}

proof fn lemma_byte_len_front(value: Seq<char>)
    requires
        value.len() > 0,
    ensures
        byte_len(value) == width_of(value[0]) + byte_len(value.drop_first()),
    decreases value.len(),
{
    if value.len() == 1 {
        assert(value.drop_last() =~= Seq::<char>::empty());
        assert(value.drop_first() =~= Seq::<char>::empty());
        assert(byte_len(value.drop_last()) == 0);
        assert(byte_len(value.drop_first()) == 0);
    } else {
        lemma_byte_len_front(value.drop_last());
        assert(value.drop_last().drop_first() =~= value.drop_first().drop_last());
        assert(value.drop_first().last() == value.last());
    }
}

/// The UTF-8 form of the string.
pub fn bytes(value: &str) -> (result: Vec<u8>)
    ensures
        result@ == vstd::utf8::encode_utf8(value@),
        result@.len() == byte_len(value@),
{
    proof {
        lemma_byte_len_utf8(value@);
    }
    value.as_bytes_vec()
}

/// Reads UTF-8: `String::from_utf8`, which takes valid UTF-8 as it is and refuses anything else.
#[verifier::external_body]
fn checked_utf8(value: Vec<u8>) -> (result: Option<String>)
    ensures
        match result {
            Some(inner) => vstd::utf8::encode_utf8(inner@) == value@,
            None => !vstd::utf8::valid_utf8(value@),
        },
{
    String::from_utf8(value).ok()
}

/// The text that the bytes spell in UTF-8, if they are valid.
pub open spec fn utf8_text(value: Seq<u8>) -> Option<Seq<char>> {
    if vstd::utf8::valid_utf8(value) {
        Some(vstd::utf8::decode_utf8(value))
    } else {
        None
    }
}

/// The text that the bytes spell in UTF-8, if they are valid.
pub fn from_utf8(value: &Vec<u8>) -> (result: Option<String>)
    ensures
        view_of(result) == utf8_text(value@),
{
    let result = checked_utf8(value.clone());
    proof {
        if result is Some {
            vstd::utf8::encode_utf8_valid_utf8(result->Some_0@);
            vstd::utf8::encode_utf8_decode_utf8(result->Some_0@);
        }
    }
    result
}

/// What is left of the sequence when the character is taken off its end as often as it occurs there.
pub open spec fn trim_end_char_of(value: Seq<char>, ch: char) -> Seq<char>
    decreases value.len(),
{
    if value.len() > 0 && value.last() == ch {
        trim_end_char_of(value.drop_last(), ch)
    } else {
        value
    }
}

/// What is left of the string when the character is taken off its end as often as it occurs there.
pub fn trim_end_char(value: &str, ch: char) -> (result: String)
    ensures
        result@ == trim_end_char_of(value@, ch),
{
    let all = chars(value);
    let mut to: usize = all.len();
    assert(value@.subrange(0, value@.len() as int) == value@);
    while to > 0 && all[to - 1] == ch
        invariant
            all@ == value@,
            to <= all.len(),
            trim_end_char_of(value@.subrange(0, to as int), ch) == trim_end_char_of(value@, ch),
        decreases to,
    {
        proof {
            let front = value@.subrange(0, to as int);
            assert(front.last() == value@[to - 1]);
            assert(front.drop_last() == value@.subrange(0, to - 1));
        }
        to = to - 1;
    }
    proof {
        let front = value@.subrange(0, to as int);
        assert(front.len() > 0 ==> front.last() == value@[to - 1]);
    }
    piece(&all, 0, to)
}

/// What is left of the sequence when the character is taken off its front as often as it occurs there.
pub open spec fn trim_start_char_of(value: Seq<char>, ch: char) -> Seq<char>
    decreases value.len(),
{
    if value.len() > 0 && value[0] == ch {
        trim_start_char_of(value.skip(1), ch)
    } else {
        value
    }
}

/// What is left of the string when the character is taken off its front as often as it occurs there.
pub fn trim_start_char(value: &str, ch: char) -> (result: String)
    ensures
        result@ == trim_start_char_of(value@, ch),
{
    let all = chars(value);
    let mut from: usize = 0;
    assert(value@.skip(0) == value@);
    while from < all.len() && all[from] == ch
        invariant
            all@ == value@,
            from <= all.len(),
            trim_start_char_of(value@.skip(from as int), ch) == trim_start_char_of(value@, ch),
        decreases all.len() - from,
    {
        proof {
            let rest = value@.skip(from as int);
            assert(rest[0] == value@[from as int]);
            assert(rest.skip(1) == value@.skip(from + 1));
        }
        from = from + 1;
    }
    proof {
        let rest = value@.skip(from as int);
        assert(rest.len() > 0 ==> rest[0] == value@[from as int]);
        assert(rest == value@.subrange(from as int, value@.len() as int));
    }
    piece(&all, from, all.len())
}

/// The sequence without square brackets at its ends.
pub open spec fn unbracketed(value: Seq<char>) -> Seq<char> {
    let front = trim_open_of(value);
    trim_close_of(front)
}

/// The sequence without square brackets at its front.
pub open spec fn trim_open_of(value: Seq<char>) -> Seq<char>
    decreases value.len(),
{
    if value.len() > 0 && (value[0] == '[' || value[0] == ']') {
        trim_open_of(value.skip(1))
    } else {
        value
    }
}

/// The sequence without square brackets at its end.
pub open spec fn trim_close_of(value: Seq<char>) -> Seq<char>
    decreases value.len(),
{
    if value.len() > 0 && (value.last() == '[' || value.last() == ']') {
        trim_close_of(value.drop_last())
    } else {
        value
    }
}

/// The string without square brackets at its ends.
pub fn unbracket(value: &str) -> (result: String)
    ensures
        result@ == unbracketed(value@),
{
    let all = chars(value);
    let mut from: usize = 0;
    assert(value@.skip(0) == value@);
    while from < all.len() && (all[from] == '[' || all[from] == ']')
        invariant
            all@ == value@,
            from <= all.len(),
            trim_open_of(value@.skip(from as int)) == trim_open_of(value@),
        decreases all.len() - from,
    {
        proof {
            let rest = value@.skip(from as int);
            assert(rest[0] == value@[from as int]);
            assert(rest.skip(1) == value@.skip(from + 1));
        }
        from = from + 1;
    }
    let ghost rest = value@.skip(from as int);
    proof {
        assert(rest.len() > 0 ==> rest[0] == value@[from as int]);
        assert(trim_open_of(value@) == rest);
        assert(rest == value@.subrange(from as int, value@.len() as int));
    }
    let mut to: usize = all.len();
    while to > from && (all[to - 1] == '[' || all[to - 1] == ']')
        invariant
            all@ == value@,
            from <= to <= all.len(),
            rest == value@.skip(from as int),
            trim_close_of(value@.subrange(from as int, to as int)) == trim_close_of(rest),
        decreases to - from,
    {
        proof {
            let front = value@.subrange(from as int, to as int);
            assert(front.last() == value@[to - 1]);
            assert(front.drop_last() == value@.subrange(from as int, to - 1));
        }
        to = to - 1;
    }
    proof {
        let front = value@.subrange(from as int, to as int);
        assert(front.len() > 0 ==> front.last() == value@[to - 1]);
    }
    piece(&all, from, to)
}

/// The number of times that a character occurs.
pub open spec fn count_of(value: Seq<char>, ch: char) -> nat
    decreases value.len(),
{
    if value.len() == 0 {
        0
    } else {
        count_of(value.drop_last(), ch) + if value.last() == ch {
            1nat
        } else {
            0nat
        }
    }
}

/// The number of times that a character occurs.
pub fn count(value: &str, ch: char) -> (result: usize)
    ensures
        result == count_of(value@, ch),
        result <= value@.len(),
{
    let all = chars(value);
    let mut found: usize = 0;
    let mut index: usize = 0;
    while index < all.len()
        invariant
            index <= all.len(),
            all@ == value@,
            found == count_of(value@.take(index as int), ch),
            found <= index,
        decreases all.len() - index,
    {
        proof {
            assert(value@.take(index + 1).drop_last() == value@.take(index as int));
            assert(value@.take(index + 1).last() == all@[index as int]);
        }
        if all[index] == ch {
            found = found + 1;
        }
        index = index + 1;
    }
    assert(value@.take(value@.len() as int) == value@);
    found
}

/// Whether every character passes the test.
pub open spec fn every(value: Seq<char>, test: spec_fn(char) -> bool) -> bool {
    forall|i: int| 0 <= i < value.len() ==> test(#[trigger] value[i])
}

/// A copy of the strings.
pub fn copies(items: &Vec<String>) -> (result: Vec<String>)
    ensures
        views(result@) == views(items@),
{
    let mut result: Vec<String> = Vec::new();
    let mut index: usize = 0;
    assert(views(items@).take(0) == Seq::<Seq<char>>::empty());
    assert(views(result@) == views(items@).take(0));
    while index < items.len()
        invariant
            index <= items.len(),
            views(result@) == views(items@).take(index as int),
        decreases items.len() - index,
    {
        let item = items[index].clone();
        proof {
            assert(views(result@.push(item)) == views(result@).push(item@));
            assert(views(items@).take(index + 1) == views(items@).take(index as int).push(item@));
        }
        result.push(item);
        index = index + 1;
    }
    assert(views(items@).take(items@.len() as int) == views(items@));
    result
}

/// A copy of an optional string.
pub fn copy_option(value: &Option<String>) -> (result: Option<String>)
    ensures
        view_of(result) == view_of(*value),
{
    match value {
        Some(inner) => Some(inner.clone()),
        None => None,
    }
}

/// Whether an earlier string of the list is the same.
pub open spec fn repeats(items: Seq<Seq<char>>, at: int) -> bool {
    exists|j: int| 0 <= j < at && #[trigger] items[j] == items[at]
}

/// Whether an earlier string of the list is the same.
pub fn repeated(items: &Vec<String>, at: usize) -> (result: bool)
    requires
        at < items.len(),
    ensures
        result == repeats(views(items@), at as int),
{
    let ghost all = views(items@);
    let mut index: usize = 0;
    while index < at
        invariant
            index <= at < items.len(),
            all == views(items@),
            forall|j: int| 0 <= j < index ==> #[trigger] all[j] != all[at as int],
        decreases at - index,
    {
        assert(all[index as int] == items@[index as int]@);
        if same(&items[index], &items[at]) {
            return true;
        }
        index = index + 1;
    }
    false
}

/// The list holds a string exactly where its views contain it.
pub proof fn lemma_holds(items: Seq<String>, value: Seq<char>)
    ensures
        holds(items, value) == views(items).contains(value),
{
    if holds(items, value) {
        let i = choose|i: int| 0 <= i < items.len() && #[trigger] items[i]@ == value;
        assert(views(items)[i] == value);
    }
    if views(items).contains(value) {
        let i = choose|i: int| 0 <= i < views(items).len() && views(items)[i] == value;
        assert(items[i]@ == value);
    }
}

/// Whether the list holds the string.
pub fn contained(items: &Vec<String>, value: &str) -> (result: bool)
    ensures
        result == views(items@).contains(value@),
{
    proof {
        lemma_holds(items@, value@);
    }
    contains_string(items, value)
}

/// The bytes that strings take together.
pub open spec fn total_bytes(items: Seq<Seq<char>>) -> nat
    decreases items.len(),
{
    if items.len() == 0 {
        0
    } else {
        total_bytes(items.drop_last()) + byte_len(items.last())
    }
}

proof fn lemma_total_grows(items: Seq<Seq<char>>, count: int)
    requires
        0 <= count <= items.len(),
    ensures
        total_bytes(items.take(count)) <= total_bytes(items),
    decreases items.len() - count,
{
    if count < items.len() {
        assert(items.take(count + 1).drop_last() == items.take(count));
        lemma_total_grows(items, count + 1);
    } else {
        assert(items.take(count) == items);
    }
}

/// Whether strings take at most `limit` bytes together.
pub fn total_fits(items: &Vec<String>, limit: usize) -> (result: bool)
    ensures
        result == (total_bytes(views(items@)) <= limit),
{
    let ghost all = views(items@);
    let mut used: usize = 0;
    let mut index: usize = 0;
    while index < items.len()
        invariant
            index <= items.len(),
            all == views(items@),
            used == total_bytes(all.take(index as int)),
            used <= limit,
        decreases items.len() - index,
    {
        proof {
            assert(all.take(index + 1).drop_last() == all.take(index as int));
            assert(all.take(index + 1).last() == items@[index as int]@);
            lemma_total_grows(all, index + 1);
        }
        if !fits(&items[index], limit - used) {
            return false;
        }
        used = used + bytes(&items[index]).len();
        index = index + 1;
    }
    assert(all.take(all.len() as int) == all);
    true
}

/// The strings with a separator between them.
pub open spec fn joined(items: Seq<Seq<char>>, separator: Seq<char>) -> Seq<char>
    decreases items.len(),
{
    if items.len() == 0 {
        Seq::empty()
    } else if items.len() == 1 {
        items[0]
    } else {
        joined(items.drop_last(), separator) + separator + items.last()
    }
}

/// Strings of some characters, with a separator of such characters between them, are of those too.
pub proof fn lemma_joined_every(
    items: Seq<Seq<char>>,
    separator: Seq<char>,
    test: spec_fn(char) -> bool,
)
    requires
        forall|i: int| 0 <= i < items.len() ==> every(#[trigger] items[i], test),
        every(separator, test),
    ensures
        every(joined(items, separator), test),
    decreases items.len(),
{
    if items.len() > 1 {
        let front = items.drop_last();
        assert forall|i: int| 0 <= i < front.len() implies every(#[trigger] front[i], test) by {
            assert(front[i] == items[i]);
        }
        lemma_joined_every(front, separator, test);
        assert(every(items[items.len() - 1], test));
    } else if items.len() == 1 {
        assert(every(items[0], test));
    }
}

proof fn lemma_joined_first(items: Seq<Seq<char>>, separator: Seq<char>)
    requires
        items.len() > 1,
    ensures
        joined(items, separator) == items[0] + separator + joined(items.drop_first(), separator),
    decreases items.len(),
{
    let front = items.drop_last();
    let rest = items.drop_first();
    if items.len() == 2 {
        assert(joined(front, separator) == items[0]);
        assert(joined(rest, separator) == items[1]);
    } else {
        lemma_joined_first(front, separator);
        assert(front.drop_first() =~= rest.drop_last());
        assert(rest.last() == items.last());
        assert(joined(items, separator) =~= items[0] + separator + joined(rest, separator));
    }
}

/// Strings that are joined by a character that none of them holds are found again.
pub proof fn lemma_split_joined(items: Seq<Seq<char>>, ch: char)
    requires
        items.len() > 0,
        forall|i: int| 0 <= i < items.len() ==> !(#[trigger] items[i]).contains(ch),
    ensures
        split_of(joined(items, seq![ch]), ch) == items,
    decreases items.len(),
{
    let value = joined(items, seq![ch]);
    let first = items[0];
    assert(!first.contains(ch));
    if items.len() == 1 {
        lemma_index_is(value, ch, value.len() as int);
        assert(seq![value] =~= items);
    } else {
        let rest = items.drop_first();
        lemma_joined_first(items, seq![ch]);
        let at = first.len() as int;
        assert(value[at] == ch);
        assert forall|i: int| 0 <= i < at implies value[i] != ch by {
            assert(value[i] == first[i]);
        }
        lemma_index_is(value, ch, at);
        assert(value.take(at) =~= first);
        assert(value.skip(at + 1) =~= joined(rest, seq![ch]));
        assert forall|i: int| 0 <= i < rest.len() implies !(#[trigger] rest[i]).contains(ch) by {
            assert(rest[i] == items[i + 1]);
        }
        lemma_split_joined(rest, ch);
        assert(seq![first] + rest =~= items);
    }
}

/// The strings with a separator between them.
pub fn join(items: &Vec<String>, separator: &str) -> (result: String)
    ensures
        result@ == joined(views(items@), separator@),
{
    let ghost all = views(items@);
    let mut result = String::new();
    let mut index: usize = 0;
    while index < items.len()
        invariant
            index <= items.len(),
            all == views(items@),
            result@ == joined(all.take(index as int), separator@),
        decreases items.len() - index,
    {
        proof {
            assert(all.take(index + 1).drop_last() == all.take(index as int));
            assert(all.take(index + 1).last() == items@[index as int]@);
        }
        if index > 0 {
            result.append(separator);
        }
        result.append(&items[index]);
        proof {
            if index == 0 {
                assert(all.take(1)[0] == items@[0]@);
                assert(result@ == items@[0]@);
            }
        }
        index = index + 1;
    }
    assert(all.take(all.len() as int) == all);
    result
}

/// The longest front of the sequence that takes at most the given number of bytes.
pub open spec fn front_within(value: Seq<char>, limit: nat) -> Seq<char>
    decreases value.len(),
{
    if byte_len(value) <= limit {
        value
    } else {
        front_within(value.drop_last(), limit)
    }
}

proof fn lemma_front_within(value: Seq<char>, limit: nat, count: int)
    requires
        0 <= count < value.len(),
        byte_len(value.take(count)) <= limit,
        byte_len(value.take(count + 1)) > limit,
    ensures
        front_within(value, limit) == value.take(count),
    decreases value.len(),
{
    lemma_byte_len_prefix(value, count + 1);
    let shorter = value.drop_last();
    if count + 1 == value.len() {
        assert(value.take(count + 1) == value);
        assert(shorter == value.take(count));
        assert(front_within(shorter, limit) == shorter);
    } else {
        assert(shorter.take(count) == value.take(count));
        assert(shorter.take(count + 1) == value.take(count + 1));
        lemma_front_within(shorter, limit, count);
    }
}

proof fn lemma_byte_len_prefix(value: Seq<char>, count: int)
    requires
        0 <= count <= value.len(),
    ensures
        byte_len(value.take(count)) <= byte_len(value),
    decreases value.len() - count,
{
    if count < value.len() {
        assert(value.take(count + 1).drop_last() == value.take(count));
        lemma_byte_len_prefix(value, count + 1);
    } else {
        assert(value.take(count) == value);
    }
}

/// The longest front of the string that takes at most the given number of bytes.
pub fn front(value: &str, limit: usize) -> (result: String)
    ensures
        result@ == front_within(value@, limit as nat),
{
    let all = chars(value);
    let mut room: usize = limit;
    let mut index: usize = 0;
    assert(value@.take(0).len() == 0);
    while index < all.len()
        invariant
            index <= all.len(),
            all@ == value@,
            room + byte_len(value@.take(index as int)) == limit,
        decreases all.len() - index,
    {
        let wide: usize = width(all[index]);
        proof {
            assert(value@.take(index + 1).drop_last() == value@.take(index as int));
            assert(value@.take(index + 1).last() == all@[index as int]);
        }
        if wide > room {
            proof {
                lemma_front_within(value@, limit as nat, index as int);
                assert(value@.take(index as int) == value@.subrange(0, index as int));
            }
            return piece(&all, 0, index);
        }
        room = room - wide;
        index = index + 1;
    }
    assert(value@.take(value@.len() as int) == value@);
    value.to_owned()
}

/// The first place from an index on where the part stands in the sequence.
pub open spec fn find_from(value: Seq<char>, part: Seq<char>, at: int) -> Option<int>
    decreases value.len() - at + 1,
{
    if at + part.len() > value.len() {
        None
    } else if value.subrange(at, at + part.len()) == part {
        Some(at)
    } else {
        find_from(value, part, at + 1)
    }
}

/// What stands before and behind the first occurrence of the part.
pub open spec fn split_at_of(value: Seq<char>, part: Seq<char>) -> Option<(Seq<char>, Seq<char>)> {
    match find_from(value, part, 0) {
        Some(at) => Some((value.take(at), value.skip(at + part.len()))),
        None => None,
    }
}

proof fn lemma_find_bounds(value: Seq<char>, part: Seq<char>, at: int)
    requires
        at >= 0,
    ensures
        find_from(value, part, at) matches Some(found) ==> at <= found && found + part.len()
            <= value.len(),
    decreases value.len() - at + 1,
{
    if at + part.len() <= value.len() && value.subrange(at, at + part.len()) != part {
        lemma_find_bounds(value, part, at + 1);
    }
}

/// What stands before and behind the first occurrence of the part.
pub fn split_at(value: &str, part: &str) -> (result: Option<(String, String)>)
    ensures
        pair_of(result) == split_at_of(value@, part@),
{
    let all = chars(value);
    let inner = chars(part);
    let mut at: usize = 0;
    while at < all.len() && inner.len() <= all.len() - at
        invariant
            at <= all.len(),
            all@ == value@,
            inner@ == part@,
            find_from(value@, part@, 0) == find_from(value@, part@, at as int),
        decreases all.len() - at,
    {
        let own = piece(&all, at, at + inner.len());
        if same(&own, part) {
            let front = piece(&all, 0, at);
            let back = piece(&all, at + inner.len(), all.len());
            assert(value@.take(at as int) == value@.subrange(0, at as int));
            assert(value@.skip(at + inner.len()) == value@.subrange(
                at + inner.len(),
                value@.len() as int,
            ));
            return Some((front, back));
        }
        at = at + 1;
    }
    if inner.len() == 0 {
        assert(value@.subrange(at as int, at as int) == part@);
        assert(value@.take(at as int) == value@);
        assert(value@.skip(at as int) == Seq::<char>::empty());
        return Some((value.to_owned(), String::new()));
    }
    None
}

/// The texts without those that were there before.
pub open spec fn distinct_of(items: Seq<Seq<char>>) -> Seq<Seq<char>>
    decreases items.len(),
{
    if items.len() == 0 {
        Seq::empty()
    } else {
        let rest = distinct_of(items.drop_last());
        if rest.contains(items.last()) {
            rest
        } else {
            rest.push(items.last())
        }
    }
}

/// The texts without those that were there before.
pub fn distinct(items: &Vec<String>) -> (result: Vec<String>)
    ensures
        views(result@) == distinct_of(views(items@)),
{
    let ghost all = views(items@);
    let mut result: Vec<String> = Vec::new();
    let mut index: usize = 0;
    assert(views(result@) =~= distinct_of(all.take(0)));
    while index < items.len()
        invariant
            index <= items.len(),
            all == views(items@),
            views(result@) == distinct_of(all.take(index as int)),
        decreases items.len() - index,
    {
        let item = &items[index];
        proof {
            assert(all.take(index + 1).drop_last() == all.take(index as int));
            assert(all.take(index + 1).last() == item@);
        }
        if !contained(&result, item) {
            let own = item.clone();
            assert(views(result@.push(own)) =~= views(result@).push(own@));
            result.push(own);
        }
        index = index + 1;
    }
    assert(all.take(all.len() as int) == all);
    result
}

/// Each text comes once, and none is left out.
pub proof fn lemma_distinct(items: Seq<Seq<char>>)
    ensures
        distinct_of(items).no_duplicates(),
        forall|item: Seq<char>| #[trigger]
            distinct_of(items).contains(item) <==> items.contains(item),
    decreases items.len(),
{
    if items.len() > 0 {
        let front = items.drop_last();
        let rest = distinct_of(front);
        let all = distinct_of(items);
        lemma_distinct(front);
        assert forall|item: Seq<char>| #[trigger] all.contains(item) <==> items.contains(item) by {
            if items.contains(item) {
                let i = choose|i: int| 0 <= i < items.len() && items[i] == item;
                if i < front.len() {
                    assert(front[i] == item);
                    assert(rest.contains(item));
                    let j = choose|j: int| 0 <= j < rest.len() && rest[j] == item;
                    assert(all[j] == item);
                } else if rest.contains(items.last()) {
                    assert(all == rest);
                } else {
                    assert(all[all.len() - 1] == item);
                }
            }
            if all.contains(item) {
                let j = choose|j: int| 0 <= j < all.len() && all[j] == item;
                if j < rest.len() {
                    assert(rest[j] == item);
                    assert(rest.contains(item));
                    assert(front.contains(item));
                    let i = choose|i: int| 0 <= i < front.len() && front[i] == item;
                    assert(items[i] == item);
                } else {
                    assert(items[items.len() - 1] == item);
                }
            }
        }
    }
}

/// The bytes of two texts add up.
pub proof fn lemma_byte_len_cat(left: Seq<char>, right: Seq<char>)
    ensures
        byte_len(left + right) == byte_len(left) + byte_len(right),
    decreases right.len(),
{
    if right.len() == 0 {
        assert(left + right =~= left);
    } else {
        let front = right.drop_last();
        lemma_byte_len_cat(left, front);
        assert((left + right).drop_last() =~= left + front);
        assert((left + right).last() == right.last());
    }
}

/// What stands behind an occurrence of a part is shorter than the whole.
pub proof fn lemma_split_shorter(value: Seq<char>, part: Seq<char>)
    requires
        part.len() > 0,
    ensures
        split_at_of(value, part) matches Some((_, back)) ==> back.len() < value.len(),
{
    lemma_find_bounds(value, part, 0);
}

/// The place that is found is the first one; where none is found, the part does not occur.
pub proof fn lemma_find_first(value: Seq<char>, part: Seq<char>, at: int)
    requires
        at >= 0,
    ensures
        match find_from(value, part, at) {
            Some(found) => at <= found && found + part.len() <= value.len() && forall|i: int|
                at <= i < found ==> #[trigger] value.subrange(i, i + part.len()) != part,
            None => forall|i: int|
                at <= i <= value.len() - part.len() ==> #[trigger] value.subrange(
                    i,
                    i + part.len(),
                ) != part,
        },
    decreases value.len() - at + 1,
{
    if at + part.len() <= value.len() {
        if value.subrange(at, at + part.len()) != part {
            lemma_find_first(value, part, at + 1);
        }
    }
}

/// What white space is.
pub proof fn lemma_spaces(ch: char)
    ensures
        is_space(' ') && is_space('\t') && is_space('\n') && is_space('\r') && is_space('\u{b}') && is_space('\u{c}')
            && is_space('\u{85}') && is_space('\u{a0}') && is_space('\u{2028}') && is_space('\u{3000}'),
        '!' <= ch <= '~' ==> !is_space(ch),
{
}

/// White space is taken off both ends, and nothing else.
pub proof fn lemma_trim_grows(value: Seq<char>, ch: char)
    ensures
        is_space(ch) ==> trim_end_of(value.push(ch)) == trim_end_of(value),
        !is_space(ch) ==> trim_end_of(value.push(ch)) == value.push(ch),
        is_space(ch) ==> trim_start_of(seq![ch] + value) == trim_start_of(value),
        !is_space(ch) ==> trim_start_of(seq![ch] + value) == seq![ch] + value,
        trim_of(value) == trim_end_of(trim_start_of(value)),
{
    assert(value.push(ch).drop_last() =~= value);
    assert((seq![ch] + value).drop_first() =~= value);
}

/// Small and capital letters.
pub proof fn lemma_cases(value: Seq<char>, at: int)
    ensures
        lowercase_of(value).len() == value.len() && uppercase_of(value).len() == value.len(),
        0 <= at < value.len() && 'A' <= value[at] <= 'Z' ==> lowercase_of(value)[at] as int == value[at] as int + 32,
        0 <= at < value.len() && !('A' <= value[at] <= 'Z') ==> lowercase_of(value)[at] == value[at],
        0 <= at < value.len() && 'a' <= value[at] <= 'z' ==> uppercase_of(value)[at] as int == value[at] as int - 32,
        0 <= at < value.len() && !('a' <= value[at] <= 'z') ==> uppercase_of(value)[at] == value[at],
        lower_of('A') == 'a' && lower_of('Z') == 'z' && upper_of('a') == 'A' && upper_of('z') == 'Z',
        same_folded(value, lowercase_of(value)) && same_folded(value, value),
{
    lemma_lowercase_again(value);
}

/// Which characters are digits and letters.
pub proof fn lemma_letters(ch: char)
    ensures
        is_digit(ch) <==> '0' <= ch <= '9',
        is_letter(ch) <==> ('a' <= ch <= 'z') || ('A' <= ch <= 'Z'),
        is_alnum(ch) <==> is_digit(ch) || is_letter(ch),
{
}

/// A text is parted at the first of a character, or at the last.
pub proof fn lemma_parted(front: Seq<char>, back: Seq<char>, ch: char)
    ensures
        !front.contains(ch) ==> split_once_of(front + seq![ch] + back, ch) == Some((front, back)),
        !front.contains(ch) ==> split_once_of(front, ch) is None,
        !back.contains(ch) ==> rsplit_once_of(front + seq![ch] + back, ch) == Some((front, back)),
        !front.contains(ch) ==> split_of(front + seq![ch] + back, ch) == seq![front] + split_of(back, ch),
        !front.contains(ch) ==> split_of(front, ch) == seq![front],
{
    let whole = front + seq![ch] + back;
    assert(whole[front.len() as int] == ch);
    assert(whole.take(front.len() as int) =~= front);
    assert(whole.skip(front.len() as int + 1) =~= back);
    if !front.contains(ch) {
        assert forall|i: int| 0 <= i < front.len() implies whole[i] != ch by {
            assert(whole[i] == front[i]);
        }
        lemma_index_is(whole, ch, front.len() as int);
        lemma_index_is(front, ch, front.len() as int);
    }
    if !back.contains(ch) {
        lemma_last_index(front, back, ch);
    }
}

proof fn lemma_last_index(front: Seq<char>, back: Seq<char>, ch: char)
    requires
        !back.contains(ch),
    ensures
        last_index_in(front + seq![ch] + back, ch) == front.len(),
    decreases back.len(),
{
    let whole = front + seq![ch] + back;
    if back.len() == 0 {
        assert(whole.last() == ch);
    } else {
        assert(whole.drop_last() =~= front + seq![ch] + back.drop_last());
        assert(whole.last() == back.last());
        assert(back.contains(back.last()));
        assert(!back.drop_last().contains(ch)) by {
            if back.drop_last().contains(ch) {
                let i = choose|i: int| 0 <= i < back.len() - 1 && back.drop_last()[i] == ch;
                assert(back[i] == ch);
            }
        }
        lemma_last_index(front, back.drop_last(), ch);
    }
}

/// What stands behind a front and before an end.
pub proof fn lemma_ends(front: Seq<char>, back: Seq<char>)
    ensures
        after_prefix(front + back, front) == Some(back),
        before_suffix(front + back, back) == Some(front),
        !front.is_prefix_of(back) ==> after_prefix(back, front) is None,
        !front.is_suffix_of(back) ==> before_suffix(back, front) is None,
{
    let whole = front + back;
    assert(whole.subrange(0, front.len() as int) =~= front);
    assert(whole.skip(front.len() as int) =~= back);
    assert(whole.subrange(whole.len() - back.len(), whole.len() as int) =~= back);
    assert(whole.take(whole.len() - back.len()) =~= front);
}

/// A text is joined piece by piece with the separator between.
pub proof fn lemma_joined_grows(items: Seq<Seq<char>>, last: Seq<char>, separator: Seq<char>)
    ensures
        joined(Seq::empty(), separator).len() == 0,
        joined(seq![last], separator) == last,
        items.len() > 0 ==> joined(items.push(last), separator) == joined(items, separator) + separator + last,
{
    assert(items.push(last).drop_last() =~= items);
}

/// A number is read from digits, with a plus in front or without, as long as it fits.
pub proof fn lemma_numbers_read(value: nat, digits: Seq<char>)
    ensures
        value <= u64::MAX ==> unsigned_of(decimal_of(value)) == Some(value as u64),
        value > u64::MAX ==> unsigned_of(decimal_of(value)) is None,
        unsigned_of(Seq::empty()) is None,
        all_digits(digits) && digits_value(digits) <= u64::MAX ==> unsigned_of(seq!['+'] + digits) == Some(
            digits_value(digits) as u64,
        ),
        decimal_of(0) == seq!['0'] && decimal_of(7) == seq!['7'],
        value > 0 ==> signed_of(-(value as int)) == "-"@ + decimal_of(value),
        signed_of(value as int) == decimal_of(value),
{
    lemma_decimal(value);
    let written = decimal_of(value);
    assert(is_digit(written[0]));
    assert((seq!['+'] + digits).skip(1) =~= digits);
}

/// The width of a character, and that of a text.
pub proof fn lemma_widths(value: Seq<char>, ch: char)
    ensures
        byte_len(value.push(ch)) == byte_len(value) + width_of(ch),
        byte_len(Seq::empty()) == 0,
        width_of('a') == 1 && width_of('\u{7f}') == 1 && width_of('\u{80}') == 2 && width_of('\u{7ff}') == 2
            && width_of('\u{800}') == 3 && width_of('\u{ffff}') == 3 && width_of('\u{10000}') == 4,
{
    assert(value.push(ch).drop_last() =~= value);
}

/// Brackets are taken off an address; the ends of a text lose one character as often as it stands there.
pub proof fn lemma_unbracketed(value: Seq<char>, ch: char)
    requires
        value.len() > 0,
        value[0] != '[' && value[0] != ']',
        value.last() != '[' && value.last() != ']',
    ensures
        unbracketed(value) == value,
        unbracketed(seq!['['] + value + seq![']']) == value,
        trim_end_char_of(value.push(ch), ch) == trim_end_char_of(value, ch),
        value.last() != ch ==> trim_end_char_of(value, ch) == value,
        trim_start_char_of(seq![ch] + value, ch) == trim_start_char_of(value, ch),
        value[0] != ch ==> trim_start_char_of(value, ch) == value,
{
    let whole = seq!['['] + value + seq![']'];
    let rest = value + seq![']'];
    assert(whole.skip(1) =~= rest);
    assert(rest[0] == value[0]);
    assert(trim_open_of(rest) == rest);
    assert(trim_open_of(whole) == rest);
    assert(rest.drop_last() =~= value);
    assert(trim_close_of(value) == value);
    assert(value.push(ch).drop_last() =~= value);
    assert((seq![ch] + value).skip(1) =~= value);
}

/// A text is cut to a number of bytes without cutting a character.
pub proof fn lemma_cut(value: Seq<char>, limit: nat)
    ensures
        byte_len(value) <= limit ==> front_within(value, limit) == value,
        byte_len(front_within(value, limit)) <= limit,
        front_within(value, limit).is_prefix_of(value),
        front_within(value, limit).len() < value.len() ==> byte_len(front_within(value, limit)) + width_of(
            value[front_within(value, limit).len() as int],
        ) > limit,
    decreases value.len(),
{
    if byte_len(value) > limit {
        assert(value.len() > 0);
        let front = value.drop_last();
        lemma_cut(front, limit);
        let cut = front_within(value, limit);
        assert(cut == front_within(front, limit));
        assert(cut =~= value.subrange(0, cut.len() as int));
        if cut.len() == front.len() {
            assert(cut =~= front);
        }
    }
}

/// The sum of the sizes, and how often a character stands.
pub proof fn lemma_counts(items: Seq<Seq<char>>, last: Seq<char>, value: Seq<char>, ch: char, other: char)
    ensures
        total_bytes(items.push(last)) == total_bytes(items) + byte_len(last),
        total_bytes(Seq::empty()) == 0,
        count_of(value.push(ch), ch) == count_of(value, ch) + 1,
        other != ch ==> count_of(value.push(other), ch) == count_of(value, ch),
        count_of(Seq::empty(), ch) == 0,
{
    assert(items.push(last).drop_last() =~= items);
    assert(value.push(ch).drop_last() =~= value);
    assert(value.push(other).drop_last() =~= value);
}

} // verus!
