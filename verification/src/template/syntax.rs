//! Identifiers and patterns of templates.

use vstd::prelude::*;
use crate::checks::{either, tells, unless};
use crate::{pattern, text};

verus! {

/// A character of an identifier: it needs no encoding in a path.
pub open spec fn is_identifier_char(ch: char) -> bool {
    text::is_alnum(ch) || ch == '_' || ch == '.' || ch == '~' || ch == '-'
}

/// Whether the text is one segment of a path as it stands.
pub open spec fn is_identifier(value: Seq<char>) -> bool {
    &&& value.len() > 0
    &&& value != "."@
    &&& value != ".."@
    &&& text::every(value, |ch: char| is_identifier_char(ch))
}

/// Whether the text is one segment of a path as it stands.
pub fn identifier(value: &str) -> (result: bool)
    ensures
        result == is_identifier(value@),
{
    if value.is_empty() || text::same(value, ".") || text::same(value, "..") {
        return false;
    }
    let all = text::chars(value);
    let ghost test = |ch: char| is_identifier_char(ch);
    let mut index: usize = 0;
    while index < all.len()
        invariant
            index <= all.len(),
            all@ == value@,
            test == (|ch: char| is_identifier_char(ch)),
            forall|i: int| 0 <= i < index ==> test(#[trigger] value@[i]),
        decreases all.len() - index,
    {
        let ch = all[index];
        if !(text::alnum(ch) || ch == '_' || ch == '.' || ch == '~' || ch == '-') {
            assert(!test(value@[index as int]));
            return false;
        }
        index = index + 1;
    }
    true
}

/// Whether the text is the name of a parameter.
pub open spec fn is_parameter_name(value: Seq<char>) -> bool {
    &&& 0 < value.len() <= 64
    &&& text::is_letter(value[0])
    &&& text::every(value, |ch: char| text::is_alnum(ch) || ch == '_')
}

/// Whether the text is the name of a parameter.
pub fn parameter_name(value: &str) -> (result: bool)
    ensures
        result == is_parameter_name(value@),
{
    let all = text::chars(value);
    if all.len() == 0 || all.len() > 64 || !text::letter(all[0]) {
        return false;
    }
    let ghost test = |ch: char| text::is_alnum(ch) || ch == '_';
    let mut index: usize = 0;
    while index < all.len()
        invariant
            index <= all.len(),
            all@ == value@,
            test == (|ch: char| text::is_alnum(ch) || ch == '_'),
            forall|i: int| 0 <= i < index ==> test(#[trigger] value@[i]),
        decreases all.len() - index,
    {
        if !text::alnum(all[index]) && all[index] != '_' {
            assert(!test(value@[index as int]));
            return false;
        }
        index = index + 1;
    }
    true
}

/// A printable ASCII character.
pub open spec fn is_visible(ch: char) -> bool {
    ' ' <= ch <= '~'
}

/// Whether the text is printable ASCII.
pub fn visible(value: &str) -> (result: bool)
    ensures
        result == text::every(value@, |ch: char| is_visible(ch)),
{
    let all = text::chars(value);
    let ghost test = |ch: char| is_visible(ch);
    let mut index: usize = 0;
    while index < all.len()
        invariant
            index <= all.len(),
            all@ == value@,
            test == (|ch: char| is_visible(ch)),
            forall|i: int| 0 <= i < index ==> test(#[trigger] value@[i]),
        decreases all.len() - index,
    {
        if !(' ' <= all[index] && all[index] <= '~') {
            assert(!test(value@[index as int]));
            return false;
        }
        index = index + 1;
    }
    true
}

/// A character that stands for a class behind a backslash.
pub open spec fn is_shorthand(ch: char) -> bool {
    ch == 'd' || ch == 'D' || ch == 's' || ch == 'S' || ch == 'w' || ch == 'W'
}

/// A character that may stand behind a backslash.
pub open spec fn is_escapable(ch: char) -> bool {
    ||| is_shorthand(ch)
    ||| ch == '\\'
    ||| ch == '.'
    ||| ch == '^'
    ||| ch == '$'
    ||| ch == '|'
    ||| ch == '?'
    ||| ch == '*'
    ||| ch == '+'
    ||| ch == '('
    ||| ch == ')'
    ||| ch == '['
    ||| ch == ']'
    ||| ch == '{'
    ||| ch == '}'
    ||| ch == '/'
    ||| ch == '-'
}

fn shorthand(ch: char) -> (result: bool)
    ensures
        result == is_shorthand(ch),
{
    ch == 'd' || ch == 'D' || ch == 's' || ch == 'S' || ch == 'w' || ch == 'W'
}

fn escapable(ch: char) -> (result: bool)
    ensures
        result == is_escapable(ch),
{
    shorthand(ch) || ch == '\\' || ch == '.' || ch == '^' || ch == '$' || ch == '|' || ch == '?'
        || ch == '*' || ch == '+' || ch == '(' || ch == ')' || ch == '[' || ch == ']' || ch == '{'
        || ch == '}' || ch == '/' || ch == '-'
}

/// Whether the second sequence starts at an index of the first.
pub open spec fn stands_at(value: Seq<char>, at: int, part: Seq<char>) -> bool {
    at + part.len() <= value.len() && value.subrange(at, at + part.len()) == part
}

/// Why a pattern is refused from an index on, if so: behind a backslash only syntax may stand, and
/// groups and classes are plain.
pub open spec fn pattern_fault_from(value: Seq<char>, at: int) -> Option<Seq<char>>
    decreases value.len() - at,
{
    if at >= value.len() {
        None
    } else if value[at] == '\\' {
        if at + 1 >= value.len() || !is_escapable(value[at + 1]) {
            Some("parameter pattern uses an unsupported escape"@)
        } else {
            pattern_fault_from(value, at + 2)
        }
    } else if stands_at(value, at, seq!['(', '?']) && !stands_at(value, at, seq!['(', '?', ':']) {
        Some("parameter pattern uses unsupported group syntax"@)
    } else if stands_at(value, at, seq!['[', '[', ':']) {
        Some("parameter pattern cannot use POSIX character classes"@)
    } else if stands_at(value, at, seq!['[', ']']) || stands_at(value, at, seq!['[', '^', ']']) {
        Some(
            "parameter pattern must escape an initial closing bracket in a character class"@,
        )
    } else {
        pattern_fault_from(value, at + 1)
    }
}

/// Why a pattern is refused, if so.
pub open spec fn pattern_fault(value: Seq<char>) -> Option<Seq<char>> {
    either(
        unless(
            text::every(value, |ch: char| is_visible(ch)),
            "parameter pattern must contain only printable ASCII"@,
        ),
        pattern_fault_from(value, 0),
    )
}

fn two_at(value: &Vec<char>, at: usize, first: char, second: char) -> (result: bool)
    requires
        at < value.len(),
    ensures
        result == stands_at(value@, at as int, seq![first, second]),
{
    let result = value.len() - at >= 2 && value[at] == first && value[at + 1] == second;
    proof {
        if value.len() - at >= 2 {
            let part = value@.subrange(at as int, at + 2);
            assert(part[0] == value@[at as int] && part[1] == value@[at + 1]);
            if result {
                assert(part =~= seq![first, second]);
            }
        }
    }
    result
}

fn three_at(value: &Vec<char>, at: usize, first: char, second: char, third: char) -> (result: bool)
    requires
        at < value.len(),
    ensures
        result == stands_at(value@, at as int, seq![first, second, third]),
{
    let result = value.len() - at >= 3 && value[at] == first && value[at + 1] == second && value[at
        + 2] == third;
    proof {
        if value.len() - at >= 3 {
            let part = value@.subrange(at as int, at + 3);
            assert(part[0] == value@[at as int] && part[1] == value@[at + 1] && part[2] == value@[at
                + 2]);
            if result {
                assert(part =~= seq![first, second, third]);
            }
        }
    }
    result
}

/// Checks a pattern.
pub fn validate_pattern(value: &str) -> (result: Result<(), String>)
    ensures
        tells(result, pattern_fault(value@)),
{
    if !visible(value) {
        return Err("parameter pattern must contain only printable ASCII".to_owned());
    }
    let all = text::chars(value);
    let mut index: usize = 0;
    while index < all.len()
        invariant
            index <= all.len(),
            all@ == value@,
            text::every(value@, |ch: char| is_visible(ch)),
            pattern_fault(value@) == pattern_fault_from(value@, index as int),
        decreases all.len() - index,
    {
        if all[index] == '\\' {
            if all.len() - index < 2 || !escapable(all[index + 1]) {
                return Err("parameter pattern uses an unsupported escape".to_owned());
            }
            index = index + 2;
        } else {
            if two_at(&all, index, '(', '?') && !three_at(&all, index, '(', '?', ':') {
                return Err("parameter pattern uses unsupported group syntax".to_owned());
            }
            if three_at(&all, index, '[', '[', ':') {
                return Err("parameter pattern cannot use POSIX character classes".to_owned());
            }
            if two_at(&all, index, '[', ']') || three_at(&all, index, '[', '^', ']') {
                return Err(
                    "parameter pattern must escape an initial closing bracket in a character class".to_owned(),
                );
            }
            index = index + 1;
        }
    }
    Ok(())
}

/// The number of digits from an index on.
pub open spec fn digit_run(value: Seq<char>, at: int) -> nat
    decreases value.len() - at,
{
    if 0 <= at < value.len() && text::is_digit(value[at]) {
        1 + digit_run(value, at + 1)
    } else {
        0
    }
}

proof fn lemma_digit_run(value: Seq<char>, at: int)
    requires
        0 <= at <= value.len(),
    ensures
        at + digit_run(value, at) <= value.len(),
    decreases value.len() - at,
{
    if at < value.len() && text::is_digit(value[at]) {
        lemma_digit_run(value, at + 1);
    }
}

fn skip_digits(value: &Vec<char>, at: usize) -> (result: usize)
    requires
        at <= value.len(),
    ensures
        result == at + digit_run(value@, at as int),
        at <= result <= value.len(),
{
    let mut index: usize = at;
    while index < value.len() && text::digit(value[index])
        invariant
            at <= index <= value.len(),
            at + digit_run(value@, at as int) == index + digit_run(value@, index as int),
        decreases value.len() - index,
    {
        index = index + 1;
    }
    index
}

/// Where the bounds of a repetition end, the index of the closing brace; or why they are refused. The
/// opening brace is at `at`.
pub open spec fn bounds_end(value: Seq<char>, at: int) -> Result<int, Seq<char>> {
    let first = digit_run(value, at + 1);
    let after = at + 1 + first;
    if first == 0 || (first > 1 && value[at + 1] == '0') {
        Err("body patterns must escape literal opening braces"@)
    } else if after < value.len() && value[after] == ',' {
        let second = digit_run(value, after + 1);
        let end = after + 1 + second;
        if second > 1 && value[after + 1] == '0' {
            Err("body patterns cannot use leading zeros in repetition bounds"@)
        } else if end < value.len() && value[end] == '}' {
            Ok(end)
        } else {
            Err("body patterns require valid repetition bounds"@)
        }
    } else if after < value.len() && value[after] == '}' {
        Ok(after)
    } else {
        Err("body patterns require valid repetition bounds"@)
    }
}

fn bounds(value: &Vec<char>, at: usize) -> (result: Result<usize, String>)
    requires
        at < value.len(),
    ensures
        match (result, bounds_end(value@, at as int)) {
            (Ok(end), Ok(expected)) => end == expected && at < end < value.len(),
            (Err(reason), Err(expected)) => reason@ == expected,
            _ => false,
        },
{
    let start: usize = at + 1;
    let after: usize = skip_digits(value, start);
    if after == start || (after - start > 1 && value[start] == '0') {
        return Err("body patterns must escape literal opening braces".to_owned());
    }
    let mut end: usize = after;
    if after < value.len() && value[after] == ',' {
        let second: usize = after + 1;
        end = skip_digits(value, second);
        if end - second > 1 && value[second] == '0' {
            return Err("body patterns cannot use leading zeros in repetition bounds".to_owned());
        }
    }
    if end < value.len() && value[end] == '}' {
        Ok(end)
    } else {
        Err("body patterns require valid repetition bounds".to_owned())
    }
}

/// Whether the character right behind an index is the given one.
pub open spec fn next_is(value: Seq<char>, at: int, ch: char) -> bool {
    at + 1 < value.len() && value[at + 1] == ch
}

/// Whether the character right behind an index repeats what is before it.
pub open spec fn next_repeats(value: Seq<char>, at: int) -> bool {
    next_is(value, at, '*') || next_is(value, at, '+') || next_is(value, at, '?') || next_is(
        value,
        at,
        '{',
    )
}

/// Why a pattern for bodies is refused from an index on, inside a class or outside, if so.
pub open spec fn body_fault_from(value: Seq<char>, at: int, class: bool) -> Option<Seq<char>>
    decreases value.len() - at,
{
    if at >= value.len() {
        None
    } else if value[at] == '\\' {
        if at + 1 >= value.len() {
            None
        } else if is_shorthand(value[at + 1]) || (value[at + 1] == '-' && !class) {
            Some("body patterns require explicit ASCII classes and escaped syntax punctuation"@)
        } else {
            body_fault_from(value, at + 2, class)
        }
    } else if value[at] == '[' {
        if class || next_is(value, at, '^') {
            Some("body patterns cannot use nested or negated classes"@)
        } else {
            body_fault_from(value, at + 1, true)
        }
    } else if value[at] == ']' {
        if class {
            body_fault_from(value, at + 1, false)
        } else {
            Some("body patterns must escape literal closing brackets"@)
        }
    } else if class {
        body_fault_from(value, at + 1, class)
    } else if value[at] == '.' {
        Some("body patterns cannot use wildcard dots"@)
    } else if (value[at] == '^' || value[at] == '$') && next_repeats(value, at) {
        Some("body patterns cannot quantify anchors directly"@)
    } else if value[at] == '{' {
        match bounds_end(value, at) {
            Ok(end) => if end > at {
                body_fault_from(value, end + 1, class)
            } else {
                None
            },
            Err(reason) => Some(reason),
        }
    } else if value[at] == '}' {
        Some("body patterns must escape literal closing braces"@)
    } else {
        body_fault_from(value, at + 1, class)
    }
}

/// Why a pattern for bodies is refused, if so.
pub open spec fn body_pattern_fault(value: Seq<char>) -> Option<Seq<char>> {
    either(pattern_fault(value), body_fault_from(value, 0, false))
}

/// Checks a pattern for bodies.
pub fn validate_body_pattern(value: &str) -> (result: Result<(), String>)
    ensures
        tells(result, body_pattern_fault(value@)),
{
    match validate_pattern(value) {
        Ok(()) => {},
        Err(reason) => {
            return Err(reason);
        },
    }
    let all = text::chars(value);
    let mut class = false;
    let mut index: usize = 0;
    while index < all.len()
        invariant
            all@ == value@,
            index <= all.len(),
            body_pattern_fault(value@) == body_fault_from(value@, index as int, class),
        decreases all.len() - index,
    {
        let ch = all[index];
        if ch == '\\' {
            if index + 1 >= all.len() {
                return Ok(());
            }
            if shorthand(all[index + 1]) || (all[index + 1] == '-' && !class) {
                return Err(
                    "body patterns require explicit ASCII classes and escaped syntax punctuation".to_owned(),
                );
            }
            index = index + 2;
        } else if ch == '[' {
            if class || (index + 1 < all.len() && all[index + 1] == '^') {
                return Err("body patterns cannot use nested or negated classes".to_owned());
            }
            class = true;
            index = index + 1;
        } else if ch == ']' {
            if !class {
                return Err("body patterns must escape literal closing brackets".to_owned());
            }
            class = false;
            index = index + 1;
        } else if class {
            index = index + 1;
        } else if ch == '.' {
            return Err("body patterns cannot use wildcard dots".to_owned());
        } else if (ch == '^' || ch == '$') && index + 1 < all.len() && (all[index + 1] == '*'
            || all[index + 1] == '+' || all[index + 1] == '?' || all[index + 1] == '{') {
            return Err("body patterns cannot quantify anchors directly".to_owned());
        } else if ch == '{' {
            match bounds(&all, index) {
                Ok(end) => {
                    index = end + 1;
                },
                Err(reason) => {
                    return Err(reason);
                },
            }
        } else if ch == '}' {
            return Err("body patterns must escape literal closing braces".to_owned());
        } else {
            index = index + 1;
        }
    }
    Ok(())
}

/// The pattern from an index on with every bracket, ampersand and tilde inside a class escaped.
pub open spec fn normalized_from(value: Seq<char>, at: int, class: bool) -> Seq<char>
    decreases value.len() - at,
{
    if at >= value.len() {
        Seq::empty()
    } else if value[at] == '\\' {
        if at + 1 < value.len() {
            seq!['\\', value[at + 1]] + normalized_from(value, at + 2, class)
        } else {
            seq!['\\']
        }
    } else if value[at] == '[' {
        if class {
            seq!['\\', '['] + normalized_from(value, at + 1, class)
        } else {
            seq!['['] + normalized_from(value, at + 1, true)
        }
    } else if value[at] == ']' {
        seq![']'] + normalized_from(value, at + 1, false)
    } else if class && value[at] == '&' {
        seq!['\\', 'x', '2', '6'] + normalized_from(value, at + 1, class)
    } else if class && value[at] == '~' {
        seq!['\\', 'x', '7', 'e'] + normalized_from(value, at + 1, class)
    } else {
        seq![value[at]] + normalized_from(value, at + 1, class)
    }
}

/// The expression that a whole value has to match.
pub open spec fn anchored(value: Seq<char>) -> Seq<char> {
    "\\A(?:"@ + normalized_from(value, 0, false) + ")\\z"@
}

/// The expression that a whole value has to match, or nothing where it does not compile.
pub fn compile_pattern(value: &str) -> (result: Option<String>)
    ensures
        text::view_of(result) == (if pattern::regex_valid(anchored(value@)) {
            Some(anchored(value@))
        } else {
            None
        }),
{
    let all = text::chars(value);
    let mut normalized = String::new();
    let mut class = false;
    let mut index: usize = 0;
    assert(normalized@ + normalized_from(value@, 0, false) == normalized_from(value@, 0, false));
    while index < all.len()
        invariant
            all@ == value@,
            index <= all.len(),
            normalized@ + normalized_from(value@, index as int, class) == normalized_from(
                value@,
                0,
                false,
            ),
        decreases all.len() - index,
    {
        let ch = all[index];
        let ghost front = normalized@;
        let ghost rest = normalized_from(value@, index as int, class);
        if ch == '\\' {
            normalized.push(ch);
            index = index + 1;
            if index < all.len() {
                normalized.push(all[index]);
                index = index + 1;
            }
        } else if ch == '[' {
            if class {
                normalized.push('\\');
            }
            normalized.push('[');
            class = true;
            index = index + 1;
        } else if ch == ']' {
            normalized.push(']');
            class = false;
            index = index + 1;
        } else if class && ch == '&' {
            normalized.push('\\');
            normalized.push('x');
            normalized.push('2');
            normalized.push('6');
            index = index + 1;
        } else if class && ch == '~' {
            normalized.push('\\');
            normalized.push('x');
            normalized.push('7');
            normalized.push('e');
            index = index + 1;
        } else {
            normalized.push(ch);
            index = index + 1;
        }
        proof {
            let next = normalized_from(value@, index as int, class);
            let added = normalized@.skip(front.len() as int);
            assert(normalized@ == front + added);
            assert(added + next == rest);
            assert(normalized@ + next == front + (added + next));
        }
    }
    assert(normalized_from(value@, index as int, class) == Seq::<char>::empty());
    assert(normalized@ + Seq::<char>::empty() == normalized@);
    let whole = text::cat3("\\A(?:", &normalized, ")\\z");
    if pattern::compiles(&whole) {
        Some(whole)
    } else {
        None
    }
}

/// A name of a parameter starts with a letter and goes on with letters, digits and underscores, sixty-four at most.
pub proof fn lemma_parameter_names(value: Seq<char>, at: int)
    ensures
        is_parameter_name(value) ==> 1 <= value.len() <= 64 && text::is_letter(value[0]),
        is_parameter_name(value) && 0 <= at < value.len() ==> text::is_alnum(value[at]) || value[at] == '_',
        1 <= value.len() <= 64 && text::is_letter(value[0]) && (forall|i: int|
            0 <= i < value.len() ==> text::is_alnum(#[trigger] value[i]) || value[i] == '_') ==> is_parameter_name(
            value,
        ),
{
    let test = |ch: char| text::is_alnum(ch) || ch == '_';
    if is_parameter_name(value) && 0 <= at < value.len() {
        assert(test(value[at]));
    }
}

/// An identifier holds letters, digits and four marks, and is neither dot nor two dots.
pub proof fn lemma_identifiers(value: Seq<char>, at: int)
    ensures
        is_identifier(value) ==> value.len() > 0 && value != "."@ && value != ".."@,
        is_identifier(value) && 0 <= at < value.len() ==> text::is_alnum(value[at]) || value[at] == '_' || value[at]
            == '.' || value[at] == '~' || value[at] == '-',
        value.len() > 2 && (forall|i: int| 0 <= i < value.len() ==> text::is_alnum(#[trigger] value[i]))
            ==> is_identifier(value),
{
    reveal_strlit(".");
    reveal_strlit("..");
    assert("."@.len() == 1 && ".."@.len() == 2);
    let test = |ch: char| is_identifier_char(ch);
    if is_identifier(value) && 0 <= at < value.len() {
        assert(test(value[at]));
    }
}

/// A pattern is printable, and each backslash in it escapes what may be escaped; groups and classes have no special
/// forms.
pub proof fn lemma_patterns(value: Seq<char>, at: int)
    requires
        0 <= at < value.len(),
    ensures
        pattern_fault(value) is None ==> ' ' <= value[at] <= '~',
        value[at] == '\\' && (at + 1 >= value.len() || !is_escapable(value[at + 1])) ==> pattern_fault_from(
            value,
            at,
        ) is Some,
        value[at] == '\\' && at + 1 < value.len() && is_escapable(value[at + 1]) ==> pattern_fault_from(value, at)
            == pattern_fault_from(value, at + 2),
        value[at] == '(' && at + 2 < value.len() && value[at + 1] == '?' && value[at + 2] != ':'
            ==> pattern_fault_from(value, at) is Some,
        value[at] == '[' && at + 2 < value.len() && value[at + 1] == '[' && value[at + 2] == ':'
            ==> pattern_fault_from(value, at) is Some,
        value[at] == '[' && at + 1 < value.len() && value[at + 1] == ']' ==> pattern_fault_from(value, at) is Some,
        value[at] == '[' && at + 2 < value.len() && value[at + 1] == '^' && value[at + 2] == ']'
            ==> pattern_fault_from(value, at) is Some,
        value[at] != '\\' && value[at] != '(' && value[at] != '[' ==> pattern_fault_from(value, at)
            == pattern_fault_from(value, at + 1),
{
    let test = |ch: char| is_visible(ch);
    if text::every(value, test) {
        assert(test(value[at]));
    }
    if at + 2 < value.len() {
        let three = value.subrange(at, at + 3);
        assert(three[0] == value[at] && three[1] == value[at + 1] && three[2] == value[at + 2]);
        assert(value[at] == '[' && value[at + 1] == '[' && value[at + 2] == ':' ==> three =~= seq!['[', '[', ':']);
        assert(value[at] == '[' && value[at + 1] == '^' && value[at + 2] == ']' ==> three =~= seq!['[', '^', ']']);
        assert(three == seq!['(', '?', ':'] ==> value[at + 2] == ':');
    }
    if at + 1 < value.len() {
        let two = value.subrange(at, at + 2);
        assert(two[0] == value[at] && two[1] == value[at + 1]);
        assert(value[at] == '(' && value[at + 1] == '?' ==> two =~= seq!['(', '?']);
        assert(value[at] == '[' && value[at + 1] == ']' ==> two =~= seq!['[', ']']);
        assert(two == seq!['(', '?'] ==> value[at] == '(');
        assert(two == seq!['[', ']'] ==> value[at] == '[');
    }
    assert(stands_at(value, at, seq!['(', '?']) ==> value[at] == '(') by {
        if stands_at(value, at, seq!['(', '?']) {
            assert(value.subrange(at, at + 2)[0] == value[at]);
        }
    }
    assert(stands_at(value, at, seq!['[', '[', ':']) ==> value[at] == '[') by {
        if stands_at(value, at, seq!['[', '[', ':']) {
            assert(value.subrange(at, at + 3)[0] == value[at]);
        }
    }
    assert(stands_at(value, at, seq!['[', ']']) ==> value[at] == '[') by {
        if stands_at(value, at, seq!['[', ']']) {
            assert(value.subrange(at, at + 2)[0] == value[at]);
        }
    }
    assert(stands_at(value, at, seq!['[', '^', ']']) ==> value[at] == '[') by {
        if stands_at(value, at, seq!['[', '^', ']']) {
            assert(value.subrange(at, at + 3)[0] == value[at]);
        }
    }
}

/// A pattern for a body holds explicit classes only: no shorthands, no dots, no nested or negated classes, no bare
/// brackets and braces.
pub proof fn lemma_body_patterns(value: Seq<char>, at: int, class: bool)
    requires
        0 <= at < value.len(),
    ensures
        body_pattern_fault(value) is None ==> pattern_fault(value) is None && body_fault_from(value, 0, false)
            is None,
        value[at] == '.' && !class ==> body_fault_from(value, at, class) is Some,
        value[at] == '.' && class ==> body_fault_from(value, at, class) == body_fault_from(value, at + 1, class),
        value[at] == '[' && class ==> body_fault_from(value, at, class) is Some,
        value[at] == '[' && at + 1 < value.len() && value[at + 1] == '^' ==> body_fault_from(value, at, class)
            is Some,
        value[at] == '[' && !class && at + 1 < value.len() && value[at + 1] != '^' ==> body_fault_from(
            value,
            at,
            class,
        ) == body_fault_from(value, at + 1, true),
        value[at] == ']' && !class ==> body_fault_from(value, at, class) is Some,
        value[at] == ']' && class ==> body_fault_from(value, at, class) == body_fault_from(value, at + 1, false),
        value[at] == '}' && !class ==> body_fault_from(value, at, class) is Some,
        value[at] == '\\' && at + 1 < value.len() && (value[at + 1] == 'd' || value[at + 1] == 'D' || value[at + 1]
            == 's' || value[at + 1] == 'S' || value[at + 1] == 'w' || value[at + 1] == 'W') ==> body_fault_from(
            value,
            at,
            class,
        ) is Some,
        value[at] == '\\' && at + 1 < value.len() && value[at + 1] == '-' && !class ==> body_fault_from(
            value,
            at,
            class,
        ) is Some,
        value[at] == '\\' && at + 1 < value.len() && value[at + 1] == '.' ==> body_fault_from(value, at, class)
            == body_fault_from(value, at + 2, class),
        (value[at] == '^' || value[at] == '$') && !class && at + 1 < value.len() && (value[at + 1] == '*'
            || value[at + 1] == '+' || value[at + 1] == '?' || value[at + 1] == '{') ==> body_fault_from(
            value,
            at,
            class,
        ) is Some,
        value[at] == 'a' ==> body_fault_from(value, at, class) == body_fault_from(value, at + 1, class),
{
}

/// Bounds of a repetition are one or two numbers without leading zeros.
pub proof fn lemma_repetition_bounds(value: Seq<char>, at: int)
    requires
        0 <= at < value.len(),
    ensures
        digit_run(value, at + 1) == 0 ==> bounds_end(value, at) is Err,
        digit_run(value, at + 1) > 1 && value[at + 1] == '0' ==> bounds_end(value, at) is Err,
        digit_run(value, at + 1) == 1 && at + 2 < value.len() && value[at + 2] == '}' ==> bounds_end(value, at)
            == Ok::<int, Seq<char>>(at + 2),
        digit_run(value, at + 1) == 1 && at + 3 < value.len() && value[at + 2] == ',' && value[at + 3] == '}'
            ==> bounds_end(value, at) == Ok::<int, Seq<char>>(at + 3),
{
}

/// A pattern matches a value as a whole; inside a class a bracket and the two marks of set operations stand for
/// themselves.
pub proof fn lemma_pattern_anchored(value: Seq<char>, at: int, class: bool)
    requires
        0 <= at < value.len(),
    ensures
        anchored(value) == "\\A(?:"@ + normalized_from(value, 0, false) + ")\\z"@,
        value[at] == '[' && class ==> normalized_from(value, at, class) == seq!['\\', '['] + normalized_from(
            value,
            at + 1,
            class,
        ),
        value[at] == '&' && class ==> normalized_from(value, at, class) == seq!['\\', 'x', '2', '6']
            + normalized_from(value, at + 1, class),
        value[at] == '~' && class ==> normalized_from(value, at, class) == seq!['\\', 'x', '7', 'e']
            + normalized_from(value, at + 1, class),
        value[at] == '&' && !class ==> normalized_from(value, at, class) == seq!['&'] + normalized_from(
            value,
            at + 1,
            class,
        ),
        value[at] == '\\' && at + 1 < value.len() ==> normalized_from(value, at, class) == seq![
            '\\',
            value[at + 1],
        ] + normalized_from(value, at + 2, class),
        value[at] == 'a' ==> normalized_from(value, at, class) == seq!['a'] + normalized_from(
            value,
            at + 1,
            class,
        ),
{
}

} // verus!
