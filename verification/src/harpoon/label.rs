//! The names of targets, and the keys by which their URLs are compared.

use vstd::prelude::*;
use crate::config::reference::gives;
use crate::pattern::{self, percent_decoded};
use crate::text;

verus! {

/// A character of a label.
pub open spec fn is_label_char(ch: char) -> bool {
    text::is_lower(ch) || text::is_digit(ch) || ch == '_' || ch == '-'
}

/// Whether the text is the label of a target.
pub open spec fn is_label(label: Seq<char>) -> bool {
    &&& label.len() > 0
    &&& text::byte_len(label) <= 64
    &&& text::is_alnum(label[0])
    &&& text::every(label, |ch: char| is_label_char(ch))
}

/// Whether the text is the label of a target.
pub fn valid_label(label: &str) -> (result: bool)
    ensures
        result == is_label(label@),
{
    let all = text::chars(label);
    if all.len() == 0 || !text::fits(label, 64) || !text::alnum(all[0]) {
        return false;
    }
    let ghost test = |ch: char| is_label_char(ch);
    let mut index: usize = 0;
    while index < all.len()
        invariant
            index <= all.len(),
            all@ == label@,
            test == (|ch: char| is_label_char(ch)),
            forall|i: int| 0 <= i < index ==> test(#[trigger] label@[i]),
        decreases all.len() - index,
    {
        let ch = all[index];
        if !(text::small(ch) || text::digit(ch) || ch == '_' || ch == '-') {
            assert(!test(label@[index as int]));
            return false;
        }
        assert(test(label@[index as int]));
        index = index + 1;
    }
    true
}

/// The smaller of two indexes.
pub open spec fn nearer(left: int, right: int) -> int {
    if left <= right {
        left
    } else {
        right
    }
}

/// Where the host of a URL ends, behind its scheme.
pub open spec fn authority_end(rest: Seq<char>) -> int {
    nearer(
        text::index_in(rest, '/'),
        nearer(text::index_in(rest, '?'), text::index_in(rest, '#')),
    )
}

/// Where the path of a URL ends, behind its host.
pub open spec fn path_end(suffix: Seq<char>) -> int {
    nearer(text::index_in(suffix, '?'), text::index_in(suffix, '#'))
}

/// Whether a segment of a path stays where it is, once it is decoded; the reason where it cannot be
/// decoded.
pub open spec fn segment_fault(segment: Seq<char>) -> Option<Seq<char>> {
    match percent_decoded(segment) {
        Err(reason) => Some(reason),
        Ok(inner) => if inner == "."@ || inner == ".."@ {
            Some("target URL contains invalid path segments"@)
        } else {
            None
        },
    }
}

/// The first fault of the segments of a path.
pub open spec fn path_fault(path: Seq<char>) -> Option<Seq<char>> {
    match percent_decoded(path) {
        Err(reason) => Some(reason),
        Ok(decoded) => {
            let parts = text::split_of(decoded, '/');
            crate::checks::first_fault(parts.len() as int, |i: int| segment_fault(parts[i]))
        },
    }
}

fn check_path(path: &str) -> (result: Result<(), String>)
    ensures
        crate::checks::tells(result, path_fault(path@)),
{
    let decoded = match pattern::percent_decode(path) {
        Ok(decoded) => decoded,
        Err(reason) => {
            return Err(reason);
        },
    };
    let items = text::split(&decoded, '/');
    let ghost parts = text::split_of(decoded@, '/');
    let ghost fault = |i: int| segment_fault(parts[i]);
    assert(parts.len() == items@.len()) by {
        assert(text::views(items@).len() == items@.len());
    }
    let mut index: usize = 0;
    while index < items.len()
        invariant
            index <= items.len(),
            percent_decoded(path@) == Ok::<Seq<char>, Seq<char>>(decoded@),
            parts == text::split_of(decoded@, '/'),
            text::views(items@) == parts,
            parts.len() == items@.len(),
            fault == (|i: int| segment_fault(parts[i])),
            crate::checks::first_fault(parts.len() as int, fault) == crate::checks::fault_from(
                index as int,
                parts.len() as int,
                fault,
            ),
        decreases items.len() - index,
    {
        assert(parts[index as int] == items@[index as int]@);
        assert(fault(index as int) == segment_fault(items@[index as int]@));
        match pattern::percent_decode(&items[index]) {
            Err(reason) => {
                return Err(reason);
            },
            Ok(inner) => {
                if text::same(&inner, ".") || text::same(&inner, "..") {
                    return Err("target URL contains invalid path segments".to_owned());
                }
            },
        }
        index = index + 1;
    }
    Ok(())
}

/// The host of a URL with its capitals made small; a user in front stays as it is.
pub open spec fn small_authority(authority: Seq<char>) -> Seq<char> {
    match text::rsplit_once_of(authority, '@') {
        Some((user, host)) => user + "@"@ + text::lowercase_of(host),
        None => text::lowercase_of(authority),
    }
}

/// The key by which URLs of targets are compared, or why there is none.
pub open spec fn key_of(raw: Seq<char>) -> Result<Seq<char>, Seq<char>> {
    match text::split_at_of(raw, "://"@) {
        None => Err("target URL must include scheme and host"@),
        Some((scheme, rest)) => {
            let end = authority_end(rest);
            let authority = rest.take(end);
            let suffix = rest.skip(end);
            if authority.len() == 0 {
                Err("target URL must include scheme and host"@)
            } else {
                match path_fault(suffix.take(path_end(suffix))) {
                    Some(reason) => Err(reason),
                    None => Ok(
                        text::lowercase_of(scheme) + "://"@ + small_authority(authority) + suffix,
                    ),
                }
            }
        },
    }
}

/// The key by which URLs of targets are compared.
pub fn url_key(raw: &str) -> (result: Result<String, String>)
    ensures
        gives(result, key_of(raw@)),
{
    let (scheme, rest) = match text::split_at(raw, "://") {
        Some(pair) => pair,
        None => {
            return Err("target URL must include scheme and host".to_owned());
        },
    };
    let all = text::chars(&rest);
    assert(all@.skip(0) == rest@);
    let slash: usize = text::index_from(&all, 0, '/');
    let question: usize = text::index_from(&all, 0, '?');
    let hash: usize = text::index_from(&all, 0, '#');
    let nearest: usize = if question <= hash {
        question
    } else {
        hash
    };
    let end: usize = if slash <= nearest {
        slash
    } else {
        nearest
    };
    let authority = text::piece(&all, 0, end);
    let suffix = text::piece(&all, end, all.len());
    proof {
        assert(rest@.take(end as int) == rest@.subrange(0, end as int));
        assert(rest@.skip(end as int) == rest@.subrange(end as int, rest@.len() as int));
    }
    if authority.is_empty() {
        return Err("target URL must include scheme and host".to_owned());
    }
    let tail = text::chars(&suffix);
    assert(tail@.skip(0) == suffix@);
    let first: usize = text::index_from(&tail, 0, '?');
    let second: usize = text::index_from(&tail, 0, '#');
    let stop: usize = if first <= second {
        first
    } else {
        second
    };
    let path = text::piece(&tail, 0, stop);
    assert(suffix@.take(stop as int) == suffix@.subrange(0, stop as int));
    match check_path(&path) {
        Ok(()) => {},
        Err(reason) => {
            return Err(reason);
        },
    }
    let small = match text::rsplit_once(&authority, '@') {
        Some((user, host)) => text::cat3(&user, "@", &text::lowercase(&host)),
        None => text::lowercase(&authority),
    };
    Ok(text::cat(&text::cat3(&text::lowercase(&scheme), "://", &small), &suffix))
}

/// What is left of a text without hyphens and underscores at its end.
pub open spec fn trim_joints(value: Seq<char>) -> Seq<char>
    decreases value.len(),
{
    if value.len() > 0 && (value.last() == '-' || value.last() == '_') {
        trim_joints(value.drop_last())
    } else {
        value
    }
}

/// The first characters of a text.
pub open spec fn first_chars(value: Seq<char>, count: int) -> Seq<char> {
    if value.len() <= count {
        value
    } else {
        value.take(count)
    }
}

/// A label that is made from a base: the base itself, or the base with a number behind it.
pub open spec fn candidate(base: Seq<char>, index: nat) -> Seq<char> {
    if index == 0 {
        first_chars(base, 64)
    } else {
        let suffix = "-"@ + text::decimal_of(index);
        trim_joints(first_chars(base, 64 - suffix.len())) + suffix
    }
}

fn front_chars(value: &Vec<char>, count: usize) -> (result: String)
    ensures
        result@ == first_chars(value@, count as int),
{
    if value.len() <= count {
        text::text(value)
    } else {
        assert(value@.take(count as int) == value@.subrange(0, count as int));
        text::piece(value, 0, count)
    }
}

fn drop_joints(value: &str) -> (result: String)
    ensures
        result@ == trim_joints(value@),
{
    let all = text::chars(value);
    let mut to: usize = all.len();
    assert(value@.subrange(0, value@.len() as int) == value@);
    while to > 0 && (all[to - 1] == '-' || all[to - 1] == '_')
        invariant
            all@ == value@,
            to <= all.len(),
            trim_joints(value@.subrange(0, to as int)) == trim_joints(value@),
        decreases to,
    {
        proof {
            let front = value@.subrange(0, to as int);
            assert(front.last() == value@[to - 1]);
            assert(front.drop_last() == value@.subrange(0, to - 1));
        }
        to = to - 1;
    }
    proof {
        let front = value@.subrange(0, to as int);
        assert(front.len() > 0 ==> front.last() == value@[to - 1]);
    }
    text::piece(&all, 0, to)
}

proof fn lemma_decimal_short(value: nat)
    requires
        value < 10000,
    ensures
        1 <= text::decimal_of(value).len() <= 4,
{
    reveal_with_fuel(text::decimal_of, 5);
}

/// A label that is made from a base.
pub fn make_candidate(base: &str, index: u64) -> (result: String)
    requires
        index < 10000,
    ensures
        result@ == candidate(base@, index as nat),
{
    let all = text::chars(base);
    if index == 0 {
        return front_chars(&all, 64);
    }
    let suffix = text::cat("-", &text::decimal(index));
    let length: usize = text::chars(&suffix).len();
    proof {
        reveal_strlit("-");
        lemma_decimal_short(index as nat);
    }
    let front = front_chars(&all, 64 - length);
    text::cat(&drop_joints(&front), &suffix)
}

/// Every label that is made from a base has sixty-four characters at most.
pub proof fn lemma_candidate_short(base: Seq<char>, index: nat)
    requires
        index < 10000,
    ensures
        candidate(base, index).len() <= 64,
{
    reveal_strlit("-");
    lemma_decimal_short(index);
    if index > 0 {
        let suffix = "-"@ + text::decimal_of(index);
        lemma_joints_shorten(first_chars(base, 64 - suffix.len()));
    }
}

proof fn lemma_joints_shorten(value: Seq<char>)
    ensures
        trim_joints(value).len() <= value.len(),
    decreases value.len(),
{
    if value.len() > 0 {
        lemma_joints_shorten(value.drop_last());
    }
}

/// A label is made of small letters, digits, underscores and dashes, starts with none of the last two, and has at
/// most sixty-four characters.
pub proof fn lemma_label_shape(label: Seq<char>, at: int)
    requires
        is_label(label),
        0 <= at < label.len(),
    ensures
        1 <= label.len() <= 64,
        'a' <= label[at] <= 'z' || '0' <= label[at] <= '9' || label[at] == '_' || label[at] == '-',
        label[0] != '_' && label[0] != '-',
{
    text::lemma_byte_len_bounds(label);
    let test = |ch: char| is_label_char(ch);
    assert(text::every(label, test));
    assert(test(label[at]));
    assert(test(label[0]));
}

/// The key of a URL keeps everything behind its authority as it is, and is in small letters before that; the
/// path holds no segment that steps back, whether it is encoded or not.
pub proof fn lemma_key_keeps_path(raw: Seq<char>, at: int)
    requires
        key_of(raw) is Ok,
    ensures
        text::split_at_of(raw, "://"@) is Some,
        ({
            let (scheme, rest) = text::split_at_of(raw, "://"@)->0;
            let end = authority_end(rest);
            let suffix = rest.skip(end);
            &&& rest.take(end).len() > 0
            &&& suffix.is_suffix_of(key_of(raw)->Ok_0)
            &&& !rest.take(end).contains('@') ==> key_of(raw)->Ok_0 == text::lowercase_of(scheme)
                + "://"@ + text::lowercase_of(rest.take(end)) + suffix
            &&& percent_decoded(suffix.take(path_end(suffix))) is Ok
            &&& 0 <= at < text::split_of(
                percent_decoded(suffix.take(path_end(suffix)))->Ok_0,
                '/',
            ).len() ==> {
                let part = text::split_of(
                    percent_decoded(suffix.take(path_end(suffix)))->Ok_0,
                    '/',
                )[at];
                percent_decoded(part) is Ok && percent_decoded(part)->Ok_0 != "."@ && percent_decoded(
                    part,
                )->Ok_0 != ".."@
            }
        }),
{
    let (scheme, rest) = text::split_at_of(raw, "://"@)->0;
    let end = authority_end(rest);
    let suffix = rest.skip(end);
    let key = key_of(raw)->Ok_0;
    let front = text::lowercase_of(scheme) + "://"@ + small_authority(rest.take(end));
    assert(key == front + suffix);
    assert(key.subrange(key.len() - suffix.len(), key.len() as int) =~= suffix);
    let decoded = percent_decoded(suffix.take(path_end(suffix)))->Ok_0;
    let parts = text::split_of(decoded, '/');
    let faults = |i: int| segment_fault(parts[i]);
    crate::checks::lemma_first_fault(0, parts.len() as int, faults);
    if 0 <= at < parts.len() {
        assert(faults(at) is None);
    }
    if !rest.take(end).contains('@') {
        lemma_no_split(rest.take(end), '@');
    }
}

proof fn lemma_no_split(value: Seq<char>, ch: char)
    requires
        !value.contains(ch),
    ensures
        text::rsplit_once_of(value, ch) is None,
{
    lemma_last_absent(value, ch);
}

proof fn lemma_last_absent(value: Seq<char>, ch: char)
    requires
        !value.contains(ch),
    ensures
        text::last_index_in(value, ch) < 0,
    decreases value.len(),
{
    if value.len() > 0 {
        assert(value[value.len() - 1] == value.last());
        assert forall|i: int| 0 <= i < value.drop_last().len() implies value.drop_last()[i] != ch by {
            assert(value.drop_last()[i] == value[i]);
        }
        lemma_last_absent(value.drop_last(), ch);
    }
}

} // verus!
