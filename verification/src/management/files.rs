//! What is in the files that a runtime leaves.

use vstd::prelude::*;
use crate::checks::{either, tells, unless};
use crate::config::values::{below, path_below};
use crate::management::state::Root;
use crate::text;

verus! {

/// Why a file of the records is not read, if so: it lies elsewhere, is a link among the logs, or is no
/// regular file.
pub open spec fn kept_fault(
    root: Seq<char>,
    directory: Seq<char>,
    direct: bool,
    link: bool,
    regular: bool,
) -> Option<Seq<char>> {
    either(
        unless(
            directory == "logs"@ || directory == "health"@,
            "unknown managed directory "@ + directory,
        ),
        either(
            unless(direct, "managed file must be directly within "@ + path_below(root, directory)),
            either(
                unless(directory != "logs"@ || !link, "log file must not be a symlink"@),
                unless(regular, "managed file must be regular"@),
            ),
        ),
    )
}

/// Checks a file of the records, given whether it lies directly in its directory, is a link, and leads to
/// a regular file.
pub fn check_kept(root: &Root, directory: &str, direct: bool, link: bool, regular: bool) -> (result:
    Result<(), String>)
    ensures
        tells(result, kept_fault(root.path@, directory@, direct, link, regular)),
{
    let logs = text::same(directory, "logs");
    if !logs && !text::same(directory, "health") {
        return Err(text::cat("unknown managed directory ", directory));
    }
    if !direct {
        return Err(
            text::cat("managed file must be directly within ", &below(&root.path, directory)),
        );
    }
    if logs && link {
        return Err("log file must not be a symlink".to_owned());
    }
    if !regular {
        return Err("managed file must be regular".to_owned());
    }
    Ok(())
}

/// The largest text of a health URL.
pub const MAX_HEALTH_URL: usize = 8192;

/// The health URL in a file; there is none where it cannot be read or is too long.
pub open spec fn health_url_of(content: Option<Seq<char>>) -> Seq<char> {
    match content {
        Some(value) => if text::byte_len(value) <= MAX_HEALTH_URL {
            text::trim_of(value)
        } else {
            Seq::empty()
        },
        None => Seq::empty(),
    }
}

/// The health URL in a file.
pub fn health_url(content: Option<&str>) -> (result: String)
    ensures
        result@ == health_url_of(text::str_view(content)),
{
    if let Some(value) = content {
        if text::fits(value, MAX_HEALTH_URL) {
            return text::trim(value);
        }
    }
    let empty = String::new();
    assert(empty@ =~= Seq::<char>::empty());
    empty
}

/// A text in which each line ends in the same way.
pub open spec fn unified(value: Seq<char>) -> Seq<char>
    decreases value.len(),
{
    if value.len() == 0 {
        Seq::empty()
    } else if value.len() > 1 && value.last() == '\n' && value[value.len() - 2] == '\r' {
        unified(value.take(value.len() - 2)).push('\n')
    } else {
        unified(value.drop_last()).push(value.last())
    }
}

fn unify(value: &str) -> (result: String)
    ensures
        result@ == unified(value@),
{
    let all = text::chars(value);
    let mut result = String::new();
    let mut index: usize = 0;
    assert(result@ =~= unified(value@.take(0)));
    while index < all.len()
        invariant
            index <= all.len(),
            all@ == value@,
            result@ == unified(value@.take(index as int)),
            index < all.len() && index > 0 ==> !(all@[index - 1] == '\r' && all@[index as int]
                == '\n'),
        decreases all.len() - index,
    {
        let ch = all[index];
        let ghost next = value@.take(index + 1);
        if ch == '\r' && index + 1 < all.len() && all[index + 1] == '\n' {
            proof {
                let wide = value@.take(index + 2);
                assert(wide.take(wide.len() - 2) =~= value@.take(index as int));
                assert(wide.last() == '\n' && wide[wide.len() - 2] == '\r');
            }
            result.push('\n');
            index = index + 2;
        } else {
            proof {
                assert(next.drop_last() =~= value@.take(index as int));
                assert(next.last() == ch);
                if index > 0 {
                    assert(next[next.len() - 2] == value@[index - 1]);
                }
            }
            result.push(ch);
            index = index + 1;
        }
    }
    assert(value@.take(value@.len() as int) == value@);
    result
}

/// How many lines of a log are told.
pub const TAIL: usize = 20;

/// The last of the lines.
pub open spec fn last_lines(lines: Seq<Seq<char>>, count: nat) -> Seq<Seq<char>> {
    if lines.len() > count {
        lines.skip(lines.len() - count)
    } else {
        lines
    }
}

/// The last lines of a log; there are none where it cannot be read.
pub open spec fn log_tail_of(content: Option<Seq<char>>) -> Seq<char> {
    match content {
        Some(value) => text::joined(
            last_lines(
                text::split_of(text::trim_end_char_of(unified(value), '\n'), '\n'),
                TAIL as nat,
            ),
            "\n"@,
        ),
        None => Seq::empty(),
    }
}

/// The last lines of a log.
pub fn log_tail(content: Option<&str>) -> (result: String)
    ensures
        result@ == log_tail_of(text::str_view(content)),
{
    let value = match content {
        Some(value) => value,
        None => {
            let empty = String::new();
            assert(empty@ =~= Seq::<char>::empty());
            return empty;
        },
    };
    let lines = text::split(&text::trim_end_char(&unify(value), '\n'), '\n');
    let ghost all = text::views(lines@);
    assert(all.len() == lines@.len());
    let from: usize = if lines.len() > TAIL {
        lines.len() - TAIL
    } else {
        0
    };
    let mut last: Vec<String> = Vec::new();
    let mut index: usize = from;
    assert(text::views(last@) =~= all.subrange(from as int, from as int));
    while index < lines.len()
        invariant
            from <= index <= lines.len(),
            all == text::views(lines@),
            text::views(last@) == all.subrange(from as int, index as int),
        decreases lines.len() - index,
    {
        let line = lines[index].clone();
        proof {
            assert(all.subrange(from as int, index + 1) =~= all.subrange(
                from as int,
                index as int,
            ).push(line@));
            assert(text::views(last@.push(line)) == text::views(last@).push(line@));
        }
        last.push(line);
        index = index + 1;
    }
    assert(all.subrange(from as int, all.len() as int) =~= last_lines(all, TAIL as nat));
    text::join(&last, "\n")
}

/// A file that is managed lies directly in the directory of the logs or of the health files, and is regular; a log is
/// no link.
pub proof fn lemma_kept_files(root: Seq<char>, directory: Seq<char>, direct: bool, link: bool, regular: bool)
    ensures
        kept_fault(root, directory, direct, link, regular) is None ==> (directory == "logs"@ || directory
            == "health"@) && direct && regular && (directory == "logs"@ ==> !link),
        direct && regular && directory == "health"@ && directory != "logs"@ ==> kept_fault(
            root,
            directory,
            direct,
            link,
            regular,
        ) is None,
        direct && regular && directory == "logs"@ && !link ==> kept_fault(root, directory, direct, link, regular)
            is None,
{
}

/// A health file tells a URL where it is not too large, and nothing where it is not there.
pub proof fn lemma_health_file(content: Seq<char>)
    ensures
        text::byte_len(content) <= 8192 ==> health_url_of(Some(content)) == text::trim_of(content),
        text::byte_len(content) > 8192 ==> health_url_of(Some(content)).len() == 0,
        health_url_of(None).len() == 0,
{
}

/// Of a log the last twenty lines are told.
pub proof fn lemma_last_lines(lines: Seq<Seq<char>>, count: nat, at: int)
    ensures
        lines.len() <= count ==> last_lines(lines, count) == lines,
        lines.len() > count ==> last_lines(lines, count).len() == count,
        lines.len() > count && 0 <= at < count ==> last_lines(lines, count)[at] == lines[lines.len() - count
            + at],
        log_tail_of(None).len() == 0,
{
}

/// The ends of lines are made one; every other character stays.
pub proof fn lemma_line_ends(value: Seq<char>, ch: char)
    ensures
        unified(value.push('\r').push('\n')) == unified(value).push('\n'),
        ch != '\n' ==> unified(value.push(ch)) == unified(value).push(ch),
        unified(Seq::empty()).len() == 0,
{
    let whole = value.push('\r').push('\n');
    assert(whole.take(whole.len() - 2) =~= value);
    assert(value.push(ch).drop_last() =~= value);
}

} // verus!
