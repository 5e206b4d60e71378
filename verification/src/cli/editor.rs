//! The editor of profiles.

use vstd::prelude::*;
use crate::text;

verus! {

/// Whether a character may not stand in the command of an editor.
pub open spec fn is_control(ch: char) -> bool {
    ch == '\u{0}' || ch == '\n' || ch == '\r'
}

/// The note on a character that may not stand in the command of an editor.
pub const CONTROL: &'static str = "editor command must not contain control characters";

/// The words of a command from a place on, after some words and the front of one.
pub open spec fn split_from(
    value: Seq<char>,
    at: int,
    parts: Seq<Seq<char>>,
    part: Seq<char>,
    quote: Option<char>,
    started: bool,
) -> Result<Seq<Seq<char>>, Seq<char>>
    decreases value.len() - at,
{
    if at < 0 || at >= value.len() {
        if quote is Some {
            Err("unterminated quoted string"@)
        } else if started {
            Ok(parts.push(part))
        } else {
            Ok(parts)
        }
    } else {
        let ch = value[at];
        if is_control(ch) {
            Err(CONTROL@)
        } else if ch == '\\' && quote != Some('\'') {
            if at + 1 >= value.len() {
                Err("unterminated escape sequence"@)
            } else if is_control(value[at + 1]) {
                Err(CONTROL@)
            } else {
                split_from(value, at + 2, parts, part.push(value[at + 1]), quote, true)
            }
        } else if quote is Some {
            if quote == Some(ch) {
                split_from(value, at + 1, parts, part, None, started)
            } else {
                split_from(value, at + 1, parts, part.push(ch), quote, started)
            }
        } else if ch == '\'' || ch == '"' {
            split_from(value, at + 1, parts, part, Some(ch), true)
        } else if ch == ' ' || ch == '\t' {
            if started {
                split_from(value, at + 1, parts.push(part), Seq::empty(), None, false)
            } else {
                split_from(value, at + 1, parts, part, None, false)
            }
        } else {
            split_from(value, at + 1, parts, part.push(ch), None, true)
        }
    }
}

/// The words of the command of an editor, or why there are none.
pub open spec fn split_of(value: Seq<char>) -> Result<Seq<Seq<char>>, Seq<char>> {
    match split_from(value, 0, Seq::empty(), Seq::empty(), None, false) {
        Err(reason) => Err(reason),
        Ok(parts) => if parts.len() == 0 || parts[0].len() == 0 {
            Err("editor executable is required"@)
        } else {
            Ok(parts)
        },
    }
}

fn control(ch: char) -> (result: bool)
    ensures
        result == is_control(ch),
{
    ch == '\u{0}' || ch == '\n' || ch == '\r'
}

/// The words of the command of an editor, or why there are none.
pub fn split(value: &str) -> (result: Result<Vec<String>, String>)
    ensures
        match (result, split_of(value@)) {
            (Ok(parts), Ok(expected)) => text::views(parts@) == expected,
            (Err(reason), Err(expected)) => reason@ == expected,
            _ => false,
        },
{
    let all = text::chars(value);
    let ghost whole = split_from(value@, 0, Seq::empty(), Seq::empty(), None, false);
    let mut parts: Vec<String> = Vec::new();
    let mut part = String::new();
    let mut quote: Option<char> = None;
    let mut started = false;
    let mut index: usize = 0;
    assert(text::views(parts@) =~= Seq::<Seq<char>>::empty());
    assert(part@ =~= Seq::<char>::empty());
    while index < all.len()
        invariant
            index <= all.len(),
            all@ == value@,
            whole == split_from(value@, 0, Seq::empty(), Seq::empty(), None, false),
            whole == split_from(
                value@,
                index as int,
                text::views(parts@),
                part@,
                quote,
                started,
            ),
        decreases all.len() - index,
    {
        let ch = all[index];
        if control(ch) {
            return Err(CONTROL.to_owned());
        }
        let single = match quote {
            Some(mark) => mark == '\'',
            None => false,
        };
        if ch == '\\' && !single {
            if all.len() - index < 2 {
                return Err("unterminated escape sequence".to_owned());
            }
            if control(all[index + 1]) {
                return Err(CONTROL.to_owned());
            }
            part.push(all[index + 1]);
            started = true;
            index = index + 2;
        } else {
            match quote {
                Some(mark) => {
                    if mark == ch {
                        quote = None;
                    } else {
                        part.push(ch);
                    }
                },
                None => {
                    if ch == '\'' || ch == '"' {
                        quote = Some(ch);
                        started = true;
                    } else if ch == ' ' || ch == '\t' {
                        if started {
                            assert(text::views(parts@.push(part)) =~= text::views(parts@).push(
                                part@,
                            ));
                            parts.push(part);
                            part = String::new();
                            assert(part@ =~= Seq::<char>::empty());
                            started = false;
                        }
                    } else {
                        part.push(ch);
                        started = true;
                    }
                },
            }
            index = index + 1;
        }
    }
    if quote.is_some() {
        return Err("unterminated quoted string".to_owned());
    }
    if started {
        assert(text::views(parts@.push(part)) =~= text::views(parts@).push(part@));
        parts.push(part);
    }
    assert(text::views(parts@).len() == parts@.len());
    if parts.len() == 0 {
        return Err("editor executable is required".to_owned());
    }
    assert(text::views(parts@)[0] == parts@[0]@);
    if parts[0].is_empty() {
        return Err("editor executable is required".to_owned());
    }
    Ok(parts)
}

/// The options that an editor may be given.
pub open spec fn options_of(name: Seq<char>) -> Option<Seq<Seq<char>>> {
    if name == "vim"@ || name == "nvim"@ {
        Some(seq!["-f"@, "--nofork"@, "-n"@, "-R"@])
    } else if name == "nano"@ {
        Some(
            seq![
                "-w"@,
                "--nowrap"@,
                "-l"@,
                "--linenumbers"@,
                "-m"@,
                "--mouse"@,
                "-E"@,
                "--tabstospaces"@,
            ],
        )
    } else if name == "emacs"@ {
        Some(
            seq![
                "-nw"@,
                "--no-window-system"@,
                "-Q"@,
                "--quick"@,
                "-q"@,
                "--no-init-file"@,
                "--no-site-file"@,
            ],
        )
    } else if name == "code"@ {
        Some(
            seq![
                "-w"@,
                "--wait"@,
                "-n"@,
                "--new-window"@,
                "-r"@,
                "--reuse-window"@,
                "--disable-extensions"@,
            ],
        )
    } else if name == "subl"@ {
        Some(seq!["-w"@, "--wait"@, "-n"@, "--new-window"@, "-b"@, "--background"@])
    } else if name == "notepad"@ {
        Some(Seq::empty())
    } else if name == "vi"@ {
        Some(seq!["-R"@, "-n"@])
    } else {
        None
    }
}

fn own(items: &[&'static str]) -> (result: Vec<String>)
    ensures
        text::views(result@) == items@.map_values(|item: &'static str| item@),
{
    let ghost all = items@.map_values(|item: &'static str| item@);
    let mut result: Vec<String> = Vec::new();
    let mut index: usize = 0;
    assert(text::views(result@) =~= all.take(0));
    while index < items.len()
        invariant
            index <= items.len(),
            all == items@.map_values(|item: &'static str| item@),
            text::views(result@) == all.take(index as int),
        decreases items.len() - index,
    {
        let item = items[index].to_owned();
        assert(all.take(index + 1) == all.take(index as int).push(item@));
        assert(text::views(result@.push(item)) =~= text::views(result@).push(item@));
        result.push(item);
        index = index + 1;
    }
    assert(all.take(all.len() as int) == all);
    result
}

/// The options that an editor may be given.
pub fn options(name: &str) -> (result: Option<Vec<String>>)
    ensures
        match (result, options_of(name@)) {
            (Some(found), Some(expected)) => text::views(found@) == expected,
            (None, None) => true,
            _ => false,
        },
{
    let found = if text::same(name, "vim") || text::same(name, "nvim") {
        own(&["-f", "--nofork", "-n", "-R"])
    } else if text::same(name, "nano") {
        own(
            &[
                "-w",
                "--nowrap",
                "-l",
                "--linenumbers",
                "-m",
                "--mouse",
                "-E",
                "--tabstospaces",
            ],
        )
    } else if text::same(name, "emacs") {
        own(
            &[
                "-nw",
                "--no-window-system",
                "-Q",
                "--quick",
                "-q",
                "--no-init-file",
                "--no-site-file",
            ],
        )
    } else if text::same(name, "code") {
        own(
            &[
                "-w",
                "--wait",
                "-n",
                "--new-window",
                "-r",
                "--reuse-window",
                "--disable-extensions",
            ],
        )
    } else if text::same(name, "subl") {
        own(&["-w", "--wait", "-n", "--new-window", "-b", "--background"])
    } else if text::same(name, "notepad") {
        own(&[])
    } else if text::same(name, "vi") {
        own(&["-R", "-n"])
    } else {
        return None;
    };
    assert(text::views(found@) =~= options_of(name@)->Some_0);
    Some(found)
}

/// The place of the first option that an editor may not be given, from one on.
pub open spec fn refused_from(arguments: Seq<Seq<char>>, allowed: Seq<Seq<char>>, at: int) -> Option<int>
    decreases arguments.len() - at,
{
    if at < 0 || at >= arguments.len() {
        None
    } else if allowed.contains(arguments[at]) {
        refused_from(arguments, allowed, at + 1)
    } else {
        Some(at)
    }
}

/// What is wrong with the command of an editor.
pub open spec fn editor_fault(name: Seq<char>, arguments: Seq<Seq<char>>) -> Option<Seq<char>> {
    match options_of(name) {
        None => Some(
            "unsupported profile editor "@ + text::debug_text(name)
                + "; use vi, vim, nvim, nano, emacs, code, subl, or notepad"@,
        ),
        Some(allowed) => match refused_from(arguments, allowed, 0) {
            None => None,
            Some(at) => Some(
                "unsupported option "@ + text::debug_text(arguments[at]) + " for profile editor "@
                    + text::debug_text(name)
                    + "; shell commands and editor evaluation options are not allowed"@,
            ),
        },
    }
}

/// Checks the command of an editor: it is a known one, and has known options only.
pub fn check(name: &str, arguments: &Vec<String>) -> (result: Result<(), String>)
    ensures
        crate::checks::tells(result, editor_fault(name@, text::views(arguments@))),
{
    let allowed = match options(name) {
        Some(allowed) => allowed,
        None => {
            return Err(
                text::cat3(
                    "unsupported profile editor ",
                    &text::quoted(name),
                    "; use vi, vim, nvim, nano, emacs, code, subl, or notepad",
                ),
            );
        },
    };
    let ghost all = text::views(arguments@);
    let ghost known = text::views(allowed@);
    let mut index: usize = 0;
    while index < arguments.len()
        invariant
            index <= arguments.len(),
            all == text::views(arguments@),
            known == text::views(allowed@),
            options_of(name@) == Some(known),
            refused_from(all, known, 0) == refused_from(all, known, index as int),
        decreases arguments.len() - index,
    {
        assert(all[index as int] == arguments@[index as int]@);
        if !text::contained(&allowed, &arguments[index]) {
            return Err(
                text::cat5(
                    "unsupported option ",
                    &text::quoted(&arguments[index]),
                    " for profile editor ",
                    &text::quoted(name),
                    "; shell commands and editor evaluation options are not allowed",
                ),
            );
        }
        index = index + 1;
    }
    Ok(())
}

/// The editors that may be started.
pub proof fn lemma_editors_known(name: Seq<char>)
    ensures
        options_of("vim"@) is Some,
        options_of("nvim"@) is Some,
        options_of("nano"@) is Some,
        options_of("emacs"@) is Some,
        options_of("code"@) is Some,
        options_of("subl"@) is Some,
        options_of("notepad"@) is Some,
        options_of("vi"@) is Some,
        options_of(name) is Some ==> name == "vim"@ || name == "nvim"@ || name == "nano"@ || name == "emacs"@ || name == "code"@ || name == "subl"@ || name == "notepad"@ || name == "vi"@,
        options_of("notepad"@)->0.len() == 0,
{
    reveal_strlit("vim");
    reveal_strlit("nvim");
    reveal_strlit("nano");
    reveal_strlit("emacs");
    reveal_strlit("code");
    reveal_strlit("subl");
    reveal_strlit("notepad");
    reveal_strlit("vi");
    assert("vim"@.len() == 3);
    assert("nvim"@.len() == 4 && "nvim"@[1] == 'v' && "nvim"@[0] == 'n');
    assert("nano"@.len() == 4 && "nano"@[1] == 'a' && "nano"@[0] == 'n');
    assert("emacs"@.len() == 5);
    assert("code"@.len() == 4 && "code"@[0] == 'c');
    assert("subl"@.len() == 4 && "subl"@[0] == 's');
    assert("notepad"@.len() == 7);
    assert("vi"@.len() == 2);
}

/// An editor is started only with options that it is known to take: none of them runs a command.
pub proof fn lemma_editor_options(name: Seq<char>, arguments: Seq<Seq<char>>, at: int)
    ensures
        options_of(name) is None ==> editor_fault(name, arguments) is Some,
        editor_fault(name, arguments) is None && 0 <= at < arguments.len() ==> options_of(name)->0.contains(
            arguments[at],
        ),
        options_of(name) matches Some(allowed) ==> ((forall|i: int|
            0 <= i < arguments.len() ==> allowed.contains(#[trigger] arguments[i])) ==> editor_fault(
            name,
            arguments,
        ) is None),
        editor_fault(name, arguments) is None && (name == "vim"@ || name == "nvim"@) && 0 <= at
            < arguments.len() ==> arguments[at] == "-f"@ || arguments[at] == "--nofork"@ || arguments[at] == "-n"@
            || arguments[at] == "-R"@,
        editor_fault(name, arguments) is None && name == "vi"@ && 0 <= at < arguments.len() ==> arguments[at]
            == "-R"@ || arguments[at] == "-n"@,
        editor_fault(name, arguments) is None && name == "notepad"@ ==> arguments.len() == 0,
{
    reveal_strlit("vim");
    reveal_strlit("nvim");
    reveal_strlit("nano");
    reveal_strlit("emacs");
    reveal_strlit("code");
    reveal_strlit("subl");
    reveal_strlit("notepad");
    reveal_strlit("vi");
    assert("vim"@.len() == 3);
    assert("nvim"@.len() == 4 && "nvim"@[1] == 'v' && "nvim"@[0] == 'n');
    assert("nano"@.len() == 4 && "nano"@[1] == 'a' && "nano"@[0] == 'n');
    assert("emacs"@.len() == 5);
    assert("code"@.len() == 4 && "code"@[0] == 'c');
    assert("subl"@.len() == 4 && "subl"@[0] == 's');
    assert("notepad"@.len() == 7);
    assert("vi"@.len() == 2);
    if options_of(name) is Some {
        lemma_refused_from(arguments, options_of(name)->0, 0, at);
        if arguments.len() > 0 {
            lemma_refused_from(arguments, options_of(name)->0, 0, 0);
        }
    }
}

proof fn lemma_refused_from(arguments: Seq<Seq<char>>, allowed: Seq<Seq<char>>, from: int, at: int)
    requires
        0 <= from <= arguments.len(),
    ensures
        refused_from(arguments, allowed, from) is None && from <= at < arguments.len() ==> allowed.contains(
            arguments[at],
        ),
        (forall|i: int| from <= i < arguments.len() ==> allowed.contains(#[trigger] arguments[i]))
            ==> refused_from(arguments, allowed, from) is None,
    decreases arguments.len() - from,
{
    if from < arguments.len() {
        lemma_refused_from(arguments, allowed, from + 1, at);
        assert(arguments[from] == arguments[from]);
    }
}

/// A command for an editor is split at blanks outside quotes; a backslash keeps the next character, but not inside
/// single quotes.
pub proof fn lemma_editor_split(
    value: Seq<char>,
    at: int,
    parts: Seq<Seq<char>>,
    part: Seq<char>,
    quote: Option<char>,
    started: bool,
)
    requires
        0 <= at < value.len(),
    ensures
        value[at] == '\u{0}' || value[at] == '\n' || value[at] == '\r' ==> split_from(
            value,
            at,
            parts,
            part,
            quote,
            started,
        ) is Err,
        value[at] == '\\' && quote != Some('\'') && at + 1 < value.len() && value[at + 1] != '\u{0}' && value[at
            + 1] != '\n' && value[at + 1] != '\r' ==> split_from(value, at, parts, part, quote, started)
            == split_from(value, at + 2, parts, part.push(value[at + 1]), quote, true),
        value[at] == '\\' && quote != Some('\'') && at + 1 >= value.len() ==> split_from(
            value,
            at,
            parts,
            part,
            quote,
            started,
        ) is Err,
        value[at] == '\\' && quote == Some('\'') ==> split_from(value, at, parts, part, quote, started)
            == split_from(value, at + 1, parts, part.push('\\'), quote, started),
        (value[at] == '\'' || value[at] == '"') && quote is None ==> split_from(
            value,
            at,
            parts,
            part,
            quote,
            started,
        ) == split_from(value, at + 1, parts, part, Some(value[at]), true),
        (value[at] == '\'' || value[at] == '"') && quote == Some(value[at]) ==> split_from(
            value,
            at,
            parts,
            part,
            quote,
            started,
        ) == split_from(value, at + 1, parts, part, None, started),
        (value[at] == ' ' || value[at] == '\t') && quote is None && started ==> split_from(
            value,
            at,
            parts,
            part,
            quote,
            started,
        ) == split_from(value, at + 1, parts.push(part), Seq::empty(), None, false),
        (value[at] == ' ' || value[at] == '\t') && (quote == Some('"') || quote == Some('\'')) ==> split_from(
            value,
            at,
            parts,
            part,
            quote,
            started,
        ) == split_from(value, at + 1, parts, part.push(value[at]), quote, started),
        value[at] == 'a' && quote is None ==> split_from(value, at, parts, part, quote, started) == split_from(
            value,
            at + 1,
            parts,
            part.push('a'),
            None,
            true,
        ),
{
}

/// A command ends outside quotes and names an executable.
pub proof fn lemma_editor_split_ends(value: Seq<char>, parts: Seq<Seq<char>>, part: Seq<char>, quote: char)
    ensures
        split_from(value, value.len() as int, parts, part, Some(quote), true) is Err,
        split_from(value, value.len() as int, parts, part, None, true) == Ok::<Seq<Seq<char>>, Seq<char>>(
            parts.push(part),
        ),
        split_from(value, value.len() as int, parts, part, None, false) == Ok::<Seq<Seq<char>>, Seq<char>>(
            parts,
        ),
        split_of(value) matches Ok(found) ==> found.len() > 0 && found[0].len() > 0,
{
}

/// The options that each editor may be started with.
pub proof fn lemma_options_listed()
    ensures
        options_of("nano"@) == Some(seq!["-w"@, "--nowrap"@, "-l"@, "--linenumbers"@, "-m"@, "--mouse"@, "-E"@, "--tabstospaces"@]),
        options_of("emacs"@) == Some(seq!["-nw"@, "--no-window-system"@, "-Q"@, "--quick"@, "-q"@, "--no-init-file"@, "--no-site-file"@]),
        options_of("code"@) == Some(seq!["-w"@, "--wait"@, "-n"@, "--new-window"@, "-r"@, "--reuse-window"@, "--disable-extensions"@]),
        options_of("subl"@) == Some(seq!["-w"@, "--wait"@, "-n"@, "--new-window"@, "-b"@, "--background"@]),
        options_of("vim"@) == Some(seq!["-f"@, "--nofork"@, "-n"@, "-R"@]),
        options_of("nvim"@) == Some(seq!["-f"@, "--nofork"@, "-n"@, "-R"@]),
        options_of("vi"@) == Some(seq!["-R"@, "-n"@]),
{
    reveal_strlit("vim");
    reveal_strlit("nvim");
    reveal_strlit("nano");
    reveal_strlit("emacs");
    reveal_strlit("code");
    reveal_strlit("subl");
    reveal_strlit("notepad");
    reveal_strlit("vi");
    assert("vim"@.len() == 3);
    assert("nvim"@.len() == 4 && "nvim"@[1] == 'v' && "nvim"@[0] == 'n');
    assert("nano"@.len() == 4 && "nano"@[1] == 'a' && "nano"@[0] == 'n');
    assert("emacs"@.len() == 5);
    assert("code"@.len() == 4 && "code"@[0] == 'c');
    assert("subl"@.len() == 4 && "subl"@[0] == 's');
    assert("notepad"@.len() == 7);
    assert("vi"@.len() == 2);
}

} // verus!
