//! What has to be there before the command of a service is written down.

use vstd::prelude::*;
use crate::net::error::{lossy, lossy_text};
use crate::text;

verus! {

/// The words that `shell_words` reads in a line, or the reason that it gives.
pub uninterp spec fn shell_parts(line: Seq<char>) -> Result<Seq<Seq<char>>, Seq<char>>;

/// The contents of words, or the reason why there are none.
pub open spec fn parted(result: Result<Vec<String>, String>) -> Result<Seq<Seq<char>>, Seq<char>> {
    match result {
        Ok(words) => Ok(text::views(words@)),
        Err(reason) => Err(reason@),
    }
}

/// Splits a line of a shell into words: `shell_words::split`, which depends on the line alone.
#[verifier::external_body]
pub(crate) fn shell_split(line: &str) -> (result: Result<Vec<String>, String>)
    ensures
        parted(result) == shell_parts(line@),
{
    shell_words::split(line).map_err(|error| error.to_string())
}

/// The first line of a text.
pub open spec fn first_line_of(value: Seq<char>) -> Seq<char> {
    match text::split_once_of(value, '\n') {
        Some((line, _)) => match text::before_suffix(line, "\r"@) {
            Some(front) => front,
            None => line,
        },
        None => value,
    }
}

fn first_line(value: &str) -> (result: String)
    ensures
        result@ == first_line_of(value@),
{
    match text::split_once(value, '\n') {
        Some((line, _)) => match text::strip_suffix(&line, "\r") {
            Some(front) => front,
            None => line,
        },
        None => value.to_owned(),
    }
}

/// The interpreter that the first bytes of a script name, or why they name none; nothing where they are
/// those of no script.
pub open spec fn interpreter_of(front: Seq<u8>) -> Result<Option<Seq<char>>, Seq<char>> {
    if front.len() < 2 || front[0] != 0x23 || front[1] != 0x21 {
        Ok(None)
    } else {
        match shell_parts(first_line_of(lossy_text(front.skip(2)))) {
            Err(reason) => Err(reason),
            Ok(words) => if words.len() == 0 {
                Ok(None)
            } else {
                Ok(Some(words[0]))
            },
        }
    }
}

fn behind(front: &Vec<u8>) -> (result: Vec<u8>)
    requires
        front@.len() >= 2,
    ensures
        result@ == front@.skip(2),
{
    let mut rest: Vec<u8> = Vec::new();
    let mut index: usize = 2;
    assert(rest@ =~= front@.subrange(2, 2));
    while index < front.len()
        invariant
            2 <= index <= front.len(),
            rest@ == front@.subrange(2, index as int),
        decreases front.len() - index,
    {
        assert(front@.subrange(2, index + 1) =~= front@.subrange(2, index as int).push(
            front@[index as int],
        ));
        rest.push(front[index]);
        index = index + 1;
    }
    assert(front@.subrange(2, front@.len() as int) =~= front@.skip(2));
    rest
}

/// The interpreter that the first bytes of a script name.
pub fn interpreter(front: &Vec<u8>) -> (result: Result<Option<String>, String>)
    ensures
        match (result, interpreter_of(front@)) {
            (Ok(found), Ok(expected)) => text::view_of(found) == expected,
            (Err(reason), Err(expected)) => reason@ == expected,
            _ => false,
        },
{
    if front.len() < 2 || front[0] != 0x23 || front[1] != 0x21 {
        return Ok(None);
    }
    let rest = behind(front);
    match shell_split(&first_line(&lossy(&rest))) {
        Err(reason) => Err(reason),
        Ok(words) => {
            assert(text::views(words@).len() == words@.len());
            if words.len() == 0 {
                Ok(None)
            } else {
                assert(text::views(words@)[0] == words@[0]@);
                Ok(Some(words[0].clone()))
            }
        },
    }
}

/// What has to be there besides the program of a command.
pub enum Need {
    Nothing,
    /// Another command.
    Command(Vec<String>),
    /// A file.
    Script(String),
}

/// The contents of [`Need`].
pub enum NeedView {
    Nothing,
    Command(Seq<Seq<char>>),
    Script(Seq<char>),
}

impl View for Need {
    type V = NeedView;

    open spec fn view(&self) -> NeedView {
        match self {
            Need::Nothing => NeedView::Nothing,
            Need::Command(words) => NeedView::Command(text::views(words@)),
            Need::Script(path) => NeedView::Script(path@),
        }
    }
}

/// Whether a program is a shell.
pub open spec fn is_shell(base: Seq<char>) -> bool {
    base == "sh"@ || base == "bash"@ || base == "zsh"@ || base == "dash"@ || base == "ksh"@
}

fn shell(base: &str) -> (result: bool)
    ensures
        result == is_shell(base@),
{
    text::same(base, "sh") || text::same(base, "bash") || text::same(base, "zsh") || text::same(
        base,
        "dash",
    ) || text::same(base, "ksh")
}

/// Whether a program is Python.
pub open spec fn is_python(base: Seq<char>) -> bool {
    base == "python"@ || base == "python3"@
}

fn python(base: &str) -> (result: bool)
    ensures
        result == is_python(base@),
{
    text::same(base, "python") || text::same(base, "python3")
}

/// Whether a program runs scripts.
pub open spec fn is_runner(base: Seq<char>) -> bool {
    is_shell(base) || is_python(base) || base == "node"@ || base == "ruby"@ || base == "perl"@ || base
        == "php"@ || base == "deno"@
}

fn runner(base: &str) -> (result: bool)
    ensures
        result == is_runner(base@),
{
    shell(base) || python(base) || text::same(base, "node") || text::same(base, "ruby")
        || text::same(base, "perl") || text::same(base, "php") || text::same(base, "deno")
}

/// Whether an argument is followed by a program text in place of a script.
pub open spec fn is_inline(base: Seq<char>, value: Seq<char>) -> bool {
    ||| is_python(base) && (value == "-m"@ || value == "-c"@)
    ||| base == "node"@ && (value == "-e"@ || value == "--eval"@)
    ||| (base == "ruby"@ || base == "perl"@ || base == "php"@) && (value == "-e"@ || value == "-E"@)
    ||| base == "deno"@ && value == "eval"@
    ||| "--eval="@.is_prefix_of(value)
}

fn inline(base: &str, value: &str) -> (result: bool)
    ensures
        result == is_inline(base@, value@),
{
    (python(base) && (text::same(value, "-m") || text::same(value, "-c"))) || (text::same(
        base,
        "node",
    ) && (text::same(value, "-e") || text::same(value, "--eval"))) || ((text::same(base, "ruby")
        || text::same(base, "perl") || text::same(base, "php")) && (text::same(value, "-e")
        || text::same(value, "-E"))) || (text::same(base, "deno") && text::same(value, "eval"))
        || text::starts_with(value, "--eval=")
}

/// Whether an argument takes the next one as its value.
pub open spec fn takes_value(base: Seq<char>, value: Seq<char>) -> bool {
    ||| base == "node"@ && (value == "-r"@ || value == "--require"@ || value == "--loader"@ || value
        == "--import"@)
    ||| base == "ruby"@ && (value == "-I"@ || value == "-r"@)
    ||| base == "perl"@ && (value == "-I"@ || value == "-M"@)
    ||| base == "php"@ && (value == "-c"@ || value == "-d"@)
    ||| base == "deno"@ && (value == "--config"@ || value == "--import-map"@ || value == "--cert"@)
}

fn valued(base: &str, value: &str) -> (result: bool)
    ensures
        result == takes_value(base@, value@),
{
    (text::same(base, "node") && (text::same(value, "-r") || text::same(value, "--require")
        || text::same(value, "--loader") || text::same(value, "--import"))) || (text::same(
        base,
        "ruby",
    ) && (text::same(value, "-I") || text::same(value, "-r"))) || (text::same(base, "perl") && (
    text::same(value, "-I") || text::same(value, "-M"))) || (text::same(base, "php") && (text::same(
        value,
        "-c",
    ) || text::same(value, "-d"))) || (text::same(base, "deno") && (text::same(value, "--config")
        || text::same(value, "--import-map") || text::same(value, "--cert")))
}

/// Whether a word stands before the program in a line of a shell.
pub open spec fn is_before(word: Seq<char>) -> bool {
    word == "exec"@ || word == "command"@ || word.contains('=')
}

/// The place of the program in a line of a shell, from a place on.
pub open spec fn program_from(words: Seq<Seq<char>>, at: int) -> int
    decreases words.len() - at,
{
    if at < 0 || at >= words.len() || !is_before(words[at]) {
        at
    } else {
        program_from(words, at + 1)
    }
}

fn program(words: &Vec<String>) -> (result: usize)
    ensures
        result <= words@.len(),
        result == program_from(text::views(words@), 0),
{
    let ghost all = text::views(words@);
    let mut index: usize = 0;
    while index < words.len()
        invariant
            index <= words.len(),
            all == text::views(words@),
            all.len() == words@.len(),
            program_from(all, 0) == program_from(all, index as int),
        decreases words.len() - index,
    {
        assert(all[index as int] == words@[index as int]@);
        let word = &words[index];
        if !text::same(word, "exec") && !text::same(word, "command") && !text::contains_char(
            word,
            '=',
        ) {
            return index;
        }
        index = index + 1;
    }
    index
}

/// What the arguments of `env` need from a place on, where they decide; the place of the next one where
/// they do not.
pub open spec fn env_need(words: Seq<Seq<char>>, at: int) -> Result<Result<NeedView, int>, Seq<char>> {
    let value = words[at];
    if value == "-u"@ || value == "--unset"@ || value == "-C"@ || value == "--chdir"@ {
        Ok(Err(at + 2))
    } else if value == "-S"@ || value == "--split-string"@ {
        if at + 1 >= words.len() {
            Err("env split-string requires a command"@)
        } else if words.len() == at + 2 {
            match shell_parts(words[at + 1]) {
                Ok(parts) => Ok(Ok(NeedView::Command(parts))),
                Err(reason) => Err(reason),
            }
        } else {
            Ok(Ok(NeedView::Command(words.skip(at + 1))))
        }
    } else if value == "--"@ {
        Ok(Ok(NeedView::Command(words.skip(at + 1))))
    } else if "-"@.is_prefix_of(value) || value.contains('=') {
        Ok(Err(at + 1))
    } else {
        Ok(Ok(NeedView::Command(words.skip(at))))
    }
}

/// What the arguments of a program need from a place on, where they decide; the place of the next one
/// where they do not.
pub open spec fn program_need(base: Seq<char>, words: Seq<Seq<char>>, at: int) -> Result<
    Result<NeedView, int>,
    Seq<char>,
> {
    let value = words[at];
    if is_shell(base) && "-"@.is_prefix_of(value) && value.contains('c') {
        if at + 1 >= words.len() {
            Err("shell -c requires a command string"@)
        } else {
            match shell_parts(words[at + 1]) {
                Err(reason) => Err(reason),
                Ok(parts) => {
                    let start = program_from(parts, 0);
                    if start < parts.len() {
                        Ok(Ok(NeedView::Command(parts.skip(start))))
                    } else {
                        Ok(Ok(NeedView::Nothing))
                    }
                },
            }
        }
    } else if !is_runner(base) || is_inline(base, value) {
        Ok(Ok(NeedView::Nothing))
    } else if takes_value(base, value) {
        Ok(Err(at + 2))
    } else if "-"@.is_prefix_of(value) {
        Ok(Err(at + 1))
    } else {
        Ok(Ok(NeedView::Script(value)))
    }
}

/// What the arguments of a program need from a place on.
pub open spec fn need_from(base: Seq<char>, words: Seq<Seq<char>>, at: int) -> Result<NeedView, Seq<char>>
    decreases words.len() - at,
{
    if at < 0 || at >= words.len() {
        Ok(NeedView::Nothing)
    } else {
        let found = if base == "env"@ {
            env_need(words, at)
        } else {
            program_need(base, words, at)
        };
        match found {
            Err(reason) => Err(reason),
            Ok(Ok(need)) => Ok(need),
            Ok(Err(next)) => if at < next < words.len() {
                need_from(base, words, next)
            } else {
                Ok(NeedView::Nothing)
            },
        }
    }
}

fn rest_of(words: &Vec<String>, from: usize) -> (result: Vec<String>)
    requires
        from <= words@.len(),
    ensures
        text::views(result@) == text::views(words@).skip(from as int),
{
    let ghost all = text::views(words@);
    let mut result: Vec<String> = Vec::new();
    let mut index: usize = from;
    assert(text::views(result@) =~= all.subrange(from as int, from as int));
    while index < words.len()
        invariant
            from <= index <= words.len(),
            all == text::views(words@),
            all.len() == words@.len(),
            text::views(result@) == all.subrange(from as int, index as int),
        decreases words.len() - index,
    {
        let own = words[index].clone();
        assert(all.subrange(from as int, index + 1) =~= all.subrange(
            from as int,
            index as int,
        ).push(own@));
        assert(text::views(result@.push(own)) =~= text::views(result@).push(own@));
        result.push(own);
        index = index + 1;
    }
    assert(all.subrange(from as int, all.len() as int) =~= all.skip(from as int));
    result
}

/// What one argument decides.
enum Found {
    Need(Need),
    Skip(bool),
}

spec fn shows(result: Result<Found, String>, expected: Result<Result<NeedView, int>, Seq<char>>, at: int) -> bool {
    match (result, expected) {
        (Ok(Found::Need(need)), Ok(Ok(expected))) => need@ == expected,
        (Ok(Found::Skip(two)), Ok(Err(next))) => next == at + (if two {
            2int
        } else {
            1int
        }),
        (Err(reason), Err(expected)) => reason@ == expected,
        _ => false,
    }
}

fn env_found(words: &Vec<String>, at: usize) -> (result: Result<Found, String>)
    requires
        at < words@.len(),
    ensures
        shows(result, env_need(text::views(words@), at as int), at as int),
{
    let value = &words[at];
    let ghost all = text::views(words@);
    assert(all.len() == words@.len());
    assert(all[at as int] == value@);
    let count: usize = words.len();
    if text::same(value, "-u") || text::same(value, "--unset") || text::same(value, "-C")
        || text::same(value, "--chdir") {
        return Ok(Found::Skip(true));
    }
    if text::same(value, "-S") || text::same(value, "--split-string") {
        if at + 1 >= count {
            return Err("env split-string requires a command".to_owned());
        }
        assert(all[at + 1] == words@[at + 1]@);
        if count - at == 2 {
            return match shell_split(&words[at + 1]) {
                Ok(parts) => Ok(Found::Need(Need::Command(parts))),
                Err(reason) => Err(reason),
            };
        }
        return Ok(Found::Need(Need::Command(rest_of(words, at + 1))));
    }
    if text::same(value, "--") {
        return Ok(Found::Need(Need::Command(rest_of(words, at + 1))));
    }
    if text::starts_with(value, "-") || text::contains_char(value, '=') {
        return Ok(Found::Skip(false));
    }
    Ok(Found::Need(Need::Command(rest_of(words, at))))
}

fn program_found(base: &str, words: &Vec<String>, at: usize) -> (result: Result<Found, String>)
    requires
        at < words@.len(),
    ensures
        shows(result, program_need(base@, text::views(words@), at as int), at as int),
{
    let value = &words[at];
    let ghost all = text::views(words@);
    assert(all.len() == words@.len());
    assert(all[at as int] == value@);
    let count: usize = words.len();
    if shell(base) && text::starts_with(value, "-") && text::contains_char(value, 'c') {
        if at + 1 >= count {
            return Err("shell -c requires a command string".to_owned());
        }
        assert(all[at + 1] == words@[at + 1]@);
        return match shell_split(&words[at + 1]) {
            Err(reason) => Err(reason),
            Ok(parts) => {
                assert(text::views(parts@).len() == parts@.len());
                let start = program(&parts);
                if start < parts.len() {
                    Ok(Found::Need(Need::Command(rest_of(&parts, start))))
                } else {
                    Ok(Found::Need(Need::Nothing))
                }
            },
        };
    }
    if !runner(base) || inline(base, value) {
        return Ok(Found::Need(Need::Nothing));
    }
    if valued(base, value) {
        return Ok(Found::Skip(true));
    }
    if text::starts_with(value, "-") {
        return Ok(Found::Skip(false));
    }
    Ok(Found::Need(Need::Script(value.clone())))
}

/// What the arguments of a program need besides it, given the name of the program without its directory
/// and its ending.
pub fn need(base: &str, words: &Vec<String>) -> (result: Result<Need, String>)
    ensures
        match (result, need_from(text::lowercase_of(base@), text::views(words@), 1)) {
            (Ok(need), Ok(expected)) => need@ == expected,
            (Err(reason), Err(expected)) => reason@ == expected,
            _ => false,
        },
{
    let lower = text::lowercase(base);
    let ghost all = text::views(words@);
    let ghost whole = need_from(lower@, all, 1);
    let count: usize = words.len();
    assert(all.len() == count);
    let mut index: usize = 1;
    while index < count
        invariant
            1 <= index,
            count == words@.len(),
            all == text::views(words@),
            all.len() == words@.len(),
            lower@ == text::lowercase_of(base@),
            whole == need_from(lower@, all, 1),
            whole == need_from(lower@, all, index as int),
        decreases count - index,
    {
        let found = if text::same(&lower, "env") {
            env_found(words, index)
        } else {
            program_found(&lower, words, index)
        };
        match found {
            Err(reason) => {
                return Err(reason);
            },
            Ok(Found::Need(need)) => {
                return Ok(need);
            },
            Ok(Found::Skip(two)) => {
                if two && count - index <= 2 {
                    return Ok(Need::Nothing);
                }
                index = if two {
                    index + 2
                } else {
                    index + 1
                };
            },
        }
    }
    Ok(Need::Nothing)
}

/// How deep commands within commands are looked into.
pub const DEPTH: usize = 4;

/// What a command needs besides its program, as far as it is looked into: nothing where the command
/// stands too deep in others.
pub fn follow(depth: usize, base: &str, words: &Vec<String>) -> (result: Result<Need, String>)
    ensures
        match (
            result,
            if depth >= DEPTH {
                Ok(NeedView::Nothing)
            } else {
                need_from(text::lowercase_of(base@), text::views(words@), 1)
            },
        ) {
            (Ok(need), Ok(expected)) => need@ == expected,
            (Err(reason), Err(expected)) => reason@ == expected,
            _ => false,
        },
{
    if depth >= DEPTH {
        Ok(Need::Nothing)
    } else {
        need(base, words)
    }
}

/// Which programs are shells, and which run a script.
pub proof fn lemma_runners(value: Seq<char>)
    ensures
        is_shell("sh"@) && is_runner("sh"@),
        is_shell("bash"@) && is_runner("bash"@),
        is_shell("zsh"@) && is_runner("zsh"@),
        is_shell("dash"@) && is_runner("dash"@),
        is_shell("ksh"@) && is_runner("ksh"@),
        is_runner("node"@),
        is_runner("ruby"@),
        is_runner("perl"@),
        is_runner("php"@),
        is_runner("deno"@),
        is_runner("python"@),
        is_runner("python3"@),
        is_python("python"@) && is_python("python3"@),
        value.len() > 7 ==> !is_runner(value),
        value.len() < 2 ==> !is_runner(value),
{
    reveal_strlit("sh");
    reveal_strlit("bash");
    reveal_strlit("zsh");
    reveal_strlit("dash");
    reveal_strlit("ksh");
    reveal_strlit("node");
    reveal_strlit("ruby");
    reveal_strlit("perl");
    reveal_strlit("php");
    reveal_strlit("deno");
    reveal_strlit("python");
    reveal_strlit("python3");
    assert("sh"@.len() == 2);
    assert("bash"@.len() == 4 && "bash"@[0] == 'b');
    assert("zsh"@.len() == 3 && "zsh"@[0] == 'z');
    assert("dash"@.len() == 4 && "dash"@[0] == 'd' && "dash"@[1] == 'a');
    assert("ksh"@.len() == 3 && "ksh"@[0] == 'k');
    assert("node"@.len() == 4 && "node"@[0] == 'n');
    assert("ruby"@.len() == 4 && "ruby"@[0] == 'r');
    assert("perl"@.len() == 4 && "perl"@[0] == 'p');
    assert("php"@.len() == 3 && "php"@[0] == 'p');
    assert("deno"@.len() == 4 && "deno"@[0] == 'd' && "deno"@[1] == 'e');
    assert("python"@.len() == 6);
    assert("python3"@.len() == 7);
}

/// A program that is given on the command line, or a module, needs no script; an option with a value takes the next
/// word with it.
pub proof fn lemma_runner_options(base: Seq<char>, words: Seq<Seq<char>>, at: int)
    requires
        0 <= at < words.len(),
    ensures
        base == "python3"@ && (words[at] == "-m"@ || words[at] == "-c"@) ==> program_need(base, words, at)
            == Ok::<Result<NeedView, int>, Seq<char>>(Ok(NeedView::Nothing)),
        base == "python"@ && (words[at] == "-m"@ || words[at] == "-c"@) ==> program_need(base, words, at)
            == Ok::<Result<NeedView, int>, Seq<char>>(Ok(NeedView::Nothing)),
        base == "node"@ && (words[at] == "-e"@ || words[at] == "--eval"@) ==> program_need(base, words, at)
            == Ok::<Result<NeedView, int>, Seq<char>>(Ok(NeedView::Nothing)),
        (base == "ruby"@ || base == "perl"@ || base == "php"@) && (words[at] == "-e"@ || words[at] == "-E"@)
            ==> program_need(base, words, at) == Ok::<Result<NeedView, int>, Seq<char>>(Ok(NeedView::Nothing)),
        base == "deno"@ && words[at] == "eval"@ ==> program_need(base, words, at) == Ok::<
            Result<NeedView, int>,
            Seq<char>,
        >(Ok(NeedView::Nothing)),
        takes_value("node"@, "-r"@) && takes_value("node"@, "--require"@) && takes_value("node"@, "--loader"@)
            && takes_value("node"@, "--import"@),
        takes_value("ruby"@, "-I"@) && takes_value("ruby"@, "-r"@) && takes_value("perl"@, "-I"@) && takes_value(
            "perl"@,
            "-M"@,
        ) && takes_value("php"@, "-c"@) && takes_value("php"@, "-d"@),
        takes_value("deno"@, "--config"@) && takes_value("deno"@, "--import-map"@) && takes_value(
            "deno"@,
            "--cert"@,
        ),
        !is_runner(base) ==> program_need(base, words, at) == Ok::<Result<NeedView, int>, Seq<char>>(
            Ok(NeedView::Nothing),
        ),
        is_runner(base) && !("-"@.is_prefix_of(words[at])) && !is_inline(base, words[at]) && !takes_value(
            base,
            words[at],
        ) ==> program_need(base, words, at) == Ok::<Result<NeedView, int>, Seq<char>>(
            Ok(NeedView::Script(words[at])),
        ),
        is_runner(base) && !is_shell(base) && takes_value(base, words[at]) && !is_inline(base, words[at])
            ==> program_need(base, words, at) == Ok::<Result<NeedView, int>, Seq<char>>(Err(at + 2)),
{
    reveal_strlit("sh");
    reveal_strlit("bash");
    reveal_strlit("zsh");
    reveal_strlit("dash");
    reveal_strlit("ksh");
    reveal_strlit("node");
    reveal_strlit("ruby");
    reveal_strlit("perl");
    reveal_strlit("php");
    reveal_strlit("deno");
    reveal_strlit("python");
    reveal_strlit("python3");
    assert("sh"@.len() == 2);
    assert("bash"@.len() == 4 && "bash"@[0] == 'b');
    assert("zsh"@.len() == 3 && "zsh"@[0] == 'z');
    assert("dash"@.len() == 4 && "dash"@[0] == 'd' && "dash"@[1] == 'a');
    assert("ksh"@.len() == 3 && "ksh"@[0] == 'k');
    assert("node"@.len() == 4 && "node"@[0] == 'n');
    assert("ruby"@.len() == 4 && "ruby"@[0] == 'r');
    assert("perl"@.len() == 4 && "perl"@[0] == 'p');
    assert("php"@.len() == 3 && "php"@[0] == 'p');
    assert("deno"@.len() == 4 && "deno"@[0] == 'd' && "deno"@[1] == 'e');
    assert("python"@.len() == 6);
    assert("python3"@.len() == 7);
}

/// A command of a shell is the program behind the assignments in front of it.
pub proof fn lemma_shell_command(base: Seq<char>, words: Seq<Seq<char>>, at: int, parts: Seq<Seq<char>>)
    requires
        0 <= at < words.len(),
        is_shell(base),
        "-"@.is_prefix_of(words[at]),
        words[at].contains('c'),
    ensures
        at + 1 >= words.len() ==> program_need(base, words, at) is Err,
        at + 1 < words.len() && shell_parts(words[at + 1]) == Ok::<Seq<Seq<char>>, Seq<char>>(parts)
            && program_from(parts, 0) < parts.len() ==> program_need(base, words, at) == Ok::<
            Result<NeedView, int>,
            Seq<char>,
        >(Ok(NeedView::Command(parts.skip(program_from(parts, 0))))),
        at + 1 < words.len() && shell_parts(words[at + 1]) == Ok::<Seq<Seq<char>>, Seq<char>>(parts)
            && program_from(parts, 0) >= parts.len() ==> program_need(base, words, at) == Ok::<
            Result<NeedView, int>,
            Seq<char>,
        >(Ok(NeedView::Nothing)),
{
}

/// Assignments and the words for running a program stand before it.
pub proof fn lemma_program_found(words: Seq<Seq<char>>, from: int, at: int)
    requires
        0 <= from <= at <= words.len(),
        forall|i: int|
            from <= i < at ==> (#[trigger] words[i]).contains('=') || words[i] == "exec"@ || words[i]
                == "command"@,
        at < words.len() ==> !words[at].contains('=') && words[at] != "exec"@ && words[at] != "command"@,
    ensures
        program_from(words, from) == at,
    decreases at - from,
{
    if from < at {
        lemma_program_found(words, from + 1, at);
        assert(words[from] == words[from]);
    }
}

/// Behind `env` stands the command, after its options and its assignments.
pub proof fn lemma_env_command(words: Seq<Seq<char>>, at: int)
    requires
        0 <= at < words.len(),
    ensures
        words[at] == "-u"@ || words[at] == "--unset"@ || words[at] == "-C"@ || words[at] == "--chdir"@
            ==> env_need(words, at) == Ok::<Result<NeedView, int>, Seq<char>>(Err(at + 2)),
        (words[at] == "-S"@ || words[at] == "--split-string"@) && at + 1 >= words.len() ==> env_need(words, at)
            is Err,
        words[at] == "--"@ ==> env_need(words, at) == Ok::<Result<NeedView, int>, Seq<char>>(
            Ok(NeedView::Command(words.skip(at + 1))),
        ),
        !("-"@.is_prefix_of(words[at])) && !words[at].contains('=') && words[at].len() == 1 ==> env_need(words, at)
            == Ok::<Result<NeedView, int>, Seq<char>>(Ok(NeedView::Command(words.skip(at)))),
{
    reveal_strlit("-u");
    reveal_strlit("--unset");
    reveal_strlit("-C");
    reveal_strlit("--chdir");
    reveal_strlit("-S");
    reveal_strlit("--split-string");
    reveal_strlit("--");
    assert("-u"@.len() == 2 && "-u"@[1] == 'u');
    assert("--unset"@.len() == 7 && "--unset"@[2] == 'u');
    assert("-C"@.len() == 2 && "-C"@[1] == 'C');
    assert("--chdir"@.len() == 7 && "--chdir"@[2] == 'c');
    assert("-S"@.len() == 2 && "-S"@[1] == 'S');
    assert("--split-string"@.len() == 14);
    assert("--"@.len() == 2 && "--"@[1] == '-');
}

/// A script names its interpreter behind the two marks at its start.
pub proof fn lemma_interpreter_read(front: Seq<u8>, words: Seq<Seq<char>>)
    ensures
        front.len() < 2 || front[0] != 35 || front[1] != 33 ==> interpreter_of(front) == Ok::<
            Option<Seq<char>>,
            Seq<char>,
        >(None),
        front.len() >= 2 && front[0] == 35 && front[1] == 33 && shell_parts(
            first_line_of(lossy_text(front.skip(2))),
        ) == Ok::<Seq<Seq<char>>, Seq<char>>(words) && words.len() > 0 ==> interpreter_of(front) == Ok::<
            Option<Seq<char>>,
            Seq<char>,
        >(Some(words[0])),
{
}

/// Words that skip lead on to what stands behind them; at the end nothing is needed.
pub proof fn lemma_need_found(base: Seq<char>, words: Seq<Seq<char>>, at: int, next: int, need: NeedView)
    requires
        0 <= at < words.len(),
        base != "env"@,
    ensures
        program_need(base, words, at) == Ok::<Result<NeedView, int>, Seq<char>>(Ok(need)) ==> need_from(
            base,
            words,
            at,
        ) == Ok::<NeedView, Seq<char>>(need),
        program_need(base, words, at) == Ok::<Result<NeedView, int>, Seq<char>>(Err(next)) && at < next
            < words.len() ==> need_from(base, words, at) == need_from(base, words, next),
        program_need(base, words, at) == Ok::<Result<NeedView, int>, Seq<char>>(Err(next)) && next >= words.len()
            ==> need_from(base, words, at) == Ok::<NeedView, Seq<char>>(NeedView::Nothing),
        program_need(base, words, at) is Err ==> need_from(base, words, at) is Err,
        need_from(base, words, words.len() as int) == Ok::<NeedView, Seq<char>>(NeedView::Nothing),
{
}

} // verus!
