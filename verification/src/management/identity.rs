//! What tells a process from another one that later has its number.

use vstd::prelude::*;
use crate::text;
use crate::words::{words, words_of, Break};

verus! {

/// What tells a process from another one that later has its number.
pub struct Identity {
    /// When the process started.
    pub start: String,
    pub executable: String,
}

/// The start of a process in what the system tells of it: the twentieth word behind its name.
pub open spec fn start_of(stat: Seq<char>) -> Option<Seq<char>> {
    match text::rsplit_once_of(stat, ')') {
        None => None,
        Some((_, rest)) => {
            let items = words_of(rest, Break::Space);
            if items.len() > 19 {
                Some(items[19])
            } else {
                None
            }
        },
    }
}

fn start(stat: &str) -> (result: Option<String>)
    ensures
        text::view_of(result) == start_of(stat@),
{
    match text::rsplit_once(stat, ')') {
        None => None,
        Some((_, rest)) => {
            let items = words(&rest, Break::Space);
            assert(text::views(items@).len() == items@.len());
            if items.len() > 19 {
                assert(text::views(items@)[19] == items@[19]@);
                Some(items[19].clone())
            } else {
                None
            }
        },
    }
}

/// The path of an executable, whether or not it is still there.
pub open spec fn executable_of(link: Seq<char>) -> Seq<char> {
    match text::before_suffix(link, " (deleted)"@) {
        Some(path) => path,
        None => link,
    }
}

/// Why a process cannot be told from others.
pub open spec fn inspect_fault(pid: u32) -> Seq<char> {
    "inspect process "@ + text::decimal_of(pid as nat) + " identity"@
}

impl Identity {
    /// Whether what the system tells before and after is about one process.
    pub open spec fn is_steady(before: Seq<char>, after: Seq<char>) -> bool {
        start_of(before) is Some && start_of(before) == start_of(after)
    }

    /// What tells a process from others, given what the system tells of it before and after its
    /// executable is looked up.
    pub fn capture(pid: u32, before: &str, link: &str, after: &str) -> (result: Result<
        Identity,
        String,
    >)
        ensures
            match result {
                Ok(identity) => pid > 0 && Self::is_steady(before@, after@) && start_of(before@)
                    == Some(identity.start@) && identity.executable@ == executable_of(link@),
                Err(reason) => if pid == 0 {
                    reason@ == "process PID must be positive"@
                } else {
                    !Self::is_steady(before@, after@) && reason@ == inspect_fault(pid)
                },
            },
    {
        if pid == 0 {
            return Err("process PID must be positive".to_owned());
        }
        if let (Some(first), Some(second)) = (start(before), start(after)) {
            if text::same(&first, &second) {
                let executable = match text::strip_suffix(link, " (deleted)") {
                    Some(path) => path,
                    None => link.to_owned(),
                };
                return Ok(Identity { start: first, executable });
            }
        }
        Err(text::cat3("inspect process ", &text::decimal(pid as u64), " identity"))
    }

    /// Whether the process that was seen is the recorded one.
    pub open spec fn is_same(self, actual: Identity, windows: bool) -> bool {
        &&& actual.start@ == self.start@
        &&& if windows {
            text::same_folded(actual.executable@, self.executable@)
        } else {
            actual.executable@ == self.executable@
        }
    }

    /// Whether the process with the number is the recorded one, given whether it runs, what it is
    /// or why that is not known, and whether it still runs after that.
    pub fn matches(
        &self,
        pid: u32,
        running: bool,
        actual: Result<Identity, String>,
        still: bool,
        windows: bool,
    ) -> (result: Result<bool, String>)
        ensures
            match result {
                Ok(same) => {
                    ||| !running && !same
                    ||| running && self.is_stable() && match actual {
                        Ok(seen) => same == self.is_same(seen, windows),
                        Err(_) => !still && !same,
                    }
                },
                Err(reason) => running && if self.is_stable() {
                    still && actual is Err && reason@ == actual->Err_0@
                } else {
                    reason@ == "recorded process "@ + text::decimal_of(pid as nat)
                        + " has no stable identity"@
                },
            },
    {
        if !running {
            return Ok(false);
        }
        if self.start.is_empty() || self.executable.is_empty() {
            return Err(
                text::cat3(
                    "recorded process ",
                    &text::decimal(pid as u64),
                    " has no stable identity",
                ),
            );
        }
        match actual {
            Err(reason) => if still {
                Err(reason)
            } else {
                Ok(false)
            },
            Ok(seen) => {
                let same = if windows {
                    text::same_ignoring_case(&seen.executable, &self.executable)
                } else {
                    text::same(&seen.executable, &self.executable)
                };
                Ok(text::same(&seen.start, &self.start) && same)
            },
        }
    }

    /// Whether the record tells a process from others.
    pub open spec fn is_stable(self) -> bool {
        self.start@.len() > 0 && self.executable@.len() > 0
    }
}

/// What is to be done about a process that was told to end.
#[derive(Clone, Copy, PartialEq, Eq, Structural)]
pub enum Ending {
    Over,
    Wait,
}

/// What is to be done about a process that was told to end: it is over, or it is waited for, but not
/// forever.
pub fn ending(pid: u32, there: bool, expired: bool) -> (result: Result<Ending, String>)
    ensures
        match result {
            Ok(Ending::Over) => !there,
            Ok(Ending::Wait) => there && !expired,
            Err(reason) => there && expired && reason@ == "process "@ + text::decimal_of(pid as nat)
                + " did not exit after termination"@,
        },
{
    if !there {
        Ok(Ending::Over)
    } else if expired {
        Err(
            text::cat3(
                "process ",
                &text::decimal(pid as u64),
                " did not exit after termination",
            ),
        )
    } else {
        Ok(Ending::Wait)
    }
}

/// A process is the recorded one where it started at the same time and runs the same executable; only Windows does not
/// tell capitals apart.
pub proof fn lemma_identity_same(recorded: Identity, actual: Identity, windows: bool)
    ensures
        recorded.start@ != actual.start@ ==> !recorded.is_same(actual, windows),
        !windows && recorded.executable@ != actual.executable@ ==> !recorded.is_same(actual, windows),
        recorded.start@ == actual.start@ && recorded.executable@ == actual.executable@ ==> recorded.is_same(
            actual,
            false,
        ),
        windows && recorded.start@ == actual.start@ ==> (recorded.is_same(actual, windows) <==> text::same_folded(
            actual.executable@,
            recorded.executable@,
        )),
        recorded.is_stable() <==> recorded.start@.len() > 0 && recorded.executable@.len() > 0,
{
}

/// The start of a process is the twentieth word behind the last bracket of its line; it is steady where two readings
/// agree.
pub proof fn lemma_start_read(front: Seq<char>, rest: Seq<char>, stat: Seq<char>, after: Seq<char>)
    requires
        text::rsplit_once_of(stat, ')') == Some((front, rest)),
    ensures
        words_of(rest, Break::Space).len() > 19 ==> start_of(stat) == Some(words_of(rest, Break::Space)[19]),
        words_of(rest, Break::Space).len() <= 19 ==> start_of(stat) is None,
        Identity::is_steady(stat, after) ==> start_of(stat) is Some && start_of(after) == start_of(stat),
        words_of(rest, Break::Space).len() > 19 ==> Identity::is_steady(stat, stat),
{
}

/// An executable that was replaced is told of without the mark for it.
pub proof fn lemma_replaced_executable(path: Seq<char>)
    ensures
        executable_of(path + " (deleted)"@) == path,
        !" (deleted)"@.is_suffix_of(path) ==> executable_of(path) == path,
{
    let whole = path + " (deleted)"@;
    let count = " (deleted)"@.len() as int;
    assert(whole.subrange(whole.len() - count, whole.len() as int) =~= " (deleted)"@);
    assert(whole.subrange(0, whole.len() - count) =~= path);
}

} // verus!
