//! What happens once after the start of a runtime.

use vstd::prelude::*;
use crate::runtime::{Phase, Startup};
use crate::text;

verus! {

/// The text that `humantime` writes for a duration in nanoseconds.
pub uninterp spec fn duration_words(nanos: u64) -> Seq<char>;

/// Writes a duration: `Display` of `humantime::format_duration`, which depends on the duration alone.
#[verifier::external_body]
pub(crate) fn duration_text(nanos: u64) -> (result: String)
    ensures
        result@ == duration_words(nanos),
{
    humantime::format_duration(std::time::Duration::from_nanos(nanos)).to_string()
}

/// How an attempt to reach a server ended.
#[derive(Clone, Copy, PartialEq, Eq, Structural)]
pub enum Attempt {
    /// The server answered.
    Reached,
    /// Nothing listens where the server is to be.
    Refused,
    /// The attempt took too long.
    TimedOut,
    /// Anything else.
    Failed,
}

/// What follows from an attempt to reach a server.
#[derive(Clone, Copy, PartialEq, Eq, Structural)]
pub enum Next {
    /// The attempt counts as it ended.
    Settle,
    /// The time to wait is over.
    GiveUp,
    /// Another attempt follows after so many nanoseconds.
    Retry(u64),
}

/// The shortest pause between attempts.
pub const FIRST_PAUSE: u64 = 50_000_000;

/// The longest pause between attempts.
pub const LONGEST_PAUSE: u64 = 1_000_000_000;

/// The pause after another one: twice as long, up to a limit.
pub open spec fn longer_of(pause: u64, limit: u64) -> u64 {
    if pause * 2 <= limit {
        (pause * 2) as u64
    } else {
        limit
    }
}

/// The pause after another one: twice as long, up to a limit.
pub fn longer(pause: u64, limit: u64) -> (result: u64)
    ensures
        result == longer_of(pause, limit),
{
    if pause <= limit / 2 {
        pause * 2
    } else {
        limit
    }
}

/// When an attempt ends at the latest: after two seconds, or when the time to wait is over.
pub fn attempt_end(now: u64, deadline: Option<u64>) -> (result: u64)
    ensures
        ({
            let own = if now + 2_000_000_000 <= u64::MAX {
                (now + 2_000_000_000) as u64
            } else {
                u64::MAX
            };
            result == (match deadline {
                Some(end) => if end < own {
                    end
                } else {
                    own
                },
                None => own,
            })
        }),
{
    let own: u64 = if now <= u64::MAX - 2_000_000_000 {
        now + 2_000_000_000
    } else {
        u64::MAX
    };
    match deadline {
        Some(end) => if end < own {
            end
        } else {
            own
        },
        None => own,
    }
}

/// What follows from an attempt to reach a server: while there is time to wait, a server that does not
/// listen yet is tried again.
pub open spec fn next_of(attempt: Attempt, deadline: Option<u64>, now: u64, pause: u64) -> Next {
    match deadline {
        Some(end) => if now >= end {
            Next::GiveUp
        } else if attempt == Attempt::Refused {
            Next::Retry(
                if pause < end - now {
                    pause
                } else {
                    (end - now) as u64
                },
            )
        } else {
            Next::Settle
        },
        None => Next::Settle,
    }
}

/// What follows from an attempt to reach a server.
pub fn next(attempt: Attempt, deadline: Option<u64>, now: u64, pause: u64) -> (result: Next)
    ensures
        result == next_of(attempt, deadline, now, pause),
{
    match deadline {
        Some(end) => if now >= end {
            Next::GiveUp
        } else {
            match attempt {
                Attempt::Refused => Next::Retry(
                    if pause < end - now {
                        pause
                    } else {
                        end - now
                    },
                ),
                _ => Next::Settle,
            }
        },
        None => Next::Settle,
    }
}

/// A pause never goes beyond the time to wait.
pub proof fn lemma_retry_in_time(attempt: Attempt, end: u64, now: u64, pause: u64)
    requires
        next_of(attempt, Some(end), now, pause) is Retry,
    ensures
        now + next_of(attempt, Some(end), now, pause)->Retry_0 <= end,
{
}

/// Why a server was not reached in the time to wait.
pub fn waited(wait: u64) -> (result: String)
    ensures
        result@ == "MCP startup wait exceeded "@ + duration_words(wait),
{
    text::cat("MCP startup wait exceeded ", &duration_text(wait))
}

/// How reaching a server ended.
pub enum Probed {
    /// The server answered, and wants to know who asks where it has such a status.
    Reached { authentication_required: bool, status: u16 },
    /// The time to wait was over.
    Waited(String),
    /// The attempt took too long.
    TimedOut(String),
    /// Anything else.
    Failed(String),
}

/// What is known after the attempt to reach a server.
pub fn probed(outcome: Probed, now: u64) -> (result: Startup)
    ensures
        result.observed_at == Some(now),
        match outcome {
            Probed::Reached { authentication_required, status } => if authentication_required {
                result.state == Phase::AuthRequired && text::view_of(result.error) == Some(
                    "MCP discovery returned HTTP "@ + text::decimal_of(status as nat),
                )
            } else {
                result.state == Phase::Succeeded && result.error is None
            },
            Probed::Waited(error) => result.state == Phase::StartupTimeout && text::view_of(
                result.error,
            ) == Some(error@),
            Probed::TimedOut(error) => result.state == Phase::Timeout && text::view_of(
                result.error,
            ) == Some(error@),
            Probed::Failed(error) => result.state == Phase::Failed && text::view_of(result.error)
                == Some(error@),
        },
{
    match outcome {
        Probed::Reached { authentication_required, status } => if authentication_required {
            let error = text::cat("MCP discovery returned HTTP ", &text::decimal(status as u64));
            Startup::settled(Phase::AuthRequired, Some(error), now)
        } else {
            Startup::settled(Phase::Succeeded, None, now)
        },
        Probed::Waited(error) => Startup::settled(Phase::StartupTimeout, Some(error), now),
        Probed::TimedOut(error) => Startup::settled(Phase::Timeout, Some(error), now),
        Probed::Failed(error) => Startup::settled(Phase::Failed, Some(error), now),
    }
}

/// How the search for OAuth metadata ended.
pub enum Discovered {
    Status(u16),
    /// The server tells of no metadata.
    Optional(String),
    /// Another attempt may help.
    Again,
    Failed(String),
}

/// The longest pause between searches for OAuth metadata.
pub const LONGEST_SEARCH_PAUSE: u64 = 30_000_000_000;

/// What is known after a search for OAuth metadata; nothing where it is tried again.
pub fn discovered(outcome: Discovered, now: u64) -> (result: Option<Startup>)
    ensures
        match (outcome, result) {
            (Discovered::Again, None) => true,
            (Discovered::Status(status), Some(known)) => known.observed_at == Some(now) && if status
                < 400 {
                known.state == Phase::Complete && known.error is None
            } else {
                known.state == Phase::Failed && text::view_of(known.error) == Some(
                    "OAuth discovery returned HTTP "@ + text::decimal_of(status as nat),
                )
            },
            (Discovered::Optional(error), Some(known)) => known.observed_at == Some(now)
                && known.state == Phase::NotAdvertised && text::view_of(known.error) == Some(error@),
            (Discovered::Failed(error), Some(known)) => known.observed_at == Some(now)
                && known.state == Phase::Failed && text::view_of(known.error) == Some(error@),
            _ => false,
        },
{
    match outcome {
        Discovered::Again => None,
        Discovered::Status(status) => if status < 400 {
            Some(Startup::settled(Phase::Complete, None, now))
        } else {
            let error = text::cat("OAuth discovery returned HTTP ", &text::decimal(status as u64));
            Some(Startup::settled(Phase::Failed, Some(error), now))
        },
        Discovered::Optional(error) => Some(
            Startup::settled(Phase::NotAdvertised, Some(error), now),
        ),
        Discovered::Failed(error) => Some(Startup::settled(Phase::Failed, Some(error), now)),
    }
}

/// A server that refuses the connection is asked again until the deadline, and given up then; any other outcome
/// settles, and without a deadline every one does.
pub proof fn lemma_startup_next(attempt: Attempt, deadline: Option<u64>, now: u64, pause: u64)
    ensures
        deadline is None ==> next_of(attempt, deadline, now, pause) == Next::Settle,
        deadline matches Some(end) ==> (next_of(attempt, deadline, now, pause) == Next::GiveUp <==> now >= end),
        deadline matches Some(end) ==> (now < end && attempt == Attempt::Refused ==> next_of(
            attempt,
            deadline,
            now,
            pause,
        ) is Retry),
        deadline matches Some(end) ==> (now < end && attempt != Attempt::Refused ==> next_of(
            attempt,
            deadline,
            now,
            pause,
        ) == Next::Settle),
        deadline matches Some(end) ==> (now < end && attempt == Attempt::Refused && pause <= end - now
            ==> next_of(attempt, deadline, now, pause) == Next::Retry(pause)),
        longer_of(50_000_000, 1_000_000_000) == 100_000_000,
        longer_of(800_000_000, 1_000_000_000) == 1_000_000_000,
        pause <= LONGEST_PAUSE ==> pause <= longer_of(pause, LONGEST_PAUSE) <= 1_000_000_000,
        pause * 2 <= LONGEST_SEARCH_PAUSE ==> longer_of(pause, LONGEST_SEARCH_PAUSE) == pause * 2,
{
}

} // verus!
