//! The checks of a configuration against its servers and the service.

use vstd::prelude::*;
use crate::config::settings::{Config, ConfigView};
use crate::diagnostic::{Check, Status};
use crate::text;

verus! {

/// The name of a check of a channel: that of the main one needs no channel.
pub open spec fn id_of(name: Seq<char>, channel: Seq<char>) -> Seq<char> {
    if channel == "main"@ {
        name
    } else {
        name + "."@ + channel
    }
}

/// The name of a check of a channel.
pub fn id(name: &str, channel: &str) -> (result: String)
    ensures
        result@ == id_of(name@, channel@),
{
    if text::same(channel, "main") {
        name.to_owned()
    } else {
        text::cat3(name, ".", channel)
    }
}

impl ConfigView {
    /// The URL of the first server of a channel, from one on.
    pub open spec fn server_from(self, channel: Seq<char>, at: int) -> Option<Seq<char>>
        decreases self.mcp.server_urls.len() - at,
    {
        if at < 0 || at >= self.mcp.server_urls.len() {
            None
        } else if self.mcp.server_urls[at].channel == channel {
            Some(self.mcp.server_urls[at].url)
        } else {
            self.server_from(channel, at + 1)
        }
    }

    /// The first command of a channel, from one on.
    pub open spec fn command_from(self, channel: Seq<char>, at: int) -> Option<Seq<char>>
        decreases self.mcp.commands.len() - at,
    {
        if at < 0 || at >= self.mcp.commands.len() {
            None
        } else if self.mcp.commands[at].channel == channel {
            Some(self.mcp.commands[at].command)
        } else {
            self.command_from(channel, at + 1)
        }
    }

    /// What a channel leads to: a server, a command, or what its name says.
    pub open spec fn target_of(self, channel: Seq<char>) -> Seq<char> {
        match self.server_from(channel, 0) {
            Some(url) => url,
            None => match self.command_from(channel, 0) {
                Some(command) => command,
                None => channel,
            },
        }
    }
}

/// What a channel leads to.
pub fn target(config: &Config, channel: &str) -> (result: String)
    ensures
        result@ == config@.target_of(channel@),
{
    let ghost view = config@;
    let servers = &config.mcp.server_urls;
    let mut index: usize = 0;
    while index < servers.len()
        invariant
            index <= servers.len(),
            view == config@,
            *servers == config.mcp.server_urls,
            view.server_from(channel@, 0) == view.server_from(channel@, index as int),
        decreases servers.len() - index,
    {
        assert(view.mcp.server_urls[index as int] == servers@[index as int]@);
        if text::same(&servers[index].channel, channel) {
            return servers[index].url.clone();
        }
        index = index + 1;
    }
    let commands = &config.mcp.commands;
    let mut next: usize = 0;
    while next < commands.len()
        invariant
            next <= commands.len(),
            view == config@,
            *commands == config.mcp.commands,
            view.server_from(channel@, 0) is None,
            view.command_from(channel@, 0) == view.command_from(channel@, next as int),
        decreases commands.len() - next,
    {
        assert(view.mcp.commands[next as int] == commands@[next as int]@);
        if text::same(&commands[next].channel, channel) {
            return commands[next].command.clone();
        }
        next = next + 1;
    }
    channel.to_owned()
}

/// How a server was reached.
pub enum Reached {
    Answered { authentication_required: bool, tools: Option<u64> },
    Failed(String),
}

/// Whether a check passed with a summary.
pub open spec fn passes(check: Check, id: Seq<char>, summary: Seq<char>) -> bool {
    &&& check.id@ == id
    &&& check.status == Status::Pass
    &&& check.summary@ == summary
    &&& check.why@.len() == 0
    &&& check.evidence@.len() == 0
    &&& check.next@.len() == 0
}

/// Whether a check was left out with a summary.
pub open spec fn skips(check: Check, id: Seq<char>, summary: Seq<char>) -> bool {
    &&& check.id@ == id
    &&& check.status == Status::Skip
    &&& check.summary@ == summary
    &&& check.why@.len() == 0
    &&& check.evidence@.len() == 0
    &&& check.next@.len() == 0
}

/// Whether a check failed for a reason.
pub open spec fn fails(check: Check, id: Seq<char>, reason: Seq<char>) -> bool {
    &&& check.id@ == id
    &&& check.status == Status::Fail
    &&& check.summary@ == reason
    &&& check.why@.len() == 0
    &&& text::views(check.evidence@) == seq![reason]
    &&& check.next@.len() == 0
}

/// What a diagnosis does next.
#[derive(Clone, Copy, Debug, PartialEq, Eq, Structural)]
pub enum Ask {
    /// Prepares the channels.
    Prepare,
    /// Asks the servers of the channels.
    Channels,
    /// Asks the service.
    Service,
    /// Closes what was opened.
    Close,
}

/// What follows from whether the configuration is valid.
pub open spec fn begins(valid: bool) -> Ask {
    if valid {
        Ask::Prepare
    } else {
        Ask::Close
    }
}

/// What follows from whether the channels are prepared.
pub open spec fn goes_on(prepared: bool) -> Ask {
    if prepared {
        Ask::Channels
    } else {
        Ask::Service
    }
}

/// What follows from the check of the configuration: without a valid one nothing is prepared or asked.
pub fn after_validation(outcome: &Result<(), String>) -> (result: (Vec<Check>, Ask))
    ensures
        result.1 == begins(*outcome is Ok),
        match *outcome {
            Err(reason) => result.1 == Ask::Close && result.0@.len() == 1 && fails(
                result.0@[0],
                "config_validation"@,
                reason@,
            ),
            Ok(()) => result.1 == Ask::Prepare && result.0@.len() == 0,
        },
{
    let mut checks: Vec<Check> = Vec::new();
    match outcome {
        Err(reason) => {
            checks.push(Check::fail("config_validation", reason));
            (checks, Ask::Close)
        },
        Ok(()) => (checks, Ask::Prepare),
    }
}

/// What follows from the preparation of the channels: where it failed, the service is still asked.
pub fn after_preparation(outcome: &Result<(), String>) -> (result: (Vec<Check>, Ask))
    ensures
        result.1 == goes_on(*outcome is Ok),
        match *outcome {
            Err(reason) => result.1 == Ask::Service && result.0@.len() == 1 && fails(
                result.0@[0],
                "mcp_target"@,
                reason@,
            ),
            Ok(()) => result.1 == Ask::Channels && result.0@.len() == 0,
        },
{
    let mut checks: Vec<Check> = Vec::new();
    match outcome {
        Err(reason) => {
            checks.push(Check::fail("mcp_target", reason));
            (checks, Ask::Service)
        },
        Ok(()) => (checks, Ask::Channels),
    }
}

/// What follows after the servers or the service were asked; nothing follows after all was closed.
pub open spec fn following(ask: Ask) -> Option<Ask> {
    match ask {
        Ask::Channels => Some(Ask::Service),
        Ask::Service => Some(Ask::Close),
        _ => None,
    }
}

/// What follows after the servers or the service were asked.
pub fn after(ask: Ask) -> (result: Option<Ask>)
    ensures
        result == following(ask),
{
    match ask {
        Ask::Channels => Some(Ask::Service),
        Ask::Service => Some(Ask::Close),
        _ => None,
    }
}

/// What a diagnosis does, for whether the configuration is valid and the channels can be prepared.
pub open spec fn course(valid: bool, prepared: bool) -> Seq<Ask> {
    match begins(valid) {
        Ask::Prepare => seq![Ask::Prepare] + course_from(goes_on(prepared), 3),
        other => course_from(other, 3),
    }
}

/// What follows from something on, in so many steps at most.
pub open spec fn course_from(ask: Ask, steps: nat) -> Seq<Ask>
    decreases steps,
{
    if steps == 0 {
        Seq::empty()
    } else {
        match following(ask) {
            Some(next) => seq![ask] + course_from(next, (steps - 1) as nat),
            None => seq![ask],
        }
    }
}

/// Whatever a diagnosis finds, it closes in the end, and once. The service is asked wherever the
/// configuration is valid, and the servers only where the channels are prepared.
pub proof fn lemma_closes(valid: bool, prepared: bool)
    ensures
        course(valid, prepared).last() == Ask::Close,
        course(valid, prepared).contains(Ask::Service) == valid,
        course(valid, prepared).contains(Ask::Channels) == (valid && prepared),
        forall|i: int|
            0 <= i < course(valid, prepared).len() - 1 ==> #[trigger] course(valid, prepared)[i]
                != Ask::Close,
{
    reveal_with_fuel(course_from, 4);
    let all = course(valid, prepared);
    if !valid {
        assert(all =~= seq![Ask::Close]);
    } else if prepared {
        assert(all =~= seq![Ask::Prepare, Ask::Channels, Ask::Service, Ask::Close]);
        assert(all[1] == Ask::Channels);
        assert(all[2] == Ask::Service);
    } else {
        assert(all =~= seq![Ask::Prepare, Ask::Service, Ask::Close]);
        assert(all[1] == Ask::Service);
    }
}

/// The check of what was closed, where that failed.
pub fn close_check(outcome: &Result<(), String>) -> (result: Option<Check>)
    ensures
        match (*outcome, result) {
            (Err(reason), Some(check)) => fails(check, "shutdown"@, reason@),
            (Ok(()), None) => true,
            _ => false,
        },
{
    match outcome {
        Err(reason) => Some(Check::fail("shutdown", reason)),
        Ok(()) => None,
    }
}

/// The checks of a channel up to its server.
pub fn reach_checks(config: &Config, channel: &str, outcome: &Reached) -> (result: Vec<Check>)
    ensures
        result@.len() >= 2,
        passes(result@[0], id_of("mcp_target"@, channel@), config@.target_of(channel@)),
        match *outcome {
            Reached::Answered { authentication_required, tools } => {
                &&& passes(
                    result@[1],
                    id_of("mcp_server_reachable"@, channel@),
                    if authentication_required {
                        "MCP endpoint requires authentication"@
                    } else {
                        "MCP initialization completed"@
                    },
                )
                &&& match tools {
                    Some(total) => result@.len() == 3 && passes(
                        result@[2],
                        id_of("mcp_tools"@, channel@),
                        text::decimal_of(total as nat) + " tools discovered"@,
                    ),
                    None => result@.len() == 2,
                }
            },
            Reached::Failed(error) => result@.len() == 2 && fails(
                result@[1],
                id_of("mcp_server_reachable"@, channel@),
                error@,
            ),
        },
{
    let mut result: Vec<Check> = Vec::new();
    result.push(Check::pass(&id("mcp_target", channel), &target(config, channel)));
    match outcome {
        Reached::Answered { authentication_required, tools } => {
            let summary = if *authentication_required {
                "MCP endpoint requires authentication"
            } else {
                "MCP initialization completed"
            };
            result.push(Check::pass(&id("mcp_server_reachable", channel), summary));
            if let Some(total) = tools {
                result.push(
                    Check::pass(
                        &id("mcp_tools", channel),
                        &text::cat(&text::decimal(*total), " tools discovered"),
                    ),
                );
            }
        },
        Reached::Failed(error) => {
            result.push(Check::fail(&id("mcp_server_reachable", channel), error));
        },
    }
    result
}

/// How a search for OAuth metadata ended.
pub enum Found {
    Reply { status: u16, message: bool },
    /// The server tells of no metadata.
    Optional,
    Failed(String),
}

/// The check of OAuth metadata.
pub fn oauth_check(channel: &str, outcome: &Found) -> (result: Check)
    ensures
        ({
            let id = id_of("oauth_metadata"@, channel@);
            match *outcome {
                Found::Reply { status, message } => if status == 404 && !message {
                    skips(result, id, "transport does not expose OAuth metadata"@)
                } else if 200 <= status < 300 {
                    passes(result, id, "protected resource metadata discovered"@)
                } else {
                    fails(
                        result,
                        id,
                        "OAuth discovery returned HTTP "@ + text::decimal_of(status as nat),
                    )
                },
                Found::Optional => skips(result, id, "server does not advertise OAuth metadata"@),
                Found::Failed(error) => fails(result, id, error@),
            }
        }),
{
    let name = id("oauth_metadata", channel);
    match outcome {
        Found::Reply { status, message } => if *status == 404 && !*message {
            Check::skip(&name, "transport does not expose OAuth metadata")
        } else if 200 <= *status && *status < 300 {
            Check::pass(&name, "protected resource metadata discovered")
        } else {
            Check::fail(
                &name,
                &text::cat("OAuth discovery returned HTTP ", &text::decimal(*status as u64)),
            )
        },
        Found::Optional => Check::skip(&name, "server does not advertise OAuth metadata"),
        Found::Failed(error) => Check::fail(&name, error),
    }
}

/// The check of the service.
pub fn control_check(error: Option<&str>) -> (result: Check)
    ensures
        match error {
            None => passes(result, "control_plane_connection"@, "tunnel metadata received"@),
            Some(reason) => fails(result, "control_plane_connection"@, reason@),
        },
{
    match error {
        None => Check::pass("control_plane_connection", "tunnel metadata received"),
        Some(reason) => Check::fail("control_plane_connection", reason),
    }
}

/// A check of the main channel has its plain name, and that of another the name of the channel behind it.
pub proof fn lemma_check_names(name: Seq<char>, channel: Seq<char>)
    ensures
        id_of(name, "main"@) == name,
        channel != "main"@ ==> id_of(name, channel) == name + "."@ + channel,
{
}

/// A channel leads to the URL of its first server, or else to its first command, or else to what its name says.
pub proof fn lemma_channel_leads(config: ConfigView, channel: Seq<char>, at: int)
    ensures
        0 <= at < config.mcp.server_urls.len() && config.mcp.server_urls[at].channel == channel && (forall|i:
            int|
            0 <= i < at ==> (#[trigger] config.mcp.server_urls[i]).channel != channel) ==> config.target_of(
            channel,
        ) == config.mcp.server_urls[at].url,
        (forall|i: int|
            0 <= i < config.mcp.server_urls.len() ==> (#[trigger] config.mcp.server_urls[i]).channel
                != channel) && (forall|i: int|
            0 <= i < config.mcp.commands.len() ==> (#[trigger] config.mcp.commands[i]).channel != channel)
            ==> config.target_of(channel) == channel,
{
    lemma_server_from(config, channel, 0, at);
    lemma_command_from(config, channel, 0);
}

proof fn lemma_server_from(config: ConfigView, channel: Seq<char>, from: int, at: int)
    requires
        0 <= from <= config.mcp.server_urls.len(),
    ensures
        from <= at < config.mcp.server_urls.len() && config.mcp.server_urls[at].channel == channel && (forall|i:
            int|
            from <= i < at ==> (#[trigger] config.mcp.server_urls[i]).channel != channel)
            ==> config.server_from(channel, from) == Some(config.mcp.server_urls[at].url),
        (forall|i: int|
            from <= i < config.mcp.server_urls.len() ==> (#[trigger] config.mcp.server_urls[i]).channel
                != channel) ==> config.server_from(channel, from) is None,
    decreases config.mcp.server_urls.len() - from,
{
    if from < config.mcp.server_urls.len() {
        lemma_server_from(config, channel, from + 1, at);
        assert(config.mcp.server_urls[from] == config.mcp.server_urls[from]);
    }
}

proof fn lemma_command_from(config: ConfigView, channel: Seq<char>, from: int)
    requires
        0 <= from <= config.mcp.commands.len(),
    ensures
        (forall|i: int|
            from <= i < config.mcp.commands.len() ==> (#[trigger] config.mcp.commands[i]).channel != channel)
            ==> config.command_from(channel, from) is None,
    decreases config.mcp.commands.len() - from,
{
    if from < config.mcp.commands.len() {
        lemma_command_from(config, channel, from + 1);
        assert(config.mcp.commands[from] == config.mcp.commands[from]);
    }
}

/// How a check is made: one that passes, one that is left out, and one that fails with its reason as its evidence.
pub proof fn lemma_checks_made(check: Check, id: Seq<char>, summary: Seq<char>)
    ensures
        passes(check, id, summary) ==> check.id@ == id && check.status == Status::Pass && check.summary@ == summary,
        skips(check, id, summary) ==> check.id@ == id && check.status == Status::Skip && check.summary@ == summary,
        fails(check, id, summary) ==> check.id@ == id && check.status == Status::Fail && check.summary@ == summary
            && text::views(check.evidence@) == seq![summary],
        !(passes(check, id, summary) && fails(check, id, summary)),
{
}

/// The course of a diagnosis: what cannot be prepared is not asked for its channels, and the service is asked anyway.
pub proof fn lemma_diagnosis_course()
    ensures
        begins(true) == Ask::Prepare && begins(false) == Ask::Close,
        goes_on(true) == Ask::Channels && goes_on(false) == Ask::Service,
        following(Ask::Channels) == Some(Ask::Service) && following(Ask::Service) == Some(Ask::Close),
        following(Ask::Close) is None,
{
}

/// A check that was made holds nothing else.
pub proof fn lemma_checks_bare(check: Check, id: Seq<char>, summary: Seq<char>)
    requires
        passes(check, id, summary) || skips(check, id, summary) || fails(check, id, summary),
    ensures
        check.why@.len() == 0 && check.next@.len() == 0,
        check.status != Status::Fail ==> check.evidence@.len() == 0,
{
}

} // verus!
