//! The answers to questions for the health of a runtime.

use vstd::prelude::*;
use crate::config::settings::{CommandView, ServerView};
use crate::control::client::VERSION;
use crate::health::moment::{
    optional, optional_doc, seconds, seconds_doc, timestamp, timestamp_of,
};
use crate::health::snapshot::{proxy, proxy_doc, Monitor};
use crate::json::{self, json_text, Doc, Json};
use crate::proxy_health::check::{first_through, identities, identity_doc, summaries};
use crate::proxy_health::Route;
use crate::runtime::{elapsed, elapsed_of, Phase};
use crate::table::Table;
use crate::{pattern, text};

verus! {

/// What is asked for.
pub enum Asked {
    /// The runtime, with its parts or without them.
    Runtime { details: bool },
    /// A part of the runtime.
    Part(String),
}

/// What is asked for.
#[verifier::ext_equal]
pub enum AskedView {
    Runtime { details: bool },
    Part(Seq<char>),
}

impl View for Asked {
    type V = AskedView;

    open spec fn view(&self) -> AskedView {
        match self {
            Asked::Runtime { details } => AskedView::Runtime { details: *details },
            Asked::Part(name) => AskedView::Part(name@),
        }
    }
}

/// What a query asks for, or nothing where it is none.
pub open spec fn details_of(query: Seq<char>) -> Option<bool> {
    let pairs = pattern::query_pairs(query);
    if query.len() == 0 || text::byte_len(query) > 128 || query.contains(';') {
        None
    } else if pairs.len() != 1 || pairs[0].0 != "details"@ {
        None
    } else if pairs[0].1 == "true"@ {
        Some(true)
    } else if pairs[0].1 == "false"@ {
        Some(false)
    } else {
        None
    }
}

/// What a request asks for, or nothing where its query is none.
pub open spec fn asked_of(path: Seq<char>, query: Option<Seq<char>>, details: bool) -> Option<
    AskedView,
> {
    if path != "/health"@ {
        if query is Some {
            None
        } else {
            Some(
                AskedView::Part(
                    pattern::percent_lossy(
                        match text::after_prefix(path, "/health/"@) {
                            Some(name) => name,
                            None => Seq::empty(),
                        },
                    ),
                ),
            )
        }
    } else {
        match query {
            None => Some(AskedView::Runtime { details }),
            Some(query) => match details_of(query) {
                Some(details) => Some(AskedView::Runtime { details }),
                None => None,
            },
        }
    }
}

fn wanted_details(query: &str) -> (result: Option<bool>)
    ensures
        result == details_of(query@),
{
    if query.is_empty() || !text::fits(query, 128) || text::contains_char(query, ';') {
        return None;
    }
    let pairs = pattern::pairs_in(query);
    assert(crate::address::pair_views(pairs@).len() == pairs@.len());
    if pairs.len() != 1 {
        return None;
    }
    assert(crate::address::pair_views(pairs@)[0] == (pairs@[0].0@, pairs@[0].1@));
    if !text::same(&pairs[0].0, "details") {
        return None;
    }
    proof {
        reveal_strlit("true");
        reveal_strlit("false");
        assert("true"@.len() == 4);
        assert("false"@.len() == 5);
    }
    if text::same(&pairs[0].1, "true") {
        Some(true)
    } else if text::same(&pairs[0].1, "false") {
        Some(false)
    } else {
        None
    }
}

/// What a request asks for.
pub fn asked(path: &str, query: Option<&str>, details: bool) -> (result: Option<Asked>)
    ensures
        match (result, asked_of(path@, text::str_view(query), details)) {
            (Some(asked), Some(expected)) => asked@ == expected,
            (None, None) => true,
            _ => false,
        },
{
    if !text::same(path, "/health") {
        if query.is_some() {
            return None;
        }
        let name = match text::strip_prefix(path, "/health/") {
            Some(name) => name,
            None => {
                let empty = String::new();
                assert(empty@ =~= Seq::<char>::empty());
                empty
            },
        };
        return Some(Asked::Part(pattern::percent_decode_lossy(&name)));
    }
    match query {
        None => Some(Asked::Runtime { details }),
        Some(query) => match wanted_details(query) {
            Some(details) => Some(Asked::Runtime { details }),
            None => None,
        },
    }
}

/// How much is told of the parts of a runtime.
#[derive(Clone, Copy, PartialEq, Eq, Structural)]
pub enum Form {
    /// All.
    Full,
    /// All but the details of parts that are too large.
    Short,
    /// No details.
    Bare,
}

/// The largest part of a runtime in the whole.
pub const MAX_PART: usize = 24064;

/// The largest part of a runtime alone.
pub const MAX_ALONE: usize = 24576;

/// The largest answer.
pub const MAX_ANSWER: usize = 65536;

/// What is told of a part without its details.
pub open spec fn bared(doc: Doc) -> Doc {
    doc.without("details"@).with("limited"@, Doc::Bool(true))
}

impl Form {
    /// What is told of a part.
    pub open spec fn shape(self, doc: Doc) -> Doc {
        match self {
            Form::Full => doc,
            Form::Short => if text::byte_len(json_text(doc)) > MAX_PART {
                bared(doc)
            } else {
                doc
            },
            Form::Bare => bared(doc),
        }
    }

    fn apply(self, value: Json) -> (result: Json)
        ensures
            result.doc() == self.shape(value.doc()),
    {
        let bare = match self {
            Form::Full => false,
            Form::Bare => true,
            Form::Short => {
                let written = json::write(json::copy(&value));
                !text::fits(&written, MAX_PART)
            },
        };
        if bare {
            value.without("details").with("limited", Json::Bool(true))
        } else {
            value
        }
    }
}

impl Monitor {
    /// What is told of the dispatcher, for the age of the oldest request.
    pub open spec fn dispatched(self, oldest: u64) -> Doc {
        self.dispatcher_doc(oldest, self.snapshot.activity.active.keys().len())
    }

    /// What is told of all parts.
    pub open spec fn parts_doc(self, oldest: u64, now: u64, form: Form) -> Doc {
        Doc::object().with("proxy"@, form.shape(proxy_doc(self.snapshot.proxy.routes@, self.snapshot.proxy.observed_at))).with(
            "control-plane"@,
            form.shape(self.control_doc(now)),
        ).with("response-delivery"@, form.shape(self.delivery_doc())).with(
            "queue"@,
            form.shape(self.queue_doc(now)),
        ).with("dispatcher"@, form.shape(self.dispatched(oldest))).with(
            "mcp"@,
            form.shape(self.mcp_doc()),
        ).with("oauth"@, form.shape(self.oauth_doc())).with(
            "harpoon"@,
            form.shape(self.harpoon_doc()),
        ).with("cloudflared"@, form.shape(self.cloudflared_doc()))
    }

    fn parts(&self, dispatcher: &Json, now: u64, form: Form) -> (result: Json)
        ensures
            forall|oldest: u64| #[trigger]
                self.dispatched(oldest) == dispatcher.doc() ==> result.doc() == self.parts_doc(
                    oldest,
                    now,
                    form,
                ),
    {
        Json::object().with("proxy", form.apply(proxy(&self.snapshot.proxy.routes, self.snapshot.proxy.observed_at))).with(
            "control-plane",
            form.apply(self.control(now)),
        ).with("response-delivery", form.apply(self.delivery())).with(
            "queue",
            form.apply(self.queue(now)),
        ).with("dispatcher", form.apply(json::copy(dispatcher))).with(
            "mcp",
            form.apply(self.mcp()),
        ).with("oauth", form.apply(self.oauth())).with("harpoon", form.apply(self.harpoon())).with(
            "cloudflared",
            form.apply(self.cloudflared()),
        )
    }

    /// What is told of the part of a name, where there is one.
    pub open spec fn part_doc(self, name: Seq<char>, oldest: u64, now: u64) -> Option<Doc> {
        if name == "proxy"@ {
            Some(proxy_doc(self.snapshot.proxy.routes@, self.snapshot.proxy.observed_at))
        } else if name == "control-plane"@ {
            Some(self.control_doc(now))
        } else if name == "response-delivery"@ {
            Some(self.delivery_doc())
        } else if name == "queue"@ {
            Some(self.queue_doc(now))
        } else if name == "dispatcher"@ {
            Some(self.dispatched(oldest))
        } else if name == "mcp"@ {
            Some(self.mcp_doc())
        } else if name == "oauth"@ {
            Some(self.oauth_doc())
        } else if name == "harpoon"@ {
            Some(self.harpoon_doc())
        } else if name == "cloudflared"@ {
            Some(self.cloudflared_doc())
        } else {
            None
        }
    }

    fn part(&self, name: &str, dispatcher: Json, now: u64) -> (result: Option<Json>)
        ensures
            forall|oldest: u64| #[trigger]
                self.dispatched(oldest) == dispatcher.doc() ==> match (
                    result,
                    self.part_doc(name@, oldest, now),
                ) {
                    (Some(value), Some(doc)) => value.doc() == doc,
                    (None, None) => true,
                    _ => false,
                },
    {
        if text::same(name, "proxy") {
            Some(proxy(&self.snapshot.proxy.routes, self.snapshot.proxy.observed_at))
        } else if text::same(name, "control-plane") {
            Some(self.control(now))
        } else if text::same(name, "response-delivery") {
            Some(self.delivery())
        } else if text::same(name, "queue") {
            Some(self.queue(now))
        } else if text::same(name, "dispatcher") {
            Some(dispatcher)
        } else if text::same(name, "mcp") {
            Some(self.mcp())
        } else if text::same(name, "oauth") {
            Some(self.oauth())
        } else if text::same(name, "harpoon") {
            Some(self.harpoon())
        } else if text::same(name, "cloudflared") {
            Some(self.cloudflared())
        } else {
            None
        }
    }

    /// The nanoseconds of the clock at the start, as far as they can be told.
    pub open spec fn start_of(self) -> u64 {
        if self.snapshot.started_at * 1_000_000_000 > u64::MAX {
            u64::MAX
        } else {
            (self.snapshot.started_at * 1_000_000_000) as u64
        }
    }

    fn start(&self) -> (result: u64)
        ensures
            result == self.start_of(),
    {
        let limit: u64 = u64::MAX / 1_000_000_000;
        if self.snapshot.started_at > limit {
            u64::MAX
        } else {
            self.snapshot.started_at * 1_000_000_000
        }
    }

    /// What is told of the runtime as a whole.
    pub open spec fn runtime_doc(self, now: u64) -> Doc {
        Doc::object().with("schema_version"@, Doc::number(1)).with("live"@, Doc::Bool(true)).with(
            "ready"@,
            Doc::Bool(self.snapshot.ready),
        ).with("snapshot_at"@, optional_doc(timestamp_of(now))).with(
            "runtime"@,
            Doc::object().with("instance_id"@, Doc::Text(self.instance@)).with(
                "version"@,
                Doc::Text(VERSION@),
            ).with("flavor"@, Doc::Text("runtime"@)).with(
                "started_at"@,
                optional_doc(timestamp_of(self.start_of())),
            ).with("uptime_seconds"@, seconds_doc(elapsed_of(self.start_of(), now))).with(
                "lifecycle"@,
                Doc::Text(self.snapshot.lifecycle.word()),
            ),
        )
    }

    fn runtime(&self, now: u64) -> (result: Json)
        ensures
            result.doc() == self.runtime_doc(now),
    {
        let start: u64 = self.start();
        let runtime = Json::object().with("instance_id", Json::text(&self.instance)).with(
            "version",
            Json::text(VERSION),
        ).with("flavor", Json::text("runtime")).with("started_at", optional(&timestamp(start))).with(
            "uptime_seconds",
            seconds(elapsed(start, now)),
        ).with("lifecycle", Json::text(self.snapshot.lifecycle.text()));
        Json::object().with("schema_version", Json::number(1)).with("live", Json::Bool(true)).with(
            "ready",
            Json::Bool(self.snapshot.ready),
        ).with("snapshot_at", optional(&timestamp(now))).with("runtime", runtime)
    }
}

/// An answer to a question for health.
pub struct Answer {
    pub status: u16,
    pub body: Json,
    /// Whether the answer tells which method is allowed.
    pub allow: bool,
}

/// Whether an answer tells of an error.
pub open spec fn is_error(answer: Answer, status: u16, reason: Seq<char>) -> bool {
    &&& answer.status == status
    &&& answer.body.doc() == Doc::object().with("error"@, Doc::Text(reason))
    &&& answer.allow == (status == 405)
}

fn error(status: u16, reason: &str) -> (result: Answer)
    ensures
        is_error(result, status, reason@),
{
    Answer {
        status,
        body: Json::object().with("error", Json::text(reason)),
        allow: status == 405,
    }
}

/// The document of the runtime with its parts, in a form.
pub open spec fn whole(base: Doc, parts: Doc, truncated: bool) -> Doc {
    base.with("components"@, parts).with_if(truncated, "truncated"@, Doc::Bool(true))
}

impl Monitor {
    /// The answer to a question for the runtime: with its parts where they are asked for, and without
    /// their details where those are too large.
    pub open spec fn whole_doc(self, details: bool, oldest: u64, now: u64) -> Doc {
        let base = self.runtime_doc(now);
        if details {
            let short = whole(base, self.parts_doc(oldest, now, Form::Short), false);
            if text::byte_len(json_text(short)) > MAX_ANSWER {
                whole(base, self.parts_doc(oldest, now, Form::Bare), true)
            } else {
                short
            }
        } else if text::byte_len(json_text(base)) > MAX_ANSWER {
            bared(base)
        } else {
            base
        }
    }

    /// The answer to a question for a part.
    pub open spec fn alone_doc(self, name: Seq<char>, doc: Doc, now: u64) -> Doc {
        let full = doc.with("schema_version"@, Doc::number(1)).with(
            "snapshot_at"@,
            optional_doc(timestamp_of(now)),
        ).with("component"@, Doc::Text(name));
        if text::byte_len(json_text(full)) > MAX_ALONE {
            bared(full)
        } else {
            full
        }
    }

    /// Whether this is the answer to a question for health.
    pub open spec fn answers(
        self,
        answer: Answer,
        get: bool,
        path: Seq<char>,
        query: Option<Seq<char>>,
        oldest: u64,
        now: u64,
    ) -> bool {
        if !get {
            is_error(answer, 405, "method_not_allowed"@)
        } else {
            match asked_of(path, query, self.config.health.show_details) {
                None => is_error(answer, 400, "invalid_query"@),
                Some(AskedView::Part(name)) => match self.part_doc(name, oldest, now) {
                    None => is_error(answer, 404, "unknown_component"@),
                    Some(doc) => answer.status == 200 && !answer.allow && answer.body.doc()
                        == self.alone_doc(name, doc, now),
                },
                Some(AskedView::Runtime { details }) => answer.status == 200 && !answer.allow
                    && answer.body.doc() == self.whole_doc(details, oldest, now),
            }
        }
    }

    fn answer_whole(&self, details: bool, dispatcher: &Json, now: u64) -> (result: Json)
        ensures
            forall|oldest: u64| #[trigger]
                self.dispatched(oldest) == dispatcher.doc() ==> result.doc() == self.whole_doc(
                    details,
                    oldest,
                    now,
                ),
    {
        let base = self.runtime(now);
        if !details {
            let written = json::write(json::copy(&base));
            if !text::fits(&written, MAX_ANSWER) {
                return base.without("details").with("limited", Json::Bool(true));
            }
            return base;
        }
        let short = json::copy(&base).with("components", self.parts(dispatcher, now, Form::Short));
        let written = json::write(json::copy(&short));
        if text::fits(&written, MAX_ANSWER) {
            return short;
        }
        base.with("components", self.parts(dispatcher, now, Form::Bare)).with(
            "truncated",
            Json::Bool(true),
        )
    }

    /// Answers a question for health.
    pub fn health(&self, get: bool, path: &str, query: Option<&str>, now: u64) -> (result: Answer)
        ensures
            exists|oldest: u64| #[trigger]
                self.is_age(oldest, now) && self.answers(
                    result,
                    get,
                    path@,
                    text::str_view(query),
                    oldest,
                    now,
                ),
    {
        let dispatcher = self.dispatcher(now);
        let ghost oldest = choose|oldest: u64| #[trigger]
            self.is_age(oldest, now) && dispatcher.doc() == self.dispatcher_doc(
                oldest,
                self.snapshot.activity.active.keys().len(),
            );
        assert(self.is_age(oldest, now));
        assert(self.dispatched(oldest) == dispatcher.doc());
        if !get {
            return error(405, "method_not_allowed");
        }
        match asked(path, query, self.config.health.show_details) {
            None => error(400, "invalid_query"),
            Some(Asked::Part(name)) => match self.part(&name, dispatcher, now) {
                None => error(404, "unknown_component"),
                Some(value) => {
                    let full = value.with("schema_version", Json::number(1)).with(
                        "snapshot_at",
                        optional(&timestamp(now)),
                    ).with("component", Json::text(&name));
                    let written = json::write(json::copy(&full));
                    let body = if text::fits(&written, MAX_ALONE) {
                        full
                    } else {
                        full.without("details").with("limited", Json::Bool(true))
                    };
                    Answer { status: 200, body, allow: false }
                },
            },
            Some(Asked::Runtime { details }) => Answer {
                status: 200,
                body: self.answer_whole(details, &dispatcher, now),
                allow: false,
            },
        }
    }
}

/// How the attempt to reach the server of the main channel is told of.
pub open spec fn channel_probe(state: Phase) -> Seq<char> {
    match state {
        Phase::StartupTimeout => "failed"@,
        Phase::Disabled => "pending"@,
        other => other.word(),
    }
}

/// Why the main channel is not as it should be.
pub open spec fn channel_reason(state: Phase) -> Seq<char> {
    match state {
        Phase::Failed => "initial mcp probe failed"@,
        Phase::StartupTimeout => "initial mcp probe failed"@,
        Phase::Timeout => "initial mcp probe timed out"@,
        Phase::AuthRequired => "mcp initialize requires auth"@,
        _ => ""@,
    }
}

/// A detail of a channel.
pub open spec fn detail_doc(key: Seq<char>, value: Seq<char>) -> Doc {
    Doc::object().with("key"@, Doc::Text(key)).with("value"@, Doc::Text(value))
}

fn detail(key: &str, value: &str) -> (result: Json)
    ensures
        result.doc() == detail_doc(key@, value@),
{
    Json::object().with("key", Json::text(key)).with("value", Json::text(value))
}

fn list1(first: Json) -> (result: Json)
    ensures
        result.doc() == Doc::List(seq![first.doc()]),
{
    let mut items: Vec<Json> = Vec::new();
    proof {
        json::lemma_docs_push(items@, first);
        assert(json::docs(items@) =~= Seq::<Doc>::empty());
    }
    items.push(first);
    assert(json::docs(items@) =~= seq![first.doc()]);
    Json::List(items)
}

fn list2(first: Json, second: Json) -> (result: Json)
    ensures
        result.doc() == Doc::List(seq![first.doc(), second.doc()]),
{
    let mut items: Vec<Json> = Vec::new();
    proof {
        json::lemma_docs_push(items@, first);
        json::lemma_docs_push(items@.push(first), second);
        assert(json::docs(items@) =~= Seq::<Doc>::empty());
    }
    items.push(first);
    items.push(second);
    assert(json::docs(items@) =~= seq![first.doc(), second.doc()]);
    Json::List(items)
}

impl Monitor {
    /// What is told of the channel of a server.
    pub open spec fn server_doc(self, server: ServerView) -> Doc {
        let probe = self.snapshot.mcp_probe;
        let main = server.channel == "main"@;
        let down = main && (probe.state == Phase::Failed || probe.state == Phase::StartupTimeout);
        Doc::object().with("name"@, Doc::Text(server.channel)).with(
            "enabled"@,
            Doc::Bool(!down),
        ).with("server_kind"@, Doc::Text("external"@)).with(
            "transport_kind"@,
            Doc::Text("http-streamable"@),
        ).with("details"@, Doc::List(seq![detail_doc("address"@, server.url)])).with_if(
            main,
            "probe_status"@,
            Doc::Text(channel_probe(probe.state)),
        ).with_if(
            main && channel_reason(probe.state).len() > 0,
            "reason"@,
            Doc::Text(channel_reason(probe.state)),
        ).with_if(
            main && probe.error is Some,
            "probe_error"@,
            Doc::Text(probe.message()),
        )
    }

    fn server(&self, channel: &str, url: &str) -> (result: Json)
        ensures
            forall|server: ServerView|
                server.channel == channel@ && server.url == url@ ==> #[trigger] self.server_doc(
                    server,
                ) == result.doc(),
    {
        let probe = &self.snapshot.mcp_probe;
        let main = text::same(channel, "main");
        let failed = match probe.state {
            Phase::Failed => true,
            Phase::StartupTimeout => true,
            _ => false,
        };
        let word = match probe.state {
            Phase::StartupTimeout => "failed",
            Phase::Disabled => "pending",
            other => other.text(),
        };
        let reason = match probe.state {
            Phase::Failed => "initial mcp probe failed",
            Phase::StartupTimeout => "initial mcp probe failed",
            Phase::Timeout => "initial mcp probe timed out",
            Phase::AuthRequired => "mcp initialize requires auth",
            _ => "",
        };
        let error = match &probe.error {
            Some(error) => error.clone(),
            None => {
                let empty = String::new();
                assert(empty@ =~= Seq::<char>::empty());
                empty
            },
        };
        Json::object().with("name", Json::text(channel)).with(
            "enabled",
            Json::Bool(!(main && failed)),
        ).with("server_kind", Json::text("external")).with(
            "transport_kind",
            Json::text("http-streamable"),
        ).with("details", list1(detail("address", url))).with_if(
            main,
            "probe_status",
            Json::text(word),
        ).with_if(main && !reason.is_empty(), "reason", Json::text(reason)).with_if(
            main && probe.error.is_some(),
            "probe_error",
            Json::text(&error),
        )
    }

    /// The number of the process of a channel, as it is told of.
    pub open spec fn process_of(self, channel: Seq<char>) -> Seq<char> {
        if self.snapshot.process_ids@.dom().contains(channel) {
            text::decimal_of(self.snapshot.process_ids@[channel] as nat)
        } else {
            "\u{2014}"@
        }
    }

    /// What is told of the channel of a command.
    pub open spec fn command_doc(self, command: CommandView) -> Doc {
        Doc::object().with("name"@, Doc::Text(command.channel)).with(
            "enabled"@,
            Doc::Bool(true),
        ).with("server_kind"@, Doc::Text("external"@)).with(
            "transport_kind"@,
            Doc::Text("stdio"@),
        ).with(
            "details"@,
            Doc::List(
                seq![
                    detail_doc("pid"@, self.process_of(command.channel)),
                    detail_doc("command"@, command.command),
                ],
            ),
        )
    }

    fn command(&self, channel: &str, command: &str) -> (result: Json)
        ensures
            forall|given: CommandView|
                given.channel == channel@ && given.command == command@
                    ==> #[trigger] self.command_doc(given) == result.doc(),
    {
        let pid = match self.snapshot.process_ids.get(channel) {
            Some(pid) => text::decimal(*pid as u64),
            None => "\u{2014}".to_owned(),
        };
        Json::object().with("name", Json::text(channel)).with("enabled", Json::Bool(true)).with(
            "server_kind",
            Json::text("external"),
        ).with("transport_kind", Json::text("stdio")).with(
            "details",
            list2(detail("pid", &pid), detail("command", command)),
        )
    }

    /// What is told of the channels of the first servers and commands, by their names: the later one
    /// counts.
    pub open spec fn channel_docs(self, servers: nat, commands: nat) -> Map<Seq<char>, Doc>
        decreases servers + commands,
    {
        let config = self.config@;
        if commands > 0 {
            let command = config.mcp.commands[commands - 1];
            self.channel_docs(servers, (commands - 1) as nat).insert(
                command.channel,
                self.command_doc(command),
            )
        } else if servers > 0 {
            let server = config.mcp.server_urls[servers - 1];
            self.channel_docs((servers - 1) as nat, 0).insert(
                server.channel,
                self.server_doc(server),
            )
        } else {
            Map::empty()
        }
    }

    /// What is told of the targets as a channel.
    pub open spec fn targets_doc(self) -> Doc {
        Doc::object().with("name"@, Doc::Text("harpoon"@)).with(
            "enabled"@,
            Doc::Bool(self.targets > 0),
        ).with("server_kind"@, Doc::Text("builtin"@)).with(
            "transport_kind"@,
            Doc::Text("in-memory"@),
        ).with_if(
            self.targets == 0,
            "reason"@,
            Doc::Text("no harpoon targets registered"@),
        )
    }

    /// What is told of all channels, in the order of their names, and of the targets.
    pub open spec fn channels_doc(self) -> Doc {
        let config = self.config@;
        let map = self.channel_docs(config.mcp.server_urls.len(), config.mcp.commands.len());
        let keys = crate::table::ordered_keys(map.dom());
        Doc::List(keys.map_values(|name: Seq<char>| map[name]).push(self.targets_doc()))
    }

    fn channel_table(&self) -> (result: Table<Json>)
        ensures
            json_docs(result@) == self.channel_docs(
                self.config@.mcp.server_urls.len(),
                self.config@.mcp.commands.len(),
            ),
    {
        let ghost config = self.config@;
        let servers = &self.config.mcp.server_urls;
        let commands = &self.config.mcp.commands;
        let mut result: Table<Json> = Table::new();
        let mut index: usize = 0;
        assert(json_docs(result@) =~= Map::<Seq<char>, Doc>::empty());
        while index < servers.len()
            invariant
                index <= servers.len(),
                config == self.config@,
                *servers == self.config.mcp.server_urls,
                json_docs(result@) == self.channel_docs(index as nat, 0),
            decreases servers.len() - index,
        {
            let server = &servers[index];
            let shown = self.server(&server.channel, &server.url);
            let ghost before = result@;
            proof {
                assert(config.mcp.server_urls[index as int] == server@);
                assert(self.server_doc(server@) == shown.doc());
            }
            result = result.insert(server.channel.clone(), shown);
            assert(json_docs(result@) =~= json_docs(before).insert(server.channel@, shown.doc()));
            index = index + 1;
        }
        let ghost total = config.mcp.server_urls.len();
        assert(total == servers@.len());
        let mut next: usize = 0;
        while next < commands.len()
            invariant
                next <= commands.len(),
                config == self.config@,
                *commands == self.config.mcp.commands,
                total == config.mcp.server_urls.len(),
                json_docs(result@) == self.channel_docs(total, next as nat),
            decreases commands.len() - next,
        {
            let command = &commands[next];
            let shown = self.command(&command.channel, &command.command);
            let ghost before = result@;
            proof {
                assert(config.mcp.commands[next as int] == command@);
                assert(self.command_doc(command@) == shown.doc());
            }
            result = result.insert(command.channel.clone(), shown);
            assert(json_docs(result@) =~= json_docs(before).insert(command.channel@, shown.doc()));
            next = next + 1;
        }
        result
    }

    fn channels(&self) -> (result: Json)
        ensures
            result.doc() == self.channels_doc(),
    {
        let table = self.channel_table();
        let total: usize = table.len();
        let ghost keys = table.keys();
        let ghost map = json_docs(table@);
        proof {
            assert forall|name: Seq<char>| #[trigger] keys.contains(name) <==> map.dom().contains(
                name,
            ) by {
                assert(map.dom().contains(name) == table@.dom().contains(name));
            }
            crate::table::lemma_ordered_keys(keys, map.dom());
        }
        let ghost all = keys.map_values(|name: Seq<char>| map[name]);
        let mut items: Vec<Json> = Vec::new();
        let mut index: usize = 0;
        while index < total
            invariant
                index <= total,
                total == keys.len(),
                keys == table.keys(),
                map == json_docs(table@),
                all == keys.map_values(|name: Seq<char>| map[name]),
                forall|i: int| 0 <= i < total ==> table@.dom().contains(#[trigger] keys[i]),
                json::docs(items@) == all.take(index as int),
            decreases total - index,
        {
            let item = json::copy(table.value(index));
            proof {
                json::lemma_docs_push(items@, item);
                assert(table@.dom().contains(keys[index as int]));
                assert(all[index as int] == item.doc());
                assert(all.take(index + 1) == all.take(index as int).push(item.doc()));
            }
            items.push(item);
            index = index + 1;
        }
        assert(all.take(all.len() as int) == all);
        let last = Json::object().with("name", Json::text("harpoon")).with(
            "enabled",
            Json::Bool(self.targets > 0),
        ).with("server_kind", Json::text("builtin")).with(
            "transport_kind",
            Json::text("in-memory"),
        ).with_if(self.targets == 0, "reason", Json::text("no harpoon targets registered"));
        proof {
            json::lemma_docs_push(items@, last);
        }
        items.push(last);
        Json::List(items)
    }
}

/// The contents of a table of documents.
pub open spec fn json_docs(map: Map<Seq<char>, Json>) -> Map<Seq<char>, Doc> {
    Map::new(|name: Seq<char>| map.dom().contains(name), |name: Seq<char>| map[name].doc())
}

/// A text entry of the metadata of a tunnel, or nothing.
pub open spec fn metadata_text(doc: Doc, key: Seq<char>) -> Seq<char> {
    match doc.at(key).text() {
        Some(value) => value,
        None => Seq::empty(),
    }
}

fn metadata_entry(value: &Json, key: &str) -> (result: String)
    ensures
        result@ == metadata_text(value.doc(), key@),
{
    match value.get_text(key) {
        Some(inner) => inner,
        None => {
            let empty = String::new();
            assert(empty@ =~= Seq::<char>::empty());
            empty
        },
    }
}

/// What is told of the metadata of a tunnel.
pub open spec fn metadata_doc(doc: Doc) -> Doc {
    Doc::object().with("ID"@, Doc::Text(metadata_text(doc, "id"@))).with(
        "Name"@,
        Doc::Text(metadata_text(doc, "name"@)),
    ).with("Description"@, Doc::Text(metadata_text(doc, "description"@)))
}

fn metadata(value: &Json) -> (result: Json)
    ensures
        result.doc() == metadata_doc(value.doc()),
{
    Json::object().with("ID", Json::text(&metadata_entry(value, "id"))).with(
        "Name",
        Json::text(&metadata_entry(value, "name")),
    ).with("Description", Json::text(&metadata_entry(value, "description")))
}

impl Monitor {
    /// The URL of the last server of the main channel among the first ones.
    pub open spec fn main_url(self, servers: int) -> Option<Seq<char>>
        decreases servers,
    {
        if servers <= 0 {
            None
        } else if self.config@.mcp.server_urls[servers - 1].channel == "main"@ {
            Some(self.config@.mcp.server_urls[servers - 1].url)
        } else {
            self.main_url(servers - 1)
        }
    }

    fn main_server(&self) -> (result: Option<String>)
        ensures
            text::view_of(result) == self.main_url(self.config@.mcp.server_urls.len() as int),
    {
        let servers = &self.config.mcp.server_urls;
        let mut index: usize = servers.len();
        while index > 0
            invariant
                index <= servers.len(),
                *servers == self.config.mcp.server_urls,
                self.main_url(self.config@.mcp.server_urls.len() as int) == self.main_url(
                    index as int,
                ),
            decreases index,
        {
            assert(self.config@.mcp.server_urls[index - 1] == servers@[index - 1]@);
            if text::same(&servers[index - 1].channel, "main") {
                return Some(servers[index - 1].url.clone());
            }
            index = index - 1;
        }
        None
    }

    /// What is told of the status of a runtime.
    pub open spec fn status_doc(self, now: u64) -> Doc {
        let config = self.config@;
        let plane = config.control_plane;
        let url = self.main_url(config.mcp.server_urls.len() as int);
        Doc::object().with("version"@, Doc::Text(VERSION@)).with(
            "client_instance_id"@,
            Doc::Text(self.instance@),
        ).with("started_at"@, optional_doc(timestamp_of(self.start_of()))).with(
            "uptime_seconds"@,
            Doc::number(elapsed_of(self.start_of(), now) as nat / 1_000_000_000),
        ).with("health_listen_addr"@, Doc::Text(self.address@)).with(
            "control_plane_base_url"@,
            Doc::Text(plane.base()),
        ).with("control_plane_tunnel_id"@, Doc::Text(plane.tunnel_id)).with(
            "control_plane_max_inflight"@,
            Doc::number(plane.max_inflight_requests as nat),
        ).with(
            "control_plane_poll_timeout"@,
            Doc::Text(crate::config::duration::span_text(plane.poll_timeout.0 as nat)),
        ).with(
            "control_plane_poll_deadline_guardrail"@,
            Doc::Text(crate::config::duration::span_text(plane.poll_deadline_guardrail.0 as nat)),
        ).with("raw_http_logging_enabled"@, Doc::Bool(config.log.http_raw_unsafe)).with_if(
            url is Some,
            "mcp_server_url"@,
            Doc::Text(
                match url {
                    Some(url) => url,
                    None => Seq::empty(),
                },
            ),
        ).with("channels"@, self.channels_doc()).with_if(
            self.metadata is Some,
            "tunnel_metadata"@,
            match self.metadata {
                Some(value) => metadata_doc(value.doc()),
                None => Doc::Null,
            },
        ).with_if(
            self.snapshot.metadata_error is Some,
            "tunnel_metadata_error"@,
            optional_doc(text::view_of(self.snapshot.metadata_error)),
        )
    }

    /// Tells of the status of a runtime.
    pub fn status(&self, now: u64) -> (result: Json)
        ensures
            result.doc() == self.status_doc(now),
    {
        let plane = &self.config.control_plane;
        let start: u64 = self.start();
        let found = self.main_server();
        let there = found.is_some();
        let url = match found {
            Some(url) => url,
            None => {
                let empty = String::new();
                assert(empty@ =~= Seq::<char>::empty());
                empty
            },
        };
        let told = match &self.metadata {
            Some(value) => metadata(value),
            None => Json::Null,
        };
        let front = Json::object().with("version", Json::text(VERSION)).with(
            "client_instance_id",
            Json::text(&self.instance),
        ).with("started_at", optional(&timestamp(start))).with(
            "uptime_seconds",
            Json::number(elapsed(start, now) / 1_000_000_000),
        ).with("health_listen_addr", Json::text(&self.address)).with(
            "control_plane_base_url",
            Json::text(&plane.base_url()),
        ).with("control_plane_tunnel_id", Json::text(&plane.tunnel_id));
        front.with(
            "control_plane_max_inflight",
            Json::number(plane.max_inflight_requests as u64),
        ).with("control_plane_poll_timeout", Json::text(&plane.poll_timeout.text())).with(
            "control_plane_poll_deadline_guardrail",
            Json::text(&plane.poll_deadline_guardrail.text()),
        ).with("raw_http_logging_enabled", Json::Bool(self.config.log.http_raw_unsafe)).with_if(
            there,
            "mcp_server_url",
            Json::text(&url),
        ).with("channels", self.channels()).with_if(
            self.metadata.is_some(),
            "tunnel_metadata",
            told,
        ).with_if(
            self.snapshot.metadata_error.is_some(),
            "tunnel_metadata_error",
            optional(&self.snapshot.metadata_error),
        )
    }

    /// How the attempt to reach the server is told of in the status of the system.
    pub open spec fn system_probe(self) -> Seq<char> {
        match self.snapshot.mcp_probe.state {
            Phase::Disabled => "ok"@,
            Phase::StartupTimeout => "failed"@,
            other => other.word(),
        }
    }

    /// What is told of the proxies by their identities.
    pub open spec fn identity_docs(self) -> Seq<Doc> {
        let firsts = first_through(self.snapshot.proxy.routes@);
        let keys = crate::table::ordered_keys(firsts.dom());
        keys.map_values(|id: Seq<char>| identity_doc(self.snapshot.proxy.routes@[firsts[id]]))
    }

    /// What is told of the system of a runtime.
    pub open spec fn system_doc(self) -> Doc {
        let probe = self.snapshot.mcp_probe;
        Doc::object().with("tls"@, self.trust.doc()).with(
            "main_channel_probe_status"@,
            Doc::Text(self.system_probe()),
        ).with_if(
            probe.error is Some,
            "main_channel_probe_error"@,
            optional_doc(text::view_of(probe.error)),
        ).with_if(
            self.snapshot.proxy.routes@.len() > 0,
            "proxy_health"@,
            Doc::List(self.snapshot.proxy.routes@.map_values(|route: Route| route.health_doc())),
        ).with_if(
            self.identity_docs().len() > 0,
            "proxy_identity_map"@,
            Doc::List(self.identity_docs()),
        )
    }

    /// Tells of the system of a runtime.
    pub fn system(&self) -> (result: Json)
        ensures
            result.doc() == self.system_doc(),
    {
        let probe = &self.snapshot.mcp_probe;
        let word = match probe.state {
            Phase::Disabled => "ok",
            Phase::StartupTimeout => "failed",
            other => other.text(),
        };
        let ways = summaries(&self.snapshot.proxy.routes);
        let proxies = identities(&self.snapshot.proxy.routes);
        let many = proxies.len() > 0;
        proof {
            json::lemma_docs(proxies@);
            assert(json::docs(proxies@) == self.identity_docs());
        }
        Json::object().with("tls", json::copy(&self.trust)).with(
            "main_channel_probe_status",
            Json::text(word),
        ).with_if(
            probe.error.is_some(),
            "main_channel_probe_error",
            optional(&probe.error),
        ).with_if(self.snapshot.proxy.routes.len() > 0, "proxy_health", Json::List(ways)).with_if(
            many,
            "proxy_identity_map",
            Json::List(proxies),
        )
    }
}

/// Only GET is answered; a query that is none is refused, and so is an unknown part; everything else is told with
/// 200.
pub proof fn lemma_health_answers(
    monitor: Monitor,
    answer: Answer,
    get: bool,
    path: Seq<char>,
    query: Option<Seq<char>>,
    oldest: u64,
    now: u64,
)
    requires
        monitor.answers(answer, get, path, query, oldest, now),
    ensures
        !get ==> answer.status == 405 && answer.allow,
        get && asked_of(path, query, monitor.config.health.show_details) is None ==> answer.status == 400,
        get && path == "/health"@ && query is None ==> answer.status == 200 && answer.body.doc()
            == monitor.whole_doc(monitor.config.health.show_details, oldest, now),
        get && path != "/health"@ && query is Some ==> answer.status == 400,
        answer.allow ==> answer.status == 405,
{
}

/// A request for a part names it behind the slash; one for the runtime can ask for the details, or for none, and for
/// nothing else.
pub proof fn lemma_health_asked(name: Seq<char>, query: Seq<char>, details: bool)
    ensures
        "/health/"@ + name != "/health"@ ==> asked_of("/health/"@ + name, None, details) == Some(
            AskedView::Part(pattern::percent_lossy(name)),
        ),
        asked_of("/health"@, None, details) == Some(AskedView::Runtime { details }),
        query.len() == 0 ==> asked_of("/health"@, Some(query), details) is None,
        text::byte_len(query) > 128 || query.contains(';') ==> asked_of("/health"@, Some(query), details)
            is None,
        details_of(query) matches Some(wanted) ==> pattern::query_pairs(query).len() == 1
            && pattern::query_pairs(query)[0].0 == "details"@ && pattern::query_pairs(query)[0].1 == (if wanted {
            "true"@
        } else {
            "false"@
        }),
{
    let path = "/health/"@ + name;
    let front = "/health/"@.len() as int;
    assert(path.subrange(0, front) =~= "/health/"@);
    assert(path.subrange(front, path.len() as int) =~= name);
}

/// Each part is told of under its own name, alone as with the others.
pub proof fn lemma_health_parts(monitor: Monitor, oldest: u64, now: u64)
    ensures
        monitor.part_doc("proxy"@, oldest, now) == Some(
            proxy_doc(monitor.snapshot.proxy.routes@, monitor.snapshot.proxy.observed_at),
        ),
        monitor.part_doc("control-plane"@, oldest, now) == Some(monitor.control_doc(now)),
        monitor.part_doc("response-delivery"@, oldest, now) == Some(monitor.delivery_doc()),
        monitor.part_doc("queue"@, oldest, now) == Some(monitor.queue_doc(now)),
        monitor.part_doc("dispatcher"@, oldest, now) == Some(monitor.dispatched(oldest)),
        monitor.part_doc("mcp"@, oldest, now) == Some(monitor.mcp_doc()),
        monitor.part_doc("oauth"@, oldest, now) == Some(monitor.oauth_doc()),
        monitor.part_doc("harpoon"@, oldest, now) == Some(monitor.harpoon_doc()),
        monitor.part_doc("cloudflared"@, oldest, now) == Some(monitor.cloudflared_doc()),
        monitor.parts_doc(oldest, now, Form::Full).at("proxy"@) == proxy_doc(
            monitor.snapshot.proxy.routes@,
            monitor.snapshot.proxy.observed_at,
        ),
        monitor.parts_doc(oldest, now, Form::Full).at("control-plane"@) == monitor.control_doc(now),
        monitor.parts_doc(oldest, now, Form::Full).at("response-delivery"@) == monitor.delivery_doc(),
        monitor.parts_doc(oldest, now, Form::Full).at("queue"@) == monitor.queue_doc(now),
        monitor.parts_doc(oldest, now, Form::Full).at("dispatcher"@) == monitor.dispatched(oldest),
        monitor.parts_doc(oldest, now, Form::Full).at("mcp"@) == monitor.mcp_doc(),
        monitor.parts_doc(oldest, now, Form::Full).at("oauth"@) == monitor.oauth_doc(),
        monitor.parts_doc(oldest, now, Form::Full).at("harpoon"@) == monitor.harpoon_doc(),
        monitor.parts_doc(oldest, now, Form::Full).at("cloudflared"@) == monitor.cloudflared_doc(),
{
    reveal_strlit("proxy");
    reveal_strlit("control-plane");
    reveal_strlit("response-delivery");
    reveal_strlit("queue");
    reveal_strlit("dispatcher");
    reveal_strlit("mcp");
    reveal_strlit("oauth");
    reveal_strlit("harpoon");
    reveal_strlit("cloudflared");
    assert("proxy"@.len() == 5 && "proxy"@[0] == 'p');
    assert("control-plane"@.len() == 13);
    assert("response-delivery"@.len() == 17);
    assert("queue"@.len() == 5 && "queue"@[0] == 'q');
    assert("dispatcher"@.len() == 10);
    assert("mcp"@.len() == 3);
    assert("oauth"@.len() == 5 && "oauth"@[0] == 'o');
    assert("harpoon"@.len() == 7);
    assert("cloudflared"@.len() == 11);
}

/// What is told of a runtime: that it lives, whether it is ready, and which it is.
pub proof fn lemma_runtime_told(monitor: Monitor, now: u64)
    ensures
        monitor.runtime_doc(now).at("live"@) == Doc::Bool(true),
        monitor.runtime_doc(now).at("ready"@) == Doc::Bool(monitor.snapshot.ready),
        monitor.runtime_doc(now).at("schema_version"@) == Doc::number(1),
        monitor.runtime_doc(now).at("runtime"@).at("instance_id"@) == Doc::Text(monitor.instance@),
        monitor.runtime_doc(now).at("runtime"@).at("lifecycle"@) == Doc::Text(
            monitor.snapshot.lifecycle.word(),
        ),
{
    reveal_strlit("schema_version");
    reveal_strlit("live");
    reveal_strlit("ready");
    reveal_strlit("snapshot_at");
    reveal_strlit("runtime");
    reveal_strlit("instance_id");
    reveal_strlit("version");
    reveal_strlit("flavor");
    reveal_strlit("started_at");
    reveal_strlit("uptime_seconds");
    reveal_strlit("lifecycle");
    assert("schema_version"@.len() == 14 && "schema_version"@[0] == 's');
    assert("live"@.len() == 4);
    assert("ready"@.len() == 5);
    assert("snapshot_at"@.len() == 11 && "snapshot_at"@[0] == 's');
    assert("runtime"@.len() == 7 && "runtime"@[0] == 'r');
    assert("instance_id"@.len() == 11 && "instance_id"@[0] == 'i');
    assert("version"@.len() == 7 && "version"@[0] == 'v');
    assert("flavor"@.len() == 6);
    assert("started_at"@.len() == 10);
    assert("uptime_seconds"@.len() == 14 && "uptime_seconds"@[0] == 'u');
    assert("lifecycle"@.len() == 9);
}

/// What would be too large loses its details and says so.
pub proof fn lemma_large_limited(doc: Doc)
    ensures
        doc is Object ==> bared(doc).at("limited"@) == Doc::Bool(true) && bared(doc).at("details"@)
            == Doc::Null,
        text::byte_len(json_text(doc)) <= 24064 ==> Form::Short.shape(doc) == doc,
        text::byte_len(json_text(doc)) > 24064 ==> Form::Short.shape(doc) == bared(doc),
        Form::Full.shape(doc) == doc,
        Form::Bare.shape(doc) == bared(doc),
{
    reveal_strlit("limited");
    reveal_strlit("details");
    assert("limited"@.len() == 7 && "limited"@[0] == 'l');
    assert("details"@.len() == 7 && "details"@[0] == 'd');
}

/// A main server that failed is told of as not enabled, with the reason; another server is enabled.
pub proof fn lemma_server_told(monitor: Monitor, server: ServerView)
    ensures
        server.channel != "main"@ ==> monitor.server_doc(server).at("enabled"@) == Doc::Bool(true),
        server.channel == "main"@ && (monitor.snapshot.mcp_probe.state == Phase::Failed
            || monitor.snapshot.mcp_probe.state == Phase::StartupTimeout) ==> monitor.server_doc(server).at(
            "enabled"@,
        ) == Doc::Bool(false) && monitor.server_doc(server).at("probe_status"@) == Doc::Text("failed"@),
        server.channel == "main"@ && monitor.snapshot.mcp_probe.state == Phase::Succeeded
            ==> monitor.server_doc(server).at("enabled"@) == Doc::Bool(true) && monitor.server_doc(server).at(
            "probe_status"@,
        ) == Doc::Text("ok"@),
        monitor.server_doc(server).at("name"@) == Doc::Text(server.channel),
        monitor.server_doc(server).at("transport_kind"@) == Doc::Text("http-streamable"@),
        monitor.targets_doc().at("enabled"@) == Doc::Bool(monitor.targets > 0),
        channel_reason(Phase::Failed) == "initial mcp probe failed"@,
        channel_reason(Phase::Timeout) == "initial mcp probe timed out"@,
        channel_reason(Phase::AuthRequired) == "mcp initialize requires auth"@,
{
    reveal_strlit("name");
    reveal_strlit("enabled");
    reveal_strlit("server_kind");
    reveal_strlit("transport_kind");
    reveal_strlit("details");
    reveal_strlit("probe_status");
    reveal_strlit("reason");
    reveal_strlit("probe_error");
    assert("name"@.len() == 4);
    assert("enabled"@.len() == 7 && "enabled"@[0] == 'e');
    assert("server_kind"@.len() == 11 && "server_kind"@[0] == 's');
    assert("transport_kind"@.len() == 14);
    assert("details"@.len() == 7 && "details"@[0] == 'd');
    assert("probe_status"@.len() == 12);
    assert("reason"@.len() == 6);
    assert("probe_error"@.len() == 11 && "probe_error"@[0] == 'p');
}

/// What is told of a part alone names it and the moment; what is too large loses its details.
pub proof fn lemma_part_alone(monitor: Monitor, name: Seq<char>, map: Map<Seq<char>, Doc>, now: u64)
    ensures
        ({
            let doc = monitor.alone_doc(name, Doc::Object(map), now);
            &&& doc.at("component"@) == Doc::Text(name)
            &&& doc.at("schema_version"@) == Doc::number(1)
        }),
{
    reveal_strlit("schema_version");
    reveal_strlit("snapshot_at");
    reveal_strlit("component");
    reveal_strlit("details");
    reveal_strlit("limited");
    assert("schema_version"@.len() == 14);
    assert("snapshot_at"@.len() == 11);
    assert("component"@.len() == 9);
    assert("details"@.len() == 7 && "details"@[0] == 'd');
    assert("limited"@.len() == 7 && "limited"@[0] == 'l');
}

/// A whole answer tells the parts where they are asked for, and says where it had to leave something out.
pub proof fn lemma_whole_told(monitor: Monitor, oldest: u64, now: u64)
    ensures
        ({
            let base = monitor.runtime_doc(now);
            let short = base.with("components"@, monitor.parts_doc(oldest, now, Form::Short));
            &&& text::byte_len(json_text(short)) <= 65536 ==> monitor.whole_doc(true, oldest, now) == short
            &&& text::byte_len(json_text(short)) > 65536 ==> monitor.whole_doc(true, oldest, now).at(
                "truncated"@,
            ) == Doc::Bool(true)
            &&& text::byte_len(json_text(base)) <= 65536 ==> monitor.whole_doc(false, oldest, now) == base
        }),
{
    reveal_strlit("components");
    reveal_strlit("truncated");
    assert("components"@.len() == 10);
    assert("truncated"@.len() == 9);
}

/// What is told of a command: its process where it is known, and its words.
pub proof fn lemma_command_told(monitor: Monitor, command: CommandView)
    ensures
        ({
            let doc = monitor.command_doc(command);
            &&& doc.at("name"@) == Doc::Text(command.channel)
            &&& doc.at("enabled"@) == Doc::Bool(true)
            &&& doc.at("transport_kind"@) == Doc::Text("stdio"@)
            &&& doc.at("details"@) matches Doc::List(items) && items.len() == 2 && items[1].at("value"@)
                == Doc::Text(command.command) && items[0].at("key"@) == Doc::Text("pid"@)
        }),
        monitor.snapshot.process_ids@.dom().contains(command.channel) ==> monitor.process_of(command.channel)
            == text::decimal_of(monitor.snapshot.process_ids@[command.channel] as nat),
        !monitor.snapshot.process_ids@.dom().contains(command.channel) ==> monitor.process_of(command.channel)
            == "\u{2014}"@,
        monitor.targets == 0 ==> monitor.targets_doc().at("reason"@) == Doc::Text(
            "no harpoon targets registered"@,
        ),
{
    reveal_strlit("name");
    reveal_strlit("enabled");
    reveal_strlit("server_kind");
    reveal_strlit("transport_kind");
    reveal_strlit("details");
    reveal_strlit("reason");
    reveal_strlit("key");
    reveal_strlit("value");
    assert("name"@.len() == 4);
    assert("enabled"@.len() == 7 && "enabled"@[0] == 'e');
    assert("server_kind"@.len() == 11);
    assert("transport_kind"@.len() == 14);
    assert("details"@.len() == 7 && "details"@[0] == 'd');
    assert("reason"@.len() == 6);
    assert("key"@.len() == 3);
    assert("value"@.len() == 5);
}

/// The status of a runtime: which it is, where it polls, and what it serves.
#[verifier::spinoff_prover]
pub proof fn lemma_status_told(monitor: Monitor, now: u64)
    ensures
        ({
            let doc = monitor.status_doc(now);
            let plane = monitor.config@.control_plane;
            &&& doc.at("client_instance_id"@) == Doc::Text(monitor.instance@)
            &&& doc.at("health_listen_addr"@) == Doc::Text(monitor.address@)
            &&& doc.at("control_plane_base_url"@) == Doc::Text(plane.base())
            &&& doc.at("control_plane_tunnel_id"@) == Doc::Text(plane.tunnel_id)
            &&& doc.at("control_plane_max_inflight"@) == Doc::number(plane.max_inflight_requests as nat)
            &&& doc.at("raw_http_logging_enabled"@) == Doc::Bool(monitor.config@.log.http_raw_unsafe)
            &&& doc.at("channels"@) == monitor.channels_doc()
            &&& monitor.metadata is None ==> doc.at("tunnel_metadata"@) == Doc::Null
            &&& monitor.metadata matches Some(value) ==> doc.at("tunnel_metadata"@) == metadata_doc(value.doc())
        }),
{
    reveal_strlit("version");
    reveal_strlit("client_instance_id");
    reveal_strlit("started_at");
    reveal_strlit("uptime_seconds");
    reveal_strlit("health_listen_addr");
    reveal_strlit("control_plane_base_url");
    reveal_strlit("control_plane_tunnel_id");
    reveal_strlit("control_plane_max_inflight");
    reveal_strlit("control_plane_poll_timeout");
    reveal_strlit("control_plane_poll_deadline_guardrail");
    reveal_strlit("raw_http_logging_enabled");
    reveal_strlit("mcp_server_url");
    reveal_strlit("channels");
    reveal_strlit("tunnel_metadata");
    reveal_strlit("tunnel_metadata_error");
    assert("version"@.len() == 7);
    assert("client_instance_id"@.len() == 18 && "client_instance_id"@[0] == 'c');
    assert("started_at"@.len() == 10);
    assert("uptime_seconds"@.len() == 14 && "uptime_seconds"@[0] == 'u');
    assert("health_listen_addr"@.len() == 18 && "health_listen_addr"@[0] == 'h');
    assert("control_plane_base_url"@.len() == 22);
    assert("control_plane_tunnel_id"@.len() == 23);
    assert("control_plane_max_inflight"@.len() == 26 && "control_plane_max_inflight"@[14] == 'm');
    assert("control_plane_poll_timeout"@.len() == 26 && "control_plane_poll_timeout"@[14] == 'p');
    assert("control_plane_poll_deadline_guardrail"@.len() == 37);
    assert("raw_http_logging_enabled"@.len() == 24);
    assert("mcp_server_url"@.len() == 14 && "mcp_server_url"@[0] == 'm');
    assert("channels"@.len() == 8);
    assert("tunnel_metadata"@.len() == 15);
    assert("tunnel_metadata_error"@.len() == 21);
}

/// What is told of a tunnel, of the probe of the main channel and of the proxies.
pub proof fn lemma_system_told(monitor: Monitor, doc: Doc, value: Seq<char>)
    ensures
        doc.at("id"@) == Doc::Text(value) ==> metadata_doc(doc).at("ID"@) == Doc::Text(value),
        doc.at("name"@) == Doc::Text(value) ==> metadata_doc(doc).at("Name"@) == Doc::Text(value),
        doc.at("description"@) == Doc::Text(value) ==> metadata_doc(doc).at("Description"@) == Doc::Text(value),
        monitor.snapshot.mcp_probe.state == Phase::Disabled ==> monitor.system_doc().at(
            "main_channel_probe_status"@,
        ) == Doc::Text("ok"@),
        monitor.snapshot.mcp_probe.state == Phase::StartupTimeout ==> monitor.system_doc().at(
            "main_channel_probe_status"@,
        ) == Doc::Text("failed"@),
        monitor.system_doc().at("tls"@) == monitor.trust.doc(),
        monitor.snapshot.proxy.routes@.len() == 0 ==> monitor.system_doc().at("proxy_health"@) == Doc::Null,
        monitor.snapshot.proxy.routes@.len() > 0 ==> monitor.system_doc().at("proxy_health"@) == Doc::List(
            monitor.snapshot.proxy.routes@.map_values(|route: Route| route.health_doc()),
        ),
{
    reveal_strlit("ID");
    reveal_strlit("Name");
    reveal_strlit("Description");
    reveal_strlit("tls");
    reveal_strlit("main_channel_probe_status");
    reveal_strlit("main_channel_probe_error");
    reveal_strlit("proxy_health");
    reveal_strlit("proxy_identity_map");
    assert("ID"@.len() == 2);
    assert("Name"@.len() == 4);
    assert("Description"@.len() == 11);
    assert("tls"@.len() == 3);
    assert("main_channel_probe_status"@.len() == 25);
    assert("main_channel_probe_error"@.len() == 24);
    assert("proxy_health"@.len() == 12);
    assert("proxy_identity_map"@.len() == 18);
}

} // verus!
