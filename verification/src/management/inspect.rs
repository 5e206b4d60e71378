//! What is found out of a managed runtime, and what to do about it.

use vstd::prelude::*;
use crate::address::{self, parsed_url};
use crate::admin::{Tunnel, TunnelView};
use crate::health::SOCKET;
use crate::host::{self, ip_of};
use crate::json::{self, parsed_json, Doc, Json};
use crate::management::profiles::{first, first_of};
use crate::management::records::{Alias, AliasView, Process, ProcessView};
use crate::management::session::{session_name, session_name_of, shell_join, shell_joined};
use crate::management::state::Root;
use crate::text;

verus! {

/// The answer of a runtime to a check.
pub struct Endpoint {
    pub url: String,
    pub ok: bool,
    pub status: u16,
    pub body: String,
    pub error: String,
}

impl Endpoint {
    /// A check that was not made.
    pub fn unasked() -> (result: Endpoint)
        ensures
            result.is_unasked(),
    {
        Endpoint {
            url: String::new(),
            ok: false,
            status: 0,
            body: String::new(),
            error: String::new(),
        }
    }

    /// Whether the check was not made.
    pub open spec fn is_unasked(self) -> bool {
        &&& self.url@.len() == 0
        &&& !self.ok
        &&& self.status == 0
        &&& self.body@.len() == 0
        &&& self.error@.len() == 0
    }

    /// A check that was answered.
    pub fn answered(url: String, status: u16, body: &str) -> (result: Endpoint)
        ensures
            result.url == url,
            result.ok == (200 <= status < 300),
            result.status == status,
            result.body@ == text::trim_of(body@),
            result.error@.len() == 0,
    {
        Endpoint {
            url,
            ok: 200 <= status && status < 300,
            status,
            body: text::trim(body),
            error: String::new(),
        }
    }

    /// A check that failed.
    pub fn failed(url: String, error: String) -> (result: Endpoint)
        ensures
            result.url == url,
            !result.ok,
            result.status == 0,
            result.body@.len() == 0,
            result.error == error,
    {
        Endpoint { url, ok: false, status: 0, body: String::new(), error }
    }

    /// What is told of the check.
    pub open spec fn document_of(self) -> Doc {
        Doc::object().with("url"@, Doc::Text(self.url@)).with("ok"@, Doc::Bool(self.ok)).with(
            "status"@,
            Doc::number(self.status as nat),
        ).with("body"@, Doc::Text(self.body@)).with("error"@, Doc::Text(self.error@))
    }

    /// What is told of the check.
    pub fn document(&self) -> (result: Json)
        ensures
            result.doc() == self.document_of(),
    {
        Json::object().with("url", Json::text(&self.url)).with("ok", Json::Bool(self.ok)).with(
            "status",
            Json::number(self.status as u64),
        ).with("body", Json::text(&self.body)).with("error", Json::text(&self.error))
    }
}

/// The answers of a runtime to its checks.
pub struct Probe {
    pub base_url: String,
    pub healthz: Endpoint,
    pub readyz: Endpoint,
    /// Whether the runtime tells of its details.
    pub details: bool,
}

impl Probe {
    /// The checks of a runtime that has no address.
    pub fn none() -> (result: Probe)
        ensures
            result.base_url@.len() == 0,
            result.healthz.is_unasked(),
            result.readyz.is_unasked(),
            !result.details,
    {
        Probe {
            base_url: String::new(),
            healthz: Endpoint::unasked(),
            readyz: Endpoint::unasked(),
            details: false,
        }
    }

    /// The checks of a runtime that answered them, with what it told of its details at a place.
    pub fn new(
        base_url: String,
        healthz: Endpoint,
        readyz: Endpoint,
        place: &str,
        answer: &Option<(u16, Vec<u8>)>,
    ) -> (result: Probe)
        ensures
            result.base_url == base_url,
            result.healthz == healthz,
            result.readyz == readyz,
            result.details == (healthz.ok && may_detail_of(place@) && match *answer {
                Some((code, body)) => are_details(code, body@),
                None => false,
            }),
    {
        let details = healthz.ok && may_detail(place) && match answer {
            Some((code, body)) => details(*code, body),
            None => false,
        };
        Probe { base_url, healthz, readyz, details }
    }

    /// What is told of where the details of a runtime at a place are, added to an object.
    pub open spec fn links_doc(self, base: Doc, place: Seq<char>) -> Doc {
        base.with_if(
            self.details,
            "health_details_url"@,
            Doc::Text(place + "/health?details=true"@),
        ).with_if(self.details, "mcp_health_url"@, Doc::Text(place + "/health/mcp"@))
    }

    /// What is told of where the details of a runtime at a place are, added to an object.
    pub fn links(&self, base: Json, place: &str) -> (result: Json)
        ensures
            result.doc() == self.links_doc(base.doc(), place@),
    {
        base.with_if(
            self.details,
            "health_details_url",
            Json::text(&text::cat(place, "/health?details=true")),
        ).with_if(
            self.details,
            "mcp_health_url",
            Json::text(&text::cat(place, "/health/mcp")),
        )
    }

    /// What is told of the checks of a runtime at a place, added to an object.
    pub open spec fn checks_doc(self, base: Doc, place: Seq<char>) -> Doc {
        self.links_doc(
            base.with("base_url"@, Doc::Text(self.base_url@)).with(
                "url"@,
                Doc::Text(self.healthz.url@),
            ).with("ui"@, Doc::Text(ui_of(place))).with("healthz"@, self.healthz.document_of()).with(
                "readyz"@,
                self.readyz.document_of(),
            ),
            place,
        )
    }

    /// What is told of the checks of a runtime at a place, added to an object.
    pub fn checks(&self, base: Json, place: &str) -> (result: Json)
        ensures
            result.doc() == self.checks_doc(base.doc(), place@),
    {
        self.links(
            base.with("base_url", Json::text(&self.base_url)).with(
                "url",
                Json::text(&self.healthz.url),
            ).with("ui", Json::text(&ui(place))).with("healthz", self.healthz.document()).with(
                "readyz",
                self.readyz.document(),
            ),
            place,
        )
    }
}

/// The address of the pages of a runtime, where it has one.
pub open spec fn ui_of(base: Seq<char>) -> Seq<char> {
    if base.len() == 0 {
        Seq::empty()
    } else {
        base + "/ui"@
    }
}

/// The address of the pages of a runtime, where it has one.
pub fn ui(base: &str) -> (result: String)
    ensures
        result@ == ui_of(base@),
{
    if base.is_empty() {
        let empty = String::new();
        assert(empty@ =~= Seq::<char>::empty());
        empty
    } else {
        text::cat(base, "/ui")
    }
}

/// Whether the details of a runtime are asked for: only on this host, and without a user.
pub open spec fn may_detail_of(base: Seq<char>) -> bool {
    SOCKET@.is_prefix_of(base) || match parsed_url(base) {
        Err(_) => false,
        Ok(url) => {
            &&& url.username.len() == 0
            &&& url.password is None
            &&& url.scheme == "http"@ || url.scheme == "https"@
            &&& match url.host {
                None => false,
                Some(host) => host == "localhost"@ || match ip_of(text::unbracketed(host)) {
                    Some(ip) => ip.is_loopback(),
                    None => false,
                },
            }
        },
    }
}

/// Whether the details of a runtime are asked for.
pub fn may_detail(base: &str) -> (result: bool)
    ensures
        result == may_detail_of(base@),
{
    if text::starts_with(base, SOCKET) {
        return true;
    }
    match address::parse(base) {
        Err(_) => false,
        Ok(url) => {
            if !url.username.is_empty() || url.password.is_some() {
                return false;
            }
            if !text::same(&url.scheme, "http") && !text::same(&url.scheme, "https") {
                return false;
            }
            match &url.host {
                None => false,
                Some(host) => if text::same(host, "localhost") {
                    true
                } else {
                    match host::ip(&text::unbracket(host)) {
                        Some(ip) => ip.loopback(),
                        None => false,
                    }
                },
            }
        },
    }
}

/// The largest answer with the details of a runtime.
pub const MAX_DETAILS: usize = 24576;

/// Whether an answer tells of the details of a runtime.
pub open spec fn are_details(code: u16, body: Seq<u8>) -> bool {
    &&& code == 200
    &&& body.len() <= MAX_DETAILS
    &&& match text::utf8_text(body) {
        Some(value) => match parsed_json(value) {
            Some(doc) => doc.at("schema_version"@) == Doc::number(1) && doc.at("component"@)
                == Doc::Text("mcp"@),
            None => false,
        },
        None => false,
    }
}

/// Whether an answer tells of the details of a runtime.
pub fn details(code: u16, body: &Vec<u8>) -> (result: bool)
    ensures
        result == are_details(code, body@),
{
    if code != 200 || body.len() > MAX_DETAILS {
        return false;
    }
    let value = match text::from_utf8(body) {
        Some(value) => value,
        None => {
            return false;
        },
    };
    let value = match json::parse(&value) {
        Some(value) => value,
        None => {
            return false;
        },
    };
    let version = match value.get("schema_version") {
        Some(Json::Number(number)) => text::same(&json::figures(number), &text::decimal(1)),
        _ => false,
    };
    if !version {
        return false;
    }
    match value.get("component") {
        Some(Json::Text(name)) => text::same(name, "mcp"),
        _ => false,
    }
}

/// A file, as it was found.
pub struct File {
    pub path: String,
    pub exists: bool,
    pub size_bytes: u64,
}

impl File {
    /// What is told of a file.
    pub open spec fn document_of(self) -> Doc {
        Doc::object().with("path"@, Doc::Text(self.path@)).with(
            "exists"@,
            Doc::Bool(self.exists),
        ).with("size_bytes"@, Doc::number(self.size_bytes as nat))
    }

    /// What is told of a file.
    pub fn document(&self) -> (result: Json)
        ensures
            result.doc() == self.document_of(),
    {
        Json::object().with("path", Json::text(&self.path)).with(
            "exists",
            Json::Bool(self.exists),
        ).with("size_bytes", Json::number(self.size_bytes))
    }
}

/// A runtime for the same tunnel that was found at another address.
pub struct Live {
    pub base_url: String,
    /// The file with its address.
    pub source: String,
    pub status: Json,
    /// What it tells of its system, or null.
    pub system: Json,
}

/// What a runtime tells, where it tells something.
pub open spec fn fetched_doc(code: u16, body: Seq<u8>) -> Option<Doc> {
    if 200 <= code < 300 {
        match text::utf8_text(body) {
            Some(value) => parsed_json(value),
            None => None,
        }
    } else {
        None
    }
}

/// What a runtime tells, where it tells something.
pub fn fetched(code: u16, body: &Vec<u8>) -> (result: Option<Json>)
    ensures
        match (result, fetched_doc(code, body@)) {
            (Some(value), Some(doc)) => value.doc() == doc,
            (None, None) => true,
            _ => false,
        },
{
    if code < 200 || code >= 300 {
        return None;
    }
    match text::from_utf8(body) {
        Some(value) => json::parse(&value),
        None => None,
    }
}

/// The paths of the files of a runtime: the one with its address, its profile and its log; each is the
/// one of the runtime, or of its tunnel.
pub fn paths(record: &Alias, process: &Process) -> (result: (String, String, String))
    ensures
        result.0@ == first_of(process.health_url_file@, record.health_url_file@),
        result.1@ == first_of(process.profile_path@, record.profile_path@),
        result.2@ == process.log_path@,
{
    (
        first(&process.health_url_file, &record.health_url_file),
        first(&process.profile_path, &record.profile_path),
        process.log_path.clone(),
    )
}

/// Whether another address is worth a look: it is one, and not the known one.
pub fn is_other(base: &str, known: &str) -> (result: bool)
    ensures
        result == (base@.len() > 0 && base@ != known@),
{
    !base.is_empty() && !text::same(base, known)
}

/// Whether a runtime is one for a tunnel, where the tunnel is known.
pub fn is_for(tunnel: &str, status: &Json) -> (result: bool)
    ensures
        result == (tunnel@.len() == 0 || status.doc().at("control_plane_tunnel_id"@) == Doc::Text(
            tunnel@,
        )),
{
    if tunnel.is_empty() {
        return true;
    }
    match status.get("control_plane_tunnel_id") {
        Some(Json::Text(id)) => text::same(id, tunnel),
        _ => false,
    }
}

/// All that was found of a managed runtime.
pub struct Seen {
    /// The file with its address.
    pub health: File,
    pub raw_url: String,
    pub probe: Probe,
    pub live: Option<Live>,
    /// The checks at the address that was found instead.
    pub replacement: Probe,
    pub profile: File,
    pub log: File,
    pub tail: String,
    /// Whether its terminal session is there.
    pub tmux: bool,
    /// Whether its process is there.
    pub running: bool,
}

/// The state of a managed runtime.
#[derive(Clone, Copy, PartialEq, Eq, Structural)]
pub enum State {
    Stopped,
    Starting,
    Healthy,
    Ready,
}

impl State {
    /// The state in words.
    pub open spec fn word(self) -> Seq<char> {
        match self {
            State::Stopped => "stopped"@,
            State::Starting => "starting"@,
            State::Healthy => "healthy"@,
            State::Ready => "ready"@,
        }
    }

    /// The state in words.
    pub fn text(self) -> (result: &'static str)
        ensures
            result@ == self.word(),
    {
        match self {
            State::Stopped => "stopped",
            State::Starting => "starting",
            State::Healthy => "healthy",
            State::Ready => "ready",
        }
    }
}

impl Seen {
    /// The checks that count: those at the address that was found where the known one does not answer.
    pub open spec fn effective_of(self) -> Probe {
        if !self.probe.healthz.ok && self.live is Some {
            self.replacement
        } else {
            self.probe
        }
    }

    /// The checks that count.
    pub fn effective(&self) -> (result: &Probe)
        ensures
            *result == self.effective_of(),
    {
        if !self.probe.healthz.ok && self.live.is_some() {
            &self.replacement
        } else {
            &self.probe
        }
    }

    /// The place of the checks that count.
    pub open spec fn place_of(self) -> Seq<char> {
        match self.live {
            Some(live) => if self.probe.healthz.ok {
                self.probe.base_url@
            } else {
                live.base_url@
            },
            None => self.probe.base_url@,
        }
    }

    /// The place of the checks that count.
    pub fn place(&self) -> (result: String)
        ensures
            result@ == self.place_of(),
    {
        match &self.live {
            Some(live) => if self.probe.healthz.ok {
                self.probe.base_url.clone()
            } else {
                live.base_url.clone()
            },
            None => self.probe.base_url.clone(),
        }
    }

    /// The state of the runtime.
    pub open spec fn state_of(self) -> State {
        if !(self.running || self.tmux || self.live is Some) {
            State::Stopped
        } else if !self.effective_of().healthz.ok {
            State::Starting
        } else if !self.effective_of().readyz.ok {
            State::Healthy
        } else {
            State::Ready
        }
    }

    /// The state of the runtime.
    pub fn state(&self) -> (result: State)
        ensures
            result == self.state_of(),
    {
        let probe = self.effective();
        if !(self.running || self.tmux || self.live.is_some()) {
            State::Stopped
        } else if !probe.healthz.ok {
            State::Starting
        } else if !probe.readyz.ok {
            State::Healthy
        } else {
            State::Ready
        }
    }
}

/// Whether a way is the one to the service.
pub open spec fn is_service_way(route: Doc) -> bool {
    route.at("route"@).at("kind"@) == Doc::Text("control_plane"@)
}

/// The first way to the service, from one on.
pub open spec fn service_way(routes: Seq<Doc>, at: int) -> Option<Doc>
    decreases routes.len() - at,
{
    if at < 0 || at >= routes.len() {
        None
    } else if is_service_way(routes[at]) {
        Some(routes[at])
    } else {
        service_way(routes, at + 1)
    }
}

/// The text of a document, or nothing.
pub open spec fn words_of(doc: Doc) -> Seq<char> {
    match doc {
        Doc::Text(value) => value,
        _ => Seq::empty(),
    }
}

/// The way of the polls in what a runtime tells of its system, where it tells of it.
pub open spec fn told_way(system: Doc) -> Option<Doc> {
    match system.at("proxy_health"@) {
        Doc::List(items) => service_way(items, 0),
        _ => None,
    }
}

/// What is told of the way of the polls of a runtime.
pub open spec fn poll_doc(live: Option<Live>) -> Doc {
    let unknown = Doc::object().with("state"@, Doc::Text("unknown"@));
    match live {
        None => unknown.with("reason"@, Doc::Text("no live admin UI system snapshot"@)),
        Some(live) => {
            let system = live.system.doc();
            let known = live.status.doc().at("control_plane_route"@);
            if system is Null {
                unknown.with("reason"@, Doc::Text("no live admin UI system snapshot"@))
            } else {
                match told_way(system) {
                    Some(route) => Doc::object().with(
                        "state"@,
                        Doc::Text(first_of(words_of(route.at("health_state"@)), "unknown"@)),
                    ).with("route"@, route.at("route"@)).with(
                        "last_check"@,
                        route.at("last_check"@),
                    ).with("last_success"@, route.at("last_success"@)).with(
                        "history"@,
                        route.at("history"@),
                    ),
                    None => if known is Null {
                        unknown.with(
                            "reason"@,
                            Doc::Text("control-plane route health is not available"@),
                        )
                    } else {
                        unknown.with("route"@, known).with(
                            "reason"@,
                            Doc::Text(
                                "route is present but proxy health snapshot did not report reachability"@,
                            ),
                        )
                    },
                }
            }
        },
    }
}

/// The entry of a document, or null.
pub fn entry(value: &Json, key: &str) -> (result: Json)
    ensures
        result.doc() == value.doc().at(key@),
{
    match value.get(key) {
        Some(inner) => json::copy(inner),
        None => Json::Null,
    }
}

fn words(value: &Json) -> (result: String)
    ensures
        result@ == words_of(value.doc()),
{
    match value {
        Json::Text(inner) => inner.clone(),
        _ => {
            let empty = String::new();
            assert(empty@ =~= Seq::<char>::empty());
            empty
        },
    }
}

fn way_told(system: &Json) -> (result: Option<Json>)
    ensures
        match (result, told_way(system.doc())) {
            (Some(value), Some(doc)) => value.doc() == doc,
            (None, None) => true,
            _ => false,
        },
{
    if let Some(Json::List(items)) = system.get("proxy_health") {
        let ghost all = json::docs(items@);
        proof {
            json::lemma_docs(items@);
        }
        let mut index: usize = 0;
        while index < items.len()
            invariant
                index <= items.len(),
                all == json::docs(items@),
                all.len() == items@.len(),
                forall|i: int| 0 <= i < items@.len() ==> #[trigger] all[i] == items@[i].doc(),
                told_way(system.doc()) == service_way(all, index as int),
            decreases items.len() - index,
        {
            assert(all[index as int] == items@[index as int].doc());
            let route = entry(&items[index], "route");
            let kind = entry(&route, "kind");
            let found = match &kind {
                Json::Text(kind) => text::same(kind, "control_plane"),
                _ => false,
            };
            if found {
                return Some(json::copy(&items[index]));
            }
            index = index + 1;
        }
    }
    None
}

/// What is told of the way of the polls of a runtime.
pub fn poll_health(live: &Option<Live>) -> (result: Json)
    ensures
        result.doc() == poll_doc(*live),
{
    let live = match live {
        None => {
            return Json::object().with("state", Json::text("unknown")).with(
                "reason",
                Json::text("no live admin UI system snapshot"),
            );
        },
        Some(live) => live,
    };
    if let Json::Null = &live.system {
        return Json::object().with("state", Json::text("unknown")).with(
            "reason",
            Json::text("no live admin UI system snapshot"),
        );
    }
    if let Some(route) = way_told(&live.system) {
        let state = first(&words(&entry(&route, "health_state")), "unknown");
        return Json::object().with("state", Json::text(&state)).with(
            "route",
            entry(&route, "route"),
        ).with("last_check", entry(&route, "last_check")).with(
            "last_success",
            entry(&route, "last_success"),
        ).with("history", entry(&route, "history"));
    }
    let known = entry(&live.status, "control_plane_route");
    let unknown = Json::object().with("state", Json::text("unknown"));
    match known {
        Json::Null => unknown.with(
            "reason",
            Json::text("control-plane route health is not available"),
        ),
        known => unknown.with("route", known).with(
            "reason",
            Json::text(
                "route is present but proxy health snapshot did not report reachability",
            ),
        ),
    }
}

/// Whether the state of the way of the polls is nothing to worry about.
pub open spec fn is_calm(state: Seq<char>) -> bool {
    state == ""@ || state == "unknown"@ || state == "healthy"@ || state == "direct"@
}

fn calm(state: &str) -> (result: bool)
    ensures
        result == is_calm(state@),
{
    text::same(state, "") || text::same(state, "unknown") || text::same(state, "healthy")
        || text::same(state, "direct")
}

/// The list with one more text on a condition.
pub open spec fn noted(items: Seq<Seq<char>>, there: bool, value: Seq<char>) -> Seq<Seq<char>> {
    if there {
        items.push(value)
    } else {
        items
    }
}

fn note(items: &mut Vec<String>, there: bool, value: String)
    ensures
        text::views(final(items)@) == noted(text::views(old(items)@), there, value@),
{
    if there {
        assert(text::views(items@.push(value)) =~= text::views(items@).push(value@));
        items.push(value);
    }
}

/// What is wrong with a check, in words.
pub open spec fn endpoint_detail(endpoint: Endpoint) -> Seq<char> {
    if endpoint.status != 0 {
        "HTTP "@ + text::decimal_of(endpoint.status as nat)
    } else {
        first_of(endpoint.error@, endpoint.body@)
    }
}

/// The note that a check did not go well.
pub open spec fn endpoint_issue(name: Seq<char>, condition: Seq<char>, endpoint: Endpoint) -> Seq<char> {
    let detail = endpoint_detail(endpoint);
    name + " endpoint is not "@ + condition + " at "@ + endpoint.url@ + (if detail.len() == 0 {
        Seq::empty()
    } else {
        " ("@ + detail + ")"@
    })
}

fn endpoint_note(name: &str, condition: &str, endpoint: &Endpoint) -> (result: String)
    ensures
        result@ == endpoint_issue(name@, condition@, *endpoint),
{
    let detail = if endpoint.status != 0 {
        text::cat("HTTP ", &text::decimal(endpoint.status as u64))
    } else {
        first(&endpoint.error, &endpoint.body)
    };
    let tail = if detail.is_empty() {
        String::new()
    } else {
        text::cat3(" (", &detail, ")")
    };
    assert(detail@.len() == 0 ==> tail@ =~= Seq::<char>::empty());
    text::cat(
        &text::cat5(name, " endpoint is not ", condition, " at ", &endpoint.url),
        &tail,
    )
}

impl Seen {
    /// The notes about the process of a runtime.
    pub open spec fn process_issues(self, process: ProcessView) -> Seq<Seq<char>> {
        let alone = process.mode == "process"@ && process.pid is Some;
        let first = noted(
            Seq::empty(),
            process.mode == "tmux"@ && process.session_name.len() > 0 && !self.tmux,
            "recorded tmux session is not running"@,
        );
        let second = noted(
            first,
            alone && !self.running,
            "recorded process pid is not running"@,
        );
        let third = noted(
            second,
            alone && (process.pid_start_time.len() == 0 || process.pid_executable.len() == 0),
            "recorded process identity is missing; refusing to reuse or signal a bare PID"@,
        );
        let fourth = noted(
            third,
            process.profile_path.len() > 0 && !self.profile.exists,
            "recorded runtime profile is missing"@,
        );
        noted(
            fourth,
            process.health_url_file.len() > 0 && self.raw_url@.len() == 0,
            "health URL file has not been populated"@,
        )
    }

    /// All notes about a runtime.
    pub open spec fn issues_of(self, process: ProcessView) -> Seq<Seq<char>> {
        let health = self.probe.healthz;
        let ready = self.probe.readyz;
        let known = process.alias.len() > 0;
        let poll = words_of(poll_doc(self.live).at("state"@));
        let first = noted(
            self.process_issues(process),
            known && health.url@.len() > 0 && !health.ok,
            endpoint_issue("health"@, "healthy"@, health),
        );
        let second = noted(
            first,
            known && ready.url@.len() > 0 && !ready.ok,
            endpoint_issue("ready"@, "ready"@, ready),
        );
        let third = noted(
            second,
            process.log_path.len() > 0 && !self.running && !self.tmux && self.log.exists,
            "runtime log exists but no active runtime is running"@,
        );
        let fourth = noted(
            third,
            self.live is Some && !health.ok,
            "recorded health URL looks stale; live admin UI was found at "@ + (match self.live {
                Some(live) => live.base_url@,
                None => Seq::empty(),
            }),
        );
        noted(fourth, !is_calm(poll), "control-plane poll route health is "@ + poll)
    }

    fn process_notes(&self, process: &Process) -> (result: Vec<String>)
        ensures
            text::views(result@) == self.process_issues(process@),
    {
        let mut items: Vec<String> = Vec::new();
        assert(text::views(items@) =~= Seq::<Seq<char>>::empty());
        let alone = text::same(&process.mode, "process") && process.pid.is_some();
        note(
            &mut items,
            text::same(&process.mode, "tmux") && !process.session_name.is_empty() && !self.tmux,
            "recorded tmux session is not running".to_owned(),
        );
        note(
            &mut items,
            alone && !self.running,
            "recorded process pid is not running".to_owned(),
        );
        note(
            &mut items,
            alone && (process.pid_start_time.is_empty() || process.pid_executable.is_empty()),
            "recorded process identity is missing; refusing to reuse or signal a bare PID".to_owned(),
        );
        note(
            &mut items,
            !process.profile_path.is_empty() && !self.profile.exists,
            "recorded runtime profile is missing".to_owned(),
        );
        note(
            &mut items,
            !process.health_url_file.is_empty() && self.raw_url.is_empty(),
            "health URL file has not been populated".to_owned(),
        );
        items
    }

    /// All notes about a runtime.
    pub fn issues(&self, process: &Process) -> (result: Vec<String>)
        ensures
            text::views(result@) == self.issues_of(process@),
    {
        let mut items = self.process_notes(process);
        let health = &self.probe.healthz;
        let ready = &self.probe.readyz;
        let known = !process.alias.is_empty();
        note(
            &mut items,
            known && !health.url.is_empty() && !health.ok,
            endpoint_note("health", "healthy", health),
        );
        note(
            &mut items,
            known && !ready.url.is_empty() && !ready.ok,
            endpoint_note("ready", "ready", ready),
        );
        note(
            &mut items,
            !process.log_path.is_empty() && !self.running && !self.tmux && self.log.exists,
            "runtime log exists but no active runtime is running".to_owned(),
        );
        let place = match &self.live {
            Some(live) => live.base_url.clone(),
            None => {
                let empty = String::new();
                assert(empty@ =~= Seq::<char>::empty());
                empty
            },
        };
        note(
            &mut items,
            self.live.is_some() && !health.ok,
            text::cat("recorded health URL looks stale; live admin UI was found at ", &place),
        );
        let poll = words(&entry(&poll_health(&self.live), "state"));
        note(
            &mut items,
            !calm(&poll),
            text::cat("control-plane poll route health is ", &poll),
        );
        items
    }
}

/// What is told of a runtime at another address.
pub open spec fn live_doc(live: Option<Live>) -> Doc {
    match live {
        None => Doc::object().with("found"@, Doc::Bool(false)),
        Some(live) => Doc::object().with("found"@, Doc::Bool(true)).with(
            "base_url"@,
            Doc::Text(live.base_url@),
        ).with("ui_url"@, Doc::Text(ui_of(live.base_url@))).with(
            "source_health_url_file"@,
            Doc::Text(live.source@),
        ).with("match_reason"@, Doc::Text("control_plane_tunnel_id"@)).with(
            "status"@,
            live.status.doc(),
        ).with("system"@, live.system.doc()),
    }
}

pub(crate) fn live_json(live: &Option<Live>) -> (result: Json)
    ensures
        result.doc() == live_doc(*live),
{
    match live {
        None => Json::object().with("found", Json::Bool(false)),
        Some(live) => Json::object().with("found", Json::Bool(true)).with(
            "base_url",
            Json::text(&live.base_url),
        ).with("ui_url", Json::text(&ui(&live.base_url))).with(
            "source_health_url_file",
            Json::text(&live.source),
        ).with("match_reason", Json::text("control_plane_tunnel_id")).with(
            "status",
            json::copy(&live.status),
        ).with("system", json::copy(&live.system)),
    }
}

impl Seen {
    /// What is told of the profile of a runtime.
    pub open spec fn profile_doc(self, record: AliasView, process: ProcessView) -> Doc {
        self.profile.document_of().with(
            "name"@,
            Doc::Text(first_of(process.profile_name, record.profile_name)),
        ).with("dir"@, Doc::Text(first_of(process.profile_dir, record.profile_dir))).with(
            "config_path"@,
            Doc::Text(first_of(process.config_path, record.config_path)),
        )
    }

    /// What is told of the profile of a runtime.
    pub fn profile_json(&self, record: &Alias, process: &Process) -> (result: Json)
        ensures
            result.doc() == self.profile_doc(record@, process@),
    {
        self.profile.document().with(
            "name",
            Json::text(&first(&process.profile_name, &record.profile_name)),
        ).with("dir", Json::text(&first(&process.profile_dir, &record.profile_dir))).with(
            "config_path",
            Json::text(&first(&process.config_path, &record.config_path)),
        )
    }

    /// What is told of the health of a runtime at its known address.
    pub open spec fn health_doc(self) -> Doc {
        self.probe.checks_doc(
            self.health.document_of().with("raw_url"@, Doc::Text(self.raw_url@)),
            self.probe.base_url@,
        )
    }

    /// What is told of a terminal session.
    pub open spec fn tmux_doc(self, root: Seq<char>, alias: Seq<char>, process: ProcessView) -> Doc {
        Doc::object().with(
            "session_name"@,
            Doc::Text(first_of(process.session_name, session_name_of(root, alias))),
        ).with("running"@, Doc::Bool(self.tmux))
    }

    /// What is told of a terminal session.
    pub fn tmux_json(&self, root: &Root, alias: &str, process: &Process) -> (result: Json)
        ensures
            result.doc() == self.tmux_doc(root.path@, alias@, process@),
    {
        Json::object().with(
            "session_name",
            Json::text(&first(&process.session_name, &session_name(root, alias))),
        ).with("running", Json::Bool(self.tmux))
    }

    /// All that is told of a managed runtime on this machine.
    pub open spec fn local_doc(
        self,
        root: Seq<char>,
        alias: Seq<char>,
        record: AliasView,
        process: ProcessView,
    ) -> Doc {
        Doc::object().with("runtime_state"@, Doc::Text(self.state_of().word())).with(
            "issues"@,
            json::texts(self.issues_of(process)),
        ).with("profile"@, self.profile_doc(record, process)).with("health"@, self.health_doc()).with(
            "effective_health"@,
            self.effective_of().checks_doc(Doc::object(), self.place_of()),
        ).with("live_admin_ui"@, live_doc(self.live)).with(
            "control_plane_poll_health"@,
            poll_doc(self.live),
        ).with("log"@, self.log.document_of().with("tail"@, Doc::Text(self.tail@))).with(
            "tmux"@,
            self.tmux_doc(root, alias, process),
        ).with("process_running"@, Doc::Bool(self.running || self.tmux))
    }

    /// All that is told of a managed runtime on this machine.
    pub fn local(&self, root: &Root, alias: &str, record: &Alias, process: &Process) -> (result: Json)
        ensures
            result.doc() == self.local_doc(root.path@, alias@, record@, process@),
    {
        let health = self.probe.checks(
            self.health.document().with("raw_url", Json::text(&self.raw_url)),
            &self.probe.base_url,
        );
        let front = Json::object().with("runtime_state", Json::text(self.state().text())).with(
            "issues",
            Json::texts(&self.issues(process)),
        ).with("profile", self.profile_json(record, process)).with("health", health);
        front.with("effective_health", self.effective().checks(Json::object(), &self.place())).with(
            "live_admin_ui",
            live_json(&self.live),
        ).with("control_plane_poll_health", poll_health(&self.live)).with(
            "log",
            self.log.document().with("tail", Json::text(&self.tail)),
        ).with("tmux", self.tmux_json(root, alias, process)).with(
            "process_running",
            Json::Bool(self.running || self.tmux),
        )
    }
}

/// The document of a list of names, or null where there are none.
pub open spec fn nullable_doc(items: Seq<Seq<char>>) -> Doc {
    if items.len() == 0 {
        Doc::Null
    } else {
        json::texts(items)
    }
}

fn nullable(items: &Vec<String>) -> (result: Json)
    ensures
        result.doc() == nullable_doc(text::views(items@)),
{
    assert(text::views(items@).len() == items@.len());
    if items.len() == 0 {
        Json::Null
    } else {
        Json::texts(items)
    }
}

/// What is told of a tunnel of the service.
pub open spec fn tunnel_doc(value: TunnelView) -> Doc {
    Doc::object().with("id"@, Doc::Text(value.id)).with("name"@, Doc::Text(value.name)).with(
        "description"@,
        Doc::Text(value.description),
    ).with("organization_ids"@, nullable_doc(value.organization_ids)).with(
        "workspace_ids"@,
        nullable_doc(value.workspace_ids),
    ).with("tenant_ids"@, nullable_doc(value.tenant_ids))
}

/// What is told of a tunnel of the service.
pub fn tunnel(value: &Tunnel) -> (result: Json)
    ensures
        result.doc() == tunnel_doc(value@),
{
    Json::object().with("id", Json::text(&value.id)).with("name", Json::text(&value.name)).with(
        "description",
        Json::text(&value.description),
    ).with("organization_ids", nullable(&value.organization_ids)).with(
        "workspace_ids",
        nullable(&value.workspace_ids),
    ).with("tenant_ids", nullable(&value.tenant_ids))
}

/// What is told of a known tunnel.
pub open spec fn alias_doc(value: AliasView) -> Doc {
    Doc::object().with("alias"@, Doc::Text(value.alias)).with(
        "tunnel_id"@,
        Doc::Text(value.tunnel_id),
    ).with("name"@, Doc::Text(value.name)).with("description"@, Doc::Text(value.description)).with(
        "admin_profile"@,
        Doc::Text(value.admin_profile),
    ).with("organization_ids"@, nullable_doc(value.organization_ids)).with(
        "workspace_ids"@,
        nullable_doc(value.workspace_ids),
    ).with("tenant_ids"@, nullable_doc(value.tenant_ids)).with(
        "config_path"@,
        Doc::Text(value.config_path),
    ).with("profile_name"@, Doc::Text(value.profile_name)).with(
        "profile_dir"@,
        Doc::Text(value.profile_dir),
    ).with("profile_path"@, Doc::Text(value.profile_path)).with(
        "health_url_file"@,
        Doc::Text(value.health_url_file),
    ).with("updated_at"@, Doc::Text(value.updated_at))
}

/// What is told of a known tunnel.
pub fn alias(value: &Alias) -> (result: Json)
    ensures
        result.doc() == alias_doc(value@),
{
    let front = Json::object().with("alias", Json::text(&value.alias)).with(
        "tunnel_id",
        Json::text(&value.tunnel_id),
    ).with("name", Json::text(&value.name)).with("description", Json::text(&value.description)).with(
        "admin_profile",
        Json::text(&value.admin_profile),
    ).with("organization_ids", nullable(&value.organization_ids)).with(
        "workspace_ids",
        nullable(&value.workspace_ids),
    ).with("tenant_ids", nullable(&value.tenant_ids));
    front.with("config_path", Json::text(&value.config_path)).with(
        "profile_name",
        Json::text(&value.profile_name),
    ).with("profile_dir", Json::text(&value.profile_dir)).with(
        "profile_path",
        Json::text(&value.profile_path),
    ).with("health_url_file", Json::text(&value.health_url_file)).with(
        "updated_at",
        Json::text(&value.updated_at),
    )
}

/// What is told of a known runtime.
pub open spec fn process_doc(value: ProcessView) -> Doc {
    Doc::object().with("alias"@, Doc::Text(value.alias)).with(
        "tunnel_id"@,
        Doc::Text(value.tunnel_id),
    ).with("admin_profile"@, Doc::Text(value.admin_profile)).with("mode"@, Doc::Text(value.mode)).with(
        "session_name"@,
        Doc::Text(value.session_name),
    ).with("config_path"@, Doc::Text(value.config_path)).with(
        "profile_name"@,
        Doc::Text(value.profile_name),
    ).with("profile_dir"@, Doc::Text(value.profile_dir)).with(
        "profile_path"@,
        Doc::Text(value.profile_path),
    ).with("health_url_file"@, Doc::Text(value.health_url_file)).with(
        "target_kind"@,
        Doc::Text(value.target_kind),
    ).with("target_value"@, Doc::Text(value.target_value)).with(
        "command"@,
        Doc::Text(value.command),
    ).with("log_path"@, Doc::Text(value.log_path)).with(
        "started_at"@,
        Doc::Text(value.started_at),
    ).with_if(
        value.pid is Some,
        "pid"@,
        match value.pid {
            Some(pid) => Doc::number(pid as nat),
            None => Doc::Null,
        },
    )
}

/// What is told of a known runtime.
pub fn process(value: &Process) -> (result: Json)
    ensures
        result.doc() == process_doc(value@),
{
    let pid = match value.pid {
        Some(pid) => Json::number(pid as u64),
        None => Json::Null,
    };
    let front = Json::object().with("alias", Json::text(&value.alias)).with(
        "tunnel_id",
        Json::text(&value.tunnel_id),
    ).with("admin_profile", Json::text(&value.admin_profile)).with(
        "mode",
        Json::text(&value.mode),
    ).with("session_name", Json::text(&value.session_name)).with(
        "config_path",
        Json::text(&value.config_path),
    ).with("profile_name", Json::text(&value.profile_name)).with(
        "profile_dir",
        Json::text(&value.profile_dir),
    );
    front.with("profile_path", Json::text(&value.profile_path)).with(
        "health_url_file",
        Json::text(&value.health_url_file),
    ).with("target_kind", Json::text(&value.target_kind)).with(
        "target_value",
        Json::text(&value.target_value),
    ).with("command", Json::text(&value.command)).with(
        "log_path",
        Json::text(&value.log_path),
    ).with("started_at", Json::text(&value.started_at)).with_if(value.pid.is_some(), "pid", pid)
}

/// The words of a check of a configuration.
pub open spec fn doctor_words(record: AliasView, process: ProcessView) -> Seq<Seq<char>> {
    let profile = first_of(process.profile_name, record.profile_name);
    let directory = first_of(process.profile_dir, record.profile_dir);
    let config = first_of(process.config_path, record.config_path);
    let base = seq!["otunnel"@, "doctor"@];
    let named = if profile.len() > 0 {
        let first = base + seq!["--profile"@, profile];
        if directory.len() > 0 {
            first + seq!["--profile-dir"@, directory]
        } else {
            first
        }
    } else if config.len() > 0 {
        base + seq!["--config"@, config]
    } else {
        base
    };
    named + seq!["--explain"@]
}

/// The line of a check of a configuration.
pub fn doctor(record: &Alias, process: &Process) -> (result: String)
    ensures
        result@ == shell_joined(doctor_words(record@, process@)),
{
    let profile = first(&process.profile_name, &record.profile_name);
    let directory = first(&process.profile_dir, &record.profile_dir);
    let config = first(&process.config_path, &record.config_path);
    let mut words: Vec<String> = Vec::new();
    words.push("otunnel".to_owned());
    words.push("doctor".to_owned());
    if !profile.is_empty() {
        words.push("--profile".to_owned());
        words.push(profile);
        if !directory.is_empty() {
            words.push("--profile-dir".to_owned());
            words.push(directory);
        }
    } else if !config.is_empty() {
        words.push("--config".to_owned());
        words.push(config);
    }
    words.push("--explain".to_owned());
    assert(text::views(words@) =~= doctor_words(record@, process@));
    shell_join(&words)
}

/// The words of the scope of a tunnel: the first organization, workspace or tenant.
pub open spec fn scope_words(record: AliasView) -> Seq<Seq<char>> {
    if record.organization_ids.len() > 0 {
        seq!["--organization-id"@, record.organization_ids[0]]
    } else if record.workspace_ids.len() > 0 {
        seq!["--workspace-id"@, record.workspace_ids[0]]
    } else if record.tenant_ids.len() > 0 {
        seq!["--tenant-id"@, record.tenant_ids[0]]
    } else {
        Seq::empty()
    }
}

/// The words of what a runtime leads to.
pub open spec fn target_words(process: ProcessView) -> Seq<Seq<char>> {
    if process.target_kind == "server_url"@ {
        seq!["--mcp-server-url"@, process.target_value]
    } else if process.target_kind == "command"@ {
        seq!["--mcp-command"@, process.target_value]
    } else {
        seq!["<add --mcp-server-url or --mcp-command>"@]
    }
}

/// A flag with its value, where there is one.
pub open spec fn flag_words(flag: Seq<char>, value: Seq<char>) -> Seq<Seq<char>> {
    if value.len() > 0 {
        seq![flag, value]
    } else {
        Seq::empty()
    }
}

/// The words that connect a tunnel again.
pub open spec fn repair_words(alias: Seq<char>, record: AliasView, process: ProcessView) -> Seq<Seq<char>> {
    seq!["otunnel"@, "runtimes"@, "connect"@, "--alias"@, alias] + flag_words(
        "--admin-profile"@,
        record.admin_profile,
    ) + flag_words("--profile"@, record.profile_name) + flag_words(
        "--profile-dir"@,
        first_of(process.profile_dir, record.profile_dir),
    ) + scope_words(record) + target_words(process)
}

fn push_flag(words: &mut Vec<String>, flag: &str, value: &str)
    ensures
        text::views(final(words)@) == text::views(old(words)@) + flag_words(flag@, value@),
{
    if !value.is_empty() {
        words.push(flag.to_owned());
        words.push(value.to_owned());
    }
    assert(text::views(words@) =~= text::views(old(words)@) + flag_words(flag@, value@));
}

fn push_scope(words: &mut Vec<String>, record: &Alias)
    ensures
        text::views(final(words)@) == text::views(old(words)@) + scope_words(record@),
{
    proof {
        assert(record@.organization_ids.len() == record.organization_ids@.len());
        assert(record@.workspace_ids.len() == record.workspace_ids@.len());
        assert(record@.tenant_ids.len() == record.tenant_ids@.len());
    }
    if record.organization_ids.len() > 0 {
        words.push("--organization-id".to_owned());
        words.push(record.organization_ids[0].clone());
    } else if record.workspace_ids.len() > 0 {
        words.push("--workspace-id".to_owned());
        words.push(record.workspace_ids[0].clone());
    } else if record.tenant_ids.len() > 0 {
        words.push("--tenant-id".to_owned());
        words.push(record.tenant_ids[0].clone());
    }
    assert(text::views(words@) =~= text::views(old(words)@) + scope_words(record@));
}

/// The line that connects a tunnel again.
pub fn repair(alias: &str, record: &Alias, process: &Process) -> (result: String)
    ensures
        result@ == shell_joined(repair_words(alias@, record@, process@)),
{
    let mut words: Vec<String> = Vec::new();
    words.push("otunnel".to_owned());
    words.push("runtimes".to_owned());
    words.push("connect".to_owned());
    words.push("--alias".to_owned());
    words.push(alias.to_owned());
    assert(text::views(words@) =~= seq![
        "otunnel"@,
        "runtimes"@,
        "connect"@,
        "--alias"@,
        alias@,
    ]);
    push_flag(&mut words, "--admin-profile", &record.admin_profile);
    push_flag(&mut words, "--profile", &record.profile_name);
    push_flag(&mut words, "--profile-dir", &first(&process.profile_dir, &record.profile_dir));
    push_scope(&mut words, record);
    let ghost before = text::views(words@);
    if text::same(&process.target_kind, "server_url") {
        words.push("--mcp-server-url".to_owned());
        words.push(process.target_value.clone());
    } else if text::same(&process.target_kind, "command") {
        words.push("--mcp-command".to_owned());
        words.push(process.target_value.clone());
    } else {
        words.push("<add --mcp-server-url or --mcp-command>".to_owned());
    }
    assert(text::views(words@) =~= before + target_words(process@));
    shell_join(&words)
}

/// Something that may help.
pub struct Action {
    pub id: String,
    pub command: String,
    pub reason: String,
}

/// The contents of [`Action`].
#[verifier::ext_equal]
pub struct ActionView {
    pub id: Seq<char>,
    pub command: Seq<char>,
    pub reason: Seq<char>,
}

impl View for Action {
    type V = ActionView;

    open spec fn view(&self) -> ActionView {
        ActionView { id: self.id@, command: self.command@, reason: self.reason@ }
    }
}

/// The contents of a list of actions.
pub open spec fn action_views(items: Seq<Action>) -> Seq<ActionView> {
    items.map_values(|item: Action| item@)
}

/// The list with one more action on a condition.
pub open spec fn acted(
    items: Seq<ActionView>,
    there: bool,
    id: Seq<char>,
    command: Seq<char>,
    reason: Seq<char>,
) -> Seq<ActionView> {
    if there {
        items.push(ActionView { id, command, reason })
    } else {
        items
    }
}

fn act(items: &mut Vec<Action>, there: bool, id: &str, command: String, reason: &str)
    ensures
        action_views(final(items)@) == acted(
            action_views(old(items)@),
            there,
            id@,
            command@,
            reason@,
        ),
{
    if there {
        let action = Action { id: id.to_owned(), command, reason: reason.to_owned() };
        assert(action_views(items@.push(action)) =~= action_views(items@).push(action@));
        items.push(action);
    }
}

/// The line that tells of a runtime in full.
pub open spec fn status_line(alias: Seq<char>) -> Seq<char> {
    "otunnel runtimes status "@ + alias + " --json"@
}

impl Seen {
    /// What may help with a runtime.
    pub open spec fn actions_of(
        self,
        alias: Seq<char>,
        record: AliasView,
        process: ProcessView,
        remote_error: Seq<char>,
    ) -> Seq<ActionView> {
        let again = shell_joined(repair_words(alias, record, process));
        let poll = words_of(poll_doc(self.live).at("state"@));
        let first = acted(
            Seq::empty(),
            !self.profile.exists,
            "reconnect_missing_profile"@,
            again,
            "the recorded runtime profile is missing, so reconnecting rewrites the profile and relaunches the managed runtime"@,
        );
        let second = acted(
            first,
            process.alias.len() == 0 || self.state_of() == State::Stopped,
            "start_runtime"@,
            again,
            "no managed runtime is currently running for this alias"@,
        );
        let third = acted(
            second,
            self.live is Some && !self.probe.healthz.ok,
            "refresh_stale_health_url"@,
            "otunnel runtimes connect --alias "@ + alias,
            "the recorded health URL is stale but a live admin UI for the same tunnel was found"@,
        );
        let fourth = acted(
            third,
            !is_calm(poll),
            "repair_control_plane_proxy"@,
            shell_joined(doctor_words(record, process)),
            "the local runtime is responding while its control-plane poll route is unhealthy"@,
        );
        let fifth = acted(
            fourth,
            text::trim_of(remote_error).len() > 0,
            "check_remote_tunnel"@,
            status_line(alias),
            "the remote tunnel lookup returned an error and should be rechecked with the current runtime/admin credentials"@,
        );
        acted(
            fifth,
            fifth.len() == 0,
            "inspect"@,
            status_line(alias),
            "no immediate local repair was detected; rerun status for the freshest structured state"@,
        )
    }

    /// What may help with a runtime.
    pub fn actions(&self, alias: &str, record: &Alias, process: &Process, remote_error: &str) -> (result:
        Vec<Action>)
        ensures
            action_views(result@) == self.actions_of(alias@, record@, process@, remote_error@),
    {
        let mut items: Vec<Action> = Vec::new();
        assert(action_views(items@) =~= Seq::<ActionView>::empty());
        let poll = words(&entry(&poll_health(&self.live), "state"));
        let stopped = match self.state() {
            State::Stopped => true,
            _ => false,
        };
        act(
            &mut items,
            !self.profile.exists,
            "reconnect_missing_profile",
            repair(alias, record, process),
            "the recorded runtime profile is missing, so reconnecting rewrites the profile and relaunches the managed runtime",
        );
        act(
            &mut items,
            process.alias.is_empty() || stopped,
            "start_runtime",
            repair(alias, record, process),
            "no managed runtime is currently running for this alias",
        );
        act(
            &mut items,
            self.live.is_some() && !self.probe.healthz.ok,
            "refresh_stale_health_url",
            text::cat("otunnel runtimes connect --alias ", alias),
            "the recorded health URL is stale but a live admin UI for the same tunnel was found",
        );
        act(
            &mut items,
            !calm(&poll),
            "repair_control_plane_proxy",
            doctor(record, process),
            "the local runtime is responding while its control-plane poll route is unhealthy",
        );
        act(
            &mut items,
            !text::trim(remote_error).is_empty(),
            "check_remote_tunnel",
            text::cat3("otunnel runtimes status ", alias, " --json"),
            "the remote tunnel lookup returned an error and should be rechecked with the current runtime/admin credentials",
        );
        let none = items.len() == 0;
        assert(action_views(items@).len() == items@.len());
        act(
            &mut items,
            none,
            "inspect",
            text::cat3("otunnel runtimes status ", alias, " --json"),
            "no immediate local repair was detected; rerun status for the freshest structured state",
        );
        items
    }
}

/// There is always something that may help.
pub proof fn lemma_some_action(
    seen: Seen,
    alias: Seq<char>,
    record: AliasView,
    process: ProcessView,
    remote_error: Seq<char>,
)
    ensures
        seen.actions_of(alias, record, process, remote_error).len() > 0,
{
}

/// The document of actions.
pub open spec fn actions_doc(items: Seq<ActionView>) -> Doc {
    Doc::List(
        items.map_values(
            |item: ActionView|
                Doc::object().with("id"@, Doc::Text(item.id)).with(
                    "command"@,
                    Doc::Text(item.command),
                ).with("reason"@, Doc::Text(item.reason)),
        ),
    )
}

/// The document of actions.
pub fn actions_json(items: &Vec<Action>) -> (result: Json)
    ensures
        result.doc() == actions_doc(action_views(items@)),
{
    let ghost all = actions_doc(action_views(items@))->List_0;
    let mut list: Vec<Json> = Vec::new();
    let mut index: usize = 0;
    while index < items.len()
        invariant
            index <= items.len(),
            all == actions_doc(action_views(items@))->List_0,
            json::docs(list@) == all.take(index as int),
        decreases items.len() - index,
    {
        let item = &items[index];
        let shown = Json::object().with("id", Json::text(&item.id)).with(
            "command",
            Json::text(&item.command),
        ).with("reason", Json::text(&item.reason));
        proof {
            json::lemma_docs_push(list@, shown);
            assert(all[index as int] == shown.doc());
            assert(all.take(index + 1) == all.take(index as int).push(shown.doc()));
        }
        list.push(shown);
        index = index + 1;
    }
    assert(all.take(all.len() as int) == all);
    Json::List(list)
}

/// The commands of actions.
pub open spec fn commands_of(items: Seq<ActionView>) -> Seq<Seq<char>> {
    items.map_values(|item: ActionView| item.command)
}

/// What to do next: the commands of the actions and others, each once.
pub fn next_steps(actions: &Vec<Action>, extras: &Vec<String>) -> (result: Vec<String>)
    ensures
        text::views(result@) == text::distinct_of(
            commands_of(action_views(actions@)) + text::views(extras@),
        ),
{
    let ghost commands = commands_of(action_views(actions@));
    let mut all: Vec<String> = Vec::new();
    let mut index: usize = 0;
    assert(text::views(all@) =~= commands.take(0));
    while index < actions.len()
        invariant
            index <= actions.len(),
            commands == commands_of(action_views(actions@)),
            text::views(all@) == commands.take(index as int),
        decreases actions.len() - index,
    {
        let command = actions[index].command.clone();
        assert(commands.take(index + 1) == commands.take(index as int).push(command@));
        assert(text::views(all@.push(command)) =~= text::views(all@).push(command@));
        all.push(command);
        index = index + 1;
    }
    assert(commands.take(commands.len() as int) == commands);
    let mut rest = text::copies(extras);
    assert(text::views(all@ + rest@) =~= text::views(all@) + text::views(rest@));
    all.append(&mut rest);
    text::distinct(&all)
}

/// What is told of an endpoint, of a file and of a check of both endpoints.
pub proof fn lemma_checks_told(endpoint: Endpoint, file: File, probe: Probe, place: Seq<char>)
    ensures
        endpoint.document_of().at("url"@) == Doc::Text(endpoint.url@),
        endpoint.document_of().at("ok"@) == Doc::Bool(endpoint.ok),
        endpoint.document_of().at("status"@) == Doc::number(endpoint.status as nat),
        endpoint.document_of().at("body"@) == Doc::Text(endpoint.body@),
        endpoint.document_of().at("error"@) == Doc::Text(endpoint.error@),
        file.document_of().at("path"@) == Doc::Text(file.path@),
        file.document_of().at("exists"@) == Doc::Bool(file.exists),
        file.document_of().at("size_bytes"@) == Doc::number(file.size_bytes as nat),
        probe.checks_doc(Doc::object(), place).at("base_url"@) == Doc::Text(probe.base_url@),
        probe.checks_doc(Doc::object(), place).at("healthz"@) == probe.healthz.document_of(),
        probe.checks_doc(Doc::object(), place).at("readyz"@) == probe.readyz.document_of(),
        place.len() > 0 ==> probe.checks_doc(Doc::object(), place).at("ui"@) == Doc::Text(place + "/ui"@),
        place.len() == 0 ==> probe.checks_doc(Doc::object(), place).at("ui"@) == Doc::Text(Seq::empty()),
        probe.details ==> probe.checks_doc(Doc::object(), place).at("health_details_url"@) == Doc::Text(
            place + "/health?details=true"@,
        ) && probe.checks_doc(Doc::object(), place).at("mcp_health_url"@) == Doc::Text(place + "/health/mcp"@),
        !probe.details ==> probe.checks_doc(Doc::object(), place).at("health_details_url"@) == Doc::Null,
{
    reveal_strlit("url");
    reveal_strlit("ok");
    reveal_strlit("status");
    reveal_strlit("body");
    reveal_strlit("error");
    reveal_strlit("path");
    reveal_strlit("exists");
    reveal_strlit("size_bytes");
    reveal_strlit("base_url");
    reveal_strlit("ui");
    reveal_strlit("healthz");
    reveal_strlit("readyz");
    reveal_strlit("health_details_url");
    reveal_strlit("mcp_health_url");
    assert("url"@.len() == 3);
    assert("ok"@.len() == 2 && "ok"@[0] == 'o');
    assert("status"@.len() == 6 && "status"@[0] == 's');
    assert("body"@.len() == 4 && "body"@[0] == 'b');
    assert("error"@.len() == 5);
    assert("path"@.len() == 4 && "path"@[0] == 'p');
    assert("exists"@.len() == 6 && "exists"@[0] == 'e');
    assert("size_bytes"@.len() == 10);
    assert("base_url"@.len() == 8);
    assert("ui"@.len() == 2 && "ui"@[0] == 'u');
    assert("healthz"@.len() == 7);
    assert("readyz"@.len() == 6 && "readyz"@[0] == 'r');
    assert("health_details_url"@.len() == 18);
    assert("mcp_health_url"@.len() == 14);
}

/// The details are asked only of a runtime on this host, over its socket or its loopback address, and with no
/// credentials.
pub proof fn lemma_details_near(base: Seq<char>, rest: Seq<char>)
    ensures
        may_detail_of(base) && !"http+unix://"@.is_prefix_of(base) ==> (parsed_url(base) matches Ok(url)
            && url.username.len() == 0 && url.password is None && (url.scheme == "http"@ || url.scheme
            == "https"@) && url.host is Some && (url.host->0 == "localhost"@ || ip_of(
            text::unbracketed(url.host->0),
        ) is Some && ip_of(text::unbracketed(url.host->0))->0.is_loopback())),
        may_detail_of("http+unix://"@ + rest),
        parsed_url(base) matches Ok(url) ==> (url.username.len() == 0 && url.password is None && url.scheme
            == "http"@ && url.host == Some("localhost"@) ==> may_detail_of(base)),
{
    let whole = "http+unix://"@ + rest;
    assert(whole.subrange(0, "http+unix://"@.len() as int) =~= "http+unix://"@);
}

/// What tells details answers with 200, is not too large, and says of which part and of which version.
pub proof fn lemma_details_told(code: u16, body: Seq<u8>)
    requires
        are_details(code, body),
    ensures
        code == 200,
        body.len() <= 24576,
        text::utf8_text(body) is Some,
        parsed_json(text::utf8_text(body)->0) matches Some(doc) && doc.at("component"@) == Doc::Text("mcp"@)
            && doc.at("schema_version"@) == Doc::number(1),
{
}

/// A document is taken from an answer of success only.
pub proof fn lemma_fetched(code: u16, body: Seq<u8>, value: Seq<char>)
    requires
        text::utf8_text(body) == Some(value),
    ensures
        200 <= code <= 299 ==> fetched_doc(code, body) == parsed_json(value),
        code < 200 || code > 299 ==> fetched_doc(code, body) is None,
{
}

/// A runtime is stopped where nothing of it runs; else it starts until it is healthy, and is healthy until it is
/// ready.
pub proof fn lemma_state_judged(seen: Seen)
    ensures
        !seen.running && !seen.tmux && seen.live is None ==> seen.state_of() == State::Stopped,
        (seen.running || seen.tmux) && seen.live is None && !seen.probe.healthz.ok ==> seen.state_of()
            == State::Starting,
        (seen.running || seen.tmux || seen.live is Some) && seen.probe.healthz.ok && !seen.probe.readyz.ok
            ==> seen.state_of() == State::Healthy,
        (seen.running || seen.tmux || seen.live is Some) && seen.probe.healthz.ok && seen.probe.readyz.ok
            ==> seen.state_of() == State::Ready,
        seen.live is Some && !seen.probe.healthz.ok && seen.replacement.healthz.ok && seen.replacement.readyz.ok
            ==> seen.state_of() == State::Ready,
        seen.live is Some && !seen.probe.healthz.ok && !seen.replacement.healthz.ok ==> seen.state_of()
            == State::Starting,
        State::Stopped.word() == "stopped"@ && State::Starting.word() == "starting"@ && State::Healthy.word()
            == "healthy"@ && State::Ready.word() == "ready"@,
        seen.probe.healthz.ok ==> seen.place_of() == seen.probe.base_url@,
        !seen.probe.healthz.ok ==> (seen.live matches Some(live) ==> seen.place_of() == live.base_url@),
        seen.live is None ==> seen.place_of() == seen.probe.base_url@,
{
}

/// The way to the service is the first that is told of as such.
pub proof fn lemma_service_way(routes: Seq<Doc>, from: int, at: int)
    requires
        0 <= from <= routes.len(),
    ensures
        from <= at < routes.len() && routes[at].at("route"@).at("kind"@) == Doc::Text("control_plane"@) && (forall|
            i: int,
        |
            from <= i < at ==> (#[trigger] routes[i]).at("route"@).at("kind"@) != Doc::Text(
                "control_plane"@,
            )) ==> service_way(routes, from) == Some(routes[at]),
        (forall|i: int|
            from <= i < routes.len() ==> (#[trigger] routes[i]).at("route"@).at("kind"@) != Doc::Text(
                "control_plane"@,
            )) ==> service_way(routes, from) is None,
    decreases routes.len() - from,
{
    if from < routes.len() {
        lemma_service_way(routes, from + 1, at);
        assert(routes[from] == routes[from]);
    }
}

/// Of the polls nothing is known without a live runtime; else what the runtime tells of its way to the service.
pub proof fn lemma_polls_told(live: Live, route: Doc)
    ensures
        poll_doc(None).at("state"@) == Doc::Text("unknown"@),
        poll_doc(None).at("reason"@) == Doc::Text("no live admin UI system snapshot"@),
        live.system.doc() is Null ==> poll_doc(Some(live)).at("state"@) == Doc::Text("unknown"@),
        !(live.system.doc() is Null) && told_way(live.system.doc()) == Some(route) ==> {
            &&& poll_doc(Some(live)).at("route"@) == route.at("route"@)
            &&& poll_doc(Some(live)).at("last_check"@) == route.at("last_check"@)
            &&& poll_doc(Some(live)).at("last_success"@) == route.at("last_success"@)
            &&& poll_doc(Some(live)).at("history"@) == route.at("history"@)
            &&& route.at("health_state"@) matches Doc::Text(state) ==> (text::trim_of(state).len() > 0
                ==> poll_doc(Some(live)).at("state"@) == Doc::Text(text::trim_of(state)))
        },
        !(live.system.doc() is Null) && told_way(live.system.doc()) is None ==> poll_doc(Some(live)).at("state"@)
            == Doc::Text("unknown"@) && poll_doc(Some(live)).at("route"@) == live.status.doc().at(
            "control_plane_route"@,
        ),
        is_calm("healthy"@) && is_calm("direct"@) && is_calm("unknown"@) && is_calm(""@),
        !is_calm("unhealthy"@),
{
    reveal_strlit("");
    reveal_strlit("state");
    reveal_strlit("reason");
    reveal_strlit("route");
    reveal_strlit("last_check");
    reveal_strlit("last_success");
    reveal_strlit("history");
    reveal_strlit("unhealthy");
    reveal_strlit("unknown");
    reveal_strlit("healthy");
    reveal_strlit("direct");
    assert(""@.len() == 0);
    assert("state"@.len() == 5 && "state"@[0] == 's');
    assert("reason"@.len() == 6 && "reason"@[0] == 'r');
    assert("route"@.len() == 5 && "route"@[0] == 'r');
    assert("last_check"@.len() == 10);
    assert("last_success"@.len() == 12);
    assert("history"@.len() == 7 && "history"@[0] == 'h' && "history"@[1] == 'i');
    assert("unhealthy"@.len() == 9);
    assert("unknown"@.len() == 7 && "unknown"@[0] == 'u');
    assert("healthy"@.len() == 7 && "healthy"@[1] == 'e' && "healthy"@[0] == 'h');
    assert("direct"@.len() == 6 && "direct"@[0] == 'd');
}

/// Each thing that is wrong is noted, and nothing that is not.
pub proof fn lemma_issues_noted(seen: Seen, process: ProcessView)
    ensures
        process.mode == "tmux"@ && process.session_name.len() > 0 && !seen.tmux ==> seen.issues_of(
            process,
        ).contains("recorded tmux session is not running"@),
        process.mode == "process"@ && process.pid is Some && !seen.running ==> seen.issues_of(process).contains(
            "recorded process pid is not running"@,
        ),
        process.mode == "process"@ && process.pid is Some && (process.pid_start_time.len() == 0
            || process.pid_executable.len() == 0) ==> seen.issues_of(process).contains(
            "recorded process identity is missing; refusing to reuse or signal a bare PID"@,
        ),
        process.profile_path.len() > 0 && !seen.profile.exists ==> seen.issues_of(process).contains(
            "recorded runtime profile is missing"@,
        ),
        process.health_url_file.len() > 0 && seen.raw_url@.len() == 0 ==> seen.issues_of(process).contains(
            "health URL file has not been populated"@,
        ),
        process.alias.len() > 0 && seen.probe.healthz.url@.len() > 0 && !seen.probe.healthz.ok ==> seen.issues_of(
            process,
        ).contains(endpoint_issue("health"@, "healthy"@, seen.probe.healthz)),
        process.alias.len() > 0 && seen.probe.readyz.url@.len() > 0 && !seen.probe.readyz.ok ==> seen.issues_of(
            process,
        ).contains(endpoint_issue("ready"@, "ready"@, seen.probe.readyz)),
        process.log_path.len() > 0 && !seen.running && !seen.tmux && seen.log.exists ==> seen.issues_of(
            process,
        ).contains("runtime log exists but no active runtime is running"@),
        !seen.probe.healthz.ok ==> (seen.live matches Some(live) ==> seen.issues_of(process).contains(
            "recorded health URL looks stale; live admin UI was found at "@ + live.base_url@,
        )),
        process == ProcessView::bare() && seen.live is None ==> seen.issues_of(process).len() == 0,
{
    lemma_polls_told_unknown();
    reveal_strlit("tmux");
    reveal_strlit("process");
    assert("tmux"@.len() == 4 && "process"@.len() == 7);
    let alone = process.mode == "process"@ && process.pid is Some;
    let health = seen.probe.healthz;
    let ready = seen.probe.readyz;
    let known = process.alias.len() > 0;
    let poll = words_of(poll_doc(seen.live).at("state"@));
    let stale = "recorded health URL looks stale; live admin UI was found at "@ + (match seen.live {
        Some(live) => live.base_url@,
        None => Seq::empty(),
    });
    let first = noted(Seq::empty(), process.mode == "tmux"@ && process.session_name.len() > 0 && !seen.tmux, "recorded tmux session is not running"@);
    lemma_noted_kept(Seq::empty(), process.mode == "tmux"@ && process.session_name.len() > 0 && !seen.tmux, "recorded tmux session is not running"@);
    let second = noted(first, alone && !seen.running, "recorded process pid is not running"@);
    lemma_noted_kept(first, alone && !seen.running, "recorded process pid is not running"@);
    let third = noted(second, alone && (process.pid_start_time.len() == 0 || process.pid_executable.len() == 0), "recorded process identity is missing; refusing to reuse or signal a bare PID"@);
    lemma_noted_kept(second, alone && (process.pid_start_time.len() == 0 || process.pid_executable.len() == 0), "recorded process identity is missing; refusing to reuse or signal a bare PID"@);
    let fourth = noted(third, process.profile_path.len() > 0 && !seen.profile.exists, "recorded runtime profile is missing"@);
    lemma_noted_kept(third, process.profile_path.len() > 0 && !seen.profile.exists, "recorded runtime profile is missing"@);
    let fifth = noted(fourth, process.health_url_file.len() > 0 && seen.raw_url@.len() == 0, "health URL file has not been populated"@);
    lemma_noted_kept(fourth, process.health_url_file.len() > 0 && seen.raw_url@.len() == 0, "health URL file has not been populated"@);
    let sixth = noted(fifth, known && health.url@.len() > 0 && !health.ok, endpoint_issue("health"@, "healthy"@, health));
    lemma_noted_kept(fifth, known && health.url@.len() > 0 && !health.ok, endpoint_issue("health"@, "healthy"@, health));
    let seventh = noted(sixth, known && ready.url@.len() > 0 && !ready.ok, endpoint_issue("ready"@, "ready"@, ready));
    lemma_noted_kept(sixth, known && ready.url@.len() > 0 && !ready.ok, endpoint_issue("ready"@, "ready"@, ready));
    let eighth = noted(seventh, process.log_path.len() > 0 && !seen.running && !seen.tmux && seen.log.exists, "runtime log exists but no active runtime is running"@);
    lemma_noted_kept(seventh, process.log_path.len() > 0 && !seen.running && !seen.tmux && seen.log.exists, "runtime log exists but no active runtime is running"@);
    let ninth = noted(eighth, seen.live is Some && !health.ok, stale);
    lemma_noted_kept(eighth, seen.live is Some && !health.ok, stale);
    let tenth = noted(ninth, !is_calm(poll), "control-plane poll route health is "@ + poll);
    lemma_noted_kept(ninth, !is_calm(poll), "control-plane poll route health is "@ + poll);
    assert(fifth == seen.process_issues(process));
    assert(tenth == seen.issues_of(process));
}

proof fn lemma_polls_told_unknown()
    ensures
        is_calm(words_of(poll_doc(None).at("state"@))),
{
    reveal_strlit("state");
    reveal_strlit("reason");
    assert("state"@.len() == 5);
    assert("reason"@.len() == 6);
}

proof fn lemma_noted_kept(items: Seq<Seq<char>>, there: bool, value: Seq<char>)
    ensures
        forall|other: Seq<char>| items.contains(other) ==> #[trigger] noted(items, there, value).contains(other),
        there ==> noted(items, there, value).contains(value),
{
    let after = noted(items, there, value);
    assert forall|other: Seq<char>| items.contains(other) implies #[trigger] after.contains(other) by {
        let at = choose|i: int| 0 <= i < items.len() && items[i] == other;
        assert(after[at] == other);
    }
    if there {
        assert(after[items.len() as int] == value);
    }
}

/// What is wrong with an endpoint is told with its URL and, where known, with its status or its error.
pub proof fn lemma_endpoint_issue(name: Seq<char>, condition: Seq<char>, endpoint: Endpoint)
    ensures
        endpoint.status != 0 ==> endpoint_detail(endpoint) == "HTTP "@ + text::decimal_of(
            endpoint.status as nat,
        ),
        endpoint.status == 0 && text::trim_of(endpoint.error@).len() > 0 ==> endpoint_detail(endpoint)
            == text::trim_of(endpoint.error@),
        endpoint.status == 0 && text::trim_of(endpoint.error@).len() == 0 ==> endpoint_detail(endpoint)
            == text::trim_of(endpoint.body@),
        endpoint_detail(endpoint).len() > 0 ==> endpoint_issue(name, condition, endpoint) == name
            + " endpoint is not "@ + condition + " at "@ + endpoint.url@ + (" ("@ + endpoint_detail(endpoint)
            + ")"@),
        endpoint.is_unasked() ==> endpoint.url@.len() == 0 && !endpoint.ok && endpoint.status == 0
            && endpoint.error@.len() == 0,
{
}

/// What is told of the local side of an alias.
pub proof fn lemma_local_told(
    seen: Seen,
    root: Seq<char>,
    alias: Seq<char>,
    record: AliasView,
    process: ProcessView,
)
    ensures
        ({
            let doc = seen.local_doc(root, alias, record, process);
            &&& doc.at("runtime_state"@) == Doc::Text(seen.state_of().word())
            &&& doc.at("issues"@) == json::texts(seen.issues_of(process))
            &&& doc.at("process_running"@) == Doc::Bool(seen.running || seen.tmux)
            &&& doc.at("control_plane_poll_health"@) == poll_doc(seen.live)
            &&& doc.at("live_admin_ui"@).at("found"@) == Doc::Bool(seen.live is Some)
            &&& doc.at("tmux"@).at("running"@) == Doc::Bool(seen.tmux)
            &&& text::trim_of(process.session_name).len() > 0 ==> doc.at("tmux"@).at("session_name"@)
                == Doc::Text(text::trim_of(process.session_name))
            &&& doc.at("log"@).at("tail"@) == Doc::Text(seen.tail@)
            &&& doc.at("log"@).at("path"@) == Doc::Text(seen.log.path@)
            &&& doc.at("profile"@).at("exists"@) == Doc::Bool(seen.profile.exists)
            &&& text::trim_of(process.profile_name).len() > 0 ==> doc.at("profile"@).at("name"@) == Doc::Text(
                text::trim_of(process.profile_name),
            )
            &&& text::trim_of(process.profile_name).len() == 0 ==> doc.at("profile"@).at("name"@) == Doc::Text(
                text::trim_of(record.profile_name),
            )
            &&& doc.at("health"@).at("raw_url"@) == Doc::Text(seen.raw_url@)
            &&& doc.at("health"@).at("healthz"@) == seen.probe.healthz.document_of()
            &&& doc.at("effective_health"@).at("healthz"@) == seen.effective_of().healthz.document_of()
        }),
{
    reveal_strlit("runtime_state");
    reveal_strlit("issues");
    reveal_strlit("profile");
    reveal_strlit("health");
    reveal_strlit("effective_health");
    reveal_strlit("live_admin_ui");
    reveal_strlit("control_plane_poll_health");
    reveal_strlit("log");
    reveal_strlit("tmux");
    reveal_strlit("process_running");
    assert("runtime_state"@.len() == 13 && "runtime_state"@[0] == 'r');
    assert("issues"@.len() == 6 && "issues"@[0] == 'i');
    assert("profile"@.len() == 7);
    assert("health"@.len() == 6 && "health"@[0] == 'h');
    assert("effective_health"@.len() == 16);
    assert("live_admin_ui"@.len() == 13 && "live_admin_ui"@[0] == 'l');
    assert("control_plane_poll_health"@.len() == 25);
    assert("log"@.len() == 3);
    assert("tmux"@.len() == 4);
    assert("process_running"@.len() == 15);
    reveal_strlit("found");
    reveal_strlit("base_url");
    reveal_strlit("ui_url");
    reveal_strlit("source_health_url_file");
    reveal_strlit("match_reason");
    reveal_strlit("status");
    reveal_strlit("system");
    reveal_strlit("session_name");
    reveal_strlit("running");
    reveal_strlit("tail");
    reveal_strlit("path");
    reveal_strlit("exists");
    reveal_strlit("size_bytes");
    reveal_strlit("name");
    reveal_strlit("dir");
    reveal_strlit("config_path");
    reveal_strlit("raw_url");
    reveal_strlit("url");
    reveal_strlit("ui");
    reveal_strlit("healthz");
    reveal_strlit("readyz");
    reveal_strlit("health_details_url");
    reveal_strlit("mcp_health_url");
    assert("found"@.len() == 5);
    assert("base_url"@.len() == 8);
    assert("ui_url"@.len() == 6 && "ui_url"@[0] == 'u');
    assert("source_health_url_file"@.len() == 22);
    assert("match_reason"@.len() == 12 && "match_reason"@[0] == 'm');
    assert("status"@.len() == 6 && "status"@[0] == 's' && "status"@[1] == 't');
    assert("system"@.len() == 6 && "system"@[0] == 's' && "system"@[1] == 'y');
    assert("session_name"@.len() == 12 && "session_name"@[0] == 's');
    assert("running"@.len() == 7 && "running"@[1] == 'u' && "running"@[0] == 'r');
    assert("tail"@.len() == 4 && "tail"@[0] == 't');
    assert("path"@.len() == 4 && "path"@[0] == 'p');
    assert("exists"@.len() == 6 && "exists"@[0] == 'e');
    assert("size_bytes"@.len() == 10);
    assert("name"@.len() == 4 && "name"@[0] == 'n');
    assert("dir"@.len() == 3 && "dir"@[0] == 'd');
    assert("config_path"@.len() == 11);
    assert("raw_url"@.len() == 7 && "raw_url"@[1] == 'a' && "raw_url"@[0] == 'r');
    assert("url"@.len() == 3 && "url"@[0] == 'u');
    assert("ui"@.len() == 2);
    assert("healthz"@.len() == 7 && "healthz"@[0] == 'h');
    assert("readyz"@.len() == 6 && "readyz"@[0] == 'r');
    assert("health_details_url"@.len() == 18);
    assert("mcp_health_url"@.len() == 14);
}

/// What is told of a tunnel, of the record of an alias and of the record of a process.
pub proof fn lemma_records_told(tunnel: TunnelView, alias: AliasView, process: ProcessView)
    ensures
        ({
            let doc = tunnel_doc(tunnel);
            &&& doc.at("id"@) == Doc::Text(tunnel.id)
            &&& doc.at("name"@) == Doc::Text(tunnel.name)
            &&& doc.at("description"@) == Doc::Text(tunnel.description)
            &&& tunnel.organization_ids.len() > 0 ==> doc.at("organization_ids"@) == json::texts(tunnel.organization_ids)
            &&& tunnel.organization_ids.len() == 0 ==> doc.at("organization_ids"@) == Doc::Null
            &&& tunnel.workspace_ids.len() > 0 ==> doc.at("workspace_ids"@) == json::texts(tunnel.workspace_ids)
            &&& tunnel.workspace_ids.len() == 0 ==> doc.at("workspace_ids"@) == Doc::Null
            &&& tunnel.tenant_ids.len() > 0 ==> doc.at("tenant_ids"@) == json::texts(tunnel.tenant_ids)
            &&& tunnel.tenant_ids.len() == 0 ==> doc.at("tenant_ids"@) == Doc::Null
        }),
        ({
            let doc = alias_doc(alias);
            &&& doc.at("alias"@) == Doc::Text(alias.alias)
            &&& doc.at("tunnel_id"@) == Doc::Text(alias.tunnel_id)
            &&& doc.at("name"@) == Doc::Text(alias.name)
            &&& doc.at("admin_profile"@) == Doc::Text(alias.admin_profile)
            &&& doc.at("description"@) == Doc::Text(alias.description)
            &&& doc.at("config_path"@) == Doc::Text(alias.config_path)
            &&& doc.at("profile_name"@) == Doc::Text(alias.profile_name)
            &&& doc.at("profile_dir"@) == Doc::Text(alias.profile_dir)
            &&& doc.at("profile_path"@) == Doc::Text(alias.profile_path)
            &&& doc.at("health_url_file"@) == Doc::Text(alias.health_url_file)
            &&& doc.at("updated_at"@) == Doc::Text(alias.updated_at)
            &&& alias.organization_ids.len() > 0 ==> doc.at("organization_ids"@) == json::texts(alias.organization_ids)
            &&& alias.organization_ids.len() == 0 ==> doc.at("organization_ids"@) == Doc::Null
            &&& alias.workspace_ids.len() > 0 ==> doc.at("workspace_ids"@) == json::texts(alias.workspace_ids)
            &&& alias.workspace_ids.len() == 0 ==> doc.at("workspace_ids"@) == Doc::Null
            &&& alias.tenant_ids.len() > 0 ==> doc.at("tenant_ids"@) == json::texts(alias.tenant_ids)
            &&& alias.tenant_ids.len() == 0 ==> doc.at("tenant_ids"@) == Doc::Null
        }),
        ({
            let doc = process_doc(process);
            &&& doc.at("alias"@) == Doc::Text(process.alias)
            &&& doc.at("tunnel_id"@) == Doc::Text(process.tunnel_id)
            &&& doc.at("config_path"@) == Doc::Text(process.config_path)
            &&& doc.at("health_url_file"@) == Doc::Text(process.health_url_file)
            &&& doc.at("target_kind"@) == Doc::Text(process.target_kind)
            &&& doc.at("target_value"@) == Doc::Text(process.target_value)
            &&& doc.at("command"@) == Doc::Text(process.command)
            &&& doc.at("started_at"@) == Doc::Text(process.started_at)
            &&& doc.at("admin_profile"@) == Doc::Text(process.admin_profile)
            &&& doc.at("profile_name"@) == Doc::Text(process.profile_name)
            &&& doc.at("profile_dir"@) == Doc::Text(process.profile_dir)
            &&& doc.at("profile_path"@) == Doc::Text(process.profile_path)
            &&& doc.at("mode"@) == Doc::Text(process.mode)
            &&& doc.at("session_name"@) == Doc::Text(process.session_name)
            &&& doc.at("log_path"@) == Doc::Text(process.log_path)
            &&& process.pid matches Some(pid) ==> doc.at("pid"@) == Doc::number(pid as nat)
            &&& process.pid is None ==> doc.at("pid"@) == Doc::Null
        }),
{
    reveal_strlit("admin_profile");
    reveal_strlit("alias");
    reveal_strlit("command");
    reveal_strlit("config_path");
    reveal_strlit("description");
    reveal_strlit("health_url_file");
    reveal_strlit("id");
    reveal_strlit("log_path");
    reveal_strlit("mode");
    reveal_strlit("name");
    reveal_strlit("organization_ids");
    reveal_strlit("pid");
    reveal_strlit("profile_dir");
    reveal_strlit("profile_name");
    reveal_strlit("profile_path");
    reveal_strlit("session_name");
    reveal_strlit("started_at");
    reveal_strlit("target_kind");
    reveal_strlit("target_value");
    reveal_strlit("tenant_ids");
    reveal_strlit("tunnel_id");
    reveal_strlit("updated_at");
    reveal_strlit("workspace_ids");
    assert("admin_profile"@.len() == 13 && "admin_profile"@[0] == 'a');
    assert("alias"@.len() == 5);
    assert("command"@.len() == 7);
    assert("config_path"@.len() == 11 && "config_path"@[0] == 'c');
    assert("description"@.len() == 11 && "description"@[0] == 'd');
    assert("health_url_file"@.len() == 15);
    assert("id"@.len() == 2);
    assert("log_path"@.len() == 8);
    assert("mode"@.len() == 4 && "mode"@[0] == 'm');
    assert("name"@.len() == 4 && "name"@[0] == 'n');
    assert("organization_ids"@.len() == 16);
    assert("pid"@.len() == 3);
    assert("profile_dir"@.len() == 11 && "profile_dir"@[0] == 'p');
    assert("profile_name"@.len() == 12 && "profile_name"@[8] == 'n' && "profile_name"@[0] == 'p');
    assert("profile_path"@.len() == 12 && "profile_path"@[8] == 'p' && "profile_path"@[0] == 'p');
    assert("session_name"@.len() == 12 && "session_name"@[0] == 's');
    assert("started_at"@.len() == 10 && "started_at"@[0] == 's');
    assert("target_kind"@.len() == 11 && "target_kind"@[0] == 't');
    assert("target_value"@.len() == 12 && "target_value"@[0] == 't');
    assert("tenant_ids"@.len() == 10 && "tenant_ids"@[0] == 't');
    assert("tunnel_id"@.len() == 9);
    assert("updated_at"@.len() == 10 && "updated_at"@[0] == 'u');
    assert("workspace_ids"@.len() == 13 && "workspace_ids"@[0] == 'w');
}

/// A doctor is asked of the profile of the runtime, or of its configuration; a repair connects the alias again with what
/// is recorded of it.
pub proof fn lemma_repairs_named(alias: Seq<char>, record: AliasView, process: ProcessView)
    ensures
        record.organization_ids.len() > 0 ==> scope_words(record) == seq![
            "--organization-id"@,
            record.organization_ids[0],
        ],
        record.organization_ids.len() == 0 && record.workspace_ids.len() > 0 ==> scope_words(record) == seq![
            "--workspace-id"@,
            record.workspace_ids[0],
        ],
        record.organization_ids.len() == 0 && record.workspace_ids.len() == 0 && record.tenant_ids.len() > 0
            ==> scope_words(record) == seq!["--tenant-id"@, record.tenant_ids[0]],
        process.target_kind == "server_url"@ ==> target_words(process) == seq![
            "--mcp-server-url"@,
            process.target_value,
        ],
        process.target_kind == "command"@ ==> target_words(process) == seq![
            "--mcp-command"@,
            process.target_value,
        ],
        seq!["otunnel"@, "runtimes"@, "connect"@, "--alias"@, alias].is_prefix_of(
            repair_words(alias, record, process),
        ),
        target_words(process).is_suffix_of(repair_words(alias, record, process)),
        record.admin_profile.len() > 0 ==> repair_words(alias, record, process)[5] == "--admin-profile"@
            && repair_words(alias, record, process)[6] == record.admin_profile,
        record.admin_profile.len() == 0 && record.profile_name.len() > 0 ==> repair_words(
            alias,
            record,
            process,
        )[5] == "--profile"@ && repair_words(alias, record, process)[6] == record.profile_name,
        doctor_words(record, process)[0] == "otunnel"@ && doctor_words(record, process)[1] == "doctor"@
            && doctor_words(record, process).last() == "--explain"@,
        text::trim_of(process.profile_name).len() > 0 ==> doctor_words(record, process)[2] == "--profile"@
            && doctor_words(record, process)[3] == text::trim_of(process.profile_name),
        status_line(alias) == "otunnel runtimes status "@ + alias + " --json"@,
{
    reveal_strlit("server_url");
    reveal_strlit("command");
    assert("server_url"@.len() == 10 && "command"@.len() == 7);
    let front = seq!["otunnel"@, "runtimes"@, "connect"@, "--alias"@, alias];
    let whole = repair_words(alias, record, process);
    assert(whole.subrange(0, front.len() as int) =~= front);
    let tail = target_words(process);
    assert(whole.subrange(whole.len() - tail.len(), whole.len() as int) =~= tail);
}

/// What should be done about a runtime, for each of the reasons.
pub proof fn lemma_actions_named(
    seen: Seen,
    alias: Seq<char>,
    record: AliasView,
    process: ProcessView,
    remote_error: Seq<char>,
)
    ensures
        ({
            let items = seen.actions_of(alias, record, process, remote_error);
            &&& !seen.profile.exists ==> items[0].id == "reconnect_missing_profile"@
            &&& seen.profile.exists && (process.alias.len() == 0 || seen.state_of() == State::Stopped)
                ==> items[0].id == "start_runtime"@
            &&& !seen.profile.exists && (process.alias.len() == 0 || seen.state_of() == State::Stopped)
                ==> items[1].id == "start_runtime"@
            &&& text::trim_of(remote_error).len() > 0 ==> items.last().id == "check_remote_tunnel"@
                && items.last().command == status_line(alias)
            &&& seen.profile.exists && process.alias.len() > 0 && seen.state_of() != State::Stopped
                && seen.live is Some && !seen.probe.healthz.ok ==> items[0].id == "refresh_stale_health_url"@
            &&& seen.profile.exists && process.alias.len() > 0 && seen.state_of() != State::Stopped
                && seen.live is None && text::trim_of(remote_error).len() == 0 ==> items.len() == 1 && items[0].id
                == "inspect"@
        }),
{
    lemma_polls_told_unknown();
}

/// The actions are told one by one, in order.
pub proof fn lemma_actions_told(items: Seq<ActionView>, at: int)
    requires
        0 <= at < items.len(),
    ensures
        actions_doc(items) matches Doc::List(docs) && docs.len() == items.len() && docs[at].at("id"@)
            == Doc::Text(items[at].id) && docs[at].at("command"@) == Doc::Text(items[at].command)
            && docs[at].at("reason"@) == Doc::Text(items[at].reason),
        commands_of(items).len() == items.len() && commands_of(items)[at] == items[at].command,
{
    reveal_strlit("id");
    reveal_strlit("command");
    reveal_strlit("reason");
    assert("id"@.len() == 2);
    assert("command"@.len() == 7);
    assert("reason"@.len() == 6);
}

} // verus!
