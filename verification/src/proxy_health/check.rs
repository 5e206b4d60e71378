//! Checks of proxies, and what is told of them.

use vstd::prelude::*;
use crate::address::{Address, Parts};
use crate::health::moment::{put_time, with_time};
use crate::json::{self, Doc, Json};
use crate::metrics::{label_views, labels_sorted, labels_text, stepped, MetricView, Metrics, SeriesView};
use crate::proxy_health::{Check, Route, RouteState};
use crate::table::Table;
use crate::{digest, pattern, text};

verus! {

/// The user of a proxy and its password, as they are sent.
pub open spec fn credentials_of(proxy: Parts) -> Seq<char> {
    let password = match proxy.password {
        Some(password) => password,
        None => Seq::empty(),
    };
    pattern::percent_lossy(proxy.username) + ":"@ + pattern::percent_lossy(password)
}

/// The header that tells a proxy of its user, where there is one.
pub open spec fn authorization_of(proxy: Parts) -> Seq<char> {
    if proxy.username.len() == 0 {
        Seq::empty()
    } else {
        "Proxy-Authorization: Basic "@ + digest::base64_of(
            vstd::utf8::encode_utf8(credentials_of(proxy)),
        ) + "\r\n"@
    }
}

/// What a proxy is sent to connect to a target.
pub open spec fn connect_of(proxy: Parts, target: Seq<char>) -> Seq<char> {
    "CONNECT "@ + target + " HTTP/1.1\r\nHost: "@ + target + "\r\n"@ + (authorization_of(proxy)
        + "\r\n"@)
}

/// What a proxy is sent to connect to a target.
pub fn connect(proxy: &Address, target: &str) -> (result: String)
    ensures
        result@ == connect_of(proxy.parts(), target@),
{
    let authorization = if proxy.username.is_empty() {
        let empty = String::new();
        assert(empty@ =~= Seq::<char>::empty());
        empty
    } else {
        let given = match &proxy.password {
            Some(password) => password.clone(),
            None => {
                let empty = String::new();
                assert(empty@ =~= Seq::<char>::empty());
                empty
            },
        };
        let user = text::cat3(
            &pattern::percent_decode_lossy(&proxy.username),
            ":",
            &pattern::percent_decode_lossy(&given),
        );
        text::cat3(
            "Proxy-Authorization: Basic ",
            &digest::base64(&text::bytes(&user)),
            "\r\n",
        )
    };
    text::cat(
        &text::cat5("CONNECT ", target, " HTTP/1.1\r\nHost: ", target, "\r\n"),
        &text::cat(&authorization, "\r\n"),
    )
}

/// The code in the first line of the answer of a proxy.
pub open spec fn code_of(line: Seq<char>) -> Option<Seq<char>> {
    let parts = text::split_of(text::trim_of(line), ' ');
    if parts.len() > 1 {
        Some(parts[1])
    } else {
        None
    }
}

/// The class of a code.
pub open spec fn class_of(code: Seq<char>) -> Seq<char> {
    if code.len() == 0 {
        Seq::empty()
    } else {
        seq![code[0]] + "xx"@
    }
}

/// How the connection through a proxy ended.
pub enum Connected {
    /// The proxy answered with a line.
    Answered(String),
    TimedOut,
    Failed,
}

/// The class of the code of an answer.
pub open spec fn answer_class(outcome: Connected) -> Seq<char> {
    match outcome {
        Connected::Answered(line) => match code_of(line@) {
            Some(code) => class_of(code),
            None => Seq::empty(),
        },
        _ => Seq::empty(),
    }
}

/// Whether the proxy connected.
pub open spec fn is_connected(outcome: Connected) -> bool {
    match outcome {
        Connected::Answered(line) => match code_of(line@) {
            Some(code) => "2"@.is_prefix_of(code),
            None => false,
        },
        _ => false,
    }
}

/// Why a proxy did not connect.
pub open spec fn connect_reason(outcome: Connected) -> Seq<char> {
    if answer_class(outcome).len() > 0 {
        "bad_status"@
    } else if outcome is TimedOut {
        "timeout"@
    } else {
        "connect_error"@
    }
}

impl Check {
    /// A proxy that was not reached.
    pub fn out_of_reach(timestamp: u64, tcp_duration_ms: u64, timed_out: bool) -> (result: Check)
        ensures
            result.timestamp == timestamp,
            !result.success,
            result.tcp_duration_ms == tcp_duration_ms,
            result.connect_duration_ms == 0,
            result.error_phase@ == "tcp"@,
            result.error_reason@ == (if timed_out {
                "timeout"@
            } else {
                "dial_error"@
            }),
            result.http_status_category@.len() == 0,
            !result.tls_failure,
    {
        Check {
            timestamp,
            success: false,
            tcp_duration_ms,
            connect_duration_ms: 0,
            error_phase: "tcp".to_owned(),
            error_reason: if timed_out {
                "timeout".to_owned()
            } else {
                "dial_error".to_owned()
            },
            http_status_category: String::new(),
            tls_failure: false,
        }
    }

    /// A proxy that was reached, and how the connection through it ended; whether its certificate was
    /// still being looked at.
    pub fn reached(
        timestamp: u64,
        tcp_duration_ms: u64,
        connect_duration_ms: u64,
        outcome: &Connected,
        handshake: bool,
    ) -> (result: Check)
        ensures
            result.timestamp == timestamp,
            result.success == is_connected(*outcome),
            result.tcp_duration_ms == tcp_duration_ms,
            result.connect_duration_ms == connect_duration_ms,
            result.http_status_category@ == answer_class(*outcome),
            result.success ==> result.error_phase@.len() == 0 && result.error_reason@.len() == 0
                && !result.tls_failure,
            !result.success ==> result.error_phase@ == "connect"@ && result.error_reason@
                == connect_reason(*outcome) && result.tls_failure == handshake,
    {
        let mut category = String::new();
        let mut success = false;
        assert(category@ =~= Seq::<char>::empty());
        if let Connected::Answered(line) = outcome {
            let parts = text::split(&text::trim(line), ' ');
            assert(text::views(parts@).len() == parts@.len());
            if parts.len() > 1 {
                assert(text::views(parts@)[1] == parts@[1]@);
                let code = text::chars(&parts[1]);
                success = text::starts_with(&parts[1], "2");
                if code.len() > 0 {
                    let mut first = String::new();
                    first.push(code[0]);
                    assert(first@ =~= seq![code@[0]]);
                    category = text::cat(&first, "xx");
                }
            }
        }
        let reason = if success {
            String::new()
        } else if !category.is_empty() {
            "bad_status".to_owned()
        } else if let Connected::TimedOut = outcome {
            "timeout".to_owned()
        } else {
            "connect_error".to_owned()
        };
        Check {
            timestamp,
            success,
            tcp_duration_ms,
            connect_duration_ms,
            error_phase: if success {
                String::new()
            } else {
                "connect".to_owned()
            },
            error_reason: reason,
            http_status_category: category,
            tls_failure: !success && handshake,
        }
    }

    /// Why a way is not usable.
    pub open spec fn failure_of(self) -> Seq<char> {
        if self.success {
            ""@
        } else if self.error_phase@ == "tcp"@ {
            "tcp_failed"@
        } else if self.tls_failure {
            "tls_failed"@
        } else {
            "connect_failed"@
        }
    }

    fn failure(&self) -> (result: &'static str)
        ensures
            result@ == self.failure_of(),
    {
        if self.success {
            ""
        } else if text::same(&self.error_phase, "tcp") {
            "tcp_failed"
        } else if self.tls_failure {
            "tls_failed"
        } else {
            "connect_failed"
        }
    }

    /// What is told of a check.
    pub open spec fn document_of(self) -> Doc {
        with_time(Doc::object(), "timestamp"@, self.timestamp).with(
            "success"@,
            Doc::Bool(self.success),
        ).with_if(
            self.tcp_duration_ms != 0,
            "tcp_duration_ms"@,
            Doc::number(self.tcp_duration_ms as nat),
        ).with_if(
            self.connect_duration_ms != 0,
            "connect_duration_ms"@,
            Doc::number(self.connect_duration_ms as nat),
        ).with_if(self.error_phase@.len() > 0, "error_phase"@, Doc::Text(self.error_phase@)).with_if(
            self.error_reason@.len() > 0,
            "error_reason"@,
            Doc::Text(self.error_reason@),
        ).with_if(
            self.http_status_category@.len() > 0,
            "http_status_category"@,
            Doc::Text(self.http_status_category@),
        )
    }

    fn document(&self) -> (result: Json)
        ensures
            result.doc() == self.document_of(),
    {
        put_time(Json::object(), "timestamp", self.timestamp).with(
            "success",
            Json::Bool(self.success),
        ).with_if(
            self.tcp_duration_ms != 0,
            "tcp_duration_ms",
            Json::number(self.tcp_duration_ms),
        ).with_if(
            self.connect_duration_ms != 0,
            "connect_duration_ms",
            Json::number(self.connect_duration_ms),
        ).with_if(!self.error_phase.is_empty(), "error_phase", Json::text(&self.error_phase)).with_if(
            !self.error_reason.is_empty(),
            "error_reason",
            Json::text(&self.error_reason),
        ).with_if(
            !self.http_status_category.is_empty(),
            "http_status_category",
            Json::text(&self.http_status_category),
        )
    }
}

/// How many checks of a way are remembered.
pub const MAX_HISTORY: usize = 10;

/// The remembered checks after one more: the last ones.
pub open spec fn remembered(history: Seq<Check>, check: Check) -> Seq<Check> {
    let all = history.push(check);
    if all.len() > MAX_HISTORY {
        all.drop_first()
    } else {
        all
    }
}

impl Route {
    /// The way after a check.
    pub open spec fn is_checked(self, before: Route, check: Check) -> bool {
        &&& self == (Route {
            history: self.history,
            state: if check.success {
                RouteState::Healthy
            } else {
                RouteState::Unhealthy
            },
            failure: self.failure,
            last_check: check.timestamp,
            last_success: if check.success {
                check.timestamp
            } else {
                before.last_success
            },
            ..before
        })
        &&& self.failure@ == check.failure_of()
        &&& self.history@ == remembered(before.history@, check)
    }

    /// Notes a check.
    pub fn check(&mut self, check: Check)
        ensures
            final(self).is_checked(*old(self), check),
    {
        self.last_check = check.timestamp;
        self.state = if check.success {
            RouteState::Healthy
        } else {
            RouteState::Unhealthy
        };
        self.failure = check.failure().to_owned();
        if check.success {
            self.last_success = check.timestamp;
        }
        self.history.push(check);
        if self.history.len() > MAX_HISTORY {
            let _ = self.history.remove(0);
            assert(self.history@ =~= remembered(old(self).history@, check));
        }
    }
}

/// No more than the last checks of a way are remembered, and the last one is.
pub proof fn lemma_history_bounded(history: Seq<Check>, check: Check)
    requires
        history.len() <= MAX_HISTORY,
    ensures
        remembered(history, check).len() <= MAX_HISTORY,
        remembered(history, check).last() == check,
{
}

/// The measures of a check, before it is noted.
pub open spec fn measured(
    map: Map<Seq<char>, SeriesView>,
    id: Seq<char>,
    check: Check,
) -> Map<Seq<char>, SeriesView> {
    let first = if check.tcp_duration_ms > 0 {
        phase_measured(map, id, "tcp"@, check.tcp_duration_ms)
    } else {
        map
    };
    let second = if check.connect_duration_ms > 0 {
        phase_measured(first, id, "connect"@, check.connect_duration_ms)
    } else {
        first
    };
    if check.success {
        second
    } else {
        stepped(
            second,
            "proxy_check_failures_total"@,
            "proxyhealth"@,
            labels_text(
                labels_sorted(
                    seq![
                        ("proxy_id"@, id),
                        ("phase"@, check.error_phase@),
                        ("reason"@, check.error_reason@),
                    ],
                ),
            ),
            MetricView::Counter(0),
            |metric: MetricView| metric.incremented(),
        )
    }
}

/// The thousandths of a second in millionths, as far as that can be counted.
pub open spec fn micros_of(millis: u64) -> u64 {
    if millis * 1000 > u64::MAX {
        u64::MAX
    } else {
        (millis * 1000) as u64
    }
}

/// The measures after a phase of a check.
pub open spec fn phase_measured(
    map: Map<Seq<char>, SeriesView>,
    id: Seq<char>,
    phase: Seq<char>,
    millis: u64,
) -> Map<Seq<char>, SeriesView> {
    stepped(
        map,
        "proxy_check_phase_duration_seconds"@,
        "proxyhealth"@,
        labels_text(labels_sorted(seq![("proxy_id"@, id), ("phase"@, phase)])),
        MetricView::empty(),
        |metric: MetricView| metric.observed(micros_of(millis)),
    )
}

fn measure_phase(metrics: Metrics, id: &str, phase: &str, millis: u64) -> (result: Metrics)
    ensures
        result@ == phase_measured(metrics@, id@, phase@, millis),
{
    let mut labels: Vec<(String, String)> = Vec::new();
    labels.push(("proxy_id".to_owned(), id.to_owned()));
    labels.push(("phase".to_owned(), phase.to_owned()));
    assert(label_views(labels@) =~= seq![("proxy_id"@, id@), ("phase"@, phase@)]);
    let value: u64 = if millis > u64::MAX / 1000 {
        u64::MAX
    } else {
        millis * 1000
    };
    assert(value == micros_of(millis));
    metrics.observe("proxyhealth", "proxy_check_phase_duration_seconds", &labels, value)
}

/// Measures a check.
pub fn measure(metrics: Metrics, id: &str, check: &Check) -> (result: Metrics)
    ensures
        result@ == measured(metrics@, id@, *check),
{
    let mut result = metrics;
    if check.tcp_duration_ms > 0 {
        result = measure_phase(result, id, "tcp", check.tcp_duration_ms);
    }
    if check.connect_duration_ms > 0 {
        result = measure_phase(result, id, "connect", check.connect_duration_ms);
    }
    if !check.success {
        let mut labels: Vec<(String, String)> = Vec::new();
        labels.push(("proxy_id".to_owned(), id.to_owned()));
        labels.push(("phase".to_owned(), check.error_phase.clone()));
        labels.push(("reason".to_owned(), check.error_reason.clone()));
        assert(label_views(labels@) =~= seq![
            ("proxy_id"@, id@),
            ("phase"@, check.error_phase@),
            ("reason"@, check.error_reason@),
        ]);
        result = result.increment("proxyhealth", "proxy_check_failures_total", &labels);
    }
    result
}

impl Route {
    /// What is told of the way itself.
    pub open spec fn summary_doc(self) -> Doc {
        let base = Doc::object().with("kind"@, Doc::Text(self.kind@)).with(
            "name"@,
            Doc::Text(self.name@),
        ).with_if(self.target@.len() > 0, "target"@, Doc::Text(self.target@));
        match self.through {
            Some(through) => base.with("route_mode"@, Doc::Text("proxy"@)).with(
                "proxy_source"@,
                Doc::Text(through.source@),
            ).with("proxy_url"@, Doc::Text(through.url@)).with("proxy_id"@, Doc::Text(through.id@)),
            None => base.with("route_mode"@, Doc::Text("direct"@)).with(
                "proxy_source"@,
                Doc::Text("none"@),
            ),
        }
    }

    /// What is told of the way itself.
    pub fn summary(&self) -> (result: Json)
        ensures
            result.doc() == self.summary_doc(),
    {
        let base = Json::object().with("kind", Json::text(&self.kind)).with(
            "name",
            Json::text(&self.name),
        ).with_if(!self.target.is_empty(), "target", Json::text(&self.target));
        match &self.through {
            Some(through) => base.with("route_mode", Json::text("proxy")).with(
                "proxy_source",
                Json::text(&through.source),
            ).with("proxy_url", Json::text(&through.url)).with("proxy_id", Json::text(&through.id)),
            None => base.with("route_mode", Json::text("direct")).with(
                "proxy_source",
                Json::text("none"),
            ),
        }
    }

    /// The documents of the checks of a way.
    pub open spec fn history_docs(self) -> Seq<Doc> {
        self.history@.map_values(|check: Check| check.document_of())
    }

    fn history_json(&self) -> (result: Json)
        ensures
            result.doc() == Doc::List(self.history_docs()),
    {
        let ghost all = self.history_docs();
        let mut items: Vec<Json> = Vec::new();
        let mut index: usize = 0;
        while index < self.history.len()
            invariant
                index <= self.history.len(),
                all == self.history_docs(),
                json::docs(items@) == all.take(index as int),
            decreases self.history.len() - index,
        {
            let item = self.history[index].document();
            proof {
                json::lemma_docs_push(items@, item);
                assert(all.take(index + 1) == all.take(index as int).push(item.doc()));
            }
            items.push(item);
            index = index + 1;
        }
        assert(all.take(all.len() as int) == all);
        Json::List(items)
    }

    /// What is told of a way and its checks.
    pub open spec fn health_doc(self) -> Doc {
        let state = if self.state == RouteState::Pending {
            RouteState::Unhealthy
        } else {
            self.state
        };
        let base = Doc::object().with("route"@, self.summary_doc()).with(
            "health_state"@,
            Doc::Text(state.word()),
        );
        with_time(
            with_time(base, "last_check"@, self.last_check),
            "last_success"@,
            self.last_success,
        ).with_if(self.history@.len() > 0, "history"@, Doc::List(self.history_docs()))
    }

    /// What is told of a way and its checks.
    pub fn health(&self) -> (result: Json)
        ensures
            result.doc() == self.health_doc(),
    {
        let state = match self.state {
            RouteState::Pending => RouteState::Unhealthy,
            other => other,
        };
        let base = Json::object().with("route", self.summary()).with(
            "health_state",
            Json::text(state.text()),
        );
        put_time(
            put_time(base, "last_check", self.last_check),
            "last_success",
            self.last_success,
        ).with_if(self.history.len() > 0, "history", self.history_json())
    }
}

/// What is told of all ways and their checks.
pub fn summaries(routes: &Vec<Route>) -> (result: Vec<Json>)
    ensures
        json::docs(result@) == routes@.map_values(|route: Route| route.health_doc()),
{
    let ghost all = routes@.map_values(|route: Route| route.health_doc());
    let mut items: Vec<Json> = Vec::new();
    let mut index: usize = 0;
    while index < routes.len()
        invariant
            index <= routes.len(),
            all == routes@.map_values(|route: Route| route.health_doc()),
            json::docs(items@) == all.take(index as int),
        decreases routes.len() - index,
    {
        let item = routes[index].health();
        proof {
            json::lemma_docs_push(items@, item);
            assert(all.take(index + 1) == all.take(index as int).push(item.doc()));
        }
        items.push(item);
        index = index + 1;
    }
    assert(all.take(all.len() as int) == all);
    items
}

/// The place of the first way through each proxy, by the identity of the proxy.
pub open spec fn first_through(routes: Seq<Route>) -> Map<Seq<char>, int>
    decreases routes.len(),
{
    if routes.len() == 0 {
        Map::empty()
    } else {
        let rest = first_through(routes.drop_last());
        match routes.last().through {
            Some(through) => if rest.dom().contains(through.id@) {
                rest
            } else {
                rest.insert(through.id@, routes.len() - 1)
            },
            None => rest,
        }
    }
}

/// The place of the last way through each proxy, by the identity of the proxy.
pub open spec fn last_through(routes: Seq<Route>) -> Map<Seq<char>, int>
    decreases routes.len(),
{
    if routes.len() == 0 {
        Map::empty()
    } else {
        let rest = last_through(routes.drop_last());
        match routes.last().through {
            Some(through) => rest.insert(through.id@, routes.len() - 1),
            None => rest,
        }
    }
}

/// The contents of a table of places.
pub open spec fn places(map: Map<Seq<char>, usize>) -> Map<Seq<char>, int> {
    Map::new(|id: Seq<char>| map.dom().contains(id), |id: Seq<char>| map[id] as int)
}

fn throughs(routes: &Vec<Route>, first: bool) -> (result: Table<usize>)
    ensures
        places(result@) == (if first {
            first_through(routes@)
        } else {
            last_through(routes@)
        }),
        forall|id: Seq<char>| #[trigger]
            result@.dom().contains(id) ==> result@[id] < routes@.len()
                && routes@[result@[id] as int].through is Some
                && routes@[result@[id] as int].through->0.id@ == id,
{
    let mut result: Table<usize> = Table::new();
    let mut index: usize = 0;
    assert(routes@.take(0) =~= Seq::<Route>::empty());
    assert(places(result@) =~= Map::<Seq<char>, int>::empty());
    while index < routes.len()
        invariant
            index <= routes.len(),
            places(result@) == (if first {
                first_through(routes@.take(index as int))
            } else {
                last_through(routes@.take(index as int))
            }),
            forall|id: Seq<char>| #[trigger]
                result@.dom().contains(id) ==> result@[id] < index
                    && routes@[result@[id] as int].through is Some
                    && routes@[result@[id] as int].through->0.id@ == id,
        decreases routes.len() - index,
    {
        proof {
            assert(routes@.take(index + 1).drop_last() == routes@.take(index as int));
            assert(routes@.take(index + 1).last() == routes@[index as int]);
        }
        if let Some(through) = &routes[index].through {
            assert(places(result@).dom().contains(through.id@) == result@.dom().contains(
                through.id@,
            ));
            if !first || !result.contains(&through.id) {
                let ghost before = result@;
                result = result.insert(through.id.clone(), index);
                assert(places(result@) =~= places(before).insert(through.id@, index as int));
            }
        }
        index = index + 1;
    }
    assert(routes@.take(routes@.len() as int) == routes@);
    result
}

/// What is told of a proxy.
pub open spec fn identity_doc(route: Route) -> Doc {
    match route.through {
        Some(through) => Doc::object().with("proxy_id"@, Doc::Text(through.id@)).with(
            "proxy_url"@,
            Doc::Text(through.url@),
        ).with("proxy_source"@, Doc::Text(through.source@)),
        None => Doc::Null,
    }
}

/// What is told of the proxies, in the order of their identities.
pub fn identities(routes: &Vec<Route>) -> (result: Vec<Json>)
    ensures
        ({
            let firsts = first_through(routes@);
            let keys = crate::table::ordered_keys(firsts.dom());
            json::docs(result@) == keys.map_values(|id: Seq<char>| identity_doc(routes@[firsts[id]]))
        }),
{
    let firsts = throughs(routes, true);
    let total: usize = firsts.len();
    let ghost keys = firsts.keys();
    let ghost map = first_through(routes@);
    proof {
        assert forall|id: Seq<char>| #[trigger] keys.contains(id) <==> map.dom().contains(id) by {
            assert(places(firsts@).dom().contains(id) == firsts@.dom().contains(id));
        }
        crate::table::lemma_ordered_keys(keys, map.dom());
    }
    let ghost all = keys.map_values(|id: Seq<char>| identity_doc(routes@[map[id]]));
    let mut items: Vec<Json> = Vec::new();
    let mut index: usize = 0;
    while index < total
        invariant
            index <= total,
            total == keys.len(),
            keys == firsts.keys(),
            map == first_through(routes@),
            map == places(firsts@),
            all == keys.map_values(|id: Seq<char>| identity_doc(routes@[map[id]])),
            forall|i: int| 0 <= i < total ==> firsts@.dom().contains(#[trigger] keys[i]),
            forall|id: Seq<char>| #[trigger]
                firsts@.dom().contains(id) ==> firsts@[id] < routes@.len(),
            json::docs(items@) == all.take(index as int),
        decreases total - index,
    {
        let at: usize = *firsts.value(index);
        assert(firsts@.dom().contains(keys[index as int]));
        assert(map[keys[index as int]] == at as int);
        let item = match &routes[at].through {
            Some(through) => Json::object().with("proxy_id", Json::text(&through.id)).with(
                "proxy_url",
                Json::text(&through.url),
            ).with("proxy_source", Json::text(&through.source)),
            None => Json::Null,
        };
        proof {
            json::lemma_docs_push(items@, item);
            assert(all[index as int] == item.doc());
            assert(all.take(index + 1) == all.take(index as int).push(item.doc()));
        }
        items.push(item);
        index = index + 1;
    }
    assert(all.take(all.len() as int) == all);
    items
}

/// What is measured of the way through a proxy.
#[derive(Clone, Copy, PartialEq, Eq, Structural)]
pub enum Gauge {
    State,
    LastCheck,
    LastSuccess,
}

impl Gauge {
    /// The name of the measure.
    pub open spec fn word(self) -> Seq<char> {
        match self {
            Gauge::State => "proxy_health_state"@,
            Gauge::LastCheck => "proxy_last_check_timestamp"@,
            Gauge::LastSuccess => "proxy_last_success_timestamp"@,
        }
    }

    fn text(self) -> (result: &'static str)
        ensures
            result@ == self.word(),
    {
        match self {
            Gauge::State => "proxy_health_state",
            Gauge::LastCheck => "proxy_last_check_timestamp",
            Gauge::LastSuccess => "proxy_last_success_timestamp",
        }
    }

    /// The value of the measure: times are whole seconds.
    pub open spec fn value_of(self, route: Route) -> nat {
        match self {
            Gauge::State => if route.state == RouteState::Healthy {
                1
            } else {
                0
            },
            Gauge::LastCheck => route.last_check as nat / 1_000_000_000,
            Gauge::LastSuccess => route.last_success as nat / 1_000_000_000,
        }
    }

    /// The line of the measure; a time that is not known has none.
    pub open spec fn line_of(self, id: Seq<char>, route: Route) -> Seq<char> {
        if self == Gauge::State || self.value_of(route) != 0 {
            self.word()
                + "{otel_scope_name=\"proxyhealth\",otel_scope_schema_url=\"\",otel_scope_version=\"\",proxy_id=\""@
                + id + "\"} "@ + text::decimal_of(self.value_of(route)) + "\n"@
        } else {
            Seq::empty()
        }
    }

    /// The lines of the measure for the first proxies.
    pub open spec fn lines_of(
        self,
        routes: Seq<Route>,
        keys: Seq<Seq<char>>,
        map: Map<Seq<char>, int>,
        count: int,
    ) -> Seq<char>
        decreases count,
    {
        if count <= 0 {
            if keys.len() == 0 {
                Seq::empty()
            } else {
                "# TYPE "@ + self.word() + " gauge\n"@
            }
        } else {
            self.lines_of(routes, keys, map, count - 1) + self.line_of(
                keys[count - 1],
                routes[map[keys[count - 1]]],
            )
        }
    }

    fn lines(self, routes: &Vec<Route>, lasts: &Table<usize>) -> (result: String)
        requires
            forall|id: Seq<char>| #[trigger]
                lasts@.dom().contains(id) ==> lasts@[id] < routes@.len(),
        ensures
            result@ == self.lines_of(
                routes@,
                lasts.keys(),
                places(lasts@),
                lasts.keys().len() as int,
            ),
    {
        let total: usize = lasts.len();
        let ghost keys = lasts.keys();
        let ghost map = places(lasts@);
        let mut result = if total == 0 {
            String::new()
        } else {
            text::cat3("# TYPE ", self.text(), " gauge\n")
        };
        assert(total == 0 ==> result@ =~= Seq::<char>::empty());
        let mut index: usize = 0;
        while index < total
            invariant
                index <= total,
                total == keys.len(),
                keys == lasts.keys(),
                map == places(lasts@),
                forall|i: int| 0 <= i < total ==> lasts@.dom().contains(#[trigger] keys[i]),
                forall|id: Seq<char>| #[trigger]
                    lasts@.dom().contains(id) ==> lasts@[id] < routes@.len(),
                result@ == self.lines_of(routes@, keys, map, index as int),
            decreases total - index,
        {
            let at: usize = *lasts.value(index);
            let id = lasts.key(index);
            assert(lasts@.dom().contains(keys[index as int]));
            assert(map[keys[index as int]] == at as int);
            let route = &routes[at];
            let value: u64 = match self {
                Gauge::State => match route.state {
                    RouteState::Healthy => 1,
                    _ => 0,
                },
                Gauge::LastCheck => route.last_check / 1_000_000_000,
                Gauge::LastSuccess => route.last_success / 1_000_000_000,
            };
            let shown = match self {
                Gauge::State => true,
                _ => value != 0,
            };
            let line = if shown {
                let front = text::cat(
                    self.text(),
                    "{otel_scope_name=\"proxyhealth\",otel_scope_schema_url=\"\",otel_scope_version=\"\",proxy_id=\"",
                );
                text::cat5(&front, id, "\"} ", &text::decimal(value), "\n")
            } else {
                String::new()
            };
            assert(!shown ==> line@ =~= Seq::<char>::empty());
            result = text::cat(&result, &line);
            index = index + 1;
        }
        result
    }
}

/// The lines of all measures of the ways through proxies.
pub open spec fn gauges_of(routes: Seq<Route>) -> Seq<char> {
    let map = last_through(routes);
    let keys = crate::table::ordered_keys(map.dom());
    let count = keys.len() as int;
    Gauge::State.lines_of(routes, keys, map, count) + Gauge::LastCheck.lines_of(
        routes,
        keys,
        map,
        count,
    ) + Gauge::LastSuccess.lines_of(routes, keys, map, count)
}

/// The lines of all measures of the ways through proxies.
pub fn gauges(routes: &Vec<Route>) -> (result: String)
    ensures
        result@ == gauges_of(routes@),
{
    let lasts = throughs(routes, false);
    let _ = lasts.len();
    proof {
        let keys = lasts.keys();
        let map = last_through(routes@);
        assert forall|id: Seq<char>| #[trigger] keys.contains(id) <==> map.dom().contains(id) by {
            assert(places(lasts@).dom().contains(id) == lasts@.dom().contains(id));
        }
        crate::table::lemma_ordered_keys(keys, map.dom());
    }
    text::cat3(
        &Gauge::State.lines(routes, &lasts),
        &Gauge::LastCheck.lines(routes, &lasts),
        &Gauge::LastSuccess.lines(routes, &lasts),
    )
}

/// A check makes its route healthy or not by its success, and is remembered as the last of ten; a failure keeps when
/// the last success was.
pub proof fn lemma_check_counts(before: Route, after: Route, check: Check)
    requires
        after.is_checked(before, check),
    ensures
        check.success ==> after.state == RouteState::Healthy && after.last_success == check.timestamp
            && after.failure@.len() == 0,
        !check.success ==> after.state == RouteState::Unhealthy && after.last_success == before.last_success,
        !check.success && check.error_phase@ == "tcp"@ ==> after.failure@ == "tcp_failed"@,
        !check.success && check.error_phase@ != "tcp"@ && check.tls_failure ==> after.failure@
            == "tls_failed"@,
        !check.success && check.error_phase@ != "tcp"@ && !check.tls_failure ==> after.failure@
            == "connect_failed"@,
        after.last_check == check.timestamp,
        after.history@.last() == check,
        before.history@.len() < 10 ==> after.history@ == before.history@.push(check),
        before.history@.len() == 10 ==> after.history@ == before.history@.push(check).drop_first(),
        after.through == before.through && after.target == before.target && after.kind == before.kind
            && after.name == before.name,
{
    reveal_strlit("");
}

/// A proxy is reached where it answers with a code of success; any other code is a bad status, and no answer a timeout
/// or a failed connection.
pub proof fn lemma_proxy_reached(line: String, code: Seq<char>)
    requires
        code_of(line@) == Some(code),
        code.len() > 0,
    ensures
        is_connected(Connected::Answered(line)) <==> code[0] == '2',
        connect_reason(Connected::Answered(line)) == "bad_status"@,
        answer_class(Connected::Answered(line)) == seq![code[0], 'x', 'x'],
        !is_connected(Connected::TimedOut),
        connect_reason(Connected::TimedOut) == "timeout"@,
        !is_connected(Connected::Failed),
        connect_reason(Connected::Failed) == "connect_error"@,
{
    reveal_strlit("2");
    reveal_strlit("xx");
    assert(answer_class(Connected::Answered(line)) =~= seq![code[0], 'x', 'x']);
    if code[0] == '2' {
        assert(code.subrange(0, 1) =~= "2"@);
    } else if "2"@.is_prefix_of(code) {
        assert(code[0] == "2"@[0]);
    }
}

/// A proxy is asked to connect to the target, with its credentials where it has some.
pub proof fn lemma_connect_asked(proxy: Parts, target: Seq<char>)
    ensures
        proxy.username.len() == 0 ==> connect_of(proxy, target) == "CONNECT "@ + target
            + " HTTP/1.1\r\nHost: "@ + target + "\r\n"@ + (Seq::<char>::empty() + "\r\n"@),
        proxy.username.len() > 0 && proxy.password is None ==> connect_of(proxy, target) == "CONNECT "@
            + target + " HTTP/1.1\r\nHost: "@ + target + "\r\n"@ + ("Proxy-Authorization: Basic "@
            + digest::base64_of(
            vstd::utf8::encode_utf8(
                pattern::percent_lossy(proxy.username) + ":"@ + pattern::percent_lossy(Seq::empty()),
            ),
        ) + "\r\n"@ + "\r\n"@),
        proxy.username.len() > 0 && proxy.password is Some ==> connect_of(proxy, target) == "CONNECT "@
            + target + " HTTP/1.1\r\nHost: "@ + target + "\r\n"@ + ("Proxy-Authorization: Basic "@
            + digest::base64_of(
            vstd::utf8::encode_utf8(
                pattern::percent_lossy(proxy.username) + ":"@ + pattern::percent_lossy(proxy.password->0),
            ),
        ) + "\r\n"@ + "\r\n"@),
{
}

/// What is told of a route: how it goes, and that it is unhealthy until its first check.
pub proof fn lemma_route_told(route: Route)
    ensures
        route.state == RouteState::Pending ==> route.health_doc().at("health_state"@) == Doc::Text(
            "unhealthy"@,
        ),
        route.state != RouteState::Pending ==> route.health_doc().at("health_state"@) == Doc::Text(
            route.state.word(),
        ),
        route.health_doc().at("route"@) == route.summary_doc(),
        route.through is None ==> route.summary_doc().at("route_mode"@) == Doc::Text("direct"@)
            && route.summary_doc().at("proxy_url"@) == Doc::Null,
        route.through matches Some(through) ==> route.summary_doc().at("route_mode"@) == Doc::Text(
            "proxy"@,
        ) && route.summary_doc().at("proxy_url"@) == Doc::Text(through.url@) && route.summary_doc().at(
            "proxy_id"@,
        ) == Doc::Text(through.id@) && route.summary_doc().at("proxy_source"@) == Doc::Text(
            through.source@,
        ),
        Gauge::State.value_of(route) == if route.state == RouteState::Healthy {
            1nat
        } else {
            0nat
        },
{
    reveal_strlit("health_state");
    reveal_strlit("last_check");
    reveal_strlit("last_success");
    reveal_strlit("history");
    reveal_strlit("route");
    reveal_strlit("route_mode");
    reveal_strlit("proxy_source");
    reveal_strlit("proxy_url");
    reveal_strlit("proxy_id");
    reveal_strlit("kind");
    reveal_strlit("name");
    reveal_strlit("target");
    assert("health_state"@.len() == 12 && "health_state"@[0] == 'h');
    assert("last_check"@.len() == 10 && "last_check"@[0] == 'l');
    assert("last_success"@.len() == 12 && "last_success"@[0] == 'l');
    assert("history"@.len() == 7);
    assert("route"@.len() == 5);
    assert("route_mode"@.len() == 10);
    assert("proxy_source"@.len() == 12);
    assert("proxy_url"@.len() == 9);
    assert("proxy_id"@.len() == 8);
    assert("kind"@.len() == 4);
    assert("name"@.len() == 4);
    assert("target"@.len() == 6);
}

/// A proxy with a user is told the user and the password; one without is told neither.
pub proof fn lemma_proxy_credentials(proxy: Parts, password: Seq<char>)
    ensures
        proxy.username.len() == 0 ==> authorization_of(proxy).len() == 0,
        proxy.username.len() > 0 ==> authorization_of(proxy) == "Proxy-Authorization: Basic "@
            + digest::base64_of(vstd::utf8::encode_utf8(credentials_of(proxy))) + "\r\n"@,
        proxy.password == Some(password) ==> credentials_of(proxy) == pattern::percent_lossy(proxy.username) + ":"@
            + pattern::percent_lossy(password),
{
}

/// Why a check failed: by its phase, and by whether the handshake did.
pub proof fn lemma_failures_named(check: Check)
    ensures
        check.success ==> check.failure_of() == ""@,
        !check.success && check.error_phase@ == "tcp"@ ==> check.failure_of() == "tcp_failed"@,
        !check.success && check.error_phase@ != "tcp"@ && check.tls_failure ==> check.failure_of()
            == "tls_failed"@,
        !check.success && check.error_phase@ != "tcp"@ && !check.tls_failure ==> check.failure_of()
            == "connect_failed"@,
{
}

/// What is told of a check.
pub proof fn lemma_check_told(check: Check)
    ensures
        ({
            let doc = check.document_of();
            &&& doc.at("success"@) == Doc::Bool(check.success)
            &&& check.tcp_duration_ms != 0 ==> doc.at("tcp_duration_ms"@) == Doc::number(
                check.tcp_duration_ms as nat,
            )
            &&& check.connect_duration_ms != 0 ==> doc.at("connect_duration_ms"@) == Doc::number(
                check.connect_duration_ms as nat,
            )
            &&& check.error_phase@.len() > 0 ==> doc.at("error_phase"@) == Doc::Text(check.error_phase@)
            &&& check.error_reason@.len() > 0 ==> doc.at("error_reason"@) == Doc::Text(check.error_reason@)
            &&& check.http_status_category@.len() > 0 ==> doc.at("http_status_category"@) == Doc::Text(
                check.http_status_category@,
            )
            &&& check.error_phase@.len() == 0 ==> doc.at("error_phase"@) == Doc::Null
        }),
{
    reveal_strlit("timestamp");
    reveal_strlit("success");
    reveal_strlit("tcp_duration_ms");
    reveal_strlit("connect_duration_ms");
    reveal_strlit("error_phase");
    reveal_strlit("error_reason");
    reveal_strlit("http_status_category");
    assert("timestamp"@.len() == 9);
    assert("success"@.len() == 7);
    assert("tcp_duration_ms"@.len() == 15);
    assert("connect_duration_ms"@.len() == 19);
    assert("error_phase"@.len() == 11);
    assert("error_reason"@.len() == 12);
    assert("http_status_category"@.len() == 20);
}

/// What is told of a way: direct, or through which proxy.
pub proof fn lemma_way_told(route: Route)
    ensures
        ({
            let doc = route.summary_doc();
            &&& doc.at("kind"@) == Doc::Text(route.kind@)
            &&& doc.at("name"@) == Doc::Text(route.name@)
            &&& route.through is None ==> doc.at("route_mode"@) == Doc::Text("direct"@) && doc.at("proxy_source"@)
                == Doc::Text("none"@) && doc.at("proxy_url"@) == Doc::Null
            &&& route.through matches Some(through) ==> doc.at("route_mode"@) == Doc::Text("proxy"@) && doc.at(
                "proxy_source"@,
            ) == Doc::Text(through.source@) && doc.at("proxy_url"@) == Doc::Text(through.url@) && doc.at(
                "proxy_id"@,
            ) == Doc::Text(through.id@)
        }),
        ({
            let doc = route.health_doc();
            &&& doc.at("route"@) == route.summary_doc()
            &&& route.state == RouteState::Pending ==> doc.at("health_state"@) == Doc::Text("unhealthy"@)
            &&& route.state != RouteState::Pending ==> doc.at("health_state"@) == Doc::Text(route.state.word())
            &&& route.history@.len() == 0 ==> doc.at("history"@) == Doc::Null
        }),
        route.through matches Some(through) ==> identity_doc(route).at("proxy_id"@) == Doc::Text(through.id@)
            && identity_doc(route).at("proxy_url"@) == Doc::Text(through.url@),
{
    reveal_strlit("kind");
    reveal_strlit("name");
    reveal_strlit("target");
    reveal_strlit("route_mode");
    reveal_strlit("proxy_source");
    reveal_strlit("proxy_url");
    reveal_strlit("proxy_id");
    assert("kind"@.len() == 4 && "kind"@[0] == 'k');
    assert("name"@.len() == 4 && "name"@[0] == 'n');
    assert("target"@.len() == 6);
    assert("route_mode"@.len() == 10);
    assert("proxy_source"@.len() == 12);
    assert("proxy_url"@.len() == 9);
    assert("proxy_id"@.len() == 8);
    reveal_strlit("route");
    reveal_strlit("health_state");
    reveal_strlit("last_check");
    reveal_strlit("last_success");
    reveal_strlit("history");
    assert("route"@.len() == 5);
    assert("health_state"@.len() == 12 && "health_state"@[0] == 'h');
    assert("last_check"@.len() == 10);
    assert("last_success"@.len() == 12 && "last_success"@[0] == 'l');
    assert("history"@.len() == 7);
}

/// The gauges of a proxy: whether it is well, and when it was last checked and last well.
pub proof fn lemma_gauges_told(route: Route, id: Seq<char>)
    ensures
        Gauge::State.word() == "proxy_health_state"@ && Gauge::LastCheck.word() == "proxy_last_check_timestamp"@
            && Gauge::LastSuccess.word() == "proxy_last_success_timestamp"@,
        route.state == RouteState::Healthy ==> Gauge::State.value_of(route) == 1,
        route.state != RouteState::Healthy ==> Gauge::State.value_of(route) == 0,
        Gauge::LastCheck.value_of(route) == route.last_check as nat / 1_000_000_000,
        Gauge::LastSuccess.value_of(route) == route.last_success as nat / 1_000_000_000,
        route.last_check < 1_000_000_000 ==> Gauge::LastCheck.line_of(id, route).len() == 0,
        Gauge::State.line_of(id, route) == "proxy_health_state"@
            + "{otel_scope_name=\"proxyhealth\",otel_scope_schema_url=\"\",otel_scope_version=\"\",proxy_id=\""@
            + id + "\"} "@ + text::decimal_of(Gauge::State.value_of(route)) + "\n"@,
{
}

/// A proxy is told of by the first way through it, and measured by the last.
pub proof fn lemma_proxies_found(routes: Seq<Route>, at: int)
    requires
        0 <= at < routes.len(),
        routes[at].through is Some,
    ensures
        ({
            let id = routes[at].through->0.id@;
            &&& first_through(routes).dom().contains(id) && first_through(routes)[id] <= at
            &&& last_through(routes).dom().contains(id) && last_through(routes)[id] >= at
        }),
    decreases routes.len(),
{
    let front = routes.drop_last();
    if at < front.len() {
        assert(front[at] == routes[at]);
        lemma_proxies_found(front, at);
        let id = routes[at].through->0.id@;
        assert(first_through(front).dom().contains(id));
        assert(last_through(front).dom().contains(id));
    } else {
        let id = routes[at].through->0.id@;
        lemma_first_within(front);
        assert(first_through(front).dom().contains(id) ==> first_through(front)[id] < front.len());
    }
}

proof fn lemma_first_within(routes: Seq<Route>)
    ensures
        forall|id: Seq<char>| #[trigger]
            first_through(routes).dom().contains(id) ==> 0 <= first_through(routes)[id] < routes.len(),
    decreases routes.len(),
{
    if routes.len() > 0 {
        let rest = first_through(routes.drop_last());
        lemma_first_within(routes.drop_last());
        assert forall|id: Seq<char>| #[trigger] first_through(routes).dom().contains(id) implies 0
            <= first_through(routes)[id] < routes.len() by {
            assert(rest.dom().contains(id) ==> 0 <= rest[id] < routes.len() - 1);
        }
    }
}

/// A check measures the phases that took time, and counts a failure by its phase and its reason.
pub proof fn lemma_check_measured(map: Map<Seq<char>, SeriesView>, id: Seq<char>, check: Check)
    ensures
        check.success && check.tcp_duration_ms == 0 && check.connect_duration_ms == 0 ==> measured(map, id, check)
            == map,
        check.success && check.tcp_duration_ms > 0 && check.connect_duration_ms == 0 ==> measured(map, id, check)
            == phase_measured(map, id, "tcp"@, check.tcp_duration_ms),
        check.success && check.tcp_duration_ms == 0 && check.connect_duration_ms > 0 ==> measured(map, id, check)
            == phase_measured(map, id, "connect"@, check.connect_duration_ms),
        micros_of(7) == 7000,
{
}

} // verus!
