//! What is told of the health of a runtime.

use vstd::prelude::*;
use crate::config::settings::Config;
use crate::control::observation::{Upload, UploadView};
use crate::health::moment::{
    dated, dates, put_time, ratio, ratio_doc, seconds, seconds_doc, with_time,
};
use crate::json::{self, Doc, Json};
use crate::metrics::{count, counted};
use crate::proxy_health::{Route, RouteState};
use crate::runtime::{elapsed, elapsed_of, Lifecycle, Phase, Snapshot, Startup};
use crate::text;

verus! {

/// A part of a runtime, and how it is.
pub open spec fn component_doc(
    status: Seq<char>,
    state: Seq<char>,
    reason: Seq<char>,
    observed: u64,
    details: Doc,
) -> Doc {
    with_time(
        Doc::object().with("status"@, Doc::Text(status)).with("state"@, Doc::Text(state)).with(
            "limited"@,
            Doc::Bool(false),
        ).with("details"@, details).with_if(
            reason.len() > 0,
            "reason_code"@,
            Doc::Text(reason),
        ),
        "observed_at"@,
        observed,
    )
}

fn component(status: &str, state: &str, reason: &str, observed: u64, details: Json) -> (result: Json)
    ensures
        result.doc() == component_doc(status@, state@, reason@, observed, details.doc()),
{
    put_time(
        Json::object().with("status", Json::text(status)).with("state", Json::text(state)).with(
            "limited",
            Json::Bool(false),
        ).with("details", details).with_if(!reason.is_empty(), "reason_code", Json::text(reason)),
        "observed_at",
        observed,
    )
}

/// The later of two times.
pub open spec fn later_of(left: u64, right: u64) -> u64 {
    if left >= right {
        left
    } else {
        right
    }
}

fn later(left: u64, right: u64) -> (result: u64)
    ensures
        result == later_of(left, right),
{
    if left >= right {
        left
    } else {
        right
    }
}

/// A number that may be too large, as far as it can be told.
pub open spec fn bounded_of(value: u128) -> u64 {
    if value > u64::MAX {
        u64::MAX
    } else {
        value as u64
    }
}

fn bounded(value: u128) -> (result: u64)
    ensures
        result == bounded_of(value),
{
    if value > 0xffff_ffff_ffff_ffff {
        u64::MAX
    } else {
        value as u64
    }
}

/// A way in what is told of proxies.
pub open spec fn way_doc(route: Route, index: int) -> Doc {
    with_time(
        with_time(
            Doc::object().with(
                "label"@,
                Doc::Text("route-"@ + text::decimal_of((index + 1) as nat)),
            ).with("kind"@, Doc::Text(route.kind@)).with(
                "state"@,
                Doc::Text(route.state.word()),
            ).with_if(
                route.failure@.len() > 0,
                "failure_category"@,
                Doc::Text(route.failure@),
            ),
            "last_check"@,
            route.last_check,
        ),
        "last_success"@,
        route.last_success,
    )
}

fn way(route: &Route, index: usize) -> (result: Json)
    requires
        index < 16,
    ensures
        result.doc() == way_doc(*route, index as int),
{
    put_time(
        put_time(
            Json::object().with(
                "label",
                Json::text(&text::cat("route-", &text::decimal((index + 1) as u64))),
            ).with("kind", Json::text(&route.kind)).with(
                "state",
                Json::text(route.state.text()),
            ).with_if(
                !route.failure.is_empty(),
                "failure_category",
                Json::text(&route.failure),
            ),
            "last_check",
            route.last_check,
        ),
        "last_success",
        route.last_success,
    )
}

/// The first ways in what is told of proxies.
pub open spec fn way_docs(routes: Seq<Route>, count: int) -> Seq<Doc>
    decreases count,
{
    if count <= 0 {
        Seq::empty()
    } else {
        way_docs(routes, count - 1).push(way_doc(routes[count - 1], count - 1))
    }
}

/// Whether some way is in a state.
pub open spec fn some_in(routes: Seq<Route>, state: RouteState) -> bool {
    exists|i: int| 0 <= i < routes.len() && (#[trigger] routes[i]).state == state
}

/// Whether some way leads through a proxy.
pub open spec fn some_proxied(routes: Seq<Route>) -> bool {
    exists|i: int| 0 <= i < routes.len() && (#[trigger] routes[i]).state != RouteState::Direct
}

/// How the proxies are: one fails, one is not checked yet, all are fine, or there are none.
pub open spec fn proxies_of(routes: Seq<Route>) -> (Seq<char>, Seq<char>, Seq<char>) {
    if some_in(routes, RouteState::Unhealthy) {
        ("degraded"@, "unhealthy"@, "route_check_failed"@)
    } else if some_in(routes, RouteState::Pending) {
        ("unknown"@, "pending"@, ""@)
    } else if some_proxied(routes) {
        ("ok"@, "healthy"@, ""@)
    } else {
        ("disabled"@, "direct"@, ""@)
    }
}

/// What is told of the proxies.
pub open spec fn proxy_doc(routes: Seq<Route>, observed: u64) -> Doc {
    let (status, state, reason) = proxies_of(routes);
    component_doc(
        status,
        state,
        reason,
        observed,
        Doc::object().with("route_count"@, Doc::number(routes.len())).with(
            "routes"@,
            Doc::List(
                way_docs(
                    routes,
                    if routes.len() <= 16 {
                        routes.len() as int
                    } else {
                        16
                    },
                ),
            ),
        ),
    ).with("limited"@, Doc::Bool(routes.len() > 16))
}

/// What is told of the proxies.
pub fn proxy(routes: &Vec<Route>, observed: u64) -> (result: Json)
    ensures
        result.doc() == proxy_doc(routes@, observed),
{
    let mut unhealthy = false;
    let mut pending = false;
    let mut proxied = false;
    let mut index: usize = 0;
    while index < routes.len()
        invariant
            index <= routes.len(),
            unhealthy == exists|i: int|
                0 <= i < index && (#[trigger] routes@[i]).state == RouteState::Unhealthy,
            pending == exists|i: int|
                0 <= i < index && (#[trigger] routes@[i]).state == RouteState::Pending,
            proxied == exists|i: int|
                0 <= i < index && (#[trigger] routes@[i]).state != RouteState::Direct,
        decreases routes.len() - index,
    {
        let ghost before = routes@[index as int];
        match routes[index].state {
            RouteState::Unhealthy => {
                unhealthy = true;
                proxied = true;
            },
            RouteState::Pending => {
                pending = true;
                proxied = true;
            },
            RouteState::Healthy => {
                proxied = true;
            },
            RouteState::Direct => {},
        }
        assert(routes@[index as int] == before);
        index = index + 1;
    }
    let mut items: Vec<Json> = Vec::new();
    let mut next: usize = 0;
    while next < routes.len() && next < 16
        invariant
            next <= routes.len(),
            next <= 16,
            json::docs(items@) == way_docs(routes@, next as int),
        decreases routes.len() - next,
    {
        let item = way(&routes[next], next);
        proof {
            json::lemma_docs_push(items@, item);
        }
        items.push(item);
        next = next + 1;
    }
    let details = Json::object().with("route_count", Json::number(routes.len() as u64)).with(
        "routes",
        Json::List(items),
    );
    let (status, state, reason) = if unhealthy {
        ("degraded", "unhealthy", "route_check_failed")
    } else if pending {
        ("unknown", "pending", "")
    } else if proxied {
        ("ok", "healthy", "")
    } else {
        ("disabled", "direct", "")
    };
    component(status, state, reason, observed, details).with(
        "limited",
        Json::Bool(routes.len() > 16),
    )
}

/// All that the health of a runtime is told from.
pub struct Monitor {
    pub config: Config,
    pub snapshot: Snapshot,
    pub upload: Upload,
    /// How many targets can be called.
    pub targets: usize,
    pub instance: String,
    pub address: String,
    /// What is told of certificates.
    pub trust: Json,
    /// What the service tells of the tunnel.
    pub metadata: Option<Json>,
}

impl Monitor {
    /// Whether the queue is full.
    pub open spec fn is_pressed(self) -> bool {
        self.snapshot.activity.pressure_started > 0
    }

    /// What the polling of the service is doing.
    pub open spec fn poll_state(self) -> Seq<char> {
        if self.snapshot.lifecycle == Lifecycle::Draining {
            "stopped"@
        } else if self.is_pressed() {
            "backpressured"@
        } else {
            self.snapshot.control@.poll_state
        }
    }

    /// What is told of the polling of the service.
    pub open spec fn control_details(self, now: u64) -> Doc {
        let polling = self.snapshot.control@;
        let times = with_time(
            with_time(
                with_time(
                    with_time(Doc::object(), "last_attempt"@, polling.last_attempt),
                    "last_success"@,
                    polling.last_success,
                ),
                "last_error"@,
                polling.last_error,
            ),
            "next_retry"@,
            polling.next_retry,
        );
        times.with(
            "consecutive_failures"@,
            Doc::number(polling.consecutive_failures as nat),
        ).with(
            "current_poll_age_seconds"@,
            seconds_doc(
                if self.poll_state() == "polling"@ {
                    elapsed_of(polling.last_attempt, now)
                } else {
                    0
                },
            ),
        ).with(
            "configured_wait_seconds"@,
            seconds_doc(self.config.control_plane.poll_timeout.0),
        ).with("effective_wait_seconds"@, seconds_doc(polling.effective_wait)).with(
            "deadline_seconds"@,
            seconds_doc(bounded_of(polling.deadline)),
        ).with_if(
            polling.failure_category.len() > 0,
            "failure_category"@,
            Doc::Text(polling.failure_category),
        ).with_if(
            polling.consecutive_failures > 0 && polling.http_status != 0,
            "http_status"@,
            Doc::number(polling.http_status as nat),
        )
    }

    /// How the polling of the service is.
    pub open spec fn control_doc(self, now: u64) -> Doc {
        let polling = self.snapshot.control@;
        component_doc(
            if polling.consecutive_failures > 0 {
                "degraded"@
            } else if polling.last_success > 0 {
                "ok"@
            } else {
                "unknown"@
            },
            self.poll_state(),
            polling.failure_category,
            later_of(later_of(polling.last_attempt, polling.last_success), polling.last_error),
            self.control_details(now),
        )
    }

    /// How the polling of the service is.
    pub fn control(&self, now: u64) -> (result: Json)
        ensures
            result.doc() == self.control_doc(now),
    {
        let polling = &self.snapshot.control;
        let state = match self.snapshot.lifecycle {
            Lifecycle::Draining => "stopped".to_owned(),
            _ => if self.snapshot.activity.pressure_started > 0 {
                "backpressured".to_owned()
            } else {
                polling.poll_state.clone()
            },
        };
        let age: u64 = if text::same(&state, "polling") {
            elapsed(polling.last_attempt, now)
        } else {
            0
        };
        let times = put_time(
            put_time(
                put_time(
                    put_time(Json::object(), "last_attempt", polling.last_attempt),
                    "last_success",
                    polling.last_success,
                ),
                "last_error",
                polling.last_error,
            ),
            "next_retry",
            polling.next_retry,
        );
        let details = times.with(
            "consecutive_failures",
            Json::number(polling.consecutive_failures),
        ).with("current_poll_age_seconds", seconds(age)).with(
            "configured_wait_seconds",
            seconds(self.config.control_plane.poll_timeout.0),
        ).with("effective_wait_seconds", seconds(polling.effective_wait)).with(
            "deadline_seconds",
            seconds(bounded(polling.deadline)),
        ).with_if(
            !polling.failure_category.is_empty(),
            "failure_category",
            Json::text(&polling.failure_category),
        ).with_if(
            polling.consecutive_failures > 0 && polling.http_status != 0,
            "http_status",
            Json::number(polling.http_status as u64),
        );
        let status = if polling.consecutive_failures > 0 {
            "degraded"
        } else if polling.last_success > 0 {
            "ok"
        } else {
            "unknown"
        };
        component(
            status,
            &state,
            &polling.failure_category,
            later(later(polling.last_attempt, polling.last_success), polling.last_error),
            details,
        )
    }

    /// What is told of the delivery of answers.
    pub open spec fn delivery_details(upload: UploadView) -> Doc {
        let times = with_time(
            with_time(
                with_time(
                    Doc::object().with("in_progress"@, Doc::number(upload.in_progress as nat)),
                    "last_accepted"@,
                    upload.last_accepted,
                ),
                "last_completed"@,
                upload.last_completed,
            ),
            "last_failure"@,
            upload.last_failure,
        );
        times.with("disposition"@, Doc::Text(upload.disposition)).with_if(
            upload.failure_category.len() > 0,
            "failure_category"@,
            Doc::Text(upload.failure_category),
        ).with_if(
            upload.http_status != 0,
            "http_status"@,
            Doc::number(upload.http_status as nat),
        ).with("attempts"@, Doc::number(upload.attempts as nat)).with(
            "retries"@,
            Doc::number(upload.retries as nat),
        ).with("accepted"@, Doc::number(upload.accepted as nat)).with(
            "completed"@,
            Doc::number(upload.completed as nat),
        ).with("terminal_failures"@, Doc::number(upload.terminal_failures as nat))
    }

    /// How the delivery of answers is.
    pub open spec fn delivery_doc(self) -> Doc {
        let upload = self.upload@;
        component_doc(
            if upload.disposition == "failed"@ || (upload.failure_category != ""@
                && upload.failure_category != "canceled"@) {
                "degraded"@
            } else if upload.completed > 0 {
                "ok"@
            } else {
                "unknown"@
            },
            if upload.in_progress > 0 {
                "uploading"@
            } else {
                upload.disposition
            },
            upload.failure_category,
            later_of(upload.last_completed, upload.last_failure),
            Self::delivery_details(upload),
        )
    }

    /// How the delivery of answers is.
    pub fn delivery(&self) -> (result: Json)
        ensures
            result.doc() == self.delivery_doc(),
    {
        let upload = &self.upload;
        let times = put_time(
            put_time(
                put_time(
                    Json::object().with("in_progress", Json::number(upload.in_progress)),
                    "last_accepted",
                    upload.last_accepted,
                ),
                "last_completed",
                upload.last_completed,
            ),
            "last_failure",
            upload.last_failure,
        );
        let details = times.with("disposition", Json::text(&upload.disposition)).with_if(
            !upload.failure_category.is_empty(),
            "failure_category",
            Json::text(&upload.failure_category),
        ).with_if(
            upload.http_status != 0,
            "http_status",
            Json::number(upload.http_status as u64),
        ).with("attempts", Json::number(upload.attempts)).with(
            "retries",
            Json::number(upload.retries),
        ).with("accepted", Json::number(upload.accepted)).with(
            "completed",
            Json::number(upload.completed),
        ).with("terminal_failures", Json::number(upload.terminal_failures));
        let status = if text::same(&upload.disposition, "failed") || (!text::same(
            &upload.failure_category,
            "",
        ) && !text::same(&upload.failure_category, "canceled")) {
            "degraded"
        } else if upload.completed > 0 {
            "ok"
        } else {
            "unknown"
        };
        let state: &str = if upload.in_progress > 0 {
            "uploading"
        } else {
            &upload.disposition
        };
        component(
            status,
            state,
            &upload.failure_category,
            later(upload.last_completed, upload.last_failure),
            details,
        )
    }

    /// How the queue is.
    pub open spec fn queue_doc(self, now: u64) -> Doc {
        let activity = self.snapshot.activity;
        let capacity = self.config.control_plane.max_inflight_requests;
        let times = with_time(
            with_time(Doc::object(), "last_enqueue"@, activity.last_enqueue),
            "last_dequeue"@,
            activity.last_dequeue,
        );
        component_doc(
            "ok"@,
            if self.is_pressed() {
                "backpressured"@
            } else {
                "available"@
            },
            ""@,
            later_of(activity.last_enqueue, activity.last_dequeue),
            times.with("depth"@, Doc::number(activity.queued as nat)).with(
                "capacity"@,
                Doc::number(capacity as nat),
            ).with("utilization"@, ratio_doc(activity.queued, capacity)).with(
                "enqueued"@,
                Doc::number(activity.enqueued as nat),
            ).with("dequeued"@, Doc::number(activity.dequeued as nat)).with(
                "backpressure_seconds"@,
                seconds_doc(
                    counted(
                        activity.pressure,
                        if self.is_pressed() {
                            elapsed_of(activity.pressure_started, now)
                        } else {
                            0
                        },
                    ),
                ),
            ),
        )
    }

    /// How the queue is.
    pub fn queue(&self, now: u64) -> (result: Json)
        ensures
            result.doc() == self.queue_doc(now),
    {
        let activity = &self.snapshot.activity;
        let capacity: usize = self.config.control_plane.max_inflight_requests;
        let pressed = activity.pressure_started > 0;
        let waited: u64 = if pressed {
            elapsed(activity.pressure_started, now)
        } else {
            0
        };
        let times = put_time(
            put_time(Json::object(), "last_enqueue", activity.last_enqueue),
            "last_dequeue",
            activity.last_dequeue,
        );
        let details = times.with("depth", Json::number(activity.queued as u64)).with(
            "capacity",
            Json::number(capacity as u64),
        ).with("utilization", ratio(activity.queued, capacity)).with(
            "enqueued",
            Json::number(activity.enqueued),
        ).with("dequeued", Json::number(activity.dequeued)).with(
            "backpressure_seconds",
            seconds(count(activity.pressure, waited)),
        );
        let state = if pressed {
            "backpressured"
        } else {
            "available"
        };
        component("ok", state, "", later(activity.last_enqueue, activity.last_dequeue), details)
    }

    /// How the work on requests is, with the age of the oldest one.
    pub open spec fn dispatcher_doc(self, oldest: u64, active: nat) -> Doc {
        let snapshot = self.snapshot;
        let activity = snapshot.activity;
        let running = snapshot.lifecycle == Lifecycle::Running;
        let times = with_time(
            with_time(Doc::object(), "last_start"@, activity.last_start),
            "last_completion"@,
            activity.last_completion,
        );
        let failures = counted(snapshot.failed, snapshot.expired);
        component_doc(
            if activity.last_failed {
                "degraded"@
            } else {
                "ok"@
            },
            if running {
                "accepting"@
            } else {
                snapshot.lifecycle.word()
            },
            ""@,
            later_of(activity.last_start, activity.last_completion),
            times.with("active"@, Doc::number(active)).with(
                "pool_limit"@,
                Doc::number(self.config.mcp.max_concurrent_requests as nat),
            ).with("oldest_active_age_seconds"@, seconds_doc(oldest)).with(
                "completed"@,
                Doc::number(counted(snapshot.completed, failures) as nat),
            ).with("failures"@, Doc::number(failures as nat)).with(
                "timeouts"@,
                Doc::number(snapshot.expired as nat),
            ).with("accepting"@, Doc::Bool(running)),
        )
    }

    /// How the work on requests is.
    pub fn dispatcher(&self, now: u64) -> (result: Json)
        ensures
            exists|oldest: u64| #[trigger]
                self.is_age(oldest, now) && result.doc() == self.dispatcher_doc(
                    oldest,
                    self.snapshot.activity.active.keys().len(),
                ),
    {
        let snapshot = &self.snapshot;
        let activity = &snapshot.activity;
        let oldest: u64 = activity.oldest_age(now);
        assert(self.is_age(oldest, now));
        let running = matches!(snapshot.lifecycle, Lifecycle::Running);
        let failures: u64 = count(snapshot.failed, snapshot.expired);
        let times = put_time(
            put_time(Json::object(), "last_start", activity.last_start),
            "last_completion",
            activity.last_completion,
        );
        let details = times.with("active", Json::number(activity.active.len() as u64)).with(
            "pool_limit",
            Json::number(self.config.mcp.max_concurrent_requests as u64),
        ).with("oldest_active_age_seconds", seconds(oldest)).with(
            "completed",
            Json::number(count(snapshot.completed, failures)),
        ).with("failures", Json::number(failures)).with(
            "timeouts",
            Json::number(snapshot.expired),
        ).with("accepting", Json::Bool(running));
        let status = if activity.last_failed {
            "degraded"
        } else {
            "ok"
        };
        let state = if running {
            "accepting"
        } else {
            snapshot.lifecycle.text()
        };
        component(
            status,
            state,
            "",
            later(activity.last_start, activity.last_completion),
            details,
        )
    }

    /// Whether this is how long the oldest request has been worked on.
    pub open spec fn is_age(self, age: u64, now: u64) -> bool {
        let activity = self.snapshot.activity;
        &&& activity.active@.dom() == Set::<Seq<char>>::empty() ==> age == 0
        &&& activity.active@.dom() != Set::<Seq<char>>::empty() ==> exists|start: u64| #[trigger]
            activity.is_oldest(start) && age == elapsed_of(start, now)
    }

    /// Whether the main channel leads to a server.
    pub open spec fn serves_http(self) -> bool {
        let config = self.config@;
        exists|i: int|
            0 <= i < config.mcp.server_urls.len() && (
            #[trigger] config.mcp.server_urls[i]).channel == "main"@ && config.polls("main"@)
    }

    /// Whether the main channel leads to a command.
    pub open spec fn serves_stdio(self) -> bool {
        let config = self.config@;
        exists|i: int|
            0 <= i < config.mcp.commands.len() && (#[trigger] config.mcp.commands[i]).channel
                == "main"@ && config.polls("main"@)
    }

    fn http(&self) -> (result: bool)
        ensures
            result == self.serves_http(),
    {
        let servers = &self.config.mcp.server_urls;
        let polled = self.config.enabled("main");
        let mut index: usize = 0;
        while index < servers.len()
            invariant
                index <= servers.len(),
                *servers == self.config.mcp.server_urls,
                polled == self.config@.polls("main"@),
                forall|i: int|
                    0 <= i < index ==> !((
                    #[trigger] self.config@.mcp.server_urls[i]).channel == "main"@ && polled),
            decreases servers.len() - index,
        {
            assert(self.config@.mcp.server_urls[index as int] == servers@[index as int]@);
            if polled && text::same(&servers[index].channel, "main") {
                return true;
            }
            index = index + 1;
        }
        false
    }

    fn stdio(&self) -> (result: bool)
        ensures
            result == self.serves_stdio(),
    {
        let commands = &self.config.mcp.commands;
        let polled = self.config.enabled("main");
        let mut index: usize = 0;
        while index < commands.len()
            invariant
                index <= commands.len(),
                *commands == self.config.mcp.commands,
                polled == self.config@.polls("main"@),
                forall|i: int|
                    0 <= i < index ==> !((#[trigger] self.config@.mcp.commands[i]).channel
                        == "main"@ && polled),
            decreases commands.len() - index,
        {
            assert(self.config@.mcp.commands[index as int] == commands@[index as int]@);
            if polled && text::same(&commands[index].channel, "main") {
                return true;
            }
            index = index + 1;
        }
        false
    }
}

/// What is told of a server before anything is known of it.
pub open spec fn unseen_doc(http: bool, stdio: bool) -> Doc {
    component_doc(
        if http || stdio {
            "unknown"@
        } else {
            "disabled"@
        },
        if http || stdio {
            "not_observed"@
        } else {
            "disabled"@
        },
        if http {
            "same_child_evidence_unavailable"@
        } else {
            ""@
        },
        0,
        Doc::object().with("channel"@, Doc::Text("main"@)).with(
            "transport"@,
            Doc::Text(
                if http {
                    "http-streamable"@
                } else if stdio {
                    "stdio"@
                } else {
                    ""@
                },
            ),
        ).with("initialize_epoch"@, Doc::number(0)).with(
            "evidence"@,
            Doc::Text(
                if http {
                    "unsupported_transport"@
                } else if stdio {
                    "same_child"@
                } else {
                    "not_configured"@
                },
            ),
        ).with(
            "initialize"@,
            Doc::object().with("ok"@, Doc::Bool(false)).with(
                "identity_complete"@,
                Doc::Bool(false),
            ).with("limited"@, Doc::Bool(false)).with(
                "capability_names"@,
                json::texts(Seq::empty()),
            ),
        ).with(
            "tools_list"@,
            Doc::object().with("ok"@, Doc::Bool(false)).with(
                "tool_names"@,
                json::texts(Seq::empty()),
            ).with("retained_count"@, Doc::number(0)).with("complete"@, Doc::Bool(false)).with(
                "partial"@,
                Doc::Bool(false),
            ).with("limited"@, Doc::Bool(false)),
        ),
    )
}

fn no_texts() -> (result: Json)
    ensures
        result.doc() == json::texts(Seq::empty()),
{
    let empty: Vec<String> = Vec::new();
    assert(text::views(empty@) =~= Seq::<Seq<char>>::empty());
    Json::texts(&empty)
}

fn unseen(http: bool, stdio: bool) -> (result: Json)
    ensures
        result.doc() == unseen_doc(http, stdio),
{
    let transport = if http {
        "http-streamable"
    } else if stdio {
        "stdio"
    } else {
        ""
    };
    let evidence = if http {
        "unsupported_transport"
    } else if stdio {
        "same_child"
    } else {
        "not_configured"
    };
    let initialize = Json::object().with("ok", Json::Bool(false)).with(
        "identity_complete",
        Json::Bool(false),
    ).with("limited", Json::Bool(false)).with("capability_names", no_texts());
    let tools = Json::object().with("ok", Json::Bool(false)).with("tool_names", no_texts()).with(
        "retained_count",
        Json::number(0),
    ).with("complete", Json::Bool(false)).with("partial", Json::Bool(false)).with(
        "limited",
        Json::Bool(false),
    );
    let details = Json::object().with("channel", Json::text("main")).with(
        "transport",
        Json::text(transport),
    ).with("initialize_epoch", Json::number(0)).with("evidence", Json::text(evidence)).with(
        "initialize",
        initialize,
    ).with("tools_list", tools);
    let status = if http || stdio {
        "unknown"
    } else {
        "disabled"
    };
    let state = if http || stdio {
        "not_observed"
    } else {
        "disabled"
    };
    let reason = if http {
        "same_child_evidence_unavailable"
    } else {
        ""
    };
    component(status, state, reason, 0, details)
}

/// How the attempt to reach the server is told of.
pub open spec fn probe_word(state: Phase) -> Seq<char> {
    match state {
        Phase::Succeeded => "succeeded"@,
        Phase::AuthRequired => "auth_required"@,
        Phase::Timeout => "timed_out"@,
        Phase::StartupTimeout => "timed_out"@,
        Phase::Failed => "failed"@,
        _ => "pending"@,
    }
}

/// When something ended, or zero.
pub open spec fn observed_of(startup: Startup) -> u64 {
    match startup.observed_at {
        Some(nanos) => nanos,
        None => 0,
    }
}

fn observed(startup: &Startup) -> (result: u64)
    ensures
        result == observed_of(*startup),
{
    match startup.observed_at {
        Some(nanos) => nanos,
        None => 0,
    }
}

impl Monitor {
    /// What is told of the attempt to reach the server.
    pub open spec fn probe_doc(self) -> Doc {
        let probe = self.snapshot.mcp_probe;
        with_time(
            Doc::object().with("state"@, Doc::Text(probe_word(probe.state))),
            "observed_at"@,
            observed_of(probe),
        )
    }

    fn probe(&self) -> (result: Json)
        ensures
            result.doc() == self.probe_doc(),
    {
        let probe = &self.snapshot.mcp_probe;
        let word = match probe.state {
            Phase::Succeeded => "succeeded",
            Phase::AuthRequired => "auth_required",
            Phase::Timeout => "timed_out",
            Phase::StartupTimeout => "timed_out",
            Phase::Failed => "failed",
            _ => "pending",
        };
        put_time(
            Json::object().with("state", Json::text(word)),
            "observed_at",
            observed(probe),
        )
    }

    /// What is known of the server itself.
    pub open spec fn evidence_doc(self) -> Doc {
        let evidence = self.snapshot.evidence@;
        if evidence.dom().contains("main"@) {
            dated(evidence["main"@])
        } else {
            unseen_doc(self.serves_http(), self.serves_stdio())
        }
    }

    /// How the server is.
    pub open spec fn mcp_doc(self) -> Doc {
        let base = self.evidence_doc();
        if self.serves_http() {
            base.with(
                "details"@,
                base.at("details"@).with("startup_probe"@, self.probe_doc()),
            )
        } else {
            base
        }
    }

    /// How the server is.
    pub fn mcp(&self) -> (result: Json)
        ensures
            result.doc() == self.mcp_doc(),
    {
        let http = self.http();
        let base = match self.snapshot.evidence.get("main") {
            Some(evidence) => dates(evidence),
            None => unseen(http, self.stdio()),
        };
        if !http {
            return base;
        }
        let details = match base.get("details") {
            Some(details) => json::copy(details),
            None => Json::Null,
        };
        base.with("details", details.with("startup_probe", self.probe()))
    }

    /// How the search for OAuth metadata is.
    pub open spec fn oauth_doc(self) -> Doc {
        let oauth = self.snapshot.oauth;
        component_doc(
            match oauth.state {
                Phase::Disabled => "disabled"@,
                Phase::Pending => "unknown"@,
                Phase::Failed => "degraded"@,
                _ => "ok"@,
            },
            oauth.state.word(),
            match oauth.state {
                Phase::NotAdvertised => "metadata_not_advertised"@,
                Phase::Failed => "discovery_failed"@,
                _ => ""@,
            },
            observed_of(oauth),
            Doc::object().with(
                "discovery_complete"@,
                Doc::Bool(oauth.state != Phase::Pending && oauth.state != Phase::Disabled),
            ),
        )
    }

    /// How the search for OAuth metadata is.
    pub fn oauth(&self) -> (result: Json)
        ensures
            result.doc() == self.oauth_doc(),
    {
        let oauth = &self.snapshot.oauth;
        let (status, reason, complete) = match oauth.state {
            Phase::Disabled => ("disabled", "", false),
            Phase::Pending => ("unknown", "", false),
            Phase::Failed => ("degraded", "discovery_failed", true),
            Phase::NotAdvertised => ("ok", "metadata_not_advertised", true),
            _ => ("ok", "", true),
        };
        component(
            status,
            oauth.state.text(),
            reason,
            observed(oauth),
            Json::object().with("discovery_complete", Json::Bool(complete)),
        )
    }

    /// How the targets are: they are known once the search for OAuth metadata is over.
    pub open spec fn harpoon_doc(self) -> Doc {
        let oauth = self.snapshot.oauth;
        let (status, state, reason) = match oauth.state {
            Phase::Pending => ("unknown"@, "pending"@, ""@),
            Phase::Failed => ("degraded"@, "failed"@, "catalog_failed"@),
            _ => ("ok"@, "settled"@, ""@),
        };
        component_doc(
            status,
            state,
            reason,
            observed_of(oauth),
            Doc::object().with("target_count"@, Doc::number(self.targets as nat)).with(
                "catalog_state"@,
                Doc::Text(state),
            ),
        )
    }

    /// How the targets are.
    pub fn harpoon(&self) -> (result: Json)
        ensures
            result.doc() == self.harpoon_doc(),
    {
        let oauth = &self.snapshot.oauth;
        let (status, state, reason) = match oauth.state {
            Phase::Pending => ("unknown", "pending", ""),
            Phase::Failed => ("degraded", "failed", "catalog_failed"),
            _ => ("ok", "settled", ""),
        };
        component(
            status,
            state,
            reason,
            observed(oauth),
            Json::object().with("target_count", Json::number(self.targets as u64)).with(
                "catalog_state",
                Json::text(state),
            ),
        )
    }

    /// How the companion is.
    pub open spec fn cloudflared_doc(self) -> Doc {
        let snapshot = self.snapshot;
        let (status, state, reason) = match snapshot.cloudflare_ready {
            None => ("disabled"@, "disabled"@, ""@),
            Some(true) => ("ok"@, "ready"@, ""@),
            Some(false) => if snapshot.cloudflare_observed_at == 0 {
                ("unknown"@, "pending"@, ""@)
            } else {
                ("degraded"@, "not_ready"@, "companion_not_ready"@)
            },
        };
        component_doc(
            status,
            state,
            reason,
            snapshot.cloudflare_observed_at,
            Doc::object().with("enabled"@, Doc::Bool(snapshot.cloudflare_ready is Some)).with(
                "ready"@,
                Doc::Bool(snapshot.cloudflare_ready == Some(true)),
            ),
        )
    }

    /// How the companion is.
    pub fn cloudflared(&self) -> (result: Json)
        ensures
            result.doc() == self.cloudflared_doc(),
    {
        let snapshot = &self.snapshot;
        let (status, state, reason) = match snapshot.cloudflare_ready {
            None => ("disabled", "disabled", ""),
            Some(true) => ("ok", "ready", ""),
            Some(false) => if snapshot.cloudflare_observed_at == 0 {
                ("unknown", "pending", "")
            } else {
                ("degraded", "not_ready", "companion_not_ready")
            },
        };
        let ready = match snapshot.cloudflare_ready {
            Some(ready) => ready,
            None => false,
        };
        component(
            status,
            state,
            reason,
            snapshot.cloudflare_observed_at,
            Json::object().with("enabled", Json::Bool(snapshot.cloudflare_ready.is_some())).with(
                "ready",
                Json::Bool(ready),
            ),
        )
    }
}

/// A certificate of a bundle.
pub struct Certificate {
    pub bytes: Vec<u8>,
    /// Why it is not trusted, if so.
    pub error: Option<String>,
}

/// What is told of a certificate.
pub open spec fn certificate_doc(certificate: Certificate, path: Seq<char>) -> Doc {
    Doc::object().with(
        "cert_id"@,
        Doc::Text(crate::digest::hex_of(crate::digest::sha256_of(certificate.bytes@))),
    ).with("source"@, Doc::Text(path)).with(
        "parse_status"@,
        Doc::Text(
            match certificate.error {
                Some(error) => error@,
                None => "ok"@,
            },
        ),
    )
}

/// What is told of the first certificates.
pub open spec fn certificate_docs(items: Seq<Certificate>, path: Seq<char>, count: int) -> Seq<Doc>
    decreases count,
{
    if count <= 0 {
        Seq::empty()
    } else {
        certificate_docs(items, path, count - 1).push(certificate_doc(items[count - 1], path))
    }
}

/// How many of the first certificates are not trusted.
pub open spec fn error_count(items: Seq<Certificate>, count: int) -> nat
    decreases count,
{
    if count <= 0 {
        0
    } else {
        error_count(items, count - 1) + if items[count - 1].error is Some {
            1nat
        } else {
            0
        }
    }
}

/// What is told of what is trusted.
pub open spec fn trust_doc(system: bool, bundle: Option<(Seq<char>, Seq<Certificate>)>) -> Doc {
    let base = Doc::object().with(
        "system_trust"@,
        Doc::object().with("enabled"@, Doc::Bool(system)).with(
            "source"@,
            Doc::Text("system cert pool"@),
        ),
    );
    match bundle {
        None => base,
        Some((path, items)) => {
            let errors = error_count(items, items.len() as int);
            base.with(
                "extra_bundle"@,
                Doc::object().with("path"@, Doc::Text(path)).with(
                    "cert_count"@,
                    Doc::number((items.len() - errors) as nat),
                ).with("parse_errors"@, Doc::number(errors)).with(
                    "certificates"@,
                    Doc::List(certificate_docs(items, path, items.len() as int)),
                ),
            )
        },
    }
}

/// The bundle that is trusted, where there is one.
pub open spec fn bundle_view(bundle: Option<(String, Vec<Certificate>)>) -> Option<
    (Seq<char>, Seq<Certificate>),
> {
    match bundle {
        Some((path, items)) => Some((path@, items@)),
        None => None,
    }
}

/// What is told of what is trusted.
pub fn trust(system: bool, bundle: &Option<(String, Vec<Certificate>)>) -> (result: Json)
    ensures
        result.doc() == trust_doc(system, bundle_view(*bundle)),
{
    let base = Json::object().with(
        "system_trust",
        Json::object().with("enabled", Json::Bool(system)).with(
            "source",
            Json::text("system cert pool"),
        ),
    );
    let (path, items) = match bundle {
        None => {
            return base;
        },
        Some((path, items)) => (path, items),
    };
    let mut shown: Vec<Json> = Vec::new();
    let mut errors: usize = 0;
    let mut index: usize = 0;
    while index < items.len()
        invariant
            index <= items.len(),
            errors <= index,
            errors == error_count(items@, index as int),
            json::docs(shown@) == certificate_docs(items@, path@, index as int),
        decreases items.len() - index,
    {
        let item = &items[index];
        let status = match &item.error {
            Some(error) => error.clone(),
            None => "ok".to_owned(),
        };
        let told = Json::object().with(
            "cert_id",
            Json::text(&crate::digest::hex(&crate::digest::sha256(&item.bytes))),
        ).with("source", Json::text(path)).with("parse_status", Json::text(&status));
        proof {
            json::lemma_docs_push(shown@, told);
        }
        shown.push(told);
        if item.error.is_some() {
            errors = errors + 1;
        }
        index = index + 1;
    }
    let good: usize = items.len() - errors;
    base.with(
        "extra_bundle",
        Json::object().with("path", Json::text(path)).with(
            "cert_count",
            Json::number(good as u64),
        ).with("parse_errors", Json::number(errors as u64)).with(
            "certificates",
            Json::List(shown),
        ),
    )
}

/// The ways are degraded where one failed its check, unknown where one waits for its first, healthy where some lead
/// through proxies, and else direct.
pub proof fn lemma_ways_judged(routes: Seq<Route>, at: int)
    ensures
        0 <= at < routes.len() && routes[at].state == RouteState::Unhealthy ==> proxies_of(routes) == (
            "degraded"@,
            "unhealthy"@,
            "route_check_failed"@,
        ),
        (forall|i: int| 0 <= i < routes.len() ==> (#[trigger] routes[i]).state == RouteState::Direct)
            ==> proxies_of(routes) == ("disabled"@, "direct"@, ""@),
        (forall|i: int|
            0 <= i < routes.len() ==> (#[trigger] routes[i]).state == RouteState::Healthy || routes[i].state
                == RouteState::Direct) && 0 <= at < routes.len() && routes[at].state == RouteState::Healthy
            ==> proxies_of(routes) == ("ok"@, "healthy"@, ""@),
        (forall|i: int| 0 <= i < routes.len() ==> (#[trigger] routes[i]).state != RouteState::Unhealthy) && 0
            <= at < routes.len() && routes[at].state == RouteState::Pending ==> proxies_of(routes) == (
            "unknown"@,
            "pending"@,
            ""@,
        ),
{
    if 0 <= at < routes.len() {
        assert(routes[at].state == RouteState::Unhealthy ==> some_in(routes, RouteState::Unhealthy));
        assert(routes[at].state == RouteState::Pending ==> some_in(routes, RouteState::Pending));
        assert(routes[at].state == RouteState::Healthy ==> some_proxied(routes));
    }
}

/// A component tells its status, its state, its reason where there is one, and its details.
pub proof fn lemma_component_told(status: Seq<char>, state: Seq<char>, reason: Seq<char>, observed: u64, details: Doc)
    ensures
        component_doc(status, state, reason, observed, details).at("status"@) == Doc::Text(status),
        component_doc(status, state, reason, observed, details).at("state"@) == Doc::Text(state),
        component_doc(status, state, reason, observed, details).at("details"@) == details,
        component_doc(status, state, reason, observed, details).at("limited"@) == Doc::Bool(false),
        reason.len() > 0 ==> component_doc(status, state, reason, observed, details).at("reason_code"@)
            == Doc::Text(reason),
        reason.len() == 0 ==> component_doc(status, state, reason, observed, details).at("reason_code"@)
            == Doc::Null,
{
    reveal_strlit("status");
    reveal_strlit("state");
    reveal_strlit("limited");
    reveal_strlit("details");
    reveal_strlit("reason_code");
    reveal_strlit("observed_at");
    assert("status"@.len() == 6);
    assert("state"@.len() == 5);
    assert("limited"@.len() == 7 && "limited"@[0] == 'l');
    assert("details"@.len() == 7 && "details"@[0] == 'd');
    assert("reason_code"@.len() == 11 && "reason_code"@[0] == 'r');
    assert("observed_at"@.len() == 11 && "observed_at"@[0] == 'o');
}

/// How each component is judged: the polls by their failures, the answers by the last one, the authorization and the
/// companion by what is known of them.
pub proof fn lemma_components_judged(monitor: Monitor, now: u64)
    ensures
        monitor.snapshot.control@.consecutive_failures > 0 ==> monitor.control_doc(now).at("status"@)
            == Doc::Text("degraded"@),
        monitor.snapshot.control@.consecutive_failures == 0 && monitor.snapshot.control@.last_success > 0
            ==> monitor.control_doc(now).at("status"@) == Doc::Text("ok"@),
        monitor.snapshot.lifecycle == Lifecycle::Draining ==> monitor.control_doc(now).at("state"@)
            == Doc::Text("stopped"@),
        monitor.upload@.disposition == "failed"@ ==> monitor.delivery_doc().at("status"@) == Doc::Text(
            "degraded"@,
        ),
        monitor.upload@.in_progress > 0 ==> monitor.delivery_doc().at("state"@) == Doc::Text("uploading"@),
        monitor.snapshot.activity.pressure_started > 0 ==> monitor.queue_doc(now).at("state"@) == Doc::Text(
            "backpressured"@,
        ),
        monitor.snapshot.activity.pressure_started == 0 ==> monitor.queue_doc(now).at("state"@) == Doc::Text(
            "available"@,
        ),
        monitor.snapshot.activity.last_failed ==> monitor.dispatcher_doc(0, 0).at("status"@) == Doc::Text(
            "degraded"@,
        ),
        monitor.snapshot.lifecycle == Lifecycle::Running ==> monitor.dispatcher_doc(0, 0).at("state"@)
            == Doc::Text("accepting"@),
        monitor.snapshot.oauth.state == Phase::Failed ==> monitor.oauth_doc().at("status"@) == Doc::Text(
            "degraded"@,
        ) && monitor.harpoon_doc().at("status"@) == Doc::Text("degraded"@),
        monitor.snapshot.oauth.state == Phase::Pending ==> monitor.oauth_doc().at("status"@) == Doc::Text(
            "unknown"@,
        ),
        monitor.snapshot.oauth.state == Phase::Complete ==> monitor.oauth_doc().at("status"@) == Doc::Text(
            "ok"@,
        ) && monitor.harpoon_doc().at("state"@) == Doc::Text("settled"@),
        monitor.snapshot.cloudflare_ready == Some(true) ==> monitor.cloudflared_doc().at("status"@)
            == Doc::Text("ok"@),
        monitor.snapshot.cloudflare_ready is None ==> monitor.cloudflared_doc().at("status"@) == Doc::Text(
            "disabled"@,
        ),
        monitor.snapshot.cloudflare_ready == Some(false) && monitor.snapshot.cloudflare_observed_at > 0
            ==> monitor.cloudflared_doc().at("status"@) == Doc::Text("degraded"@),
        probe_word(Phase::Succeeded) == "succeeded"@ && probe_word(Phase::AuthRequired) == "auth_required"@
            && probe_word(Phase::Timeout) == "timed_out"@ && probe_word(Phase::Failed) == "failed"@
            && probe_word(Phase::Pending) == "pending"@,
{
    reveal_strlit("status");
    reveal_strlit("state");
    reveal_strlit("limited");
    reveal_strlit("details");
    reveal_strlit("reason_code");
    reveal_strlit("observed_at");
    assert("status"@.len() == 6);
    assert("state"@.len() == 5);
    assert("limited"@.len() == 7 && "limited"@[0] == 'l');
    assert("details"@.len() == 7 && "details"@[0] == 'd');
    assert("reason_code"@.len() == 11 && "reason_code"@[0] == 'r');
    assert("observed_at"@.len() == 11 && "observed_at"@[0] == 'o');
}

/// Of the certificates those are counted that can be read.
pub proof fn lemma_certificates_counted(items: Seq<Certificate>, count: int)
    requires
        0 <= count <= items.len(),
    ensures
        error_count(items, count) <= count,
        (forall|i: int| 0 <= i < count ==> (#[trigger] items[i]).error is None) ==> error_count(items, count)
            == 0,
        (forall|i: int| 0 <= i < count ==> (#[trigger] items[i]).error is Some) ==> error_count(items, count)
            == count,
    decreases count,
{
    if count > 0 {
        lemma_certificates_counted(items, count - 1);
        assert(items[count - 1] == items[count - 1]);
    }
}

/// What is told of a way, of which the first sixteen are.
pub proof fn lemma_ways_told(routes: Seq<Route>, count: int, at: int)
    requires
        0 <= count <= routes.len(),
    ensures
        way_docs(routes, count).len() == count,
        0 <= at < count ==> way_docs(routes, count)[at].at("kind"@) == Doc::Text(routes[at].kind@) && way_docs(
            routes,
            count,
        )[at].at("state"@) == Doc::Text(routes[at].state.word()) && way_docs(routes, count)[at].at("label"@)
            == Doc::Text("route-"@ + text::decimal_of((at + 1) as nat)),
        proxy_doc(routes, 0).at("limited"@) == Doc::Bool(routes.len() > 16),
        proxy_doc(routes, 0).at("details"@).at("route_count"@) == Doc::number(routes.len()),
    decreases count,
{
    reveal_strlit("label");
    reveal_strlit("kind");
    reveal_strlit("state");
    reveal_strlit("failure_category");
    reveal_strlit("last_check");
    reveal_strlit("last_success");
    assert("label"@.len() == 5 && "label"@[0] == 'l');
    assert("kind"@.len() == 4);
    assert("state"@.len() == 5 && "state"@[0] == 's');
    assert("failure_category"@.len() == 16);
    assert("last_check"@.len() == 10);
    assert("last_success"@.len() == 12);
    reveal_strlit("status");
    reveal_strlit("limited");
    reveal_strlit("details");
    reveal_strlit("reason_code");
    reveal_strlit("observed_at");
    reveal_strlit("route_count");
    reveal_strlit("routes");
    assert("status"@.len() == 6 && "status"@[0] == 's');
    assert("limited"@.len() == 7 && "limited"@[0] == 'l');
    assert("details"@.len() == 7 && "details"@[0] == 'd');
    assert("reason_code"@.len() == 11 && "reason_code"@[0] == 'r' && "reason_code"@[1] == 'e');
    assert("observed_at"@.len() == 11 && "observed_at"@[0] == 'o');
    assert("route_count"@.len() == 11 && "route_count"@[1] == 'o' && "route_count"@[0] == 'r');
    assert("routes"@.len() == 6 && "routes"@[0] == 'r');
    if count > 0 {
        lemma_ways_told(routes, count - 1, at);
    }
}

/// What is told of the answers: how many, how often again, and how the last one went.
pub proof fn lemma_deliveries_told(upload: UploadView)
    ensures
        ({
            let doc = Monitor::delivery_details(upload);
            &&& doc.at("in_progress"@) == Doc::number(upload.in_progress as nat)
            &&& doc.at("disposition"@) == Doc::Text(upload.disposition)
            &&& doc.at("attempts"@) == Doc::number(upload.attempts as nat)
            &&& doc.at("retries"@) == Doc::number(upload.retries as nat)
            &&& doc.at("accepted"@) == Doc::number(upload.accepted as nat)
            &&& doc.at("completed"@) == Doc::number(upload.completed as nat)
            &&& doc.at("terminal_failures"@) == Doc::number(upload.terminal_failures as nat)
            &&& upload.http_status != 0 ==> doc.at("http_status"@) == Doc::number(upload.http_status as nat)
            &&& upload.failure_category.len() > 0 ==> doc.at("failure_category"@) == Doc::Text(
                upload.failure_category,
            )
        }),
{
    reveal_strlit("in_progress");
    reveal_strlit("last_accepted");
    reveal_strlit("last_completed");
    reveal_strlit("last_failure");
    reveal_strlit("disposition");
    reveal_strlit("failure_category");
    reveal_strlit("http_status");
    reveal_strlit("attempts");
    reveal_strlit("retries");
    reveal_strlit("accepted");
    reveal_strlit("completed");
    reveal_strlit("terminal_failures");
    assert("in_progress"@.len() == 11 && "in_progress"@[0] == 'i');
    assert("last_accepted"@.len() == 13);
    assert("last_completed"@.len() == 14);
    assert("last_failure"@.len() == 12);
    assert("disposition"@.len() == 11 && "disposition"@[0] == 'd');
    assert("failure_category"@.len() == 16);
    assert("http_status"@.len() == 11 && "http_status"@[0] == 'h');
    assert("attempts"@.len() == 8 && "attempts"@[1] == 't');
    assert("retries"@.len() == 7);
    assert("accepted"@.len() == 8 && "accepted"@[1] == 'c');
    assert("completed"@.len() == 9);
    assert("terminal_failures"@.len() == 17);
}

/// What is told of the polls, of the queue and of the requests that run.
pub proof fn lemma_work_told(monitor: Monitor, oldest: u64, active: nat, now: u64)
    ensures
        monitor.control_details(now).at("consecutive_failures"@) == Doc::number(
            monitor.snapshot.control@.consecutive_failures as nat,
        ),
        monitor.control_details(now).at("configured_wait_seconds"@) == seconds_doc(
            monitor.config.control_plane.poll_timeout.0,
        ),
        monitor.control_details(now).at("effective_wait_seconds"@) == seconds_doc(
            monitor.snapshot.control@.effective_wait,
        ),
        monitor.queue_doc(now).at("details"@).at("depth"@) == Doc::number(
            monitor.snapshot.activity.queued as nat,
        ),
        monitor.queue_doc(now).at("details"@).at("capacity"@) == Doc::number(
            monitor.config.control_plane.max_inflight_requests as nat,
        ),
        monitor.queue_doc(now).at("details"@).at("enqueued"@) == Doc::number(
            monitor.snapshot.activity.enqueued as nat,
        ),
        monitor.queue_doc(now).at("details"@).at("dequeued"@) == Doc::number(
            monitor.snapshot.activity.dequeued as nat,
        ),
        monitor.dispatcher_doc(oldest, active).at("details"@).at("active"@) == Doc::number(active),
        monitor.dispatcher_doc(oldest, active).at("details"@).at("pool_limit"@) == Doc::number(
            monitor.config.mcp.max_concurrent_requests as nat,
        ),
        monitor.dispatcher_doc(oldest, active).at("details"@).at("timeouts"@) == Doc::number(
            monitor.snapshot.expired as nat,
        ),
        monitor.snapshot.failed + monitor.snapshot.expired <= u64::MAX ==> monitor.dispatcher_doc(
            oldest,
            active,
        ).at("details"@).at("failures"@) == Doc::number(
            (monitor.snapshot.failed + monitor.snapshot.expired) as nat,
        ),
        monitor.dispatcher_doc(oldest, active).at("details"@).at("accepting"@) == Doc::Bool(
            monitor.snapshot.lifecycle == Lifecycle::Running,
        ),
        later_of(3, 5) == 5 && later_of(5, 3) == 5,
{
    reveal_strlit("status");
    reveal_strlit("state");
    reveal_strlit("limited");
    reveal_strlit("details");
    reveal_strlit("reason_code");
    reveal_strlit("observed_at");
    assert("status"@.len() == 6);
    assert("state"@.len() == 5);
    assert("limited"@.len() == 7 && "limited"@[0] == 'l');
    assert("details"@.len() == 7 && "details"@[0] == 'd');
    assert("reason_code"@.len() == 11 && "reason_code"@[0] == 'r');
    assert("observed_at"@.len() == 11 && "observed_at"@[0] == 'o');
    reveal_strlit("last_attempt");
    reveal_strlit("last_success");
    reveal_strlit("last_error");
    reveal_strlit("next_retry");
    reveal_strlit("consecutive_failures");
    reveal_strlit("current_poll_age_seconds");
    reveal_strlit("configured_wait_seconds");
    reveal_strlit("effective_wait_seconds");
    reveal_strlit("deadline_seconds");
    reveal_strlit("failure_category");
    reveal_strlit("http_status");
    assert("last_attempt"@.len() == 12 && "last_attempt"@[5] == 'a');
    assert("last_success"@.len() == 12 && "last_success"@[5] == 's');
    assert("last_error"@.len() == 10 && "last_error"@[0] == 'l');
    assert("next_retry"@.len() == 10 && "next_retry"@[0] == 'n');
    assert("consecutive_failures"@.len() == 20);
    assert("current_poll_age_seconds"@.len() == 24);
    assert("configured_wait_seconds"@.len() == 23);
    assert("effective_wait_seconds"@.len() == 22);
    assert("deadline_seconds"@.len() == 16 && "deadline_seconds"@[0] == 'd');
    assert("failure_category"@.len() == 16 && "failure_category"@[0] == 'f');
    assert("http_status"@.len() == 11);
    reveal_strlit("last_enqueue");
    reveal_strlit("last_dequeue");
    reveal_strlit("depth");
    reveal_strlit("capacity");
    reveal_strlit("utilization");
    reveal_strlit("enqueued");
    reveal_strlit("dequeued");
    reveal_strlit("backpressure_seconds");
    assert("last_enqueue"@.len() == 12 && "last_enqueue"@[5] == 'e');
    assert("last_dequeue"@.len() == 12 && "last_dequeue"@[5] == 'd');
    assert("depth"@.len() == 5);
    assert("capacity"@.len() == 8 && "capacity"@[0] == 'c');
    assert("utilization"@.len() == 11);
    assert("enqueued"@.len() == 8 && "enqueued"@[0] == 'e');
    assert("dequeued"@.len() == 8 && "dequeued"@[0] == 'd');
    assert("backpressure_seconds"@.len() == 20);
    reveal_strlit("last_start");
    reveal_strlit("last_completion");
    reveal_strlit("active");
    reveal_strlit("pool_limit");
    reveal_strlit("oldest_active_age_seconds");
    reveal_strlit("completed");
    reveal_strlit("failures");
    reveal_strlit("timeouts");
    reveal_strlit("accepting");
    assert("last_start"@.len() == 10 && "last_start"@[0] == 'l');
    assert("last_completion"@.len() == 15);
    assert("active"@.len() == 6);
    assert("pool_limit"@.len() == 10 && "pool_limit"@[0] == 'p');
    assert("oldest_active_age_seconds"@.len() == 25);
    assert("completed"@.len() == 9 && "completed"@[0] == 'c');
    assert("failures"@.len() == 8 && "failures"@[0] == 'f');
    assert("timeouts"@.len() == 8 && "timeouts"@[0] == 't');
    assert("accepting"@.len() == 9 && "accepting"@[0] == 'a');
}

/// What is told of a server that has not answered yet.
pub proof fn lemma_unseen_told(stdio: bool)
    ensures
        unseen_doc(true, stdio).at("status"@) == Doc::Text("unknown"@),
        unseen_doc(false, true).at("status"@) == Doc::Text("unknown"@),
        unseen_doc(false, false).at("status"@) == Doc::Text("disabled"@),
        unseen_doc(true, stdio).at("reason_code"@) == Doc::Text("same_child_evidence_unavailable"@),
        unseen_doc(true, stdio).at("details"@).at("transport"@) == Doc::Text("http-streamable"@),
        unseen_doc(false, true).at("details"@).at("transport"@) == Doc::Text("stdio"@),
        unseen_doc(true, stdio).at("details"@).at("evidence"@) == Doc::Text("unsupported_transport"@),
        unseen_doc(false, true).at("details"@).at("evidence"@) == Doc::Text("same_child"@),
        unseen_doc(false, false).at("details"@).at("evidence"@) == Doc::Text("not_configured"@),
        unseen_doc(false, true).at("details"@).at("initialize"@).at("ok"@) == Doc::Bool(false),
{
    reveal_strlit("same_child_evidence_unavailable");
    reveal_strlit("status");
    reveal_strlit("state");
    reveal_strlit("limited");
    reveal_strlit("details");
    reveal_strlit("reason_code");
    reveal_strlit("observed_at");
    reveal_strlit("channel");
    reveal_strlit("transport");
    reveal_strlit("initialize_epoch");
    reveal_strlit("evidence");
    reveal_strlit("initialize");
    reveal_strlit("tools_list");
    reveal_strlit("ok");
    reveal_strlit("identity_complete");
    reveal_strlit("capability_names");
    assert("status"@.len() == 6);
    assert("state"@.len() == 5);
    assert("limited"@.len() == 7 && "limited"@[0] == 'l');
    assert("details"@.len() == 7 && "details"@[0] == 'd');
    assert("reason_code"@.len() == 11 && "reason_code"@[0] == 'r');
    assert("observed_at"@.len() == 11 && "observed_at"@[0] == 'o');
    assert("channel"@.len() == 7 && "channel"@[0] == 'c');
    assert("transport"@.len() == 9);
    assert("initialize_epoch"@.len() == 16 && "initialize_epoch"@[0] == 'i');
    assert("evidence"@.len() == 8);
    assert("initialize"@.len() == 10 && "initialize"@[0] == 'i');
    assert("tools_list"@.len() == 10 && "tools_list"@[0] == 't');
    assert("ok"@.len() == 2);
    assert("identity_complete"@.len() == 17);
    assert("capability_names"@.len() == 16 && "capability_names"@[0] == 'c');
}

/// What is told of the certificates that are trusted besides those of the system.
pub proof fn lemma_trust_told(system: bool, path: Seq<char>, items: Seq<Certificate>, at: int)
    ensures
        trust_doc(system, None).at("system_trust"@).at("enabled"@) == Doc::Bool(system),
        trust_doc(system, None).at("extra_bundle"@) == Doc::Null,
        ({
            let doc = trust_doc(system, Some((path, items))).at("extra_bundle"@);
            let errors = error_count(items, items.len() as int);
            &&& doc.at("path"@) == Doc::Text(path)
            &&& doc.at("parse_errors"@) == Doc::number(errors)
            &&& doc.at("cert_count"@) == Doc::number((items.len() - errors) as nat)
            &&& doc.at("certificates"@) == Doc::List(certificate_docs(items, path, items.len() as int))
        }),
        0 <= at < items.len() && items[at].error is None ==> certificate_doc(items[at], path).at("parse_status"@)
            == Doc::Text("ok"@),
        0 <= at < items.len() ==> certificate_doc(items[at], path).at("source"@) == Doc::Text(path),
{
    reveal_strlit("system_trust");
    reveal_strlit("enabled");
    reveal_strlit("source");
    reveal_strlit("extra_bundle");
    reveal_strlit("path");
    reveal_strlit("cert_count");
    reveal_strlit("parse_errors");
    reveal_strlit("certificates");
    reveal_strlit("cert_id");
    reveal_strlit("parse_status");
    assert("system_trust"@.len() == 12 && "system_trust"@[0] == 's');
    assert("enabled"@.len() == 7 && "enabled"@[0] == 'e');
    assert("source"@.len() == 6);
    assert("extra_bundle"@.len() == 12 && "extra_bundle"@[0] == 'e');
    assert("path"@.len() == 4);
    assert("cert_count"@.len() == 10);
    assert("parse_errors"@.len() == 12 && "parse_errors"@[0] == 'p' && "parse_errors"@[6] == 'e');
    assert("certificates"@.len() == 12 && "certificates"@[0] == 'c');
    assert("cert_id"@.len() == 7 && "cert_id"@[0] == 'c');
    assert("parse_status"@.len() == 12 && "parse_status"@[0] == 'p' && "parse_status"@[6] == 's');
}

/// The states of the components, and why they are in them.
pub proof fn lemma_states_told(monitor: Monitor)
    ensures
        monitor.snapshot.cloudflare_ready == Some(true) ==> monitor.cloudflared_doc().at("state"@) == Doc::Text(
            "ready"@,
        ) && monitor.cloudflared_doc().at("details"@).at("ready"@) == Doc::Bool(true),
        monitor.snapshot.cloudflare_ready is None ==> monitor.cloudflared_doc().at("state"@) == Doc::Text(
            "disabled"@,
        ) && monitor.cloudflared_doc().at("details"@).at("enabled"@) == Doc::Bool(false),
        monitor.snapshot.cloudflare_ready == Some(false) && monitor.snapshot.cloudflare_observed_at > 0
            ==> monitor.cloudflared_doc().at("state"@) == Doc::Text("not_ready"@)
            && monitor.cloudflared_doc().at("reason_code"@) == Doc::Text("companion_not_ready"@),
        monitor.snapshot.cloudflare_ready == Some(false) && monitor.snapshot.cloudflare_observed_at == 0
            ==> monitor.cloudflared_doc().at("state"@) == Doc::Text("pending"@),
        monitor.snapshot.oauth.state == Phase::Failed ==> monitor.oauth_doc().at("reason_code"@) == Doc::Text(
            "discovery_failed"@,
        ) && monitor.harpoon_doc().at("reason_code"@) == Doc::Text("catalog_failed"@)
            && monitor.harpoon_doc().at("state"@) == Doc::Text("failed"@),
        monitor.snapshot.oauth.state == Phase::NotAdvertised ==> monitor.oauth_doc().at("reason_code"@)
            == Doc::Text("metadata_not_advertised"@),
        monitor.snapshot.oauth.state == Phase::Pending ==> monitor.oauth_doc().at("details"@).at(
            "discovery_complete"@,
        ) == Doc::Bool(false) && monitor.harpoon_doc().at("state"@) == Doc::Text("pending"@),
        monitor.snapshot.oauth.state == Phase::Complete ==> monitor.oauth_doc().at("details"@).at(
            "discovery_complete"@,
        ) == Doc::Bool(true),
        monitor.harpoon_doc().at("details"@).at("target_count"@) == Doc::number(monitor.targets as nat),
{
    reveal_strlit("");
    reveal_strlit("companion_not_ready");
    reveal_strlit("discovery_failed");
    reveal_strlit("catalog_failed");
    reveal_strlit("metadata_not_advertised");
    reveal_strlit("status");
    reveal_strlit("state");
    reveal_strlit("limited");
    reveal_strlit("details");
    reveal_strlit("reason_code");
    reveal_strlit("observed_at");
    reveal_strlit("enabled");
    reveal_strlit("ready");
    reveal_strlit("target_count");
    reveal_strlit("catalog_state");
    assert("status"@.len() == 6);
    assert("state"@.len() == 5 && "state"@[0] == 's');
    assert("limited"@.len() == 7 && "limited"@[0] == 'l');
    assert("details"@.len() == 7 && "details"@[0] == 'd');
    assert("reason_code"@.len() == 11 && "reason_code"@[0] == 'r');
    assert("observed_at"@.len() == 11 && "observed_at"@[0] == 'o');
    assert("enabled"@.len() == 7 && "enabled"@[0] == 'e');
    assert("ready"@.len() == 5 && "ready"@[0] == 'r');
    assert("target_count"@.len() == 12);
    assert("catalog_state"@.len() == 13);
}

} // verus!
