//! A running tunnel: what it does next, and what is known of it.

use vstd::prelude::*;
use crate::config::duration::Span;
use crate::config::settings::{Config, ConfigView};
use crate::control::poll::{Observation, ObservationView};
use crate::diagnostic::Probe;
use crate::json::Json;
use crate::metrics::{count, counted};
use crate::table::Table;
use crate::{proxy_health, text};

pub mod command;
pub mod diagnosis;
pub mod dispatch;
pub mod startup;

verus! {

/// How far something is that happens once after the start.
#[derive(Clone, Copy, PartialEq, Eq, Structural)]
pub enum Phase {
    Disabled,
    Pending,
    Succeeded,
    AuthRequired,
    Timeout,
    StartupTimeout,
    Failed,
    Complete,
    NotAdvertised,
}

impl Phase {
    /// The phase in words.
    pub open spec fn word(self) -> Seq<char> {
        match self {
            Phase::Disabled => "disabled"@,
            Phase::Pending => "pending"@,
            Phase::Succeeded => "ok"@,
            Phase::AuthRequired => "auth-required"@,
            Phase::Timeout => "timeout"@,
            Phase::StartupTimeout => "startup-timeout"@,
            Phase::Failed => "failed"@,
            Phase::Complete => "complete"@,
            Phase::NotAdvertised => "not_advertised"@,
        }
    }

    /// The phase in words.
    pub fn text(self) -> (result: &'static str)
        ensures
            result@ == self.word(),
    {
        match self {
            Phase::Disabled => "disabled",
            Phase::Pending => "pending",
            Phase::Succeeded => "ok",
            Phase::AuthRequired => "auth-required",
            Phase::Timeout => "timeout",
            Phase::StartupTimeout => "startup-timeout",
            Phase::Failed => "failed",
            Phase::Complete => "complete",
            Phase::NotAdvertised => "not_advertised",
        }
    }
}

/// What is known of something that happens once after the start.
#[derive(Clone)]
pub struct Startup {
    pub state: Phase,
    /// When it ended, in nanoseconds of the clock.
    pub observed_at: Option<u64>,
    pub error: Option<String>,
}

impl Startup {
    /// Nothing happens.
    pub fn disabled() -> (result: Startup)
        ensures
            result.state == Phase::Disabled,
            result.observed_at is None,
            result.error is None,
    {
        Startup { state: Phase::Disabled, observed_at: None, error: None }
    }

    /// It is going to happen.
    pub fn pending() -> (result: Startup)
        ensures
            result.state == Phase::Pending,
            result.observed_at is None,
            result.error is None,
    {
        Startup { state: Phase::Pending, observed_at: None, error: None }
    }

    /// It happened.
    pub fn settled(state: Phase, error: Option<String>, now: u64) -> (result: Startup)
        ensures
            result.state == state,
            result.observed_at == Some(now),
            text::view_of(result.error) == text::view_of(error),
    {
        Startup { state, observed_at: Some(now), error }
    }

    /// The error, or nothing.
    pub open spec fn message(self) -> Seq<char> {
        match self.error {
            Some(error) => error@,
            None => Seq::empty(),
        }
    }

    fn error_text(&self) -> (result: String)
        ensures
            result@ == self.message(),
    {
        match &self.error {
            Some(error) => error.clone(),
            None => {
                let empty = String::new();
                assert(empty@ =~= Seq::<char>::empty());
                empty
            },
        }
    }
}

/// The life of a runtime.
#[derive(Clone, Copy, PartialEq, Eq, Structural)]
pub enum Lifecycle {
    Starting,
    Running,
    Draining,
}

impl Lifecycle {
    /// The life in words.
    pub open spec fn word(self) -> Seq<char> {
        match self {
            Lifecycle::Starting => "starting"@,
            Lifecycle::Running => "running"@,
            Lifecycle::Draining => "draining"@,
        }
    }

    /// The life in words.
    pub fn text(self) -> (result: &'static str)
        ensures
            result@ == self.word(),
    {
        match self {
            Lifecycle::Starting => "starting",
            Lifecycle::Running => "running",
            Lifecycle::Draining => "draining",
        }
    }
}

/// How a request ended.
#[derive(Clone, Copy, PartialEq, Eq, Structural)]
pub enum Ended {
    Completed,
    Expired,
    Failed,
}

/// What is going on with requests. Times are nanoseconds of the clock, and none where they are zero.
pub struct Activity {
    pub queued: usize,
    /// When the requests in work started, by their names.
    pub active: Table<u64>,
    pub enqueued: u64,
    pub dequeued: u64,
    pub last_enqueue: u64,
    pub last_dequeue: u64,
    pub last_start: u64,
    pub last_completion: u64,
    pub pressure_started: u64,
    /// For how many nanoseconds the queue was full.
    pub pressure: u64,
    pub last_failed: bool,
}

/// The time between two others, which is none where they are not in order.
pub open spec fn elapsed_of(start: u64, now: u64) -> u64 {
    if now > start {
        (now - start) as u64
    } else {
        0
    }
}

/// The time between two others.
pub fn elapsed(start: u64, now: u64) -> (result: u64)
    ensures
        result == elapsed_of(start, now),
{
    if now > start {
        now - start
    } else {
        0
    }
}

impl Activity {
    /// Whether nothing was done yet.
    pub open spec fn is_new(self) -> bool {
        &&& self.queued == 0
        &&& self.active@ == Map::<Seq<char>, u64>::empty()
        &&& self.enqueued == 0 && self.dequeued == 0
        &&& self.last_enqueue == 0 && self.last_dequeue == 0
        &&& self.last_start == 0 && self.last_completion == 0
        &&& self.pressure_started == 0 && self.pressure == 0
        &&& !self.last_failed
    }

    /// Nothing has happened yet.
    pub fn new() -> (result: Activity)
        ensures
            result.is_new(),
    {
        Activity {
            queued: 0,
            active: Table::new(),
            enqueued: 0,
            dequeued: 0,
            last_enqueue: 0,
            last_dequeue: 0,
            last_start: 0,
            last_completion: 0,
            pressure_started: 0,
            pressure: 0,
            last_failed: false,
        }
    }

    /// A request leaves the queue and is worked on.
    pub fn start(self, id: &str, queued: usize, now: u64) -> (result: Activity)
        ensures
            result.active@ == self.active@.insert(id@, now),
            result == (Activity {
                queued,
                active: result.active,
                dequeued: counted(self.dequeued, 1),
                last_dequeue: now,
                last_start: now,
                ..self
            }),
    {
        let dequeued: u64 = count(self.dequeued, 1);
        Activity {
            queued,
            active: self.active.insert(id.to_owned(), now),
            dequeued,
            last_dequeue: now,
            last_start: now,
            ..self
        }
    }

    /// The queue is full or not.
    pub fn press(self, pressure: bool, now: u64) -> (result: Activity)
        ensures
            result == (if pressure == (self.pressure_started > 0) {
                self
            } else if pressure {
                Activity { pressure_started: now, ..self }
            } else {
                Activity {
                    pressure: counted(self.pressure, elapsed_of(self.pressure_started, now)),
                    pressure_started: 0,
                    ..self
                }
            }),
    {
        if pressure == (self.pressure_started > 0) {
            self
        } else if pressure {
            Activity { pressure_started: now, ..self }
        } else {
            let sum: u64 = count(self.pressure, elapsed(self.pressure_started, now));
            Activity { pressure: sum, pressure_started: 0, ..self }
        }
    }

    /// A request is no longer worked on.
    pub fn finish(self, id: &str, ended: Ended, now: u64) -> (result: Activity)
        ensures
            result.active@ == self.active@.remove(id@),
            result == (Activity {
                active: result.active,
                last_completion: now,
                last_failed: ended != Ended::Completed,
                ..self
            }),
    {
        let failed = !matches!(ended, Ended::Completed);
        Activity {
            active: self.active.remove(id),
            last_completion: now,
            last_failed: failed,
            ..self
        }
    }

    /// Requests enter the queue.
    pub fn enqueue(self, more: usize, queued: usize, now: u64) -> (result: Activity)
        ensures
            result == (Activity {
                queued,
                enqueued: counted(self.enqueued, more as u64),
                last_enqueue: if more > 0 {
                    now
                } else {
                    self.last_enqueue
                },
                ..self
            }),
    {
        let enqueued: u64 = count(self.enqueued, more as u64);
        let last_enqueue: u64 = if more > 0 {
            now
        } else {
            self.last_enqueue
        };
        Activity { queued, enqueued, last_enqueue, ..self }
    }

    /// All requests are given up.
    pub fn stop(self) -> (result: Activity)
        ensures
            result.active@ == Map::<Seq<char>, u64>::empty(),
            result == (Activity { queued: 0, active: result.active, ..self }),
    {
        Activity { queued: 0, active: Table::new(), ..self }
    }

    /// Whether a request started before all others that are worked on.
    pub open spec fn is_oldest(self, start: u64) -> bool {
        &&& exists|id: Seq<char>| #[trigger] self.active@.dom().contains(id) && self.active@[id] == start
        &&& forall|id: Seq<char>| #[trigger]
            self.active@.dom().contains(id) ==> start <= self.active@[id]
    }

    /// How long the oldest request has been worked on.
    pub fn oldest_age(&self, now: u64) -> (result: u64)
        ensures
            self.active@.dom() == Set::<Seq<char>>::empty() ==> result == 0,
            self.active@.dom() != Set::<Seq<char>>::empty() ==> exists|start: u64| #[trigger]
                self.is_oldest(start) && result == elapsed_of(start, now),
    {
        let total: usize = self.active.len();
        let ghost keys = self.active.keys();
        let mut oldest: Option<u64> = None;
        let mut index: usize = 0;
        while index < total
            invariant
                index <= total,
                total == keys.len(),
                keys == self.active.keys(),
                forall|i: int|
                    0 <= i < total ==> self.active@.dom().contains(#[trigger] keys[i]),
                match oldest {
                    None => index == 0,
                    Some(start) => (exists|i: int|
                        0 <= i < index && self.active@[#[trigger] keys[i]] == start)
                        && forall|i: int|
                        0 <= i < index ==> start <= self.active@[#[trigger] keys[i]],
                },
            decreases total - index,
        {
            let start: u64 = *self.active.value(index);
            let ghost before = oldest;
            oldest = match oldest {
                Some(known) => if start < known {
                    Some(start)
                } else {
                    Some(known)
                },
                None => Some(start),
            };
            proof {
                assert(self.active@[keys[index as int]] == start);
                if before is Some && before->0 <= start {
                    let i = choose|i: int|
                        0 <= i < index && self.active@[#[trigger] keys[i]] == before->0;
                    assert(self.active@[keys[i]] == oldest->0);
                }
            }
            index = index + 1;
        }
        match oldest {
            Some(start) => {
                proof {
                    let i = choose|i: int|
                        0 <= i < index && self.active@[#[trigger] keys[i]] == start;
                    assert(self.active@.dom().contains(keys[i]));
                    assert forall|id: Seq<char>| #[trigger]
                        self.active@.dom().contains(id) implies start <= self.active@[id] by {
                        assert(keys.contains(id));
                        let j = choose|j: int| 0 <= j < keys.len() && keys[j] == id;
                        assert(start <= self.active@[keys[j]]);
                    }
                    assert(self.is_oldest(start));
                }
                elapsed(start, now)
            },
            None => {
                proof {
                    assert forall|id: Seq<char>| !self.active@.dom().contains(id) by {
                        if self.active@.dom().contains(id) {
                            assert(keys.contains(id));
                        }
                    }
                    assert(self.active@.dom() =~= Set::<Seq<char>>::empty());
                }
                0
            },
        }
    }
}

/// All that is known of a runtime.
pub struct Snapshot {
    pub ready: bool,
    pub mcp_probe: Startup,
    pub oauth: Startup,
    pub metadata_error: Option<String>,
    pub connected: bool,
    pub control: Observation,
    pub lifecycle: Lifecycle,
    pub cloudflare_ready: Option<bool>,
    pub cloudflare_observed_at: u64,
    /// The ways of requests.
    pub proxy: proxy_health::Snapshot,
    /// The seconds of the clock at the start.
    pub started_at: u64,
    /// What the servers of channels answered at first.
    pub channels: Table<Probe>,
    /// What is known of the servers of channels.
    pub evidence: Table<Json>,
    pub process_ids: Table<u32>,
    pub in_flight: usize,
    pub activity: Activity,
    pub completed: u64,
    pub expired: u64,
    pub failed: u64,
    pub last_error: Option<String>,
}

/// Whether a runtime asks a server at the start: that of the main channel, if it is polled.
pub open spec fn asks(config: ConfigView) -> bool {
    config.polls("main"@) && exists|i: int|
        0 <= i < config.mcp.server_urls.len() && (#[trigger] config.mcp.server_urls[i]).channel
            == "main"@
}

fn probes(config: &Config) -> (result: bool)
    ensures
        result == asks(config@),
{
    if !config.enabled("main") {
        return false;
    }
    let servers = &config.mcp.server_urls;
    let ghost all = config@.mcp.server_urls;
    let mut index: usize = 0;
    while index < servers.len()
        invariant
            index <= servers.len(),
            servers == config.mcp.server_urls,
            all == config@.mcp.server_urls,
            config@.polls("main"@),
            forall|i: int| 0 <= i < index ==> (#[trigger] all[i]).channel != "main"@,
        decreases servers.len() - index,
    {
        assert(all[index as int].channel == servers@[index as int].channel@);
        if text::same(&servers[index].channel, "main") {
            return true;
        }
        index = index + 1;
    }
    false
}

impl Snapshot {
    /// What is known of a runtime before it starts: a server that is asked is still to answer, and a
    /// companion is still to be ready.
    pub fn new(config: &Config, proxy: proxy_health::Snapshot, started_at: u64) -> (result: Snapshot)
        ensures
            result.proxy == proxy,
            !result.ready && !result.connected && result.lifecycle == Lifecycle::Starting,
            result.mcp_probe.state == (if asks(config@) {
                Phase::Pending
            } else {
                Phase::Disabled
            }),
            result.mcp_probe.observed_at is None && result.mcp_probe.error is None,
            result.oauth == result.mcp_probe,
            result.cloudflare_ready == (if config@.cloudflared.managed
                || config@.cloudflared.token is Some {
                Some(false)
            } else {
                None
            }),
            result.cloudflare_observed_at == 0,
            result.started_at == started_at,
            result.control@ == ObservationView::start(
                config@.control_plane.poll_timeout,
                config@.control_plane.poll_deadline_guardrail,
            ),
            result.channels.keys().len() == 0,
            result.evidence.keys().len() == 0,
            result.process_ids.keys().len() == 0,
            result.activity.is_new(),
            result.in_flight == 0,
            result.completed == 0 && result.expired == 0 && result.failed == 0,
            result.metadata_error is None && result.last_error is None,
    {
        let asked = probes(config);
        let companion = config.cloudflared.managed || config.cloudflared.token.is_some();
        Snapshot {
            ready: false,
            mcp_probe: if asked {
                Startup::pending()
            } else {
                Startup::disabled()
            },
            oauth: if asked {
                Startup::pending()
            } else {
                Startup::disabled()
            },
            metadata_error: None,
            connected: false,
            control: Observation::new(
                config.control_plane.poll_timeout,
                config.control_plane.poll_deadline_guardrail,
            ),
            lifecycle: Lifecycle::Starting,
            cloudflare_ready: if companion {
                Some(false)
            } else {
                None
            },
            cloudflare_observed_at: 0,
            proxy,
            started_at,
            channels: Table::new(),
            evidence: Table::new(),
            process_ids: Table::new(),
            in_flight: 0,
            activity: Activity::new(),
            completed: 0,
            expired: 0,
            failed: 0,
            last_error: None,
        }
    }

    /// Whether the runtime is ready, and what is told of it.
    pub open spec fn readiness_of(self) -> (bool, Seq<char>) {
        let message = self.mcp_probe.message();
        if self.lifecycle == Lifecycle::Draining {
            (false, "runtime is draining"@)
        } else if self.cloudflare_ready == Some(false) {
            (false, "cloudflared not ready"@)
        } else if self.oauth.state == Phase::Pending {
            (false, "oauth discovery pending"@)
        } else if self.oauth.state == Phase::Failed {
            (false, "oauth discovery failed: "@ + self.oauth.message())
        } else {
            match self.mcp_probe.state {
                Phase::Pending => (false, "mcp startup probe pending"@),
                Phase::AuthRequired => (
                    true,
                    "ready (mcp initialize requires auth: "@ + message + ")"@,
                ),
                Phase::Timeout => (
                    true,
                    "ready (mcp startup probe timed out: "@ + message + ")"@,
                ),
                Phase::StartupTimeout => (false, "mcp startup wait failed: "@ + message),
                Phase::Failed => (false, "mcp probe failed: "@ + message),
                _ => (true, "ready"@),
            }
        }
    }

    /// Whether the runtime is ready, and what is told of it.
    pub fn readiness(&self) -> (result: (bool, String))
        ensures
            (result.0, result.1@) == self.readiness_of(),
    {
        if let Lifecycle::Draining = self.lifecycle {
            return (false, "runtime is draining".to_owned());
        }
        if let Some(false) = self.cloudflare_ready {
            return (false, "cloudflared not ready".to_owned());
        }
        match self.oauth.state {
            Phase::Pending => {
                return (false, "oauth discovery pending".to_owned());
            },
            Phase::Failed => {
                return (false, text::cat("oauth discovery failed: ", &self.oauth.error_text()));
            },
            _ => {},
        }
        let message = self.mcp_probe.error_text();
        match self.mcp_probe.state {
            Phase::Pending => (false, "mcp startup probe pending".to_owned()),
            Phase::AuthRequired => (
                true,
                text::cat3("ready (mcp initialize requires auth: ", &message, ")"),
            ),
            Phase::Timeout => (
                true,
                text::cat3("ready (mcp startup probe timed out: ", &message, ")"),
            ),
            Phase::StartupTimeout => (false, text::cat("mcp startup wait failed: ", &message)),
            Phase::Failed => (false, text::cat("mcp probe failed: ", &message)),
            _ => (true, "ready".to_owned()),
        }
    }

    /// Notes whether the runtime is ready.
    pub fn refresh_readiness(&mut self)
        ensures
            *final(self) == (Snapshot { ready: old(self).readiness_of().0, ..*old(self) }),
    {
        self.ready = self.readiness().0;
    }

    /// A request ended.
    pub fn finish(self, id: &str, ended: Ended, in_flight: usize, now: u64) -> (result: Snapshot)
        ensures
            result.activity.active@ == self.activity.active@.remove(id@),
            result == (Snapshot {
                in_flight,
                activity: (Activity {
                    active: result.activity.active,
                    last_completion: now,
                    last_failed: ended != Ended::Completed,
                    ..self.activity
                }),
                completed: if ended == Ended::Completed {
                    counted(self.completed, 1)
                } else {
                    self.completed
                },
                expired: if ended == Ended::Expired {
                    counted(self.expired, 1)
                } else {
                    self.expired
                },
                failed: if ended == Ended::Failed {
                    counted(self.failed, 1)
                } else {
                    self.failed
                },
                ..self
            }),
    {
        let mut result = self;
        match ended {
            Ended::Completed => {
                result.completed = count(result.completed, 1);
            },
            Ended::Expired => {
                result.expired = count(result.expired, 1);
            },
            Ended::Failed => {
                result.failed = count(result.failed, 1);
            },
        }
        let Snapshot { activity, .. } = result;
        Snapshot { in_flight, activity: activity.finish(id, ended, now), ..result }
    }

    /// The runtime runs.
    pub fn run(&mut self)
        ensures
            final(self).lifecycle == Lifecycle::Running,
            final(self).ready == final(self).readiness_of().0,
            *final(self) == (Snapshot {
                lifecycle: Lifecycle::Running,
                ready: final(self).ready,
                ..*old(self)
            }),
    {
        self.lifecycle = Lifecycle::Running;
        self.ready = self.readiness().0;
    }

    /// The runtime ends, for a reason where there is one.
    pub fn drain(&mut self, error: Option<String>)
        ensures
            final(self).lifecycle == Lifecycle::Draining,
            *final(self) == (Snapshot {
                ready: false,
                connected: false,
                lifecycle: Lifecycle::Draining,
                last_error: if error is Some {
                    error
                } else {
                    old(self).last_error
                },
                ..*old(self)
            }),
    {
        self.ready = false;
        self.connected = false;
        self.lifecycle = Lifecycle::Draining;
        if error.is_some() {
            self.last_error = error;
        }
    }

    /// The companion was asked whether it is ready; whether that is new.
    pub fn companion(&mut self, ready: bool, now: u64) -> (result: bool)
        ensures
            result == !(old(self).cloudflare_ready == Some(ready) && old(
                self).cloudflare_observed_at > 0),
            !result ==> *final(self) == *old(self),
            result ==> final(self).ready == final(self).readiness_of().0 && *final(self) == (
            Snapshot {
                ready: final(self).ready,
                cloudflare_ready: Some(ready),
                cloudflare_observed_at: now,
                ..*old(self)
            }),
    {
        let same = match self.cloudflare_ready {
            Some(known) => known == ready,
            None => false,
        };
        if same && self.cloudflare_observed_at > 0 {
            return false;
        }
        self.cloudflare_ready = Some(ready);
        self.cloudflare_observed_at = now;
        self.ready = self.readiness().0;
        true
    }

    /// The companion ended.
    pub fn companion_gone(&mut self, now: u64)
        ensures
            *final(self) == (Snapshot {
                ready: false,
                cloudflare_ready: Some(false),
                cloudflare_observed_at: now,
                ..*old(self)
            }),
            !final(self).readiness_of().0,
    {
        self.cloudflare_ready = Some(false);
        self.cloudflare_observed_at = now;
        self.ready = false;
    }
}

/// A runtime that ends is not ready, nor is one whose companion is not.
pub proof fn lemma_not_ready(snapshot: Snapshot)
    requires
        snapshot.lifecycle == Lifecycle::Draining || snapshot.cloudflare_ready == Some(false),
    ensures
        !snapshot.readiness_of().0,
{
}

/// How busy a runtime is.
#[derive(Clone, Copy)]
pub struct Load {
    /// How many requests are worked on.
    pub working: usize,
    /// How many requests wait.
    pub queued: usize,
    /// How many requests may wait.
    pub capacity: usize,
    /// How many requests may be worked on.
    pub concurrency: usize,
    /// Whether the service is asked for requests.
    pub polling: bool,
}

/// What a runtime does next.
#[derive(Clone, Copy, PartialEq, Eq, Structural)]
pub enum Move {
    /// Works on the next request.
    Start,
    /// Asks the service for at most so many requests.
    Poll(usize),
    /// Waits for something to happen.
    Wait,
}

impl Load {
    /// Whether the queue is full.
    pub open spec fn is_pressed(self) -> bool {
        self.queued >= self.capacity
    }

    /// Whether the queue is full.
    pub fn pressed(self) -> (result: bool)
        ensures
            result == self.is_pressed(),
    {
        self.queued >= self.capacity
    }

    /// What a runtime does next.
    pub open spec fn next_of(self) -> Move {
        if self.working < self.concurrency && self.queued > 0 {
            Move::Start
        } else if !self.polling && !self.is_pressed() {
            Move::Poll((self.capacity - self.queued) as usize)
        } else {
            Move::Wait
        }
    }

    /// What a runtime does next.
    pub fn next(self) -> (result: Move)
        ensures
            result == self.next_of(),
    {
        if self.working < self.concurrency && self.queued > 0 {
            Move::Start
        } else if !self.polling && self.queued < self.capacity {
            Move::Poll(self.capacity - self.queued)
        } else {
            Move::Wait
        }
    }
}

/// When a request is given up: so long after it came as it may take, unless the clock cannot tell.
pub open spec fn deadline_of(received: u64, timeout: Option<Span>) -> Option<u64> {
    match timeout {
        Some(span) => if received + span.0 <= u64::MAX {
            Some((received + span.0) as u64)
        } else {
            None
        },
        None => None,
    }
}

/// When a request is given up.
pub fn deadline(received: u64, timeout: Option<Span>) -> (result: Option<u64>)
    ensures
        result == deadline_of(received, timeout),
{
    match timeout {
        Some(span) => received.checked_add(span.0),
        None => None,
    }
}

/// Whether a request is given up before it is worked on.
pub fn late(received: u64, timeout: Option<Span>, now: u64) -> (result: bool)
    ensures
        result == (deadline_of(received, timeout) matches Some(end) && end <= now),
{
    match deadline(received, timeout) {
        Some(end) => end <= now,
        None => false,
    }
}

/// A runtime is ready exactly where it is not draining, its companion is not missing, and neither the authorization
/// nor the servers are still asked for or have failed; a server that asks for authorization or answers too late
/// keeps nothing back.
pub proof fn lemma_ready(snapshot: Snapshot)
    ensures
        snapshot.readiness_of().0 <==> snapshot.lifecycle != Lifecycle::Draining
            && snapshot.cloudflare_ready != Some(false) && snapshot.oauth.state != Phase::Pending
            && snapshot.oauth.state != Phase::Failed && snapshot.mcp_probe.state != Phase::Pending
            && snapshot.mcp_probe.state != Phase::StartupTimeout && snapshot.mcp_probe.state
            != Phase::Failed,
        snapshot.readiness_of().0 && snapshot.mcp_probe.state != Phase::AuthRequired
            && snapshot.mcp_probe.state != Phase::Timeout ==> snapshot.readiness_of().1 == "ready"@,
        snapshot.lifecycle == Lifecycle::Draining ==> snapshot.readiness_of().1 == "runtime is draining"@,
{
}

/// A runtime with free hands and a queue starts what waits; it polls for as much as its queue has room for, and for
/// nothing where it has none.
pub proof fn lemma_next_move(load: Load)
    ensures
        load.next_of() == Move::Start <==> load.working < load.concurrency && load.queued > 0,
        load.next_of() matches Move::Poll(room) ==> room == load.capacity - load.queued && room > 0
            && !load.polling,
        load.queued >= load.capacity && load.next_of() != Move::Start ==> load.next_of() == Move::Wait,
        load.polling && load.next_of() != Move::Start ==> load.next_of() == Move::Wait,
        !load.polling && load.queued < load.capacity && load.next_of() != Move::Start ==> load.next_of()
            is Poll,
{
}

/// A command waits its time from when it was received; without a time it waits for ever.
pub proof fn lemma_deadline(received: u64, timeout: Option<Span>)
    ensures
        timeout is None ==> deadline_of(received, timeout) is None,
        timeout matches Some(span) ==> (received + span.0 <= u64::MAX ==> deadline_of(received, timeout)
            == Some((received + span.0) as u64)),
        deadline_of(received, timeout) matches Some(end) ==> end >= received,
        elapsed_of(received, received) == 0,
{
}

/// The words for what is known of the start, and for how a runtime lives.
pub proof fn lemma_phase_words()
    ensures
        Phase::Disabled.word() == "disabled"@,
        Phase::Pending.word() == "pending"@,
        Phase::Succeeded.word() == "ok"@,
        Phase::AuthRequired.word() == "auth-required"@,
        Phase::Timeout.word() == "timeout"@,
        Phase::StartupTimeout.word() == "startup-timeout"@,
        Phase::Failed.word() == "failed"@,
        Phase::Complete.word() == "complete"@,
        Phase::NotAdvertised.word() == "not_advertised"@,
        Lifecycle::Starting.word() == "starting"@,
        Lifecycle::Running.word() == "running"@,
        Lifecycle::Draining.word() == "draining"@,
{
}

/// A server is asked for at the start exactly where the main channel is polled and a server takes it.
pub proof fn lemma_asks_main(config: ConfigView, at: int)
    ensures
        config.polls("main"@) && 0 <= at < config.mcp.server_urls.len() && config.mcp.server_urls[at].channel
            == "main"@ ==> asks(config),
        config.mcp.server_urls.len() == 0 ==> !asks(config),
        !config.polls("main"@) ==> !asks(config),
{
}

} // verus!
