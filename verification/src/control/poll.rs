//! How polls follow each other.

use vstd::prelude::*;
use crate::config::duration::Span;
use crate::control::client::{poll_url_of, Control};
use crate::control::error::StatusError;
use crate::control::observation::{category, category_of, Failure};
use crate::control::routing::{correction_of, Attempt, Correction, CorrectionView, State};
use crate::net::error::{info_of, lossy_text, ErrorInfo, InfoView};
use crate::{header, text};

verus! {

/// The times of a poll.
#[derive(Clone, Copy, Debug, PartialEq, Eq, Structural)]
pub struct Wait {
    /// The time that the service is asked to hold the poll.
    pub requested: Span,
    /// The time that the service may hold a poll at most.
    pub duration: Span,
}

/// The smaller of two numbers.
pub open spec fn smaller(left: int, right: int) -> int {
    if left <= right {
        left
    } else {
        right
    }
}

/// The larger of two numbers.
pub open spec fn larger(left: int, right: int) -> int {
    if left >= right {
        left
    } else {
        right
    }
}

/// The longest poll: the configured one, or what a proxy on the way lets through.
pub open spec fn longest_poll(configured: int, learned: int) -> int {
    if learned == 0 {
        configured
    } else {
        smaller(configured, learned * 1_000_000)
    }
}

fn least(left: u64, right: u64) -> (result: u64)
    ensures
        result == smaller(left as int, right as int),
{
    if left <= right {
        left
    } else {
        right
    }
}

fn most(left: u64, right: u64) -> (result: u64)
    ensures
        result == larger(left as int, right as int),
{
    if left >= right {
        left
    } else {
        right
    }
}

/// Five seconds.
pub const SHORTEST: u64 = 5_000_000_000;

/// The milliseconds that are learned from a poll that broke off after some time behind a proxy: what
/// leaves a margin before the break, where that is shorter than what is known.
pub open spec fn learned_from(
    current: int,
    requested: int,
    elapsed: int,
    duration: int,
    guard: int,
) -> int {
    if requested > SHORTEST && elapsed > SHORTEST && elapsed < duration + guard {
        let margin = smaller(larger(guard, SHORTEST as int), elapsed / 2);
        let adjusted = larger(elapsed - margin, SHORTEST as int) / 1_000_000;
        if adjusted * 1_000_000 < requested && (current == 0 || adjusted < current) {
            adjusted
        } else {
            current
        }
    } else {
        current
    }
}

/// The most requests that one poll asks for.
pub const MOST: usize = 25;

/// Whether the service is asked for requests.
#[derive(Clone, Copy, Debug, PartialEq, Eq, Structural)]
pub enum Ask {
    /// There is room for none: no poll is made, and no requests come.
    Nothing,
    /// A poll asks for so many requests at most.
    Poll(usize),
}

/// Whether the service is asked, where there is room for so many requests.
pub fn ask(limit: usize) -> (result: Ask)
    ensures
        result == (if limit == 0 {
            Ask::Nothing
        } else {
            Ask::Poll(smaller(limit as int, MOST as int) as usize)
        }),
{
    if limit == 0 {
        Ask::Nothing
    } else if limit <= MOST {
        Ask::Poll(limit)
    } else {
        Ask::Poll(MOST)
    }
}

/// A poll that is to be made.
pub struct Request {
    pub url: String,
    pub wait: Wait,
}

impl Control {
    /// The poll to be made next, where there is room for so many requests: none where there is no room.
    pub fn poll(&self, limit: usize, learned: u64, initial: bool) -> (result: Result<
        Option<Request>,
        String,
    >)
        ensures
            match result {
                Ok(None) => limit == 0,
                Ok(Some(request)) => limit > 0 && self.waits(learned, initial, request.wait)
                    && poll_url_of(
                    self.url@,
                    text::views(self.subscriptions@),
                    limit as nat,
                    request.wait.requested.0 as nat,
                ) == Ok::<Seq<char>, Seq<char>>(request.url@),
                Err(reason) => limit > 0 && exists|wait: Wait| #[trigger]
                    self.waits(learned, initial, wait) && poll_url_of(
                        self.url@,
                        text::views(self.subscriptions@),
                        limit as nat,
                        wait.requested.0 as nat,
                    ) == Err::<Seq<char>, Seq<char>>(reason@),
            },
    {
        match ask(limit) {
            Ask::Nothing => Ok(None),
            Ask::Poll(most) => {
                let wait = self.wait(learned, initial);
                match self.poll_url(most, wait.requested) {
                    Ok(url) => Ok(Some(Request { url, wait })),
                    Err(reason) => Err(reason),
                }
            },
        }
    }

    /// Whether these are the times of the next poll.
    pub open spec fn waits(self, learned: u64, initial: bool, wait: Wait) -> bool {
        &&& wait.duration.0 == longest_poll(self.poll_timeout.0 as int, learned as int)
        &&& wait.requested.0 == if initial {
            smaller(self.initial_poll_timeout.0 as int, wait.duration.0 as int)
        } else {
            wait.duration.0 as int
        }
    }

    /// The times of the next poll.
    pub fn wait(&self, learned: u64, initial: bool) -> (result: Wait)
        ensures
            self.waits(learned, initial, result),
    {
        let wide: u128 = learned as u128 * 1_000_000;
        let duration: u64 = if learned == 0 || wide >= self.poll_timeout.0 as u128 {
            self.poll_timeout.0
        } else {
            wide as u64
        };
        let requested: u64 = if initial {
            least(self.initial_poll_timeout.0, duration)
        } else {
            duration
        };
        Wait { requested: Span(requested), duration: Span(duration) }
    }

    /// What is learned from a poll that broke off after some time behind a proxy.
    pub fn learn(&self, current: u64, wait: Wait, elapsed: u64) -> (result: u64)
        ensures
            result == learned_from(
                current as int,
                wait.requested.0 as int,
                elapsed as int,
                wait.duration.0 as int,
                self.guard.0 as int,
            ),
    {
        let deadline: u128 = wait.duration.0 as u128 + self.guard.0 as u128;
        if wait.requested.0 <= SHORTEST || elapsed <= SHORTEST || elapsed as u128 >= deadline {
            return current;
        }
        let margin: u64 = least(most(self.guard.0, SHORTEST), elapsed / 2);
        let adjusted: u64 = most(elapsed - margin, SHORTEST) / 1_000_000;
        if adjusted * 1_000_000 < wait.requested.0 && (current == 0 || adjusted < current) {
            adjusted
        } else {
            current
        }
    }
}

/// The service is never asked to hold a poll longer than is configured.
pub proof fn lemma_wait_bounded(control: Control, learned: u64, initial: bool, wait: Wait)
    requires
        control.waits(learned, initial, wait),
    ensures
        wait.requested.0 <= wait.duration.0 <= control.poll_timeout.0,
{
}

/// What is learned never grows, once something has been learned.
pub proof fn lemma_learned_shrinks(
    current: int,
    requested: int,
    elapsed: int,
    duration: int,
    guard: int,
)
    requires
        current > 0,
    ensures
        learned_from(current, requested, elapsed, duration, guard) <= current,
{
}

/// What is learned leaves polls of five seconds at least.
pub proof fn lemma_learned_long_enough(
    current: int,
    requested: int,
    elapsed: int,
    duration: int,
    guard: int,
)
    requires
        current == 0 || current >= 5_000,
    ensures
        learned_from(current, requested, elapsed, duration, guard) == 0 || learned_from(
            current,
            requested,
            elapsed,
            duration,
            guard,
        ) >= 5_000,
{
}

/// The body of an answer that refuses a poll.
pub enum Refused {
    /// The body, which is not too long.
    Read(Vec<u8>),
    /// A body that is too long.
    TooLong,
    /// A body that broke off.
    Broken(Failure),
}

/// What follows from an answer that refuses a poll.
pub struct Refusal {
    pub error: StatusError,
    pub correction: Option<Correction>,
    /// Whether the place that the poll went to failed.
    pub failed_destination: bool,
}

/// Whether a status tells of a place that failed.
pub open spec fn is_failure_status(status: u16) -> bool {
    status == 408 || 500 <= status <= 599
}

/// Whether a failure is one of the way.
pub open spec fn is_way_failure(failure: Failure) -> bool {
    failure == Failure::Network || failure == Failure::Timeout
}

fn way_failure(failure: Failure) -> (result: bool)
    ensures
        result == is_way_failure(failure),
{
    match failure {
        Failure::Network => true,
        Failure::Timeout => true,
        _ => false,
    }
}

/// The correction that a refusal is read for.
pub open spec fn read_correction(status: u16, entries: Map<Seq<char>, Seq<Seq<u8>>>, body: Seq<u8>) -> Result<
    Option<CorrectionView>,
    (),
> {
    if status == 409 {
        correction_of(entries, body)
    } else {
        Ok(None)
    }
}

/// What a refusal says. What concerns the route stays out of it.
pub open spec fn refusal_info(status: u16, entries: Map<Seq<char>, Seq<Seq<u8>>>, body: Seq<u8>) -> InfoView {
    let info = info_of(text::trim_of(lossy_text(body)));
    let correction = read_correction(status, entries, body);
    if correction is Err || info.code == "wrong_cluster"@ || entries.dom().contains(
        "x-tunnel-shard-token"@,
    ) {
        if correction is Ok && correction->Ok_0 is Some {
            InfoView {
                code: "wrong_cluster"@,
                message: "polling placement rejected; retrying after backoff"@,
                ..InfoView::empty()
            }
        } else {
            InfoView { message: "invalid polling routing correction"@, ..InfoView::empty() }
        }
    } else {
        info
    }
}

/// Whether the result is what follows from a refusal.
pub open spec fn is_refusal(
    result: Refusal,
    status: u16,
    entries: Map<Seq<char>, Seq<Seq<u8>>>,
    body: Refused,
) -> bool {
    &&& result.error.status == status
    &&& result.error.operation@ == "poll"@
    &&& match body {
        Refused::Read(bytes) => {
            &&& result.error.info@ == refusal_info(status, entries, bytes@)
            &&& match (result.correction, read_correction(status, entries, bytes@)) {
                (Some(found), Ok(Some(expected))) => found@ == expected,
                (None, Ok(Some(_))) => false,
                (None, _) => true,
                _ => false,
            }
            &&& result.failed_destination == is_failure_status(status)
        },
        Refused::TooLong => {
            &&& result.error.info@ == (InfoView {
                message: "invalid polling error response"@,
                ..InfoView::empty()
            })
            &&& result.correction is None
            &&& result.failed_destination == is_failure_status(status)
        },
        Refused::Broken(failure) => {
            &&& result.error.info@ == (InfoView {
                message: "invalid polling error response"@,
                ..InfoView::empty()
            })
            &&& result.correction is None
            &&& result.failed_destination == (is_failure_status(status) || is_way_failure(failure))
        },
    }
}

/// What follows from an answer that refuses a poll.
pub fn refuse(status: u16, headers: &header::Headers, body: &Refused) -> (result: Refusal)
    ensures
        is_refusal(result, status, header::header_entries(*headers), *body),
{
    let failed = status == 408 || (status >= 500 && status <= 599);
    let mut error = StatusError::new(status, "poll");
    match body {
        Refused::Read(bytes) => {
            error.info = ErrorInfo::parse(bytes);
            let parsed = if status == 409 {
                Correction::parse(headers, bytes)
            } else {
                Ok(None)
            };
            let malformed = parsed.is_err();
            let correction = match parsed {
                Ok(found) => found,
                Err(_) => None,
            };
            proof {
                reveal_strlit("x-tunnel-shard-token");
                assert(text::lowercase_of("x-tunnel-shard-token"@) =~= "x-tunnel-shard-token"@);
            }
            if malformed || text::same(&error.info.code, "wrong_cluster") || header::has(
                headers,
                "x-tunnel-shard-token",
            ) {
                error.info = ErrorInfo::default();
                if correction.is_some() {
                    error.info.code = "wrong_cluster".to_owned();
                    error.info.message =
                    "polling placement rejected; retrying after backoff".to_owned();
                } else {
                    error.info.message = "invalid polling routing correction".to_owned();
                }
            }
            Refusal { error, correction, failed_destination: failed }
        },
        Refused::TooLong => {
            error.info.message = "invalid polling error response".to_owned();
            Refusal { error, correction: None, failed_destination: failed }
        },
        Refused::Broken(failure) => {
            error.info.message = "invalid polling error response".to_owned();
            Refusal {
                error,
                correction: None,
                failed_destination: failed || way_failure(*failure),
            }
        },
    }
}

/// A refusal never shows the token of a route or the code of a route that the client did not read.
pub proof fn lemma_route_hidden(
    status: u16,
    entries: Map<Seq<char>, Seq<Seq<u8>>>,
    body: Seq<u8>,
)
    requires
        entries.dom().contains("x-tunnel-shard-token"@),
    ensures
        refusal_info(status, entries, body).body.len() == 0,
        refusal_info(status, entries, body).message
            == "polling placement rejected; retrying after backoff"@ || refusal_info(
            status,
            entries,
            body,
        ).message == "invalid polling routing correction"@,
{
}

/// How a poll ended.
pub enum Outcome {
    /// The service sent requests, with the status of its answer.
    Commands(u64, u16),
    /// The service refused the poll.
    Refused(Refusal),
    /// The poll failed.
    Failed(Failure),
}

/// How a poll ended, for the route and the record.
#[verifier::ext_equal]
pub enum OutcomeView {
    Commands(u64, u16),
    Refused { status: u16, correction: Option<CorrectionView>, failed: bool },
    Failed(Failure),
}

impl Outcome {
    /// How a poll ended, for the route and the record. What a refusal says does not count for them.
    pub open spec fn gist(self) -> OutcomeView {
        match self {
            Outcome::Commands(count, status) => OutcomeView::Commands(count, status),
            Outcome::Refused(refusal) => OutcomeView::Refused {
                status: refusal.error.status,
                correction: match refusal.correction {
                    Some(inner) => Some(inner@),
                    None => None,
                },
                failed: refusal.failed_destination,
            },
            Outcome::Failed(failure) => OutcomeView::Failed(failure),
        }
    }
}

impl OutcomeView {
    /// Whether the place that the poll went to failed. Where no answer began, it did.
    pub open spec fn destination_failed(self, answered: bool) -> bool {
        match self {
            OutcomeView::Commands(_, _) => false,
            OutcomeView::Refused { failed, .. } => failed,
            OutcomeView::Failed(failure) => !answered || is_way_failure(failure),
        }
    }

    pub open spec fn correction(self) -> Option<CorrectionView> {
        match self {
            OutcomeView::Refused { correction, .. } => correction,
            _ => None,
        }
    }
}

/// What has been seen of polls. Times are nanoseconds since 1970, zero where nothing happened.
#[derive(Clone)]
pub struct Observation {
    pub poll_state: String,
    pub effective_wait: u64,
    pub deadline: u128,
    pub failure_category: String,
    pub connected: bool,
    pub last_attempt: u64,
    pub last_success: u64,
    pub last_error: u64,
    pub next_retry: u64,
    pub consecutive_failures: u64,
    pub cycles: u64,
    pub errors: u64,
    /// The errors that were timeouts.
    pub timeouts: u64,
    /// The errors that were none.
    pub others: u64,
    pub commands: u64,
    pub http_status: u16,
}

/// The contents of [`Observation`].
#[verifier::ext_equal]
pub struct ObservationView {
    pub poll_state: Seq<char>,
    pub effective_wait: u64,
    pub deadline: u128,
    pub failure_category: Seq<char>,
    pub connected: bool,
    pub last_attempt: u64,
    pub last_success: u64,
    pub last_error: u64,
    pub next_retry: u64,
    pub consecutive_failures: u64,
    pub cycles: u64,
    pub errors: u64,
    pub timeouts: u64,
    pub others: u64,
    pub commands: u64,
    pub http_status: u16,
}

impl View for Observation {
    type V = ObservationView;

    open spec fn view(&self) -> ObservationView {
        ObservationView {
            poll_state: self.poll_state@,
            effective_wait: self.effective_wait,
            deadline: self.deadline,
            failure_category: self.failure_category@,
            connected: self.connected,
            last_attempt: self.last_attempt,
            last_success: self.last_success,
            last_error: self.last_error,
            next_retry: self.next_retry,
            consecutive_failures: self.consecutive_failures,
            cycles: self.cycles,
            errors: self.errors,
            timeouts: self.timeouts,
            others: self.others,
            commands: self.commands,
            http_status: self.http_status,
        }
    }
}

impl ObservationView {
    /// What is known before the first poll.
    pub open spec fn start(wait: Span, guard: Span) -> ObservationView {
        ObservationView {
            poll_state: "starting"@,
            effective_wait: wait.0,
            deadline: (wait.0 + guard.0) as u128,
            failure_category: Seq::empty(),
            connected: false,
            last_attempt: 0,
            last_success: 0,
            last_error: 0,
            next_retry: 0,
            consecutive_failures: 0,
            cycles: 0,
            errors: 0,
            timeouts: 0,
            others: 0,
            commands: 0,
            http_status: 0,
        }
    }

    /// Whether another poll can be counted.
    pub open spec fn has_room(self, commands: u64) -> bool {
        &&& self.consecutive_failures < u64::MAX
        &&& self.cycles < u64::MAX
        &&& self.errors < u64::MAX
        &&& self.timeouts < u64::MAX
        &&& self.others < u64::MAX
        &&& self.commands + commands <= u64::MAX
    }

    /// Every error is a timeout or none.
    pub open spec fn wf(self) -> bool {
        self.errors == self.timeouts + self.others && self.errors <= self.cycles
            && self.consecutive_failures <= self.errors
    }

    /// After a poll has begun.
    pub open spec fn polling(self, wait: Wait, guard: Span, now: u64) -> ObservationView {
        ObservationView {
            poll_state: "polling"@,
            effective_wait: wait.requested.0,
            deadline: (wait.duration.0 + guard.0) as u128,
            last_attempt: now,
            next_retry: 0,
            cycles: (self.cycles + 1) as u64,
            ..self
        }
    }

    /// After a poll has failed.
    pub open spec fn failed(self, category: Seq<char>, status: u16, now: u64) -> ObservationView {
        ObservationView {
            connected: false,
            poll_state: "backoff"@,
            failure_category: category,
            last_error: now,
            consecutive_failures: (self.consecutive_failures + 1) as u64,
            errors: (self.errors + 1) as u64,
            timeouts: if category == "timeout"@ {
                (self.timeouts + 1) as u64
            } else {
                self.timeouts
            },
            others: if category == "timeout"@ {
                self.others
            } else {
                (self.others + 1) as u64
            },
            http_status: status,
            ..self
        }
    }

    /// After a poll has ended.
    pub open spec fn settled(self, outcome: OutcomeView, now: u64) -> ObservationView {
        match outcome {
            OutcomeView::Commands(count, status) => ObservationView {
                connected: true,
                poll_state: "idle"@,
                failure_category: Seq::empty(),
                last_success: now,
                consecutive_failures: 0,
                commands: (self.commands + count) as u64,
                http_status: status,
                ..self
            },
            OutcomeView::Refused { status, .. } => self.failed("http_error"@, status, now),
            OutcomeView::Failed(failure) => self.failed(category_of(failure), 0, now),
        }
    }
}

impl Observation {
    /// What is known before the first poll, of polls that last so long at most.
    pub fn new(wait: Span, guard: Span) -> (result: Observation)
        ensures
            result@ == ObservationView::start(wait, guard),
    {
        let result = Observation {
            poll_state: "starting".to_owned(),
            effective_wait: wait.0,
            deadline: wait.0 as u128 + guard.0 as u128,
            failure_category: String::new(),
            connected: false,
            last_attempt: 0,
            last_success: 0,
            last_error: 0,
            next_retry: 0,
            consecutive_failures: 0,
            cycles: 0,
            errors: 0,
            timeouts: 0,
            others: 0,
            commands: 0,
            http_status: 0,
        };
        assert(result@.failure_category =~= Seq::empty());
        result
    }

    /// A poll begins.
    pub fn poll(&mut self, wait: Wait, guard: Span, now: u64)
        requires
            old(self)@.has_room(0),
        ensures
            final(self)@ == old(self)@.polling(wait, guard, now),
    {
        self.poll_state = "polling".to_owned();
        self.effective_wait = wait.requested.0;
        self.deadline = wait.duration.0 as u128 + guard.0 as u128;
        self.last_attempt = now;
        self.next_retry = 0;
        self.cycles = self.cycles + 1;
    }

    fn fail(&mut self, category: String, status: u16, now: u64)
        requires
            old(self)@.has_room(0),
        ensures
            final(self)@ == old(self)@.failed(category@, status, now),
    {
        self.connected = false;
        self.poll_state = "backoff".to_owned();
        self.last_error = now;
        self.consecutive_failures = self.consecutive_failures + 1;
        self.errors = self.errors + 1;
        if text::same(&category, "timeout") {
            self.timeouts = self.timeouts + 1;
        } else {
            self.others = self.others + 1;
        }
        self.failure_category = category;
        self.http_status = status;
    }

    /// A poll ends.
    pub fn settle(&mut self, outcome: &Outcome, now: u64)
        requires
            old(self)@.has_room(match outcome.gist() {
                OutcomeView::Commands(count, _) => count,
                _ => 0,
            }),
        ensures
            final(self)@ == old(self)@.settled(outcome.gist(), now),
    {
        match outcome {
            Outcome::Commands(count, status) => {
                self.connected = true;
                self.poll_state = "idle".to_owned();
                self.failure_category = String::new();
                self.last_success = now;
                self.consecutive_failures = 0;
                self.commands = self.commands + *count;
                self.http_status = *status;
            },
            Outcome::Refused(refusal) => {
                self.fail("http_error".to_owned(), refusal.error.status, now);
            },
            Outcome::Failed(failure) => {
                self.fail(category(*failure), 0, now);
            },
        }
    }
}

/// The counts of errors stay in step over a poll.
pub proof fn lemma_counts_kept(
    state: ObservationView,
    wait: Wait,
    guard: Span,
    outcome: OutcomeView,
    now: u64,
)
    requires
        state.wf(),
        state.has_room(match outcome {
            OutcomeView::Commands(count, _) => count,
            _ => 0,
        }),
    ensures
        state.polling(wait, guard, now).settled(outcome, now).wf(),
{
}

/// What a poll leads to.
pub enum Step {
    /// Its requests are handed on.
    Deliver,
    /// The next poll follows after a delay.
    Retry,
}

/// Whether a poll that failed behind a proxy tells how long the proxy waits: no answer had begun, and
/// the connection was closed in the middle of it.
pub struct Ending {
    pub answered: bool,
    pub proxied: bool,
    /// Whether the connection was closed in the middle of a request.
    pub closed: bool,
    pub elapsed: u64,
}

/// Whether something is learned from how a poll ended.
pub open spec fn teaches(outcome: OutcomeView, ending: Ending) -> bool {
    ending.proxied && !ending.answered && ending.closed && outcome is Failed
}

impl Control {
    /// Takes up how a poll ended: what is learned of proxies on the way, the route of the next poll,
    /// and the record.
    pub fn settle(
        &self,
        routing: &mut State,
        observation: &mut Observation,
        learned: &mut u64,
        attempt: &Attempt,
        wait: Wait,
        outcome: &Outcome,
        ending: &Ending,
        now: u64,
    ) -> (result: Step)
        requires
            old(routing)@.wf(),
            old(routing)@.generation < u64::MAX,
            old(observation)@.has_room(match outcome.gist() {
                OutcomeView::Commands(count, _) => count,
                _ => 0,
            }),
        ensures
            final(routing)@.wf(),
            final(routing)@ == old(routing)@.completed(
                attempt.generation,
                attempt.token is Some,
                outcome.gist().correction(),
                outcome.gist() is Commands,
                outcome.gist().destination_failed(ending.answered),
            ),
            final(observation)@ == old(observation)@.settled(outcome.gist(), now),
            *final(learned) == (if teaches(outcome.gist(), *ending) {
                learned_from(
                    *old(learned) as int,
                    wait.requested.0 as int,
                    ending.elapsed as int,
                    wait.duration.0 as int,
                    self.guard.0 as int,
                )
            } else {
                *old(learned) as int
            }),
            result is Deliver <==> outcome.gist() is Commands,
    {
        let failed = match outcome {
            Outcome::Failed(_) => true,
            _ => false,
        };
        if failed && ending.proxied && !ending.answered && ending.closed {
            *learned = self.learn(*learned, wait, ending.elapsed);
        }
        let (available, correction, destination) = match outcome {
            Outcome::Commands(_, _) => (true, None, false),
            Outcome::Refused(refusal) => {
                let correction = match &refusal.correction {
                    Some(inner) => Some(inner.clone()),
                    None => None,
                };
                (false, correction, refusal.failed_destination)
            },
            Outcome::Failed(failure) => (
                false,
                None,
                !ending.answered || way_failure(*failure),
            ),
        };
        routing.complete(attempt, correction, available, destination);
        observation.settle(outcome, now);
        if available {
            Step::Deliver
        } else {
            Step::Retry
        }
    }
}

/// The seconds since 1970 that `httpdate` reads in a date.
pub uninterp spec fn http_date(value: Seq<char>) -> Option<u64>;

/// Reads a date of HTTP: `httpdate::parse_http_date`, which depends on the text alone and gives times
/// from 1970 on.
#[verifier::external_body]
fn date(value: &str) -> (result: Option<u64>)
    ensures
        result == http_date(value@),
{
    let time = httpdate::parse_http_date(value).ok()?;
    time.duration_since(std::time::SystemTime::UNIX_EPOCH).ok().map(|elapsed| elapsed.as_secs())
}

/// The longest delay that the service can ask for: a minute.
pub const LONGEST_DELAY: u64 = 60_000_000_000;

/// The delay that the service asks for, in nanoseconds: a number of seconds or a date, a minute at
/// most.
pub open spec fn asked_delay(entries: Map<Seq<char>, Seq<Seq<u8>>>, now: u64) -> int {
    let values = header::values_in(entries, "retry-after"@);
    if values.len() == 0 || header::ascii_text(values[0]) is None {
        0
    } else {
        let value = text::trim_of(header::ascii_text(values[0])->0);
        if text::all_digits(value) {
            smaller(text::digits_value(value) as int * 1_000_000_000, LONGEST_DELAY as int)
        } else {
            match http_date(value) {
                Some(seconds) => if seconds * 1_000_000_000 >= now {
                    smaller(seconds * 1_000_000_000 - now, LONGEST_DELAY as int)
                } else {
                    0
                },
                None => 0,
            }
        }
    }
}

fn digits(value: &str) -> (result: bool)
    ensures
        result == text::all_digits(value@),
{
    let all = text::chars(value);
    let mut index: usize = 0;
    while index < all.len()
        invariant
            index <= all.len(),
            all@ == value@,
            forall|i: int| 0 <= i < index ==> text::is_digit(#[trigger] value@[i]),
        decreases all.len() - index,
    {
        if !text::digit(all[index]) {
            assert(!text::is_digit(value@[index as int]));
            return false;
        }
        index = index + 1;
    }
    all.len() > 0
}

/// The delay before the next attempt: the own one, or the one that the service asks for where that is
/// longer.
pub fn retry_delay(own: u64, headers: &header::Headers, now: u64) -> (result: Span)
    ensures
        result.0 == larger(own as int, asked_delay(header::header_entries(*headers), now)),
{
    proof {
        reveal_strlit("retry-after");
        assert(text::lowercase_of("retry-after"@) =~= "retry-after"@);
    }
    let values = header::values(headers, "retry-after");
    assert(header::byte_views(values@).len() == values@.len());
    if values.len() == 0 {
        return Span(own);
    }
    assert(header::byte_views(values@)[0] == values@[0]@);
    let value = match header::ascii(&values[0]) {
        Some(value) => text::trim(&value),
        None => {
            return Span(own);
        },
    };
    let asked: u64 = if digits(&value) {
        assert(value@[0] != '+');
        match text::unsigned(&value) {
            Some(seconds) => if seconds >= 60 {
                LONGEST_DELAY
            } else {
                seconds * 1_000_000_000
            },
            None => LONGEST_DELAY,
        }
    } else {
        match date(&value) {
            Some(seconds) => {
                let wide: u128 = seconds as u128 * 1_000_000_000;
                if wide < now as u128 {
                    0
                } else if wide - now as u128 >= LONGEST_DELAY as u128 {
                    LONGEST_DELAY
                } else {
                    (wide - now as u128) as u64
                }
            },
            None => 0,
        }
    };
    Span(most(own, asked))
}

/// The service can put off the next attempt by a minute at most.
pub proof fn lemma_delay_bounded(entries: Map<Seq<char>, Seq<Seq<u8>>>, now: u64)
    ensures
        0 <= asked_delay(entries, now) <= LONGEST_DELAY,
{
}

/// A poll waits as long as is configured, or as long as was learned where that is shorter; the first one waits
/// no longer than its own time.
pub proof fn lemma_wait_chosen(control: Control, learned: u64, initial: bool, wait: Wait)
    requires
        control.waits(learned, initial, wait),
    ensures
        learned == 0 ==> wait.duration.0 == control.poll_timeout.0,
        learned > 0 && learned * 1_000_000 <= control.poll_timeout.0 ==> wait.duration.0 == learned
            * 1_000_000,
        learned > 0 && learned * 1_000_000 >= control.poll_timeout.0 ==> wait.duration.0
            == control.poll_timeout.0,
        !initial ==> wait.requested.0 == wait.duration.0,
        initial && control.initial_poll_timeout.0 <= wait.duration.0 ==> wait.requested.0
            == control.initial_poll_timeout.0,
        initial && control.initial_poll_timeout.0 >= wait.duration.0 ==> wait.requested.0
            == wait.duration.0,
{
}

/// A connection that was closed too early teaches a shorter wait, with the guard as its margin; nothing is learned
/// from a short poll, from one that closed within five seconds, or from one that ran its whole time.
pub proof fn lemma_learned_with_margin(current: int, requested: int, elapsed: int, duration: int, guard: int)
    requires
        guard >= 0,
    ensures
        requested <= 5_000_000_000 || elapsed <= 5_000_000_000 || elapsed >= duration + guard
            ==> learned_from(current, requested, elapsed, duration, guard) == current,
        requested > 5_000_000_000 && elapsed < duration + guard && guard >= 5_000_000_000 && elapsed >= 2
            * guard && elapsed - guard < requested && (current == 0 || (elapsed - guard) / 1_000_000
            < current) ==> learned_from(current, requested, elapsed, duration, guard) == (elapsed - guard)
            / 1_000_000,
        learned_from(current, requested, elapsed, duration, guard) != current ==> {
            let learned = learned_from(current, requested, elapsed, duration, guard);
            learned * 1_000_000 < requested && learned * 1_000_000 <= elapsed && 5_000 <= learned
        },
{
}

/// A refused poll tells that its destination failed exactly with 408 and from 500 to 599, or where the way to it
/// broke; only a 409 corrects the route.
pub proof fn lemma_refusal_reads(
    refusal: Refusal,
    status: u16,
    entries: Map<Seq<char>, Seq<Seq<u8>>>,
    body: Refused,
)
    requires
        is_refusal(refusal, status, entries, body),
    ensures
        refusal.error.status == status,
        status == 408 || (500 <= status && status <= 599) ==> refusal.failed_destination,
        refusal.failed_destination ==> status == 408 || (500 <= status && status <= 599) || (
        body matches Refused::Broken(failure) && (failure == Failure::Network || failure
            == Failure::Timeout)),
        body matches Refused::Broken(failure) ==> (failure == Failure::Network || failure
            == Failure::Timeout ==> refusal.failed_destination),
        refusal.correction is Some ==> status == 409,
        status == 409 ==> (body matches Refused::Read(bytes) ==> (correction_of(entries, bytes@) matches Ok(
            Some(expected),
        ) ==> refusal.correction is Some && refusal.correction->0@ == expected)),
{
}

/// After commands came the service counts as reached and no failure is left; after anything else it does not, and
/// one more failure counts.
pub proof fn lemma_poll_settles(state: ObservationView, outcome: OutcomeView, now: u64)
    requires
        state.has_room(match outcome {
            OutcomeView::Commands(count, _) => count,
            _ => 0,
        }),
    ensures
        ({
            let after = state.settled(outcome, now);
            match outcome {
                OutcomeView::Commands(count, status) => {
                    &&& after.connected
                    &&& after.poll_state == "idle"@
                    &&& after.consecutive_failures == 0
                    &&& after.commands == state.commands + count
                    &&& after.last_success == now
                    &&& after.last_error == state.last_error
                    &&& after.errors == state.errors
                    &&& after.failure_category.len() == 0
                    &&& after.http_status == status
                },
                OutcomeView::Refused { status, correction, failed } => {
                    &&& !after.connected
                    &&& after.poll_state == "backoff"@
                    &&& after.consecutive_failures == state.consecutive_failures + 1
                    &&& after.errors == state.errors + 1
                    &&& after.last_error == now
                    &&& after.last_success == state.last_success
                    &&& after.commands == state.commands
                    &&& after.failure_category == "http_error"@
                    &&& after.http_status == status
                },
                OutcomeView::Failed(failure) => {
                    &&& !after.connected
                    &&& after.poll_state == "backoff"@
                    &&& after.consecutive_failures == state.consecutive_failures + 1
                    &&& after.errors == state.errors + 1
                    &&& after.last_error == now
                    &&& after.http_status == 0
                    &&& failure == Failure::Timeout ==> after.timeouts == state.timeouts + 1
                        && after.failure_category == "timeout"@
                    &&& failure == Failure::Network ==> after.others == state.others + 1
                        && after.failure_category == "network_error"@
                },
            }
        }),
{
    reveal_strlit("timeout");
    reveal_strlit("network_error");
    reveal_strlit("request_error");
    reveal_strlit("http_error");
    assert("timeout"@.len() == 7);
    assert("network_error"@.len() == 13);
    assert("http_error"@.len() == 10);
}

/// A destination counts as failed where nothing answered, or where the way broke after an answer.
pub proof fn lemma_destination_failed(outcome: OutcomeView, answered: bool)
    ensures
        outcome matches OutcomeView::Commands(_, _) ==> !outcome.destination_failed(answered),
        outcome matches OutcomeView::Failed(failure) ==> (outcome.destination_failed(answered) <==> !answered
            || failure == Failure::Network || failure == Failure::Timeout),
        outcome matches OutcomeView::Refused { status, correction, failed } ==> outcome.destination_failed(
            answered,
        ) == failed,
{
}

/// The service asks for a pause in whole seconds or by a date, and for a minute at most; without a readable header
/// it asks for none.
pub proof fn lemma_delay_asked(entries: Map<Seq<char>, Seq<Seq<u8>>>, now: u64, value: Seq<char>)
    ensures
        !entries.dom().contains("retry-after"@) ==> asked_delay(entries, now) == 0,
        entries.dom().contains("retry-after"@) && entries["retry-after"@].len() > 0 && header::ascii_text(
            entries["retry-after"@][0],
        ) == Some(value) ==> {
            let asked = text::trim_of(value);
            &&& text::all_digits(asked) && text::digits_value(asked) <= 60 ==> asked_delay(entries, now)
                == text::digits_value(asked) * 1_000_000_000
            &&& text::all_digits(asked) && text::digits_value(asked) >= 60 ==> asked_delay(entries, now)
                == 60_000_000_000
            &&& !text::all_digits(asked) && http_date(asked) is None ==> asked_delay(entries, now) == 0
            &&& !text::all_digits(asked) && http_date(asked) is Some && http_date(asked)->0 * 1_000_000_000
                <= now ==> asked_delay(entries, now) == 0
            &&& !text::all_digits(asked) && http_date(asked) is Some && now <= http_date(asked)->0
                * 1_000_000_000 <= now + 60_000_000_000 ==> asked_delay(entries, now) == http_date(asked)->0
                * 1_000_000_000 - now
        },
{
}

/// What a poll learns from its end: only where a proxy stands between, nothing was answered, and the connection was
/// closed.
pub proof fn lemma_teaches(outcome: OutcomeView, ending: Ending)
    ensures
        teaches(outcome, ending) ==> outcome is Failed,
        teaches(outcome, ending) ==> ending.proxied,
        teaches(outcome, ending) ==> !ending.answered,
        teaches(outcome, ending) ==> ending.closed,
        outcome is Failed && ending.proxied && !ending.answered && ending.closed ==> teaches(
            outcome,
            ending,
        ),
{
}

/// What is known before the first poll.
pub proof fn lemma_polls_start(wait: Span, guard: Span)
    ensures
        ({
            let start = ObservationView::start(wait, guard);
            &&& start.poll_state == "starting"@ && !start.connected
            &&& start.effective_wait == wait.0
            &&& start.deadline == wait.0 + guard.0
            &&& start.last_attempt == 0 && start.last_success == 0 && start.last_error == 0 && start.next_retry == 0
            &&& start.consecutive_failures == 0 && start.cycles == 0 && start.errors == 0 && start.timeouts == 0
                && start.others == 0 && start.commands == 0 && start.http_status == 0
            &&& start.failure_category.len() == 0
        }),
{
}

} // verus!
