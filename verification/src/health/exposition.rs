//! The figures of a runtime, in the text that metrics are collected in.

use vstd::prelude::*;
use crate::config::settings::Config;
use crate::health::{self, count_views, errors_of, gauge_of};
use crate::metrics::{rendered, Metrics};
use crate::runtime::Snapshot;
use crate::text;

verus! {

/// The kinds of errors that polls ended in, with their counts, where there are any.
pub open spec fn kinds_of(others: u64, timeouts: u64) -> Seq<(Seq<char>, u64)> {
    let front = if others > 0 {
        seq![("other"@, others)]
    } else {
        Seq::empty()
    };
    if timeouts > 0 {
        front.push(("timeout"@, timeouts))
    } else {
        front
    }
}

fn kinds(others: u64, timeouts: u64) -> (result: Vec<(String, u64)>)
    ensures
        count_views(result@) == kinds_of(others, timeouts),
{
    let mut items: Vec<(String, u64)> = Vec::new();
    if others > 0 {
        items.push(("other".to_owned(), others));
    }
    if timeouts > 0 {
        items.push(("timeout".to_owned(), timeouts));
    }
    assert(count_views(items@) =~= kinds_of(others, timeouts));
    items
}

/// A truth value among figures.
pub open spec fn figure(value: bool) -> nat {
    if value {
        1
    } else {
        0
    }
}

/// What is told of the runtime itself and of its polls.
pub open spec fn polls_text(snapshot: Snapshot) -> Seq<char> {
    gauge_of("liveness"@, "gauge"@, "health"@, 1) + gauge_of(
        "readiness"@,
        "gauge"@,
        "health"@,
        figure(snapshot.ready),
    ) + gauge_of(
        "commands_poll_last_successful_timestamp_seconds"@,
        "gauge"@,
        "controlplane"@,
        (snapshot.control.last_success / 1_000_000_000) as nat,
    ) + gauge_of(
        "commands_poll_cycles_total"@,
        "counter"@,
        "controlplane"@,
        snapshot.control.cycles as nat,
    ) + gauge_of(
        "commands_polled_total"@,
        "counter"@,
        "controlplane"@,
        snapshot.control.commands as nat,
    )
}

/// What is told of the queue of commands.
pub open spec fn queue_text(snapshot: Snapshot, capacity: nat) -> Seq<char> {
    gauge_of(
        "commands_enqueued_total"@,
        "counter"@,
        "controlplane"@,
        snapshot.activity.enqueued as nat,
    ) + gauge_of("commands_queue_capacity"@, "gauge"@, "controlplane"@, capacity) + gauge_of(
        "commands_queue_length"@,
        "gauge"@,
        "controlplane"@,
        snapshot.activity.queued as nat,
    )
}

/// What is told of the errors that polls ended in.
pub open spec fn failures_text(snapshot: Snapshot) -> Seq<char> {
    let kinds = kinds_of(snapshot.control.others, snapshot.control.timeouts);
    if kinds.len() == 0 {
        Seq::empty()
    } else {
        errors_of(kinds, kinds.len() as int)
    }
}

/// The figures of a runtime: of its polls, its queue and its errors, then those of the calls that it made.
pub open spec fn metrics_of(snapshot: Snapshot, config: Config, calls: Metrics) -> Seq<char> {
    polls_text(snapshot) + queue_text(
        snapshot,
        config.control_plane.max_inflight_requests as nat,
    ) + failures_text(snapshot) + rendered(calls.in_order(), calls.in_order().len() as int)
}

fn polls(snapshot: &Snapshot) -> (result: String)
    ensures
        result@ == polls_text(*snapshot),
{
    let ready: u64 = if snapshot.ready {
        1
    } else {
        0
    };
    let control = &snapshot.control;
    text::cat5(
        &health::gauge("liveness", "gauge", "health", 1),
        &health::gauge("readiness", "gauge", "health", ready),
        &health::gauge(
            "commands_poll_last_successful_timestamp_seconds",
            "gauge",
            "controlplane",
            control.last_success / 1_000_000_000,
        ),
        &health::gauge("commands_poll_cycles_total", "counter", "controlplane", control.cycles),
        &health::gauge("commands_polled_total", "counter", "controlplane", control.commands),
    )
}

fn queue(snapshot: &Snapshot, capacity: u64) -> (result: String)
    ensures
        result@ == queue_text(*snapshot, capacity as nat),
{
    let activity = &snapshot.activity;
    text::cat3(
        &health::gauge("commands_enqueued_total", "counter", "controlplane", activity.enqueued),
        &health::gauge("commands_queue_capacity", "gauge", "controlplane", capacity),
        &health::gauge("commands_queue_length", "gauge", "controlplane", activity.queued as u64),
    )
}

/// Writes the figures of a runtime.
pub fn metrics(snapshot: &Snapshot, config: &Config, calls: &Metrics) -> (result: String)
    ensures
        result@ == metrics_of(*snapshot, *config, *calls),
{
    let kinds = kinds(snapshot.control.others, snapshot.control.timeouts);
    proof {
        assert(count_views(kinds@).len() == kinds@.len());
    }
    let front = text::cat3(
        &polls(snapshot),
        &queue(snapshot, config.control_plane.max_inflight_requests as u64),
        &health::errors(&kinds),
    );
    text::cat(&front, &calls.render())
}

/// Which failures of polls are counted: each kind where there are any.
pub proof fn lemma_failures_counted(others: u64, timeouts: u64)
    ensures
        kinds_of(0, 0).len() == 0,
        others > 0 && timeouts > 0 ==> kinds_of(others, timeouts) == seq![
            ("other"@, others),
            ("timeout"@, timeouts),
        ],
        others > 0 && timeouts == 0 ==> kinds_of(others, timeouts) == seq![("other"@, others)],
        others == 0 && timeouts > 0 ==> kinds_of(others, timeouts) == seq![("timeout"@, timeouts)],
        figure(true) == 1 && figure(false) == 0,
{
}

/// What is told of polls and of the queue, each under its name.
pub proof fn lemma_measures_told(snapshot: Snapshot, capacity: nat)
    ensures
        polls_text(snapshot) == gauge_of("liveness"@, "gauge"@, "health"@, 1) + gauge_of(
            "readiness"@,
            "gauge"@,
            "health"@,
            if snapshot.ready {
                1nat
            } else {
                0nat
            },
        ) + gauge_of(
            "commands_poll_last_successful_timestamp_seconds"@,
            "gauge"@,
            "controlplane"@,
            (snapshot.control.last_success / 1_000_000_000) as nat,
        ) + gauge_of(
            "commands_poll_cycles_total"@,
            "counter"@,
            "controlplane"@,
            snapshot.control.cycles as nat,
        ) + gauge_of(
            "commands_polled_total"@,
            "counter"@,
            "controlplane"@,
            snapshot.control.commands as nat,
        ),
        queue_text(snapshot, capacity) == gauge_of(
            "commands_enqueued_total"@,
            "counter"@,
            "controlplane"@,
            snapshot.activity.enqueued as nat,
        ) + gauge_of("commands_queue_capacity"@, "gauge"@, "controlplane"@, capacity) + gauge_of(
            "commands_queue_length"@,
            "gauge"@,
            "controlplane"@,
            snapshot.activity.queued as nat,
        ),
        snapshot.control.others == 0 && snapshot.control.timeouts == 0 ==> failures_text(snapshot).len() == 0,
{
}

} // verus!
