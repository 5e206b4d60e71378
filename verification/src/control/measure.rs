//! What is measured of polls and of the requests that they bring.

use vstd::prelude::*;
use crate::control::delivery::{latency, latency_of, Correlation};
use crate::metrics::{
    label_views, labels_sorted, labels_text, stepped, MetricView, Metrics, SeriesView,
};

verus! {

/// When the service took up a request.
#[derive(Clone, Copy, Debug, PartialEq, Eq, Structural)]
pub struct Created {
    /// The year where the date was written.
    pub year: i32,
    /// The seconds since 1970.
    pub seconds: i64,
    /// The nanoseconds of the second.
    pub nanos: u32,
}

impl Created {
    /// The nanoseconds since 1970.
    pub open spec fn moment(self) -> int {
        self.seconds * 1_000_000_000 + self.nanos
    }
}

/// The nanoseconds since a request was taken up. There are none where the service tells no date, or
/// one that lies ahead.
pub open spec fn age_of(created: Option<Created>, now: u64) -> Option<nat> {
    match created {
        Some(date) => if date.year > 1 && date.moment() <= now {
            Some((now - date.moment()) as nat)
        } else {
            None
        },
        None => None,
    }
}

fn age(created: Option<Created>, now: u64) -> (result: Option<u128>)
    ensures
        match result {
            Some(value) => age_of(created, now) == Some(value as nat),
            None => age_of(created, now) is None,
        },
{
    match created {
        Some(date) => {
            let moment: i128 = date.seconds as i128 * 1_000_000_000 + date.nanos as i128;
            if date.year > 1 && moment <= now as i128 {
                Some((now as i128 - moment) as u128)
            } else {
                None
            }
        },
        None => None,
    }
}

/// A number, as far as it can be told.
pub open spec fn capped_of(value: nat) -> u64 {
    if value > u64::MAX {
        u64::MAX
    } else {
        value as u64
    }
}

fn capped(value: u128) -> (result: u64)
    ensures
        result == capped_of(value as nat),
{
    if value > u64::MAX as u128 {
        u64::MAX
    } else {
        value as u64
    }
}

/// The measures after a value in millionths.
pub open spec fn observed(
    map: Map<Seq<char>, SeriesView>,
    scope: Seq<char>,
    name: Seq<char>,
    attributes: Seq<(Seq<char>, Seq<char>)>,
    value: u64,
) -> Map<Seq<char>, SeriesView> {
    stepped(
        map,
        name,
        scope,
        labels_text(labels_sorted(attributes)),
        MetricView::empty(),
        |metric: MetricView| metric.observed(value),
    )
}

/// The measures after requests came in: how many seconds each of them waited.
pub open spec fn aged_of(
    map: Map<Seq<char>, SeriesView>,
    created: Seq<Option<Created>>,
    received: u64,
) -> Map<Seq<char>, SeriesView>
    decreases created.len(),
{
    if created.len() == 0 {
        map
    } else {
        let before = aged_of(map, created.drop_last(), received);
        match age_of(created.last(), received) {
            Some(age) => observed(
                before,
                "controlplane"@,
                "commands_age_seconds"@,
                Seq::empty(),
                capped_of(age / 1_000),
            ),
            None => before,
        }
    }
}

/// Whether a poll failed, as an attribute.
pub open spec fn error_of(connected: bool) -> Seq<(Seq<char>, Seq<char>)> {
    seq![
        (
            "error"@,
            if connected {
                "false"@
            } else {
                "true"@
            },
        ),
    ]
}

/// The measures after a poll: how long its requests waited, and how many seconds it took.
pub open spec fn polled_of(
    map: Map<Seq<char>, SeriesView>,
    created: Seq<Option<Created>>,
    received: u64,
    connected: bool,
    elapsed: u64,
) -> Map<Seq<char>, SeriesView> {
    observed(
        aged_of(map, created, received),
        "controlplane"@,
        "commands_poll_latency_seconds"@,
        error_of(connected),
        elapsed / 1_000,
    )
}

fn measure_ages(metrics: Metrics, created: &Vec<Option<Created>>, received: u64) -> (result: Metrics)
    ensures
        result@ == aged_of(metrics@, created@, received),
{
    let ghost start = metrics@;
    let mut result = metrics;
    let none: Vec<(String, String)> = Vec::new();
    assert(label_views(none@) =~= Seq::empty());
    let mut index: usize = 0;
    while index < created.len()
        invariant
            index <= created.len(),
            label_views(none@) == Seq::<(Seq<char>, Seq<char>)>::empty(),
            result@ == aged_of(start, created@.take(index as int), received),
        decreases created.len() - index,
    {
        assert(created@.take(index + 1).drop_last() == created@.take(index as int));
        if let Some(age) = age(created[index], received) {
            result = result.observe(
                "controlplane",
                "commands_age_seconds",
                &none,
                capped(age / 1_000),
            );
        }
        index = index + 1;
    }
    assert(created@.take(created@.len() as int) == created@);
    result
}

/// Measures a poll that took so many nanoseconds and brought requests of the given dates.
pub fn measure_poll(
    metrics: Metrics,
    created: &Vec<Option<Created>>,
    received: u64,
    connected: bool,
    elapsed: u64,
) -> (result: Metrics)
    ensures
        result@ == polled_of(metrics@, created@, received, connected, elapsed),
{
    let aged = measure_ages(metrics, created, received);
    let mut attributes: Vec<(String, String)> = Vec::new();
    let shown = if connected {
        "false"
    } else {
        "true"
    };
    attributes.push(("error".to_owned(), shown.to_owned()));
    assert(label_views(attributes@) =~= error_of(connected));
    aged.observe("controlplane", "commands_poll_latency_seconds", &attributes, elapsed / 1_000)
}

/// A time in whole milliseconds, in millionths of one.
pub open spec fn whole_of(nanos: nat) -> u64 {
    capped_of(nanos / 1_000_000 * 1_000_000)
}

/// The measures after an answer has been delivered: how long the request took since the service took
/// it up, and since it came in.
pub open spec fn answered_of(
    map: Map<Seq<char>, SeriesView>,
    command: Correlation,
    tunnel: Seq<char>,
    status: u16,
    created: Option<Created>,
    now: u64,
    waited: u64,
) -> Map<Seq<char>, SeriesView> {
    if status == 0 {
        map
    } else {
        let first = match age_of(created, now) {
            Some(age) => observed(
                map,
                "dispatcher"@,
                "command_end_to_end_latency_milliseconds"@,
                latency_of(command, tunnel, status, "enqueue_to_response"@),
                whole_of(age),
            ),
            None => map,
        };
        observed(
            first,
            "dispatcher"@,
            "command_end_to_end_latency_milliseconds"@,
            latency_of(command, tunnel, status, "poll_to_response"@),
            whole_of(waited as nat),
        )
    }
}

/// Measures a request whose answer has been delivered with the status; a status of zero stands for
/// none that was.
pub fn record_latency(
    metrics: Metrics,
    command: &Correlation,
    tunnel: &str,
    status: u16,
    created: Option<Created>,
    now: u64,
    waited: u64,
) -> (result: Metrics)
    ensures
        result@ == answered_of(metrics@, *command, tunnel@, status, created, now, waited),
{
    let mut result = metrics;
    if let Some(age) = age(created, now) {
        if let Some(attributes) = latency(command, tunnel, status, "enqueue_to_response") {
            result = result.observe(
                "dispatcher",
                "command_end_to_end_latency_milliseconds",
                &attributes,
                capped(age / 1_000_000 * 1_000_000),
            );
        }
    }
    match latency(command, tunnel, status, "poll_to_response") {
        Some(attributes) => result.observe(
            "dispatcher",
            "command_end_to_end_latency_milliseconds",
            &attributes,
            waited / 1_000_000 * 1_000_000,
        ),
        None => result,
    }
}

/// A command has an age where it was made at a real date that is past.
pub proof fn lemma_ages(date: Created, now: u64)
    ensures
        age_of(None, now) is None,
        date.year <= 1 ==> age_of(Some(date), now) is None,
        date.moment() > now ==> age_of(Some(date), now) is None,
        date.year > 1 && date.moment() <= now ==> age_of(Some(date), now) == Some((now - date.moment()) as nat),
        date.moment() == date.seconds * 1_000_000_000 + date.nanos,
{
}

/// Each command of a poll that has an age is measured, in order; one that has none is not.
pub proof fn lemma_ages_measured(
    map: Map<Seq<char>, SeriesView>,
    created: Seq<Option<Created>>,
    last: Option<Created>,
    received: u64,
)
    ensures
        age_of(last, received) is None ==> aged_of(map, created.push(last), received) == aged_of(
            map,
            created,
            received,
        ),
        age_of(last, received) matches Some(age) ==> aged_of(map, created.push(last), received) == observed(
            aged_of(map, created, received),
            "controlplane"@,
            "commands_age_seconds"@,
            Seq::empty(),
            capped_of(age / 1_000),
        ),
        aged_of(map, Seq::empty(), received) == map,
{
    assert(created.push(last).drop_last() =~= created);
}

/// An answer is measured from the poll, and from its start where that is known; what was not answered is not measured.
pub proof fn lemma_answers_measured(
    map: Map<Seq<char>, SeriesView>,
    command: Correlation,
    tunnel: Seq<char>,
    status: u16,
    now: u64,
    waited: u64,
)
    ensures
        answered_of(map, command, tunnel, 0, None, now, waited) == map,
        status != 0 ==> answered_of(map, command, tunnel, status, None, now, waited) == observed(
            map,
            "dispatcher"@,
            "command_end_to_end_latency_milliseconds"@,
            latency_of(command, tunnel, status, "poll_to_response"@),
            whole_of(waited as nat),
        ),
        error_of(true) == seq![("error"@, "false"@)],
        error_of(false) == seq![("error"@, "true"@)],
        waited < 1_000_000 ==> whole_of(waited as nat) == 0,
        whole_of(waited as nat) <= waited,
        waited - whole_of(waited as nat) < 1_000_000,
{
}

/// A poll is measured by how long it took, and by whether it was answered.
pub proof fn lemma_poll_measured(map: Map<Seq<char>, SeriesView>, received: u64, connected: bool, elapsed: u64)
    ensures
        polled_of(map, Seq::empty(), received, connected, elapsed) == observed(
            map,
            "controlplane"@,
            "commands_poll_latency_seconds"@,
            error_of(connected),
            elapsed / 1_000,
        ),
        capped_of(elapsed as nat) == elapsed,
{
    assert(aged_of(map, Seq::empty(), received) == map);
}

} // verus!
