//! What is measured of calls to targets.

use vstd::prelude::*;
use crate::metrics::{
    label_views, labels_sorted, labels_text, stepped, MetricView, Metrics, SeriesView,
};
use crate::text;

verus! {

/// The class of a status in the metrics of calls.
pub open spec fn status_class_of(status: u16) -> Seq<char> {
    if 100 <= status < 600 {
        text::decimal_of(status as nat / 100) + "xx"@
    } else {
        "none"@
    }
}

/// The class of a status in the metrics of calls.
fn status_class(status: u16) -> (result: String)
    ensures
        result@ == status_class_of(status),
{
    if 100 <= status && status < 600 {
        text::cat(&text::decimal((status / 100) as u64), "xx")
    } else {
        "none".to_owned()
    }
}

/// The attributes of a call in the metrics.
pub open spec fn attributes_of(label: Seq<char>, status: u16, outcome: Seq<char>) -> Seq<
    (Seq<char>, Seq<char>),
> {
    seq![("label"@, label), ("status_class"@, status_class_of(status)), ("outcome"@, outcome)]
}

/// The attributes of a call in the metrics.
fn attributes(label: &str, status: u16, outcome: &str) -> (result: Vec<(String, String)>)
    ensures
        label_views(result@) == attributes_of(label@, status, outcome@),
{
    let mut items: Vec<(String, String)> = Vec::new();
    items.push(("label".to_owned(), label.to_owned()));
    items.push(("status_class".to_owned(), status_class(status)));
    items.push(("outcome".to_owned(), outcome.to_owned()));
    assert(label_views(items@) =~= attributes_of(label@, status, outcome@));
    items
}

/// A number of bytes in millionths, as far as it can be told.
pub open spec fn millionths(bytes: nat) -> u64 {
    if bytes * 1_000_000 > u64::MAX {
        u64::MAX
    } else {
        (bytes * 1_000_000) as u64
    }
}

/// The measures after a call that took so many nanoseconds and gave so many bytes.
pub open spec fn recorded(
    map: Map<Seq<char>, SeriesView>,
    attributes: Seq<(Seq<char>, Seq<char>)>,
    nanos: u64,
    bytes: nat,
) -> Map<Seq<char>, SeriesView> {
    let labels = labels_text(labels_sorted(attributes));
    let counted = stepped(
        map,
        "harpoon_call_total"@,
        "harpoon"@,
        labels,
        MetricView::Counter(0),
        |metric: MetricView| metric.incremented(),
    );
    let timed = stepped(
        counted,
        "harpoon_call_latency_milliseconds"@,
        "harpoon"@,
        labels,
        MetricView::empty(),
        |metric: MetricView| metric.observed(nanos),
    );
    stepped(
        timed,
        "harpoon_response_size_bytes"@,
        "harpoon"@,
        labels,
        MetricView::empty(),
        |metric: MetricView| metric.observed(millionths(bytes)),
    )
}

/// What is measured of a call.
pub struct Call {
    /// The label of the target, once it is known.
    pub label: String,
    /// The status of the answer, once there is one.
    pub status: u16,
    /// The size of the answer.
    pub bytes: usize,
    pub outcome: String,
}

impl Call {
    /// A call of which nothing is known.
    pub fn new() -> (result: Call)
        ensures
            result.label@ == "__unknown__"@,
            result.status == 0,
            result.bytes == 0,
            result.outcome@ == "invalid_input"@,
    {
        Call {
            label: "__unknown__".to_owned(),
            status: 0,
            bytes: 0,
            outcome: "invalid_input".to_owned(),
        }
    }

    /// Measures the call: that it was made, how many nanoseconds it took and how much it gave.
    pub fn record(&self, metrics: Metrics, nanos: u64) -> (result: Metrics)
        ensures
            result@ == recorded(
                metrics@,
                attributes_of(self.label@, self.status, self.outcome@),
                nanos,
                self.bytes as nat,
            ),
    {
        let labels = attributes(&self.label, self.status, &self.outcome);
        let size: u64 = if self.bytes as u128 * 1_000_000 > u64::MAX as u128 {
            u64::MAX
        } else {
            (self.bytes as u128 * 1_000_000) as u64
        };
        assert(size == millionths(self.bytes as nat));
        metrics.increment("harpoon", "harpoon_call_total", &labels).observe(
            "harpoon",
            "harpoon_call_latency_milliseconds",
            &labels,
            nanos,
        ).observe("harpoon", "harpoon_response_size_bytes", &labels, size)
    }
}

/// A call is counted under its label, the class of its status and how it went.
pub proof fn lemma_call_labels(label: Seq<char>, status: u16, outcome: Seq<char>)
    ensures
        100 <= status <= 599 ==> status_class_of(status) == text::decimal_of(status as nat / 100) + "xx"@,
        status < 100 || status >= 600 ==> status_class_of(status) == "none"@,
        attributes_of(label, status, outcome) == seq![
            ("label"@, label),
            ("status_class"@, status_class_of(status)),
            ("outcome"@, outcome),
        ],
        millionths(0) == 0 && millionths(3) == 3_000_000,
{
}

/// A call counts once, and its time and its size are measured.
pub proof fn lemma_call_measured(
    map: Map<Seq<char>, SeriesView>,
    attributes: Seq<(Seq<char>, Seq<char>)>,
    nanos: u64,
    bytes: nat,
)
    ensures
        ({
            let labels = labels_text(labels_sorted(attributes));
            let after = recorded(map, attributes, nanos, bytes);
            let total = crate::metrics::key_of("harpoon_call_total"@, "harpoon"@, labels);
            let size = crate::metrics::key_of("harpoon_response_size_bytes"@, "harpoon"@, labels);
            &&& after.dom().contains(total)
            &&& after.dom().contains(size)
            &&& !map.dom().contains(total) && total != size && total != crate::metrics::key_of(
                "harpoon_call_latency_milliseconds"@,
                "harpoon"@,
                labels,
            ) ==> after[total].metric == MetricView::Counter(1)
        }),
{
}

} // verus!
