//! Counters and histograms, and their text.

use vstd::prelude::*;
use vstd::relations::{sorted_by, total_ordering};
use crate::config::duration::{scaled, scaled_of};
use crate::table::Table;
use crate::text;

verus! {

/// The upper bounds of the buckets of a histogram.
pub open spec fn bounds_of() -> Seq<u64> {
    seq![0u64, 5, 10, 25, 50, 75, 100, 250, 500, 750, 1000, 2500, 5000, 7500, 10000]
}

fn bounds() -> (result: Vec<u64>)
    ensures
        result@ == bounds_of(),
{
    let mut result: Vec<u64> = Vec::new();
    result.push(0);
    result.push(5);
    result.push(10);
    result.push(25);
    result.push(50);
    result.push(75);
    result.push(100);
    result.push(250);
    result.push(500);
    result.push(750);
    result.push(1000);
    result.push(2500);
    result.push(5000);
    result.push(7500);
    result.push(10000);
    assert(result@ =~= bounds_of());
    result
}

/// What is measured.
pub enum Metric {
    Counter(u64),
    /// How many values there were, their sum in millionths, and how many were within each bound.
    Histogram { count: u64, sum: u64, buckets: Vec<u64> },
}

/// What is measured.
#[verifier::ext_equal]
pub enum MetricView {
    Counter(u64),
    Histogram { count: u64, sum: u64, buckets: Seq<u64> },
}

impl View for Metric {
    type V = MetricView;

    open spec fn view(&self) -> MetricView {
        match self {
            Metric::Counter(count) => MetricView::Counter(*count),
            Metric::Histogram { count, sum, buckets } => MetricView::Histogram {
                count: *count,
                sum: *sum,
                buckets: buckets@,
            },
        }
    }
}

/// A measure with its name, its scope and its labels.
pub struct Series {
    pub name: String,
    pub scope: String,
    pub labels: String,
    pub metric: Metric,
}

/// The contents of [`Series`].
#[verifier::ext_equal]
pub struct SeriesView {
    pub name: Seq<char>,
    pub scope: Seq<char>,
    pub labels: Seq<char>,
    pub metric: MetricView,
}

impl View for Series {
    type V = SeriesView;

    open spec fn view(&self) -> SeriesView {
        SeriesView {
            name: self.name@,
            scope: self.scope@,
            labels: self.labels@,
            metric: self.metric@,
        }
    }
}

/// All that is measured, by name, scope and labels.
pub struct Metrics {
    pub series: Table<Series>,
}

/// The contents of a table of measures.
pub open spec fn series_views(map: Map<Seq<char>, Series>) -> Map<Seq<char>, SeriesView> {
    Map::new(|key: Seq<char>| map.dom().contains(key), |key: Seq<char>| map[key]@)
}

impl View for Metrics {
    type V = Map<Seq<char>, SeriesView>;

    open spec fn view(&self) -> Map<Seq<char>, SeriesView> {
        series_views(self.series@)
    }
}

/// What a character of a label becomes in the text.
pub open spec fn escaped_char(ch: char) -> Seq<char> {
    if ch == '\\' {
        "\\\\"@
    } else if ch == '\n' {
        "\\n"@
    } else if ch == '"' {
        "\\\""@
    } else {
        seq![ch]
    }
}

/// What the value of a label becomes in the text.
pub open spec fn escaped(value: Seq<char>) -> Seq<char>
    decreases value.len(),
{
    if value.len() == 0 {
        Seq::empty()
    } else {
        escaped(value.drop_last()) + escaped_char(value.last())
    }
}

fn escape(value: &str) -> (result: String)
    ensures
        result@ == escaped(value@),
{
    let all = text::chars(value);
    let mut result = String::new();
    let mut index: usize = 0;
    assert(result@ =~= escaped(value@.take(0)));
    while index < all.len()
        invariant
            index <= all.len(),
            all@ == value@,
            result@ == escaped(value@.take(index as int)),
        decreases all.len() - index,
    {
        let ch = all[index];
        proof {
            assert(value@.take(index + 1).drop_last() == value@.take(index as int));
            assert(value@.take(index + 1).last() == ch);
        }
        if ch == '\\' {
            result.append("\\\\");
        } else if ch == '\n' {
            result.append("\\n");
        } else if ch == '"' {
            result.append("\\\"");
        } else {
            let ghost before = result@;
            result.push(ch);
            assert(result@ == before + seq![ch]);
        }
        index = index + 1;
    }
    assert(value@.take(value@.len() as int) == value@);
    result
}

/// Whether a label comes before another one: by its name, then by its value.
pub open spec fn label_before(left: (Seq<char>, Seq<char>), right: (Seq<char>, Seq<char>)) -> bool {
    text::precedes(left.0, right.0) || (left.0 == right.0 && text::precedes(left.1, right.1))
}

/// The labels in order with one more at its place.
pub open spec fn label_placed(items: Seq<(Seq<char>, Seq<char>)>, label: (Seq<char>, Seq<char>)) -> Seq<
    (Seq<char>, Seq<char>),
>
    decreases items.len(),
{
    if items.len() == 0 || !label_before(label, items.last()) {
        items.push(label)
    } else {
        label_placed(items.drop_last(), label).push(items.last())
    }
}

/// The labels in order.
pub open spec fn labels_sorted(items: Seq<(Seq<char>, Seq<char>)>) -> Seq<(Seq<char>, Seq<char>)>
    decreases items.len(),
{
    if items.len() == 0 {
        Seq::empty()
    } else {
        label_placed(labels_sorted(items.drop_last()), items.last())
    }
}

/// Whether a label stands in order in front of another one.
pub open spec fn label_order() -> spec_fn((Seq<char>, Seq<char>), (Seq<char>, Seq<char>)) -> bool {
    |left: (Seq<char>, Seq<char>), right: (Seq<char>, Seq<char>)| !label_before(right, left)
}

proof fn lemma_label_order_total()
    ensures
        total_ordering(label_order()),
{
    let order = label_order();
    assert forall|one: (Seq<char>, Seq<char>)| #[trigger] order(one, one) by {
        text::lemma_precedes_irreflexive(one.0);
        text::lemma_precedes_irreflexive(one.1);
    }
    assert forall|one: (Seq<char>, Seq<char>), two: (Seq<char>, Seq<char>)| #[trigger]
        order(one, two) && #[trigger] order(two, one) implies one == two by {
        text::lemma_precedes_total(one.0, two.0);
        text::lemma_precedes_total(one.1, two.1);
    }
    assert forall|
        one: (Seq<char>, Seq<char>),
        two: (Seq<char>, Seq<char>),
        three: (Seq<char>, Seq<char>),
    | #[trigger] order(one, two) && #[trigger] order(two, three) implies order(one, three) by {
        lemma_label_transitive(one, two, three);
    }
    assert forall|one: (Seq<char>, Seq<char>), two: (Seq<char>, Seq<char>)| #[trigger]
        order(one, two) || #[trigger] order(two, one) by {
        lemma_label_one_way(one, two);
    }
}

proof fn lemma_label_one_way(one: (Seq<char>, Seq<char>), two: (Seq<char>, Seq<char>))
    ensures
        !(label_before(one, two) && label_before(two, one)),
{
    if label_before(one, two) && label_before(two, one) {
        if text::precedes(one.0, two.0) && text::precedes(two.0, one.0) {
            text::lemma_precedes_transitive(one.0, two.0, one.0);
        }
        if text::precedes(one.1, two.1) && text::precedes(two.1, one.1) {
            text::lemma_precedes_transitive(one.1, two.1, one.1);
        }
        text::lemma_precedes_irreflexive(one.0);
        text::lemma_precedes_irreflexive(one.1);
    }
}

proof fn lemma_label_transitive(
    one: (Seq<char>, Seq<char>),
    two: (Seq<char>, Seq<char>),
    three: (Seq<char>, Seq<char>),
)
    requires
        !label_before(two, one),
        !label_before(three, two),
    ensures
        !label_before(three, one),
{
    text::lemma_precedes_total(one.0, two.0);
    text::lemma_precedes_total(two.0, three.0);
    text::lemma_precedes_total(one.1, two.1);
    text::lemma_precedes_total(two.1, three.1);
    if label_before(three, one) {
        if text::precedes(one.0, two.0) && text::precedes(two.0, three.0) {
            text::lemma_precedes_transitive(one.0, two.0, three.0);
        }
        if text::precedes(one.1, two.1) && text::precedes(two.1, three.1) {
            text::lemma_precedes_transitive(one.1, two.1, three.1);
        }
        lemma_label_one_way(three, one);
    }
}

proof fn lemma_label_placed(items: Seq<(Seq<char>, Seq<char>)>, label: (Seq<char>, Seq<char>))
    requires
        sorted_by(items, label_order()),
    ensures
        sorted_by(label_placed(items, label), label_order()),
        label_placed(items, label).to_multiset() == items.to_multiset().insert(label),
    decreases items.len(),
{
    broadcast use vstd::seq_lib::group_to_multiset_ensures;

    let order = label_order();
    lemma_label_order_total();
    if items.len() == 0 || !label_before(label, items.last()) {
        let made = items.push(label);
        assert forall|i: int, j: int| 0 <= i < j < made.len() implies #[trigger] order(
            made[i],
            made[j],
        ) by {
            if j < items.len() {
                assert(order(items[i], items[j]));
            } else {
                assert(order(items.last(), label));
                if i < items.len() - 1 {
                    assert(order(items[i], items[items.len() - 1]));
                }
            }
        }
    } else {
        let front = items.drop_last();
        let last = items.last();
        let inner = label_placed(front, label);
        let made = inner.push(last);
        assert(sorted_by(front, order)) by {
            assert forall|i: int, j: int| 0 <= i < j < front.len() implies #[trigger] order(
                front[i],
                front[j],
            ) by {
                assert(order(items[i], items[j]));
            }
        }
        lemma_label_placed(front, label);
        assert(items =~= front.push(last));
        assert(made.to_multiset() =~= items.to_multiset().insert(label));
        assert forall|i: int, j: int| 0 <= i < j < made.len() implies #[trigger] order(
            made[i],
            made[j],
        ) by {
            if j < inner.len() {
                assert(order(inner[i], inner[j]));
            } else {
                assert(inner.to_multiset().contains(inner[i]));
                if inner[i] != label {
                    assert(front.to_multiset().contains(inner[i]));
                    assert(front.contains(inner[i]));
                    let at = choose|at: int| 0 <= at < front.len() && front[at] == inner[i];
                    assert(order(items[at], items[items.len() - 1]));
                } else {
                    lemma_label_one_way(label, last);
                }
            }
        }
    }
}

proof fn lemma_labels_sorted(items: Seq<(Seq<char>, Seq<char>)>)
    ensures
        sorted_by(labels_sorted(items), label_order()),
        labels_sorted(items).to_multiset() == items.to_multiset(),
    decreases items.len(),
{
    broadcast use vstd::seq_lib::group_to_multiset_ensures;

    if items.len() > 0 {
        lemma_labels_sorted(items.drop_last());
        lemma_label_placed(labels_sorted(items.drop_last()), items.last());
        assert(items =~= items.drop_last().push(items.last()));
    } else {
        assert(labels_sorted(items) =~= items);
    }
}

/// The order in which the labels of a measure are given does not count.
pub proof fn lemma_labels_any_order(
    left: Seq<(Seq<char>, Seq<char>)>,
    right: Seq<(Seq<char>, Seq<char>)>,
)
    requires
        left.to_multiset() == right.to_multiset(),
    ensures
        labels_sorted(left) == labels_sorted(right),
{
    lemma_label_order_total();
    lemma_labels_sorted(left);
    lemma_labels_sorted(right);
    vstd::seq_lib::lemma_sorted_unique(labels_sorted(left), labels_sorted(right), label_order());
}

/// The contents of a list of labels.
pub open spec fn label_views(items: Seq<(String, String)>) -> Seq<(Seq<char>, Seq<char>)> {
    items.map_values(|item: (String, String)| (item.0@, item.1@))
}

fn before(left: &(String, String), right: &(String, String)) -> (result: bool)
    ensures
        result == label_before((left.0@, left.1@), (right.0@, right.1@)),
{
    text::before(&left.0, &right.0) || (text::same(&left.0, &right.0) && text::before(
        &left.1,
        &right.1,
    ))
}

fn place(items: &mut Vec<(String, String)>, label: (String, String))
    ensures
        label_views(final(items)@) == label_placed(label_views(old(items)@), (label.0@, label.1@)),
{
    let ghost given = items@;
    let ghost all = label_views(given);
    let ghost own = (label.0@, label.1@);
    let mut at: usize = items.len();
    assert(given.skip(given.len() as int) =~= Seq::<(String, String)>::empty());
    assert(all.take(all.len() as int) == all);
    assert(label_views(given.skip(given.len() as int)) =~= Seq::<(Seq<char>, Seq<char>)>::empty());
    while at > 0 && before(&label, &items[at - 1])
        invariant
            at <= items.len(),
            items@ == given,
            all == label_views(given),
            own == (label.0@, label.1@),
            label_placed(all, own) == label_placed(all.take(at as int), own) + all.skip(at as int),
        decreases at,
    {
        proof {
            let front = all.take(at as int);
            assert(front.last() == all[at - 1]);
            assert(all[at - 1] == (given[at - 1].0@, given[at - 1].1@));
            assert(front.drop_last() == all.take(at - 1));
            assert(all.skip(at - 1) =~= seq![all[at - 1]] + all.skip(at as int));
            assert(label_placed(front, own) == label_placed(all.take(at - 1), own).push(
                all[at - 1],
            ));
            assert(label_placed(all.take(at - 1), own).push(all[at - 1]) + all.skip(at as int)
                =~= label_placed(all.take(at - 1), own) + all.skip(at - 1));
        }
        at = at - 1;
    }
    proof {
        let front = all.take(at as int);
        if at > 0 {
            assert(front.last() == all[at - 1]);
            assert(all[at - 1] == (given[at - 1].0@, given[at - 1].1@));
        }
        assert(label_placed(front, own) == front.push(own));
    }
    let ghost moved = label;
    items.insert(at, label);
    proof {
        assert(items@ == given.insert(at as int, moved));
        assert(label_views(items@) =~= all.take(at as int).push(own) + all.skip(at as int));
    }
}

/// The text of one label.
pub open spec fn label_text(label: (Seq<char>, Seq<char>)) -> Seq<char> {
    label.0 + "=\""@ + escaped(label.1) + "\","@
}

/// The text of labels.
pub open spec fn labels_text(items: Seq<(Seq<char>, Seq<char>)>) -> Seq<char>
    decreases items.len(),
{
    if items.len() == 0 {
        Seq::empty()
    } else {
        labels_text(items.drop_last()) + label_text(items.last())
    }
}

/// The text of labels, in order.
pub fn labels(attributes: &Vec<(String, String)>) -> (result: String)
    ensures
        result@ == labels_text(labels_sorted(label_views(attributes@))),
{
    let ghost given = label_views(attributes@);
    let mut items: Vec<(String, String)> = Vec::new();
    let mut index: usize = 0;
    assert(label_views(items@) =~= Seq::<(Seq<char>, Seq<char>)>::empty());
    while index < attributes.len()
        invariant
            index <= attributes.len(),
            given == label_views(attributes@),
            label_views(items@) == labels_sorted(given.take(index as int)),
        decreases attributes.len() - index,
    {
        let label = (attributes[index].0.clone(), attributes[index].1.clone());
        proof {
            assert(given.take(index + 1).drop_last() == given.take(index as int));
            assert(given.take(index + 1).last() == (label.0@, label.1@));
        }
        place(&mut items, label);
        index = index + 1;
    }
    assert(given.take(given.len() as int) == given);
    let ghost all = label_views(items@);
    let mut result = String::new();
    let mut next: usize = 0;
    assert(result@ =~= labels_text(all.take(0)));
    while next < items.len()
        invariant
            next <= items.len(),
            all == label_views(items@),
            result@ == labels_text(all.take(next as int)),
        decreases items.len() - next,
    {
        proof {
            assert(all.take(next + 1).drop_last() == all.take(next as int));
            assert(all.take(next + 1).last() == (items@[next as int].0@, items@[next as int].1@));
        }
        let one = text::cat(
            &text::cat3(&items[next].0, "=\"", &escape(&items[next].1)),
            "\",",
        );
        result = text::cat(&result, &one);
        next = next + 1;
    }
    assert(all.take(all.len() as int) == all);
    result
}

/// The key of a measure. What separates its parts comes before all that they hold.
pub open spec fn key_of(name: Seq<char>, scope: Seq<char>, labels: Seq<char>) -> Seq<char> {
    name + "\u{0}"@ + scope + "\u{0}"@ + labels
}

fn key(name: &str, scope: &str, labels: &str) -> (result: String)
    ensures
        result@ == key_of(name@, scope@, labels@),
{
    text::cat5(name, "\u{0}", scope, "\u{0}", labels)
}

/// One more, where that can be counted.
pub open spec fn counted(value: u64, more: u64) -> u64 {
    if value + more > u64::MAX {
        u64::MAX
    } else {
        (value + more) as u64
    }
}

/// One more, where that can be counted.
pub fn count(value: u64, more: u64) -> (result: u64)
    ensures
        result == counted(value, more),
{
    if value > u64::MAX - more {
        u64::MAX
    } else {
        value + more
    }
}

impl MetricView {
    /// The counter after one more event.
    pub open spec fn incremented(self) -> MetricView {
        match self {
            MetricView::Counter(value) => MetricView::Counter(counted(value, 1)),
            _ => self,
        }
    }

    /// The histogram after one more value, in millionths.
    pub open spec fn observed(self, value: u64) -> MetricView {
        match self {
            MetricView::Histogram { count, sum, buckets } => MetricView::Histogram {
                count: counted(count, 1),
                sum: counted(sum, value),
                buckets: Seq::new(
                    buckets.len(),
                    |i: int|
                        if i < bounds_of().len() && value <= bounds_of()[i] * 1_000_000 {
                            counted(buckets[i], 1)
                        } else {
                            buckets[i]
                        },
                ),
            },
            _ => self,
        }
    }

    /// A histogram without values.
    pub open spec fn empty() -> MetricView {
        MetricView::Histogram { count: 0, sum: 0, buckets: Seq::new(15, |i: int| 0u64) }
    }
}

fn observed(metric: Metric, value: u64) -> (result: Metric)
    ensures
        result@ == metric@.observed(value),
{
    match metric {
        Metric::Histogram { count: total, sum, buckets } => {
            let limits = bounds();
            let mut next: Vec<u64> = Vec::new();
            let mut index: usize = 0;
            while index < buckets.len()
                invariant
                    index <= buckets.len(),
                    limits@ == bounds_of(),
                    next@.len() == index,
                    forall|i: int|
                        0 <= i < index ==> #[trigger] next@[i] == (if i < bounds_of().len() && value
                            <= bounds_of()[i] * 1_000_000 {
                            counted(buckets@[i], 1)
                        } else {
                            buckets@[i]
                        }),
                decreases buckets.len() - index,
            {
                let within = index < limits.len() && value as u128 <= limits[index] as u128
                    * 1_000_000;
                next.push(
                    if within {
                        count(buckets[index], 1)
                    } else {
                        buckets[index]
                    },
                );
                index = index + 1;
            }
            let result = Metric::Histogram {
                count: count(total, 1),
                sum: count(sum, value),
                buckets: next,
            };
            assert(result@ =~= metric@.observed(value));
            result
        },
        other => other,
    }
}

fn zeros() -> (result: Vec<u64>)
    ensures
        result@ == Seq::new(15, |i: int| 0u64),
{
    let mut result: Vec<u64> = Vec::new();
    let mut index: usize = 0;
    while index < 15
        invariant
            index <= 15,
            result@ == Seq::new(index as nat, |i: int| 0u64),
        decreases 15 - index,
    {
        result.push(0);
        index = index + 1;
        assert(result@ =~= Seq::new(index as nat, |i: int| 0u64));
    }
    result
}

/// A measure after an event: the one that is there, or a new one.
pub open spec fn stepped(
    map: Map<Seq<char>, SeriesView>,
    name: Seq<char>,
    scope: Seq<char>,
    labels: Seq<char>,
    fresh: MetricView,
    step: spec_fn(MetricView) -> MetricView,
) -> Map<Seq<char>, SeriesView> {
    let key = key_of(name, scope, labels);
    let before = if map.dom().contains(key) {
        map[key]
    } else {
        SeriesView { name, scope, labels, metric: fresh }
    };
    map.insert(key, SeriesView { metric: step(before.metric), ..before })
}

impl Metrics {
    /// Nothing measured yet.
    pub fn new() -> (result: Metrics)
        ensures
            result@ == Map::<Seq<char>, SeriesView>::empty(),
    {
        let result = Metrics { series: Table::new() };
        assert(result@ =~= Map::<Seq<char>, SeriesView>::empty());
        result
    }

    /// Counts an event.
    pub fn increment(self, scope: &str, name: &str, attributes: &Vec<(String, String)>) -> (result:
        Metrics)
        ensures
            result@ == stepped(
                self@,
                name@,
                scope@,
                labels_text(labels_sorted(label_views(attributes@))),
                MetricView::Counter(0),
                |metric: MetricView| metric.incremented(),
            ),
    {
        let labels = labels(attributes);
        let key = key(name, scope, &labels);
        let next = match self.series.get(&key) {
            Some(series) => Series {
                name: series.name.clone(),
                scope: series.scope.clone(),
                labels: series.labels.clone(),
                metric: match &series.metric {
                    Metric::Counter(value) => Metric::Counter(count(*value, 1)),
                    Metric::Histogram { count: total, sum, buckets } => Metric::Histogram {
                        count: *total,
                        sum: *sum,
                        buckets: copied(buckets),
                    },
                },
            },
            None => Series {
                name: name.to_owned(),
                scope: scope.to_owned(),
                labels,
                metric: Metric::Counter(1),
            },
        };
        let series = self.series.insert(key, next);
        let result = Metrics { series };
        assert(result@ =~= stepped(
            self@,
            name@,
            scope@,
            labels_text(labels_sorted(label_views(attributes@))),
            MetricView::Counter(0),
            |metric: MetricView| metric.incremented(),
        ));
        result
    }

    /// Takes a value in millionths.
    pub fn observe(
        self,
        scope: &str,
        name: &str,
        attributes: &Vec<(String, String)>,
        value: u64,
    ) -> (result: Metrics)
        ensures
            result@ == stepped(
                self@,
                name@,
                scope@,
                labels_text(labels_sorted(label_views(attributes@))),
                MetricView::empty(),
                |metric: MetricView| metric.observed(value),
            ),
    {
        let labels = labels(attributes);
        let key = key(name, scope, &labels);
        let next = match self.series.get(&key) {
            Some(series) => Series {
                name: series.name.clone(),
                scope: series.scope.clone(),
                labels: series.labels.clone(),
                metric: match &series.metric {
                    Metric::Counter(value) => Metric::Counter(*value),
                    Metric::Histogram { count: total, sum, buckets } => observed(
                        Metric::Histogram { count: *total, sum: *sum, buckets: copied(buckets) },
                        value,
                    ),
                },
            },
            None => Series {
                name: name.to_owned(),
                scope: scope.to_owned(),
                labels,
                metric: observed(
                    Metric::Histogram { count: 0, sum: 0, buckets: zeros() },
                    value,
                ),
            },
        };
        let series = self.series.insert(key, next);
        let result = Metrics { series };
        assert(result@ =~= stepped(
            self@,
            name@,
            scope@,
            labels_text(labels_sorted(label_views(attributes@))),
            MetricView::empty(),
            |metric: MetricView| metric.observed(value),
        ));
        result
    }
}

fn copied(values: &Vec<u64>) -> (result: Vec<u64>)
    ensures
        result@ == values@,
{
    let mut result: Vec<u64> = Vec::new();
    let mut index: usize = 0;
    while index < values.len()
        invariant
            index <= values.len(),
            result@ == values@.take(index as int),
        decreases values.len() - index,
    {
        assert(values@.take(index + 1) == values@.take(index as int).push(values@[index as int]));
        result.push(values[index]);
        index = index + 1;
    }
    assert(values@.take(values@.len() as int) == values@);
    result
}

/// The labels of a measure with those of its scope.
pub open spec fn full_labels(series: SeriesView) -> Seq<char> {
    series.labels + "otel_scope_name="@ + text::debug_text(series.scope)
        + ",otel_scope_schema_url=\"\",otel_scope_version=\"\""@
}

/// A line of a bucket.
pub open spec fn bucket_line(
    name: Seq<char>,
    labels: Seq<char>,
    bound: Seq<char>,
    count: nat,
) -> Seq<char> {
    name + "_bucket{"@ + labels + ",le=\""@ + bound + ("\"} "@ + text::decimal_of(count) + "\n"@)
}

/// The lines of the first buckets.
pub open spec fn bucket_lines(
    name: Seq<char>,
    labels: Seq<char>,
    buckets: Seq<u64>,
    count: int,
) -> Seq<char>
    decreases count,
{
    if count <= 0 {
        Seq::empty()
    } else {
        bucket_lines(name, labels, buckets, count - 1) + bucket_line(
            name,
            labels,
            text::decimal_of(bounds_of()[count - 1] as nat),
            buckets[count - 1] as nat,
        )
    }
}

/// The lines of a measure.
pub open spec fn series_lines(series: SeriesView) -> Seq<char> {
    let labels = full_labels(series);
    match series.metric {
        MetricView::Counter(count) => series.name + "{"@ + labels + "} "@ + text::decimal_of(
            count as nat,
        ) + "\n"@,
        MetricView::Histogram { count, sum, buckets } => bucket_lines(
            series.name,
            labels,
            buckets,
            if buckets.len() < bounds_of().len() {
                buckets.len() as int
            } else {
                bounds_of().len() as int
            },
        ) + bucket_line(series.name, labels, "+Inf"@, count as nat) + (series.name + "_sum{"@
            + labels + "} "@ + scaled_of(sum as nat / 1_000_000, sum as nat % 1_000_000, 6)
            + "\n"@) + (series.name + "_count{"@ + labels + "} "@ + text::decimal_of(count as nat)
            + "\n"@),
    }
}

fn bucket(name: &str, labels: &str, bound: &str, total: u64) -> (result: String)
    ensures
        result@ == bucket_line(name@, labels@, bound@, total as nat),
{
    text::cat(
        &text::cat5(name, "_bucket{", labels, ",le=\"", bound),
        &text::cat3("\"} ", &text::decimal(total), "\n"),
    )
}

impl Series {
    fn lines(&self) -> (result: String)
        ensures
            result@ == series_lines(self@),
    {
        let labels = text::cat(
            &text::cat3(&self.labels, "otel_scope_name=", &text::quoted(&self.scope)),
            ",otel_scope_schema_url=\"\",otel_scope_version=\"\"",
        );
        match &self.metric {
            Metric::Counter(total) => text::cat(
                &text::cat5(&self.name, "{", &labels, "} ", &text::decimal(*total)),
                "\n",
            ),
            Metric::Histogram { count: total, sum, buckets } => {
                let limits = bounds();
                let mut result = String::new();
                let mut index: usize = 0;
                assert(result@ =~= Seq::<char>::empty());
                while index < buckets.len() && index < limits.len()
                    invariant
                        index <= buckets.len(),
                        index <= limits.len(),
                        limits@ == bounds_of(),
                        result@ == bucket_lines(self.name@, labels@, buckets@, index as int),
                    decreases buckets.len() - index,
                {
                    let line = bucket(
                        &self.name,
                        &labels,
                        &text::decimal(limits[index]),
                        buckets[index],
                    );
                    result = text::cat(&result, &line);
                    index = index + 1;
                }
                let all = bucket(&self.name, &labels, "+Inf", *total);
                let shown = scaled(*sum / 1_000_000, *sum % 1_000_000, 6);
                let sums = text::cat(
                    &text::cat5(&self.name, "_sum{", &labels, "} ", &shown),
                    "\n",
                );
                let counts = text::cat(
                    &text::cat5(&self.name, "_count{", &labels, "} ", &text::decimal(*total)),
                    "\n",
                );
                text::cat(&text::cat3(&result, &all, &sums), &counts)
            },
        }
    }
}

/// The kind of a measure.
pub open spec fn kind_of(metric: MetricView) -> Seq<char> {
    match metric {
        MetricView::Counter(_) => "counter"@,
        _ => "histogram"@,
    }
}

/// The text of the first measures in the order of their keys. Before the first one of a name comes
/// its kind.
pub open spec fn rendered(items: Seq<SeriesView>, count: int) -> Seq<char>
    decreases count,
{
    if count <= 0 {
        Seq::empty()
    } else {
        let series = items[count - 1];
        let previous = if count == 1 {
            Seq::empty()
        } else {
            items[count - 2].name
        };
        rendered(items, count - 1) + (if previous != series.name {
            "# TYPE "@ + series.name + " "@ + kind_of(series.metric) + "\n"@
        } else {
            Seq::empty()
        }) + series_lines(series)
    }
}

impl Metrics {
    /// The measures in the order of their keys.
    pub open spec fn in_order(self) -> Seq<SeriesView> {
        self.series.values().map_values(|series: Series| series@)
    }

    /// The text of all measures.
    pub fn render(&self) -> (result: String)
        ensures
            result@ == rendered(self.in_order(), self.in_order().len() as int),
    {
        let total: usize = self.series.len();
        let ghost all = self.in_order();
        let mut result = String::new();
        let mut index: usize = 0;
        assert(result@ =~= Seq::<char>::empty());
        while index < total
            invariant
                index <= total,
                total == self.series.keys().len(),
                total == all.len(),
                all == self.in_order(),
                result@ == rendered(all, index as int),
            decreases total - index,
        {
            let series = self.series.value(index);
            assert(all[index as int] == series@);
            let fresh = if index == 0 {
                !series.name.is_empty()
            } else {
                let previous = self.series.value(index - 1);
                assert(all[index - 1] == previous@);
                !text::same(&previous.name, &series.name)
            };
            proof {
                if index == 0 && series.name@.len() == 0 {
                    assert(series.name@ =~= Seq::<char>::empty());
                }
            }
            let head = if fresh {
                let kind = match &series.metric {
                    Metric::Counter(_) => "counter",
                    Metric::Histogram { .. } => "histogram",
                };
                text::cat5("# TYPE ", &series.name, " ", kind, "\n")
            } else {
                String::new()
            };
            assert(!fresh ==> head@ =~= Seq::<char>::empty());
            result = text::cat3(&result, &head, &series.lines());
            index = index + 1;
        }
        result
    }
}

/// A value counts in every bucket whose bound it does not pass, and in the sum and the count.
pub proof fn lemma_observed_counts(count: u64, sum: u64, buckets: Seq<u64>, value: u64, at: int)
    requires
        count < u64::MAX,
        sum + value <= u64::MAX,
        buckets.len() == 15,
        0 <= at < 15,
        buckets[at] < u64::MAX,
    ensures
        ({
            let before = MetricView::Histogram { count, sum, buckets };
            let bound = seq![0u64, 5, 10, 25, 50, 75, 100, 250, 500, 750, 1000, 2500, 5000, 7500, 10000][at];
            &&& before.observed(value) matches MetricView::Histogram { count: counts, sum: total, buckets: after }
            &&& counts == count + 1
            &&& total == sum + value
            &&& value <= bound * 1_000_000 ==> after[at] == buckets[at] + 1
            &&& value > bound * 1_000_000 ==> after[at] == buckets[at]
        }),
        MetricView::Counter(count).incremented() == MetricView::Counter((count + 1) as u64),
{
}

/// A step changes its own series and no other.
pub proof fn lemma_series_apart(
    map: Map<Seq<char>, SeriesView>,
    name: Seq<char>,
    scope: Seq<char>,
    labels: Seq<char>,
    fresh: MetricView,
    step: spec_fn(MetricView) -> MetricView,
    other: Seq<char>,
)
    ensures
        ({
            let key = key_of(name, scope, labels);
            let after = stepped(map, name, scope, labels, fresh, step);
            &&& other != key && map.dom().contains(other) ==> after.dom().contains(other) && after[other]
                == map[other]
            &&& !map.dom().contains(key) ==> after[key].metric == step(fresh) && after[key].name == name
                && after[key].labels == labels
            &&& map.dom().contains(key) ==> after[key].metric == step(map[key].metric)
        }),
{
}

/// A value in a label has its backslashes, quotes and line breaks escaped, and nothing else.
pub proof fn lemma_labels_escaped(value: Seq<char>, ch: char)
    ensures
        escaped(value.push('"')) == escaped(value) + seq!['\\', '"'],
        escaped(value.push('\\')) == escaped(value) + seq!['\\', '\\'],
        escaped(value.push('\n')) == escaped(value) + seq!['\\', 'n'],
        ch != '"' && ch != '\\' && ch != '\n' ==> escaped(value.push(ch)) == escaped(value) + seq![ch],
{
    reveal_strlit("\\\\");
    reveal_strlit("\\n");
    reveal_strlit("\\\"");
    assert(value.push('"').drop_last() =~= value);
    assert(value.push('\\').drop_last() =~= value);
    assert(value.push('\n').drop_last() =~= value);
    assert(value.push(ch).drop_last() =~= value);
    assert("\\\\"@ =~= seq!['\\', '\\']);
    assert("\\n"@ =~= seq!['\\', 'n']);
    assert("\\\""@ =~= seq!['\\', '"']);
}

/// Labels are put in order by their names, and the text names each with its value in quotes.
pub proof fn lemma_labels_written(items: Seq<(Seq<char>, Seq<char>)>, label: (Seq<char>, Seq<char>))
    ensures
        labels_text(items.push(label)) == labels_text(items) + (label.0 + "=\""@ + escaped(label.1) + "\","@),
        labels_text(Seq::empty()).len() == 0,
        text::precedes(label.0, label.1) ==> labels_sorted(seq![(label.1, label.0), (label.0, label.1)]) == seq![
            (label.0, label.1),
            (label.1, label.0),
        ],
{
    assert(items.push(label).drop_last() =~= items);
    let pair = seq![(label.1, label.0), (label.0, label.1)];
    assert(pair.drop_last() =~= seq![(label.1, label.0)]);
    assert(pair.drop_last().drop_last() =~= Seq::empty());
    assert(labels_sorted(pair.drop_last().drop_last()) =~= Seq::empty());
    assert(labels_sorted(pair.drop_last()) =~= seq![(label.1, label.0)]);
    let one = seq![(label.1, label.0)];
    if text::precedes(label.0, label.1) {
        assert(one.drop_last() =~= Seq::empty());
        assert(label_placed(one.drop_last(), (label.0, label.1)) =~= seq![(label.0, label.1)]);
    }
}

/// How a series is written: a counter on one line, a histogram with a line for each bound, one for all, the sum and the
/// count.
pub proof fn lemma_series_written(series: SeriesView, count: u64, sum: u64, buckets: Seq<u64>)
    ensures
        full_labels(series) == series.labels + "otel_scope_name="@ + text::debug_text(series.scope)
            + ",otel_scope_schema_url=\"\",otel_scope_version=\"\""@,
        series.metric == MetricView::Counter(count) ==> series_lines(series) == series.name + "{"@ + full_labels(
            series,
        ) + "} "@ + text::decimal_of(count as nat) + "\n"@ && kind_of(series.metric) == "counter"@,
        buckets.len() == 15 && series.metric == (MetricView::Histogram { count, sum, buckets }) ==> series_lines(
            series,
        ) == bucket_lines(series.name, full_labels(series), buckets, 15) + bucket_line(
            series.name,
            full_labels(series),
            "+Inf"@,
            count as nat,
        ) + (series.name + "_sum{"@ + full_labels(series) + "} "@ + scaled_of(
            sum as nat / 1_000_000,
            sum as nat % 1_000_000,
            6,
        ) + "\n"@) + (series.name + "_count{"@ + full_labels(series) + "} "@ + text::decimal_of(count as nat)
            + "\n"@) && kind_of(series.metric) == "histogram"@,
        bucket_line(series.name, series.labels, series.scope, count as nat) == series.name + "_bucket{"@
            + series.labels + ",le=\""@ + series.scope + ("\"} "@ + text::decimal_of(count as nat) + "\n"@),
{
}

/// The bounds of a histogram, each with its own count.
pub proof fn lemma_bounds_written(name: Seq<char>, labels: Seq<char>, buckets: Seq<u64>, at: int)
    requires
        0 <= at < 15,
    ensures
        bucket_lines(name, labels, buckets, at + 1) == bucket_lines(name, labels, buckets, at) + bucket_line(
            name,
            labels,
            text::decimal_of(
                seq![0u64, 5, 10, 25, 50, 75, 100, 250, 500, 750, 1000, 2500, 5000, 7500, 10000][at] as nat,
            ),
            buckets[at] as nat,
        ),
{
}

/// The kind of a series is told before the first of its name.
pub proof fn lemma_kinds_written(items: Seq<SeriesView>, count: int)
    requires
        1 < count <= items.len(),
    ensures
        items[count - 2].name == items[count - 1].name ==> rendered(items, count) == rendered(items, count - 1)
            + Seq::empty() + series_lines(items[count - 1]),
        items[count - 2].name != items[count - 1].name ==> rendered(items, count) == rendered(items, count - 1) + (
        "# TYPE "@ + items[count - 1].name + " "@ + kind_of(items[count - 1].metric) + "\n"@) + series_lines(
            items[count - 1],
        ),
{
}

} // verus!
