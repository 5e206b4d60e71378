//! Times and durations in documents.

use vstd::prelude::*;
use crate::config::duration::{scaled, scaled_of};
use crate::json::{self, figures, number_text, Doc, Json};
use crate::text;

verus! {

/// The text that `time` writes for so many nanoseconds of the clock.
pub uninterp spec fn rfc3339_of(nanos: u64) -> Option<Seq<char>>;

/// Writes a time: `time::OffsetDateTime::from_unix_timestamp_nanos`, and `format` with `Rfc3339`,
/// which depend on the number alone.
#[verifier::external_body]
fn rfc3339(nanos: u64) -> (result: Option<String>)
    ensures
        text::view_of(result) == rfc3339_of(nanos),
{
    let moment = time::OffsetDateTime::from_unix_timestamp_nanos(nanos.into()).ok()?;
    moment.format(&time::format_description::well_known::Rfc3339).ok()
}

/// The text of a time, where there is one.
pub open spec fn timestamp_of(nanos: u64) -> Option<Seq<char>> {
    if nanos > 0 {
        rfc3339_of(nanos)
    } else {
        None
    }
}

/// The text of a time, where there is one.
pub fn timestamp(nanos: u64) -> (result: Option<String>)
    ensures
        text::view_of(result) == timestamp_of(nanos),
{
    if nanos > 0 {
        rfc3339(nanos)
    } else {
        None
    }
}

/// The document of an optional text: the text or null.
pub open spec fn optional_doc(value: Option<Seq<char>>) -> Doc {
    match value {
        Some(inner) => Doc::Text(inner),
        None => Doc::Null,
    }
}

/// The document of an optional text: the text or null.
pub fn optional(value: &Option<String>) -> (result: Json)
    ensures
        result.doc() == optional_doc(text::view_of(*value)),
{
    match value {
        Some(inner) => Json::text(inner),
        None => Json::Null,
    }
}

/// The object with a time, where it is known.
pub open spec fn with_time(doc: Doc, key: Seq<char>, nanos: u64) -> Doc {
    match timestamp_of(nanos) {
        Some(written) => doc.with(key, Doc::Text(written)),
        None => doc,
    }
}

/// The object with a time, where it is known.
pub fn put_time(value: Json, key: &str, nanos: u64) -> (result: Json)
    ensures
        result.doc() == with_time(value.doc(), key@, nanos),
{
    match timestamp(nanos) {
        Some(written) => value.with(key, Json::Text(written)),
        None => value,
    }
}

/// A number with digits behind its point.
pub open spec fn pointed(whole: nat, fraction: nat, digits: nat) -> Seq<char> {
    if fraction == 0 {
        text::decimal_of(whole) + ".0"@
    } else {
        scaled_of(whole, fraction, digits)
    }
}

fn point(whole: u64, fraction: u64, digits: u64) -> (result: String)
    ensures
        result@ == pointed(whole as nat, fraction as nat, digits as nat),
{
    if fraction == 0 {
        text::cat(&text::decimal(whole), ".0")
    } else {
        scaled(whole, fraction, digits)
    }
}

/// The document of so many nanoseconds in seconds.
pub open spec fn seconds_doc(nanos: u64) -> Doc {
    Doc::figures(pointed(nanos as nat / 1_000_000_000, nanos as nat % 1_000_000_000, 9))
}

/// The document of so many nanoseconds in seconds.
pub fn seconds(nanos: u64) -> (result: Json)
    ensures
        result.doc() == seconds_doc(nanos),
{
    Json::figures(&point(nanos / 1_000_000_000, nanos % 1_000_000_000, 9))
}

/// The document of a part of a whole, in eighteen digits.
pub open spec fn ratio_doc(part: usize, whole: usize) -> Doc {
    let base = if whole == 0 {
        1int
    } else {
        whole as int
    };
    let scaled = part * 1_000_000_000_000_000_000 / base;
    Doc::figures(
        pointed(
            (scaled / 1_000_000_000_000_000_000) as nat,
            (scaled % 1_000_000_000_000_000_000) as nat,
            18,
        ),
    )
}

/// The document of a part of a whole, in eighteen digits.
pub fn ratio(part: usize, whole: usize) -> (result: Json)
    ensures
        result.doc() == ratio_doc(part, whole),
{
    let base: u128 = if whole == 0 {
        1
    } else {
        whole as u128
    };
    let product: u128 = part as u128 * 1_000_000_000_000_000_000;
    let value: u128 = product / base;
    assert(value <= product) by (nonlinear_arith)
        requires
            value == product / base,
            base >= 1,
            product >= 0,
    ;
    assert(value / 1_000_000_000_000_000_000 <= part);
    Json::figures(
        &point(
            (value / 1_000_000_000_000_000_000) as u64,
            (value % 1_000_000_000_000_000_000) as u64,
            18,
        ),
    )
}

/// Whether an entry holds a time.
pub open spec fn is_date(name: Seq<char>) -> bool {
    ||| name == "observed_at"@
    ||| name == "timestamp"@
    ||| name == "last_attempt"@
    ||| name == "last_success"@
    ||| name == "last_error"@
    ||| name == "next_retry"@
    ||| name == "last_accepted"@
    ||| name == "last_completed"@
    ||| name == "last_failure"@
    ||| name == "last_enqueue"@
    ||| name == "last_dequeue"@
    ||| name == "last_start"@
    ||| name == "last_completion"@
}

fn date(name: &str) -> (result: bool)
    ensures
        result == is_date(name@),
{
    text::same(name, "observed_at") || text::same(name, "timestamp") || text::same(
        name,
        "last_attempt",
    ) || text::same(name, "last_success") || text::same(name, "last_error") || text::same(
        name,
        "next_retry",
    ) || text::same(name, "last_accepted") || text::same(name, "last_completed") || text::same(
        name,
        "last_failure",
    ) || text::same(name, "last_enqueue") || text::same(name, "last_dequeue") || text::same(
        name,
        "last_start",
    ) || text::same(name, "last_completion")
}

/// The nanoseconds of a time in an entry, where it holds one.
pub open spec fn moment_of(name: Seq<char>, value: Json) -> Option<u64> {
    match value {
        Json::Number(inner) => if is_date(name) {
            text::unsigned_of(number_text(inner))
        } else {
            None
        },
        _ => None,
    }
}

fn moment(name: &str, value: &Json) -> (result: Option<u64>)
    ensures
        result == moment_of(name@, *value),
{
    match value {
        Json::Number(inner) => if date(name) {
            text::unsigned(&figures(inner))
        } else {
            None
        },
        _ => None,
    }
}

/// What a document becomes when its times are written: whole numbers of nanoseconds under the names of
/// times become texts, and those that are not known fall away.
pub open spec fn dated(value: Json) -> Doc
    decreases value,
{
    match value {
        Json::List(items) => Doc::List(dated_items(items@)),
        Json::Object(entries) => Doc::Object(dated_fields(entries@)),
        _ => value.doc(),
    }
}

/// What a list of documents becomes.
pub open spec fn dated_items(items: Seq<Json>) -> Seq<Doc>
    decreases items,
{
    if items.len() == 0 {
        Seq::empty()
    } else {
        dated_items(items.subrange(0, items.len() - 1)).push(dated(items[items.len() - 1]))
    }
}

/// What the entries of an object become.
pub open spec fn dated_fields(entries: Seq<(String, Json)>) -> Map<Seq<char>, Doc>
    decreases entries,
{
    if entries.len() == 0 {
        Map::empty()
    } else {
        let last = entries[entries.len() - 1];
        let rest = dated_fields(entries.subrange(0, entries.len() - 1));
        match moment_of(last.0@, last.1) {
            Some(nanos) => match timestamp_of(nanos) {
                Some(written) => rest.insert(last.0@, Doc::Text(written)),
                None => rest.remove(last.0@),
            },
            None => rest.insert(last.0@, dated(last.1)),
        }
    }
}

/// Writes the times in a document.
pub fn dates(value: &Json) -> (result: Json)
    ensures
        result.doc() == dated(*value),
    decreases value,
{
    match value {
        Json::List(items) => {
            let mut result: Vec<Json> = Vec::new();
            let mut index: usize = 0;
            assert(items@.take(0) == Seq::<Json>::empty());
            while index < items.len()
                invariant
                    index <= items.len(),
                    *value == Json::List(*items),
                    json::docs(result@) == dated_items(items@.take(index as int)),
                decreases items.len() - index,
            {
                assert(decreases_to!(*value => value->List_0));
                assert(decreases_to!(*items => items@));
                assert(decreases_to!(items@ => items@[index as int]));
                let item = dates(&items[index]);
                proof {
                    let next = items@.take(index + 1);
                    assert(next.subrange(0, next.len() - 1) == items@.take(index as int));
                    json::lemma_docs_push(result@, item);
                }
                result.push(item);
                index = index + 1;
            }
            assert(items@.take(items@.len() as int) == items@);
            Json::List(result)
        },
        Json::Object(entries) => {
            let mut result = Json::object();
            let mut index: usize = 0;
            assert(entries@.take(0) == Seq::<(String, Json)>::empty());
            while index < entries.len()
                invariant
                    index <= entries.len(),
                    *value == Json::Object(*entries),
                    result.doc() == Doc::Object(dated_fields(entries@.take(index as int))),
                decreases entries.len() - index,
            {
                let ghost last = entries@[index as int];
                assert(decreases_to!(*value => value->Object_0));
                assert(decreases_to!(*entries => entries@));
                assert(decreases_to!(entries@ => last));
                assert(decreases_to!(last => last.1));
                proof {
                    let next = entries@.take(index + 1);
                    assert(next.subrange(0, next.len() - 1) == entries@.take(index as int));
                }
                let name = &entries[index].0;
                match moment(name, &entries[index].1) {
                    Some(nanos) => match timestamp(nanos) {
                        Some(written) => {
                            result = result.with(name, Json::Text(written));
                        },
                        None => {
                            result = result.without(name);
                        },
                    },
                    None => {
                        result = result.with(name, dates(&entries[index].1));
                    },
                }
                index = index + 1;
            }
            assert(entries@.take(entries@.len() as int) == entries@);
            result
        },
        _ => json::copy(value),
    }
}

/// Which fields are dates.
pub proof fn lemma_dates(name: Seq<char>)
    ensures
        is_date("observed_at"@),
        is_date("timestamp"@),
        is_date("last_attempt"@),
        is_date("last_success"@),
        is_date("last_error"@),
        is_date("next_retry"@),
        is_date("last_accepted"@),
        is_date("last_completed"@),
        is_date("last_failure"@),
        is_date("last_enqueue"@),
        is_date("last_dequeue"@),
        is_date("last_start"@),
        is_date("last_completion"@),
        name.len() < 9 || name.len() > 15 ==> !is_date(name),
{
    reveal_strlit("observed_at");
    reveal_strlit("timestamp");
    reveal_strlit("last_attempt");
    reveal_strlit("last_success");
    reveal_strlit("last_error");
    reveal_strlit("next_retry");
    reveal_strlit("last_accepted");
    reveal_strlit("last_completed");
    reveal_strlit("last_failure");
    reveal_strlit("last_enqueue");
    reveal_strlit("last_dequeue");
    reveal_strlit("last_start");
    reveal_strlit("last_completion");
    assert("observed_at"@.len() == 11);
    assert("timestamp"@.len() == 9);
    assert("last_attempt"@.len() == 12 && "last_attempt"@[5] == 'a');
    assert("last_success"@.len() == 12 && "last_success"@[5] == 's');
    assert("last_error"@.len() == 10 && "last_error"@[0] == 'l' && "last_error"@[5] == 'e');
    assert("next_retry"@.len() == 10 && "next_retry"@[0] == 'n');
    assert("last_accepted"@.len() == 13);
    assert("last_completed"@.len() == 14);
    assert("last_failure"@.len() == 12 && "last_failure"@[5] == 'f');
    assert("last_enqueue"@.len() == 12 && "last_enqueue"@[5] == 'e');
    assert("last_dequeue"@.len() == 12 && "last_dequeue"@[5] == 'd');
    assert("last_start"@.len() == 10 && "last_start"@[5] == 's' && "last_start"@[0] == 'l');
    assert("last_completion"@.len() == 15);
}

/// A moment that never was is not told; any other is told as a date.
pub proof fn lemma_moments_told(map: Map<Seq<char>, Doc>, key: Seq<char>, nanos: u64, written: Seq<char>)
    ensures
        with_time(Doc::Object(map), key, 0) == Doc::Object(map),
        timestamp_of(0) is None,
        nanos > 0 ==> timestamp_of(nanos) == rfc3339_of(nanos),
        nanos > 0 && rfc3339_of(nanos) == Some(written) ==> with_time(Doc::Object(map), key, nanos).at(key)
            == Doc::Text(written),
        optional_doc(Some(written)) == Doc::Text(written) && optional_doc(None) == Doc::Null,
{
}

/// A number of seconds is told with its fraction, and a ratio with nothing as one of one.
pub proof fn lemma_figures_told(whole: nat, fraction: nat, digits: nat, nanos: u64, part: usize)
    ensures
        pointed(whole, 0, digits) == text::decimal_of(whole) + ".0"@,
        fraction > 0 ==> pointed(whole, fraction, digits) == scaled_of(whole, fraction, digits),
        seconds_doc(0) == Doc::figures(text::decimal_of(0) + ".0"@),
        nanos < 1_000_000_000 && nanos > 0 ==> seconds_doc(nanos) == Doc::figures(
            scaled_of(0, nanos as nat, 9),
        ),
        ratio_doc(part, 0) == ratio_doc(part, 1),
        ratio_doc(0, part) == Doc::figures(text::decimal_of(0) + ".0"@),
{
    if part > 0 {
        assert(0int / part as int == 0) by (nonlinear_arith)
            requires
                part > 0,
        ;
    }
    assert(0int * 1_000_000_000_000_000_000 == 0);
}

/// A date in a document of a child is written as such, at any depth; a date that never was is left out.
pub proof fn lemma_dated(value: Json, entries: Seq<(String, Json)>, entry: (String, Json))
    ensures
        value is Text || value is Bool || value is Null || value is Number ==> dated(value) == value.doc(),
        moment_of(entry.0@, entry.1) is None ==> dated_fields(entries.push(entry)) == dated_fields(
            entries,
        ).insert(entry.0@, dated(entry.1)),
        moment_of(entry.0@, entry.1) matches Some(nanos) ==> (timestamp_of(nanos) matches Some(written)
            ==> dated_fields(entries.push(entry)) == dated_fields(entries).insert(entry.0@, Doc::Text(written))),
        moment_of(entry.0@, entry.1) == Some(0u64) ==> dated_fields(entries.push(entry)) == dated_fields(
            entries,
        ).remove(entry.0@),
        !is_date(entry.0@) ==> moment_of(entry.0@, entry.1) is None,
{
    let all = entries.push(entry);
    assert(all.subrange(0, all.len() - 1) =~= entries);
}

} // verus!
