//! A configuration with the settings of the command line and of the environment put into it.

use vstd::prelude::*;
use crate::cli::arguments::{self, setting_of, Kind};
use crate::config::settings::{Config, ConfigView, ControlPlaneView};
use crate::json::{self, doc_of, Doc, Json};
use crate::table::Table;
use crate::text;

verus! {

/// A setting, where its value stands in the configuration, and what is given for it, if anything is.
pub struct Given {
    pub name: String,
    pub place: Vec<String>,
    pub kind: Kind,
    pub environment: bool,
    pub values: Option<Vec<String>>,
}

/// What a setting means.
pub struct GivenView {
    pub name: Seq<char>,
    pub place: Seq<Seq<char>>,
    pub kind: Kind,
    pub environment: bool,
    pub values: Option<Seq<Seq<char>>>,
}

impl View for Given {
    type V = GivenView;

    open spec fn view(&self) -> GivenView {
        GivenView {
            name: self.name@,
            place: text::views(self.place@),
            kind: self.kind,
            environment: self.environment,
            values: match self.values {
                Some(values) => Some(text::views(values@)),
                None => None,
            },
        }
    }
}

impl GivenView {
    /// Whether something is given for a setting that takes one value, if anything is.
    pub open spec fn wf(self) -> bool {
        self.values matches Some(values) ==> self.kind.is_many() || values.len() > 0
    }
}

/// What the settings mean.
pub open spec fn givens(items: Seq<Given>) -> Seq<GivenView> {
    items.map_values(|item: Given| item@)
}

/// What stands at a place in a document, if the place is there.
pub open spec fn found_of(doc: Doc, place: Seq<Seq<char>>) -> Option<Doc>
    decreases place.len(),
{
    if place.len() == 0 {
        Some(doc)
    } else {
        match doc {
            Doc::Object(map) => if map.dom().contains(place[0]) {
                found_of(map[place[0]], place.drop_first())
            } else {
                None
            },
            _ => None,
        }
    }
}

/// A document with another value at a place, if the place is there.
pub open spec fn placed_of(doc: Doc, place: Seq<Seq<char>>, value: Doc) -> Option<Doc>
    decreases place.len(),
{
    if place.len() == 0 {
        Some(value)
    } else {
        match doc {
            Doc::Object(map) => if map.dom().contains(place[0]) {
                match placed_of(map[place[0]], place.drop_first(), value) {
                    Some(inner) => Some(Doc::Object(map.insert(place[0], inner))),
                    None => None,
                }
            } else {
                None
            },
            _ => None,
        }
    }
}

/// Whether neither of two places stands in the other.
pub open spec fn apart(left: Seq<Seq<char>>, right: Seq<Seq<char>>) -> bool
    decreases left.len(),
{
    left.len() > 0 && right.len() > 0 && (left[0] != right[0] || apart(
        left.drop_first(),
        right.drop_first(),
    ))
}

/// A value is put into a document exactly where there is a place for it, and it is found there; whatever
/// stands elsewhere stays.
pub proof fn lemma_placed(
    doc: Doc,
    place: Seq<Seq<char>>,
    value: Doc,
    other: Seq<Seq<char>>,
)
    ensures
        placed_of(doc, place, value) is Some <==> found_of(doc, place) is Some,
        placed_of(doc, place, value) matches Some(after) ==> {
            &&& found_of(after, place) == Some(value)
            &&& apart(place, other) ==> found_of(after, other) == found_of(doc, other)
        },
    decreases place.len(),
{
    if place.len() > 0 {
        if let Doc::Object(map) = doc {
            if map.dom().contains(place[0]) {
                let rest = if other.len() > 0 {
                    other.drop_first()
                } else {
                    other
                };
                lemma_placed(map[place[0]], place.drop_first(), value, rest);
            }
        }
    }
}

fn placed(doc: Json, place: &Vec<String>, at: usize, value: Json) -> (result: Option<Json>)
    requires
        at <= place.len(),
    ensures
        match placed_of(doc.doc(), text::views(place@).skip(at as int), value.doc()) {
            Some(after) => result matches Some(made) && made.doc() == after,
            None => result is None,
        },
    decreases place.len() - at,
{
    let ghost rest = text::views(place@).skip(at as int);
    if at == place.len() {
        assert(rest.len() == 0);
        return Some(value);
    }
    assert(rest[0] == place@[at as int]@);
    assert(rest.drop_first() =~= text::views(place@).skip(at + 1));
    let child = match doc.get(&place[at]) {
        Some(child) => json::copy(child),
        None => {
            return None;
        },
    };
    match placed(child, place, at + 1, value) {
        Some(inner) => Some(doc.with(&place[at], inner)),
        None => None,
    }
}

/// The setting with the length of the first poll, which no written configuration holds.
pub const FIRST_POLL: &'static str = "control-plane.initial-poll-timeout";

/// A configuration and the length of the first poll after one more setting, or why there are none.
pub open spec fn after_of(before: Doc, first: Option<Doc>, item: GivenView) -> Result<
    (Doc, Option<Doc>),
    Seq<char>,
> {
    match item.values {
        None => Ok((before, first)),
        Some(values) => match setting_of(item.name, item.kind, item.environment, values) {
            Err(reason) => Err(reason),
            Ok(value) => if item.name == FIRST_POLL@ {
                Ok((before, Some(value)))
            } else {
                match placed_of(before, item.place, value) {
                    Some(after) => Ok((after, first)),
                    None => Err("configuration field is missing"@),
                }
            },
        },
    }
}

/// The configuration after the first settings, with the length of the first poll if that is given, or why
/// there is none.
pub open spec fn merged_of(base: Doc, items: Seq<GivenView>, count: int) -> Result<
    (Doc, Option<Doc>),
    Seq<char>,
>
    decreases count,
{
    if count <= 0 {
        Ok((base, None))
    } else {
        match merged_of(base, items, count - 1) {
            Err(reason) => Err(reason),
            Ok((before, first)) => after_of(before, first, items[count - 1]),
        }
    }
}

proof fn lemma_merge_fails(base: Doc, items: Seq<GivenView>, at: int, count: int)
    requires
        0 <= at <= count,
        merged_of(base, items, at) is Err,
    ensures
        merged_of(base, items, count) == merged_of(base, items, at),
    decreases count - at,
{
    if at < count {
        lemma_merge_fails(base, items, at, count - 1);
    }
}

/// A place in which no setting is given keeps what it holds.
pub proof fn lemma_merge_keeps(base: Doc, items: Seq<GivenView>, count: int, place: Seq<Seq<char>>)
    requires
        0 <= count <= items.len(),
        forall|i: int|
            0 <= i < count ==> (#[trigger] items[i]).values is None || apart(items[i].place, place),
    ensures
        merged_of(base, items, count) matches Ok((after, _)) ==> found_of(after, place) == found_of(
            base,
            place,
        ),
    decreases count,
{
    if count > 0 {
        lemma_merge_keeps(base, items, count - 1, place);
        if let Ok((before, _)) = merged_of(base, items, count - 1) {
            let item = items[count - 1];
            if let Some(values) = item.values {
                if let Ok(value) = setting_of(item.name, item.kind, item.environment, values) {
                    lemma_placed(before, item.place, value, place);
                }
            }
        }
    }
}

/// Whether a configuration is the expected one, or the reason against it is.
pub open spec fn merges(
    result: Result<(Json, Option<Json>), String>,
    expected: Result<(Doc, Option<Doc>), Seq<char>>,
) -> bool {
    match (result, expected) {
        (Ok((value, first)), Ok((doc, other))) => value.doc() == doc && match (first, other) {
            (Some(first), Some(other)) => first.doc() == other,
            (None, None) => true,
            _ => false,
        },
        (Err(reason), Err(expected)) => reason@ == expected,
        _ => false,
    }
}

fn put(value: Json, first: Option<Json>, item: &Given) -> (result: Result<
    (Json, Option<Json>),
    String,
>)
    requires
        item@.wf(),
    ensures
        merges(result, after_of(value.doc(), doc_of(first), item@)),
{
    let values = match &item.values {
        Some(values) => values,
        None => {
            return Ok((value, first));
        },
    };
    let given = text::copies(values);
    assert(text::views(values@).len() == values@.len());
    assert(text::views(given@).len() == given@.len());
    let made = match arguments::setting(&item.name, item.kind, item.environment, given) {
        Ok(made) => made,
        Err(reason) => {
            return Err(reason);
        },
    };
    if text::same(&item.name, FIRST_POLL) {
        return Ok((value, Some(made)));
    }
    proof {
        assert(text::views(item.place@).skip(0) =~= text::views(item.place@));
    }
    match placed(value, &item.place, 0, made) {
        Some(after) => Ok((after, first)),
        None => Err("configuration field is missing".to_owned()),
    }
}

/// Puts the settings into a configuration, one after the other; a later one for the same place counts.
/// The length of the first poll is returned beside it.
pub fn merge(base: Json, items: &Vec<Given>) -> (result: Result<(Json, Option<Json>), String>)
    requires
        forall|i: int| 0 <= i < items@.len() ==> (#[trigger] items@[i])@.wf(),
    ensures
        merges(result, merged_of(base.doc(), givens(items@), items@.len() as int)),
{
    let ghost start = base.doc();
    let ghost all = givens(items@);
    let mut value = base;
    let mut first: Option<Json> = None;
    let mut index: usize = 0;
    while index < items.len()
        invariant
            index <= items.len(),
            start == base.doc(),
            all == givens(items@),
            forall|i: int| 0 <= i < items@.len() ==> (#[trigger] items@[i])@.wf(),
            merged_of(start, all, index as int) == Ok::<(Doc, Option<Doc>), Seq<char>>(
                (value.doc(), doc_of(first)),
            ),
        decreases items.len() - index,
    {
        assert(all[index as int] == items@[index as int]@);
        match put(value, first, &items[index]) {
            Ok((after, next)) => {
                value = after;
                first = next;
            },
            Err(reason) => {
                proof {
                    lemma_merge_fails(start, all, index + 1, items@.len() as int);
                }
                return Err(reason);
            },
        }
        index = index + 1;
    }
    Ok((value, first))
}

/// The key of a configuration: its own, or else that of the environment.
pub open spec fn key_of(own: Seq<char>, variables: Table<String>) -> Seq<char> {
    if own.len() == 0 && variables@.dom().contains("OPENAI_API_KEY"@) {
        variables@["OPENAI_API_KEY"@]@
    } else {
        own
    }
}

/// Takes the key from the environment where the configuration has none.
pub fn complete(config: &mut Config, variables: &Table<String>)
    ensures
        final(config).control_plane.api_key@ == key_of(
            old(config).control_plane.api_key@,
            *variables,
        ),
        final(config)@ == (ConfigView {
            control_plane: ControlPlaneView {
                api_key: final(config).control_plane.api_key@,
                ..old(config)@.control_plane
            },
            ..old(config)@
        }),
{
    if config.control_plane.api_key.is_empty() {
        if let Some(key) = variables.get("OPENAI_API_KEY") {
            config.control_plane.api_key = key.clone();
        }
    }
}

/// A setting that is given stands in its place afterwards; the first wait of a poll is told apart; one that is not given
/// changes nothing.
pub proof fn lemma_setting_placed(before: Doc, first: Option<Doc>, item: GivenView, values: Seq<Seq<char>>, value: Doc)
    ensures
        item.values is None ==> after_of(before, first, item) == Ok::<(Doc, Option<Doc>), Seq<char>>(
            (before, first),
        ),
        item.values == Some(values) && setting_of(item.name, item.kind, item.environment, values) == Ok::<
            Doc,
            Seq<char>,
        >(value) ==> {
            &&& item.name == "control-plane.initial-poll-timeout"@ ==> after_of(before, first, item) == Ok::<
                (Doc, Option<Doc>),
                Seq<char>,
            >((before, Some(value)))
            &&& item.name != "control-plane.initial-poll-timeout"@ ==> (after_of(before, first, item) matches Ok(
                (after, kept),
            ) ==> found_of(after, item.place) == Some(value) && kept == first)
            &&& item.name != "control-plane.initial-poll-timeout"@ && found_of(before, item.place) is Some
                ==> after_of(before, first, item) is Ok
        },
        item.values == Some(values) && setting_of(item.name, item.kind, item.environment, values) is Err
            ==> after_of(before, first, item) is Err,
{
    lemma_placed(before, item.place, value, item.place);
}

/// The settings are placed one after the other: the last of a place counts.
pub proof fn lemma_merge_steps(base: Doc, items: Seq<GivenView>, count: int)
    requires
        0 < count <= items.len(),
    ensures
        merged_of(base, items, 0) == Ok::<(Doc, Option<Doc>), Seq<char>>((base, None)),
        merged_of(base, items, count - 1) matches Ok((before, first)) ==> merged_of(base, items, count)
            == after_of(before, first, items[count - 1]),
        merged_of(base, items, count - 1) is Err ==> merged_of(base, items, count) is Err,
{
}

/// The own key counts before the common one of the environment.
pub proof fn lemma_key_chosen(own: Seq<char>, variables: Table<String>)
    ensures
        own.len() > 0 ==> key_of(own, variables) == own,
        own.len() == 0 && variables@.dom().contains("OPENAI_API_KEY"@) ==> key_of(own, variables)
            == variables@["OPENAI_API_KEY"@]@,
        own.len() == 0 && !variables@.dom().contains("OPENAI_API_KEY"@) ==> key_of(own, variables).len() == 0,
{
}

} // verus!
