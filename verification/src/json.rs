//! JSON documents as plain values.

use vstd::prelude::*;
use crate::table::{self, Table};
use crate::text;

pub mod assembly;
pub mod record;

verus! {

/// A JSON document. Where a key occurs twice in an object, the later entry counts.
pub enum Json {
    Null,
    Bool(bool),
    Number(serde_json::Number),
    Text(String),
    List(Vec<Json>),
    Object(Vec<(String, Json)>),
}

/// What a JSON document means. A number is its text.
#[verifier::ext_equal]
pub enum Doc {
    Null,
    Bool(bool),
    Number(Seq<char>),
    Text(Seq<char>),
    List(Seq<Doc>),
    Object(Map<Seq<char>, Doc>),
}

impl Json {
    /// What the document means.
    pub open spec fn doc(self) -> Doc
        decreases self,
    {
        match self {
            Json::Null => Doc::Null,
            Json::Bool(value) => Doc::Bool(value),
            Json::Number(value) => Doc::Number(number_text(value)),
            Json::Text(value) => Doc::Text(value@),
            Json::List(items) => Doc::List(docs(items@)),
            Json::Object(entries) => Doc::Object(fields(entries@)),
        }
    }
}

/// What a list of documents means.
pub open spec fn docs(items: Seq<Json>) -> Seq<Doc>
    decreases items,
{
    if items.len() == 0 {
        Seq::empty()
    } else {
        docs(items.subrange(0, items.len() - 1)).push(items[items.len() - 1].doc())
    }
}

/// What a list of entries means: the map that inserting them in turn makes.
pub open spec fn fields(entries: Seq<(String, Json)>) -> Map<Seq<char>, Doc>
    decreases entries,
{
    if entries.len() == 0 {
        Map::empty()
    } else {
        let last = entries[entries.len() - 1];
        fields(entries.subrange(0, entries.len() - 1)).insert(last.0@, last.1.doc())
    }
}

/// The documents of a list stand for its items one by one.
pub proof fn lemma_docs(items: Seq<Json>)
    ensures
        docs(items).len() == items.len(),
        forall|i: int| 0 <= i < items.len() ==> #[trigger] docs(items)[i] == items[i].doc(),
    decreases items.len(),
{
    if items.len() > 0 {
        let front = items.subrange(0, items.len() - 1);
        lemma_docs(front);
        assert forall|i: int| 0 <= i < items.len() implies #[trigger] docs(items)[i]
            == items[i].doc() by {
            if i < front.len() {
                assert(docs(front)[i] == front[i].doc());
            }
        }
    }
}

/// Appending an item appends its document.
pub proof fn lemma_docs_push(items: Seq<Json>, item: Json)
    ensures
        docs(items.push(item)) == docs(items).push(item.doc()),
{
    let all = items.push(item);
    assert(all.subrange(0, all.len() - 1) == items);
}

/// Appending an entry inserts its document.
pub proof fn lemma_fields_push(entries: Seq<(String, Json)>, entry: (String, Json))
    ensures
        fields(entries.push(entry)) == fields(entries).insert(entry.0@, entry.1.doc()),
{
    let all = entries.push(entry);
    assert(all.subrange(0, all.len() - 1) == entries);
}

/// Each key of the entries is in the map that they make.
pub proof fn lemma_fields_contain(entries: Seq<(String, Json)>, at: int)
    requires
        0 <= at < entries.len(),
    ensures
        fields(entries).dom().contains(entries[at].0@),
    decreases entries.len(),
{
    let front = entries.subrange(0, entries.len() - 1);
    if at < front.len() {
        lemma_fields_contain(front, at);
        assert(front[at] == entries[at]);
    }
}

/// The documents of a list of texts.
pub open spec fn texts(items: Seq<Seq<char>>) -> Doc {
    Doc::List(items.map_values(|item: Seq<char>| Doc::Text(item)))
}

impl Doc {
    pub open spec fn object() -> Doc {
        Doc::Object(Map::empty())
    }

    /// The object with one entry set; another document is left alone.
    pub open spec fn with(self, key: Seq<char>, value: Doc) -> Doc {
        match self {
            Doc::Object(map) => Doc::Object(map.insert(key, value)),
            _ => self,
        }
    }

    /// The object with one entry set on a condition.
    pub open spec fn with_if(self, there: bool, key: Seq<char>, value: Doc) -> Doc {
        if there {
            self.with(key, value)
        } else {
            self
        }
    }

    /// The object without one entry; another document is left alone.
    pub open spec fn without(self, key: Seq<char>) -> Doc {
        match self {
            Doc::Object(map) => Doc::Object(map.remove(key)),
            _ => self,
        }
    }

    /// The entry of an object, or null.
    pub open spec fn at(self, key: Seq<char>) -> Doc {
        match self {
            Doc::Object(map) => if map.dom().contains(key) {
                map[key]
            } else {
                Doc::Null
            },
            _ => Doc::Null,
        }
    }

    /// The text of a string document, or nothing.
    pub open spec fn text(self) -> Option<Seq<char>> {
        match self {
            Doc::Text(value) => Some(value),
            _ => None,
        }
    }

    /// The list with one more item at its end; another document is left alone.
    pub open spec fn pushed(self, item: Doc) -> Doc {
        match self {
            Doc::List(items) => Doc::List(items.push(item)),
            _ => self,
        }
    }

    pub open spec fn number(value: nat) -> Doc {
        Doc::Number(text::decimal_of(value))
    }
}

impl Json {
    /// A string document.
    pub fn text(value: &str) -> (result: Json)
        ensures
            result.doc() == Doc::Text(value@),
    {
        Json::Text(value.to_owned())
    }

    /// A number document.
    pub fn number(value: u64) -> (result: Json)
        ensures
            result.doc() == Doc::number(value as nat),
    {
        Json::Number(whole(value))
    }

    /// The empty object.
    pub fn object() -> (result: Json)
        ensures
            result.doc() == Doc::object(),
    {
        let entries: Vec<(String, Json)> = Vec::new();
        assert(fields(entries@) == Map::<Seq<char>, Doc>::empty());
        Json::Object(entries)
    }

    /// A list of string documents.
    pub fn texts(values: &Vec<String>) -> (result: Json)
        ensures
            result.doc() == texts(text::views(values@)),
    {
        let mut items: Vec<Json> = Vec::new();
        let mut index: usize = 0;
        while index < values.len()
            invariant
                index <= values.len(),
                docs(items@) == text::views(values@.take(index as int)).map_values(
                    |item: Seq<char>| Doc::Text(item),
                ),
            decreases values.len() - index,
        {
            let item = Json::text(&values[index]);
            proof {
                lemma_docs_push(items@, item);
                assert(values@.take(index + 1) == values@.take(index as int).push(
                    values@[index as int],
                ));
                assert(docs(items@.push(item)) == text::views(values@.take(index + 1)).map_values(
                    |item: Seq<char>| Doc::Text(item),
                ));
            }
            items.push(item);
            index = index + 1;
        }
        assert(values@.take(values@.len() as int) == values@);
        Json::List(items)
    }

    /// A list of one string document.
    pub fn texts1(first: &str) -> (result: Json)
        ensures
            result.doc() == texts(seq![first@]),
    {
        let mut items: Vec<String> = Vec::new();
        items.push(first.to_owned());
        assert(text::views(items@) =~= seq![first@]);
        Json::texts(&items)
    }

    /// A list of two string documents.
    pub fn texts2(first: &str, second: &str) -> (result: Json)
        ensures
            result.doc() == texts(seq![first@, second@]),
    {
        let mut items: Vec<String> = Vec::new();
        items.push(first.to_owned());
        items.push(second.to_owned());
        assert(text::views(items@) =~= seq![first@, second@]);
        Json::texts(&items)
    }

    /// A list of three string documents.
    pub fn texts3(first: &str, second: &str, third: &str) -> (result: Json)
        ensures
            result.doc() == texts(seq![first@, second@, third@]),
    {
        let mut items: Vec<String> = Vec::new();
        items.push(first.to_owned());
        items.push(second.to_owned());
        items.push(third.to_owned());
        assert(text::views(items@) =~= seq![first@, second@, third@]);
        Json::texts(&items)
    }

    /// The object with one entry set; another document is left alone.
    pub fn with(self, key: &str, value: Json) -> (result: Json)
        ensures
            result.doc() == self.doc().with(key@, value.doc()),
    {
        match self {
            Json::Object(entries) => {
                let mut entries = entries;
                let entry = (key.to_owned(), value);
                proof {
                    lemma_fields_push(entries@, entry);
                }
                entries.push(entry);
                Json::Object(entries)
            },
            other => other,
        }
    }

    /// The object with one entry set on a condition.
    pub fn with_if(self, there: bool, key: &str, value: Json) -> (result: Json)
        ensures
            result.doc() == self.doc().with_if(there, key@, value.doc()),
    {
        if there {
            self.with(key, value)
        } else {
            self
        }
    }

    /// The list with one more item at its end; another document is left alone.
    pub fn pushed(self, item: Json) -> (result: Json)
        ensures
            result.doc() == self.doc().pushed(item.doc()),
    {
        match self {
            Json::List(items) => {
                let mut items = items;
                proof {
                    lemma_docs_push(items@, item);
                }
                items.push(item);
                Json::List(items)
            },
            other => other,
        }
    }

    /// The object without one entry; another document is left alone.
    pub fn without(self, key: &str) -> (result: Json)
        ensures
            result.doc() == self.doc().without(key@),
    {
        match self {
            Json::Object(entries) => {
                let ghost all = entries@;
                let mut rest = entries;
                let mut kept: Vec<(String, Json)> = Vec::new();
                let mut reversed: Vec<(String, Json)> = Vec::new();
                // The entries leave `rest` from its end, and enter `kept` in their own order.
                while rest.len() > 0
                    invariant
                        rest@.len() + reversed@.len() == all.len(),
                        rest@ == all.take(rest@.len() as int),
                        forall|i: int|
                            0 <= i < reversed@.len() ==> reversed@[i] == all[all.len() - 1 - i],
                    decreases rest.len(),
                {
                    let count: usize = rest.len();
                    let entry = rest.pop();
                    if let Some(entry) = entry {
                        assert(rest@ == all.take(count - 1));
                        reversed.push(entry);
                    }
                }
                assert(all.take(0) == Seq::<(String, Json)>::empty());
                assert(fields(kept@) == fields(all.take(0)).remove(key@));
                while reversed.len() > 0
                    invariant
                        reversed@.len() <= all.len(),
                        forall|i: int|
                            0 <= i < reversed@.len() ==> reversed@[i] == all[all.len() - 1 - i],
                        fields(kept@) == fields(all.take(all.len() - reversed@.len())).remove(key@),
                    decreases reversed.len(),
                {
                    let ghost done = all.len() - reversed@.len();
                    let entry = reversed.pop();
                    if let Some(entry) = entry {
                        proof {
                            assert(entry == all[done]);
                            assert(all.take(done + 1) == all.take(done).push(entry));
                            lemma_fields_push(all.take(done), entry);
                            lemma_fields_push(kept@, entry);
                        }
                        if text::same(&entry.0, key) {
                            assert(fields(all.take(done + 1)).remove(key@) =~= fields(
                                all.take(done),
                            ).remove(key@));
                        } else {
                            assert(fields(all.take(done + 1)).remove(key@) =~= fields(
                                all.take(done),
                            ).remove(key@).insert(entry.0@, entry.1.doc()));
                            kept.push(entry);
                        }
                    }
                }
                assert(all.take(all.len() as int) == all);
                Json::Object(kept)
            },
            other => other,
        }
    }

    /// The entry of an object.
    pub fn get(&self, key: &str) -> (result: Option<&Json>)
        ensures
            match result {
                Some(value) => self.doc() is Object && self.doc()->Object_0.dom().contains(key@)
                    && self.doc()->Object_0[key@] == value.doc(),
                None => !(self.doc() is Object) || !self.doc()->Object_0.dom().contains(key@),
            },
            match result {
                Some(value) => value.doc() == self.doc().at(key@),
                None => self.doc().at(key@) == Doc::Null,
            },
            result matches Some(value) ==> decreases_to!(*self => *value),
    {
        match self {
            Json::Object(entries) => {
                let mut count: usize = entries.len();
                assert(entries@.subrange(0, entries@.len() as int) == entries@);
                while count > 0
                    invariant
                        count <= entries.len(),
                        self.doc() == Doc::Object(fields(entries@)),
                        *self == Json::Object(*entries),
                        fields(entries@).dom().contains(key@) == fields(
                            entries@.subrange(0, count as int),
                        ).dom().contains(key@),
                        fields(entries@).dom().contains(key@) ==> fields(entries@)[key@] == fields(
                            entries@.subrange(0, count as int),
                        )[key@],
                    decreases count,
                {
                    let ghost front = entries@.subrange(0, count as int);
                    proof {
                        assert(front.subrange(0, front.len() - 1) == entries@.subrange(
                            0,
                            count - 1,
                        ));
                        assert(front[front.len() - 1] == entries@[count - 1]);
                    }
                    if text::same(&entries[count - 1].0, key) {
                        let ghost entry = entries@[count - 1];
                        assert(decreases_to!(*self => *entries));
                        assert(decreases_to!(*entries => entries@));
                        assert(decreases_to!(entries@ => entry));
                        assert(decreases_to!(entry => entry.1));
                        return Some(&entries[count - 1].1);
                    }
                    count = count - 1;
                }
                None
            },
            _ => None,
        }
    }

    /// The text of a string entry of an object.
    pub fn get_text(&self, key: &str) -> (result: Option<String>)
        ensures
            text::view_of(result) == self.doc().at(key@).text(),
    {
        match self.get(key) {
            Some(Json::Text(value)) => Some(value.clone()),
            _ => None,
        }
    }

    /// Whether the document is an object.
    pub fn is_object(&self) -> (result: bool)
        ensures
            result == (self.doc() is Object),
    {
        matches!(self, Json::Object(_))
    }
}

/// What a document means, where there is one.
pub open spec fn doc_of(value: Option<Json>) -> Option<Doc> {
    match value {
        Some(value) => Some(value.doc()),
        None => None,
    }
}

/// The object of the keys and their documents.
pub open spec fn object_of(keys: Seq<Seq<char>>, count: int, value: spec_fn(int) -> Doc) -> Doc
    decreases count,
{
    if count <= 0 {
        Doc::object()
    } else {
        object_of(keys, count - 1, value).with(keys[count - 1], value(count - 1))
    }
}

/// A copy of the document.
pub fn copy(value: &Json) -> (result: Json)
    ensures
        result.doc() == value.doc(),
    decreases value,
{
    match value {
        Json::Null => Json::Null,
        Json::Bool(inner) => Json::Bool(*inner),
        Json::Number(inner) => Json::Number(same_number(inner)),
        Json::Text(inner) => Json::Text(inner.clone()),
        Json::List(items) => {
            let mut result: Vec<Json> = Vec::new();
            let mut index: usize = 0;
            assert(items@.take(0) == Seq::<Json>::empty());
            assert(docs(result@) == docs(items@.take(0)));
            while index < items.len()
                invariant
                    index <= items.len(),
                    *value == Json::List(*items),
                    docs(result@) == docs(items@.take(index as int)),
                decreases items.len() - index,
            {
                assert(decreases_to!(*value => value->List_0));
                assert(decreases_to!(*items => items@));
                assert(decreases_to!(items@ => items@[index as int]));
                let item = copy(&items[index]);
                proof {
                    assert(items@.take(index + 1) == items@.take(index as int).push(
                        items@[index as int],
                    ));
                    lemma_docs_push(items@.take(index as int), items@[index as int]);
                    lemma_docs_push(result@, item);
                }
                result.push(item);
                index = index + 1;
            }
            assert(items@.take(items@.len() as int) == items@);
            Json::List(result)
        },
        Json::Object(entries) => {
            let mut result: Vec<(String, Json)> = Vec::new();
            let mut index: usize = 0;
            assert(entries@.take(0) == Seq::<(String, Json)>::empty());
            assert(fields(result@) == fields(entries@.take(0)));
            while index < entries.len()
                invariant
                    index <= entries.len(),
                    *value == Json::Object(*entries),
                    fields(result@) == fields(entries@.take(index as int)),
                decreases entries.len() - index,
            {
                let ghost entry = entries@[index as int];
                assert(decreases_to!(*value => value->Object_0));
                assert(decreases_to!(*entries => entries@));
                assert(decreases_to!(entries@ => entry));
                assert(decreases_to!(entry => entry.1));
                let item = copy(&entries[index].1);
                let name = entries[index].0.clone();
                proof {
                    assert(entries@.take(index + 1) == entries@.take(index as int).push(entry));
                    lemma_fields_push(entries@.take(index as int), entry);
                    lemma_fields_push(result@, (name, item));
                }
                result.push((name, item));
                index = index + 1;
            }
            assert(entries@.take(entries@.len() as int) == entries@);
            Json::Object(result)
        },
    }
}

/// A number of `serde_json`.
#[verifier::external_type_specification]
#[verifier::external_body]
pub struct ExNumber(serde_json::Number);

/// The text of a number, as `serde_json` writes it.
pub uninterp spec fn number_text(value: serde_json::Number) -> Seq<char>;

/// A whole number: `From<u64>` of `serde_json::Number`, which is written as its decimal digits.
#[verifier::external_body]
fn whole(value: u64) -> (result: serde_json::Number)
    ensures
        number_text(result) == text::decimal_of(value as nat),
{
    serde_json::Number::from(value)
}

/// A copy of a number: `Clone` of `serde_json::Number`.
#[verifier::external_body]
fn same_number(value: &serde_json::Number) -> (result: serde_json::Number)
    ensures
        number_text(result) == number_text(*value),
{
    value.clone()
}

/// The text of a number: `Display` of `serde_json::Number`.
#[verifier::external_body]
pub(crate) fn figures(value: &serde_json::Number) -> (result: String)
    ensures
        result@ == number_text(*value),
{
    value.to_string()
}

/// What `serde_json` writes for the number that it reads in a text; nothing where it reads none.
pub uninterp spec fn number_again(value: Seq<char>) -> Option<Seq<char>>;

/// The text of an optional number.
pub open spec fn number_view(value: Option<serde_json::Number>) -> Option<Seq<char>> {
    match value {
        Some(number) => Some(number_text(number)),
        None => None,
    }
}

/// Reads a number: `serde_json::from_str` into `serde_json::Number`, which depends on the text alone.
#[verifier::external_body]
fn read_figures(value: &str) -> (result: Option<serde_json::Number>)
    ensures
        number_view(result) == number_again(value@),
{
    serde_json::from_str(value).ok()
}

impl Doc {
    /// The document of the number that a text holds, or null.
    pub open spec fn figures(value: Seq<char>) -> Doc {
        match number_again(value) {
            Some(inner) => Doc::Number(inner),
            None => Doc::Null,
        }
    }
}

impl Json {
    /// The document of the number that a text holds, or null.
    pub fn figures(value: &str) -> (result: Json)
        ensures
            result.doc() == Doc::figures(value@),
    {
        match read_figures(value) {
            Some(number) => Json::Number(number),
            None => Json::Null,
        }
    }
}

/// A document of `serde_json`.
#[verifier::external_type_specification]
#[verifier::external_body]
pub struct ExValue(serde_json::Value);

/// What a document of `serde_json` holds.
pub uninterp spec fn value_doc(value: serde_json::Value) -> Doc;

/// What `serde_json` reads in a text: the document, or nothing where the text is no JSON.
pub uninterp spec fn parsed_json(value: Seq<char>) -> Option<Doc>;

/// Reads a JSON text: `serde_json::from_str` into `serde_json::Value`, whose result depends on the
/// text alone. What the grammar accepts is left to that crate.
#[verifier::external_body]
fn read(value: &str) -> (result: Option<serde_json::Value>)
    ensures
        match result {
            Some(inner) => parsed_json(value@) == Some(value_doc(inner)),
            None => parsed_json(value@) is None,
        },
{
    serde_json::from_str(value).ok()
}

/// The document of `serde_json` as a plain value: each variant of `serde_json::Value` becomes the
/// variant of the same meaning.
#[verifier::external_body]
fn convert(value: serde_json::Value) -> (result: Json)
    ensures
        result.doc() == value_doc(value),
{
    match value {
        serde_json::Value::Null => Json::Null,
        serde_json::Value::Bool(inner) => Json::Bool(inner),
        serde_json::Value::Number(inner) => Json::Number(inner),
        serde_json::Value::String(inner) => Json::Text(inner),
        serde_json::Value::Array(items) => Json::List(items.into_iter().map(convert).collect()),
        serde_json::Value::Object(entries) => {
            Json::Object(entries.into_iter().map(|(name, item)| (name, convert(item))).collect())
        },
    }
}

/// The compact text of a document, as `serde_json` writes it.
pub uninterp spec fn json_text(doc: Doc) -> Seq<char>;

/// The plain value as a document of `serde_json`: each variant becomes the variant of
/// `serde_json::Value` of the same meaning.
#[verifier::external_body]
fn make(value: Json) -> (result: serde_json::Value)
    ensures
        value_doc(result) == value.doc(),
{
    match value {
        Json::Null => serde_json::Value::Null,
        Json::Bool(inner) => serde_json::Value::Bool(inner),
        Json::Number(inner) => serde_json::Value::Number(inner),
        Json::Text(inner) => serde_json::Value::String(inner),
        Json::List(items) => serde_json::Value::Array(items.into_iter().map(make).collect()),
        Json::Object(entries) => {
            serde_json::Value::Object(entries.into_iter().map(|(name, item)| (name, make(item))).collect())
        },
    }
}

/// Writes a document: `Display` of `serde_json::Value`, which gives its compact text. The text
/// depends on what the document holds alone, since objects are kept in the order of their keys.
#[verifier::external_body]
fn written(value: &serde_json::Value) -> (result: String)
    ensures
        result@ == json_text(value_doc(*value)),
{
    value.to_string()
}

/// Writes a document as a compact text.
pub fn write(value: Json) -> (result: String)
    ensures
        result@ == json_text(value.doc()),
{
    written(&make(value))
}

/// The text of a document in YAML, as `serde_saphyr` writes it, or the reason that it gives.
pub uninterp spec fn yaml_text(doc: Doc) -> Result<Seq<char>, Seq<char>>;

/// What a text that was written means, or why there is none.
pub open spec fn text_or_reason(result: Result<String, String>) -> Result<Seq<char>, Seq<char>> {
    match result {
        Ok(value) => Ok(value@),
        Err(reason) => Err(reason@),
    }
}

/// Writes a document in YAML: `serde_saphyr::to_string`. The text depends on what the document holds
/// alone, since objects are kept in the order of their keys.
#[verifier::external_body]
fn yaml_written(value: &serde_json::Value) -> (result: Result<String, String>)
    ensures
        text_or_reason(result) == yaml_text(value_doc(*value)),
{
    serde_saphyr::to_string(value).map_err(|error| error.to_string())
}

/// Writes a document in YAML.
pub fn write_yaml(value: Json) -> (result: Result<String, String>)
    ensures
        text_or_reason(result) == yaml_text(value.doc()),
{
    yaml_written(&make(value))
}

/// The entry of an object of `serde_json` as a compact text: `serde_json::Value::get` and `Display`.
#[verifier::external_body]
fn entry_written(value: &serde_json::Value, key: &str) -> (result: Option<String>)
    ensures
        text::view_of(result) == entry_text(value_doc(*value), key@),
{
    value.as_object()?.get(key).map(|inner| inner.to_string())
}

/// The compact text of an entry of an object.
pub open spec fn entry_text(doc: Doc, key: Seq<char>) -> Option<Seq<char>> {
    match doc {
        Doc::Object(map) => if map.dom().contains(key) {
            Some(json_text(map[key]))
        } else {
            None
        },
        _ => None,
    }
}

/// The compact text of a JSON text.
pub fn compact(value: &str) -> (result: Option<String>)
    ensures
        match result {
            Some(inner) => parsed_json(value@) is Some && inner@ == json_text(
                parsed_json(value@)->0,
            ),
            None => parsed_json(value@) is None,
        },
{
    match read(value) {
        Some(inner) => Some(written(&inner)),
        None => None,
    }
}

/// The compact text of an entry of the object that a JSON text holds.
pub fn entry(value: &str, key: &str) -> (result: Option<String>)
    ensures
        text::view_of(result) == (match parsed_json(value@) {
            Some(doc) => entry_text(doc, key@),
            None => None,
        }),
{
    match read(value) {
        Some(inner) => entry_written(&inner, key),
        None => None,
    }
}

/// What `serde_json` reads in a text as an object whose entries are kept as they are written, or the
/// reason that it gives. Where a key occurs twice, the later entry counts.
pub uninterp spec fn raw_map(value: Seq<char>) -> Result<Map<Seq<char>, Seq<char>>, Seq<char>>;

/// The map of a list of entries.
pub open spec fn entry_map(entries: Seq<(String, String)>) -> Map<Seq<char>, Seq<char>> {
    Map::new(
        |key: Seq<char>| table::entry_keys(entries).contains(key),
        |key: Seq<char>| entries[table::entry_keys(entries).index_of(key)].1@,
    )
}

fn gathered(entries: Vec<(String, String)>) -> (result: Table<String>)
    requires
        table::ascending(table::entry_keys(entries@)),
    ensures
        table::strings_of(result@) == entry_map(entries@),
{
    let ghost all = entries@;
    let table = Table::from_sorted(entries);
    proof {
        let keys = table::entry_keys(all);
        assert forall|key: Seq<char>| #[trigger] table@.dom().contains(key) implies table@[key]@
            == all[keys.index_of(key)].1@ by {
            assert(table.has(key));
        }
        assert(table::strings_of(table@) =~= entry_map(all));
    }
    table
}

/// What a read of entries means.
pub open spec fn raw_read(result: Result<Vec<(String, String)>, String>) -> Result<
    Map<Seq<char>, Seq<char>>,
    Seq<char>,
> {
    match result {
        Ok(entries) => Ok(entry_map(entries@)),
        Err(reason) => Err(reason@),
    }
}

/// Whether the entries are in the order of their keys.
pub open spec fn raw_ordered(result: Result<Vec<(String, String)>, String>) -> bool {
    match result {
        Ok(entries) => table::ascending(table::entry_keys(entries@)),
        Err(_) => true,
    }
}

/// Reads an object and keeps its entries as they are written: `serde_json::from_str` into a
/// `BTreeMap` of `serde_json::value::RawValue`, which depends on the text alone and is walked in the
/// order of its keys.
#[verifier::external_body]
fn raw_entries(value: &str) -> (result: Result<Vec<(String, String)>, String>)
    ensures
        raw_read(result) == raw_map(value@),
        raw_ordered(result),
{
    let read = serde_json::from_str::<
        std::collections::BTreeMap<String, Box<serde_json::value::RawValue>>,
    >(value);
    let entries = read.map_err(|error| error.to_string())?;
    Ok(entries.into_iter().map(|(key, inner)| (key, inner.get().to_owned())).collect())
}

/// The entries of an object as they are written.
pub fn raw_table(value: &str) -> (result: Result<Table<String>, String>)
    ensures
        match (result, raw_map(value@)) {
            (Ok(table), Ok(map)) => table::strings_of(table@) == map,
            (Err(reason), Err(expected)) => reason@ == expected,
            _ => false,
        },
{
    match raw_entries(value) {
        Ok(entries) => Ok(gathered(entries)),
        Err(reason) => Err(reason),
    }
}

/// What `serde_json` reads in a text as an object of strings, or the reason that it gives. Where a key
/// occurs twice, the later entry counts.
pub uninterp spec fn string_map(value: Seq<char>) -> Result<Map<Seq<char>, Seq<char>>, Seq<char>>;

/// Reads an object of strings: `serde_json::from_str` into a `BTreeMap` of strings, which depends on the
/// text alone and is walked in the order of its keys.
#[verifier::external_body]
fn string_entries(value: &str) -> (result: Result<Vec<(String, String)>, String>)
    ensures
        raw_read(result) == string_map(value@),
        raw_ordered(result),
{
    let entries = serde_json::from_str::<std::collections::BTreeMap<String, String>>(value);
    Ok(entries.map_err(|error| error.to_string())?.into_iter().collect())
}

/// The entries of an object of strings.
pub fn string_table(value: &str) -> (result: Result<Table<String>, String>)
    ensures
        match (result, string_map(value@)) {
            (Ok(table), Ok(map)) => table::strings_of(table@) == map,
            (Err(reason), Err(expected)) => reason@ == expected,
            _ => false,
        },
{
    match string_entries(value) {
        Ok(entries) => Ok(gathered(entries)),
        Err(reason) => Err(reason),
    }
}

/// What `serde_json` reads in a text as an object whose keys hold no escapes and whose entries are kept as
/// they are written; nothing where the text is none. Where a key occurs twice, the later entry counts.
pub uninterp spec fn plain_map(value: Seq<char>) -> Option<Map<Seq<char>, Seq<char>>>;

/// What a read of entries means.
pub open spec fn plain_read(result: Option<Vec<(String, String)>>) -> Option<
    Map<Seq<char>, Seq<char>>,
> {
    match result {
        Some(entries) => Some(entry_map(entries@)),
        None => None,
    }
}

/// Reads an object and keeps its entries as they are written: `serde_json::from_str` into a `BTreeMap`
/// from borrowed keys to borrowed `serde_json::value::RawValue`, which depends on the text alone and is
/// walked in the order of its keys. A key with an escape cannot be borrowed, and the text is refused.
#[verifier::external_body]
fn plain_entries(value: &str) -> (result: Option<Vec<(String, String)>>)
    ensures
        plain_read(result) == plain_map(value@),
        result matches Some(entries) ==> table::ascending(table::entry_keys(entries@)),
{
    let entries = serde_json::from_str::<
        std::collections::BTreeMap<&str, &serde_json::value::RawValue>,
    >(value).ok()?;
    Some(entries.into_iter().map(|(key, inner)| (key.to_owned(), inner.get().to_owned())).collect())
}

/// The entries of an object with keys that hold no escapes, as they are written.
pub fn plain_table(value: &str) -> (result: Option<Table<String>>)
    ensures
        match (result, plain_map(value@)) {
            (Some(table), Some(map)) => table::strings_of(table@) == map,
            (None, None) => true,
            _ => false,
        },
{
    match plain_entries(value) {
        Some(entries) => Some(gathered(entries)),
        None => None,
    }
}

/// What `serde_json` reads in a text as a list whose items are kept as they are written; nothing where the
/// text is none.
pub uninterp spec fn raw_list(value: Seq<char>) -> Option<Seq<Seq<char>>>;

/// Reads a list and keeps its items as they are written: `serde_json::from_str` into a `Vec` of
/// `serde_json::value::RawValue`, which depends on the text alone.
#[verifier::external_body]
pub(crate) fn raw_items(value: &str) -> (result: Option<Vec<String>>)
    ensures
        match result {
            Some(items) => raw_list(value@) == Some(text::views(items@)),
            None => raw_list(value@) is None,
        },
{
    let items = serde_json::from_str::<Vec<Box<serde_json::value::RawValue>>>(value).ok()?;
    Some(items.into_iter().map(|item| item.get().to_owned()).collect())
}

/// Whether `serde_json` takes two documents for equal.
pub uninterp spec fn same_doc(left: Doc, right: Doc) -> bool;

/// Compares two documents: `PartialEq` of `serde_json::Value`, which depends on what they hold alone. A
/// document equals itself; of numbers, it takes both zeros for equal.
#[verifier::external_body]
fn same_value(left: &serde_json::Value, right: &serde_json::Value) -> (result: bool)
    ensures
        result == same_doc(value_doc(*left), value_doc(*right)),
        value_doc(*left) == value_doc(*right) ==> result,
{
    left == right
}

/// Whether two texts are read as equal documents. Two texts that cannot be read count as equal.
pub open spec fn same_text(left: Seq<char>, right: Seq<char>) -> bool {
    match (parsed_json(left), parsed_json(right)) {
        (None, None) => true,
        (Some(one), Some(other)) => same_doc(one, other),
        _ => false,
    }
}

/// Whether two texts are read as equal documents.
pub fn equal(left: &str, right: &str) -> (result: bool)
    ensures
        result == same_text(left@, right@),
        left@ == right@ ==> result,
{
    match (read(left), read(right)) {
        (None, None) => true,
        (Some(one), Some(other)) => same_value(&one, &other),
        _ => false,
    }
}

/// What `serde_saphyr` reads first in a YAML text: the first document that is not empty, nothing where
/// there is none, or the reason that it gives.
pub uninterp spec fn yaml_first(value: Seq<char>) -> Result<Option<Doc>, Seq<char>>;

/// Reads the first document of a YAML text: the first item of `serde_saphyr::read` into
/// `serde_json::Value` over the bytes of the text. It depends on the text alone. What the grammar
/// accepts, and the words of the reason, are left to that crate.
#[verifier::external_body]
fn read_yaml(value: &str) -> (result: Result<Option<serde_json::Value>, String>)
    ensures
        match result {
            Ok(Some(inner)) => yaml_first(value@) == Ok::<Option<Doc>, Seq<char>>(
                Some(value_doc(inner)),
            ),
            Ok(None) => yaml_first(value@) == Ok::<Option<Doc>, Seq<char>>(None),
            Err(reason) => yaml_first(value@) == Err::<Option<Doc>, Seq<char>>(reason@),
        },
{
    let mut input = value.as_bytes();
    let first = serde_saphyr::read::<_, serde_json::Value>(&mut input).next();
    first.transpose().map_err(|error| error.to_string())
}

/// Reads the first document of a YAML text.
pub fn parse_yaml(value: &str) -> (result: Result<Option<Json>, String>)
    ensures
        match result {
            Ok(Some(json)) => yaml_first(value@) == Ok::<Option<Doc>, Seq<char>>(Some(json.doc())),
            Ok(None) => yaml_first(value@) == Ok::<Option<Doc>, Seq<char>>(None),
            Err(reason) => yaml_first(value@) == Err::<Option<Doc>, Seq<char>>(reason@),
        },
{
    match read_yaml(value) {
        Ok(Some(inner)) => Ok(Some(convert(inner))),
        Ok(None) => Ok(None),
        Err(reason) => Err(reason),
    }
}

/// Reads a JSON text.
pub fn parse(value: &str) -> (result: Option<Json>)
    ensures
        match result {
            Some(json) => parsed_json(value@) == Some(json.doc()),
            None => parsed_json(value@) is None,
        },
{
    match read(value) {
        Some(inner) => Some(convert(inner)),
        None => None,
    }
}

/// An entry is found again under its name; the others stay, and one that is taken out is gone.
pub proof fn lemma_entries(map: Map<Seq<char>, Doc>, key: Seq<char>, value: Doc, other: Seq<char>)
    ensures
        Doc::Object(map).with(key, value).at(key) == value,
        other != key ==> Doc::Object(map).with(key, value).at(other) == Doc::Object(map).at(other),
        Doc::Object(map).without(key).at(key) == Doc::Null,
        other != key ==> Doc::Object(map).without(key).at(other) == Doc::Object(map).at(other),
        Doc::object().at(key) == Doc::Null,
        Doc::Object(map).with_if(true, key, value).at(key) == value,
        Doc::Object(map).with_if(false, key, value) == Doc::Object(map),
        map.dom().contains(key) ==> Doc::Object(map).at(key) == map[key],
        !map.dom().contains(key) ==> Doc::Object(map).at(key) == Doc::Null,
        Doc::Text(key).at(other) == Doc::Null && Doc::Null.at(other) == Doc::Null,
        Doc::Text(key).text() == Some(key),
        Doc::Null.text() is None && Doc::Object(map).text() is None,
{
}

/// An object that is made of names and values holds each value under its name, the last of a name.
pub proof fn lemma_object_of(keys: Seq<Seq<char>>, count: int, value: spec_fn(int) -> Doc, at: int)
    requires
        0 <= at < count <= keys.len(),
        forall|i: int| at < i < count ==> #[trigger] keys[i] != keys[at],
    ensures
        object_of(keys, count, value) is Object,
        object_of(keys, count, value).at(keys[at]) == value(at),
    decreases count,
{
    lemma_object_is(keys, count - 1, value);
    if at < count - 1 {
        lemma_object_of(keys, count - 1, value, at);
        assert(keys[count - 1] != keys[at]);
    }
}

proof fn lemma_object_is(keys: Seq<Seq<char>>, count: int, value: spec_fn(int) -> Doc)
    ensures
        object_of(keys, count, value) is Object,
    decreases count,
{
    if count > 0 {
        lemma_object_is(keys, count - 1, value);
    }
}

/// A list of texts holds each of them in order.
pub proof fn lemma_texts(items: Seq<Seq<char>>, at: int)
    ensures
        texts(items) matches Doc::List(docs) && docs.len() == items.len() && (0 <= at < items.len() ==> docs[at]
            == Doc::Text(items[at])),
        Doc::number(0) == Doc::Number(text::decimal_of(0)),
{
}

} // verus!
