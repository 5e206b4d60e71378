//! The profiles of requests as they are written by hand, where a text may look like something else.

use vstd::prelude::*;
use crate::json::{self, Doc, Json};
use crate::text;

verus! {

/// A text, also where it looks like something else.
pub open spec fn text_of(doc: Doc) -> Doc {
    match doc {
        Doc::Null => Doc::Text(""@),
        Doc::Bool(value) => Doc::Text(
            if value {
                "true"@
            } else {
                "false"@
            },
        ),
        Doc::Number(figures) => Doc::Text(figures),
        _ => doc,
    }
}

/// Whether a word is one for yes.
pub open spec fn is_yes(value: Seq<char>) -> bool {
    value == "y"@ || value == "Y"@ || value == "yes"@ || value == "Yes"@ || value == "YES"@ || value
        == "on"@ || value == "On"@ || value == "ON"@
}

/// Whether a word is one for no.
pub open spec fn is_no(value: Seq<char>) -> bool {
    value == "n"@ || value == "N"@ || value == "no"@ || value == "No"@ || value == "NO"@ || value
        == "off"@ || value == "Off"@ || value == "OFF"@
}

/// A truth value, also where it is written as a word.
pub open spec fn truth_of(doc: Doc) -> Doc {
    match doc {
        Doc::Text(value) => if is_yes(value) {
            Doc::Bool(true)
        } else if is_no(value) {
            Doc::Bool(false)
        } else {
            doc
        },
        _ => doc,
    }
}

/// A document with an entry in its shape, where it has the entry.
pub open spec fn entry_of(doc: Doc, key: Seq<char>, shaped: Doc) -> Doc {
    match doc {
        Doc::Object(map) => if map.dom().contains(key) {
            doc.with(key, shaped)
        } else {
            doc
        },
        _ => doc,
    }
}

/// A truth value that may be left out.
pub open spec fn maybe_truth_of(doc: Doc) -> Doc {
    if doc is Null {
        doc
    } else {
        truth_of(doc)
    }
}

/// A list of texts.
pub open spec fn texts_of(doc: Doc) -> Doc {
    match doc {
        Doc::List(items) => Doc::List(items.map_values(|item: Doc| text_of(item))),
        _ => doc,
    }
}

/// Texts by their names.
pub open spec fn text_map_of(doc: Doc) -> Doc {
    match doc {
        Doc::Object(map) => Doc::Object(map.map_values(|item: Doc| text_of(item))),
        _ => doc,
    }
}

/// A text in an entry.
pub open spec fn with_text(doc: Doc, key: Seq<char>) -> Doc {
    entry_of(doc, key, text_of(doc.at(key)))
}

/// A truth value in an entry.
pub open spec fn with_truth(doc: Doc, key: Seq<char>) -> Doc {
    entry_of(doc, key, truth_of(doc.at(key)))
}

/// A list of texts in an entry.
pub open spec fn with_texts(doc: Doc, key: Seq<char>) -> Doc {
    entry_of(doc, key, texts_of(doc.at(key)))
}

/// Texts by their names in an entry.
pub open spec fn with_text_map(doc: Doc, key: Seq<char>) -> Doc {
    entry_of(doc, key, text_map_of(doc.at(key)))
}

/// A parameter. Numbers are left as they are.
pub open spec fn parameter_of(doc: Doc) -> Doc {
    let first = with_truth(with_text(doc, "type"@), "required"@);
    let second = with_texts(with_text(first, "description"@), "examples"@);
    let third = with_text(with_texts(second, "enum"@), "pattern"@);
    with_texts(third, "reserved_values"@)
}

/// Parameters by their names.
pub open spec fn parameters_of(doc: Doc) -> Doc {
    match doc {
        Doc::Object(map) => Doc::Object(map.map_values(|item: Doc| parameter_of(item))),
        _ => doc,
    }
}

/// What a body is checked for, where it is.
pub open spec fn validation_of(doc: Doc) -> Doc {
    if doc is Null {
        doc
    } else {
        with_texts(with_text(with_truth(doc, "json"@), "pattern"@), "enum"@)
    }
}

/// What a body may be, where there is one. Numbers are left as they are.
pub open spec fn body_of(doc: Doc) -> Doc {
    if doc is Null {
        doc
    } else {
        let first = with_texts(doc, "content_types"@);
        let second = entry_of(first, "required"@, maybe_truth_of(first.at("required"@)));
        entry_of(second, "validation"@, validation_of(second.at("validation"@)))
    }
}

/// The profile of a request. Numbers are left as they are.
pub open spec fn coerced(doc: Doc) -> Doc {
    let first = with_text(with_text(doc, "origin"@), "method"@);
    let second = entry_of(first, "body_policy"@, body_of(first.at("body_policy"@)));
    let third = with_text_map(with_text(second, "path_template"@), "query"@);
    let fourth = entry_of(third, "parameters"@, parameters_of(third.at("parameters"@)));
    with_truth(with_text_map(fourth, "headers"@), "follow_redirects"@)
}

fn yes(value: &str) -> (result: bool)
    ensures
        result == is_yes(value@),
{
    text::same(value, "y") || text::same(value, "Y") || text::same(value, "yes") || text::same(
        value,
        "Yes",
    ) || text::same(value, "YES") || text::same(value, "on") || text::same(value, "On")
        || text::same(value, "ON")
}

fn no(value: &str) -> (result: bool)
    ensures
        result == is_no(value@),
{
    text::same(value, "n") || text::same(value, "N") || text::same(value, "no") || text::same(
        value,
        "No",
    ) || text::same(value, "NO") || text::same(value, "off") || text::same(value, "Off")
        || text::same(value, "OFF")
}

fn to_text(value: Json) -> (result: Json)
    ensures
        result.doc() == text_of(value.doc()),
{
    match value {
        Json::Null => Json::text(""),
        Json::Bool(value) => Json::text(
            if value {
                "true"
            } else {
                "false"
            },
        ),
        Json::Number(number) => Json::Text(json::figures(&number)),
        other => other,
    }
}

fn to_truth(value: Json) -> (result: Json)
    ensures
        result.doc() == truth_of(value.doc()),
{
    match value {
        Json::Text(word) => if yes(&word) {
            Json::Bool(true)
        } else if no(&word) {
            Json::Bool(false)
        } else {
            Json::Text(word)
        },
        other => other,
    }
}

fn to_texts(value: Json) -> (result: Json)
    ensures
        result.doc() == texts_of(value.doc()),
{
    let items = match value {
        Json::List(items) => items,
        other => {
            return other;
        },
    };
    let ghost all = json::docs(items@).map_values(|item: Doc| text_of(item));
    proof {
        json::lemma_docs(items@);
    }
    let mut result: Vec<Json> = Vec::new();
    let mut index: usize = 0;
    assert(json::docs(result@) =~= all.take(0));
    while index < items.len()
        invariant
            index <= items.len(),
            all == json::docs(items@).map_values(|item: Doc| text_of(item)),
            json::docs(items@).len() == items@.len(),
            forall|i: int| 0 <= i < items@.len() ==> #[trigger] json::docs(items@)[i]
                == items@[i].doc(),
            json::docs(result@) == all.take(index as int),
        decreases items.len() - index,
    {
        let item = to_text(json::copy(&items[index]));
        proof {
            assert(json::docs(items@)[index as int] == items@[index as int].doc());
            json::lemma_docs_push(result@, item);
            assert(all[index as int] == item.doc());
            assert(all.take(index + 1) == all.take(index as int).push(item.doc()));
        }
        result.push(item);
        index = index + 1;
    }
    assert(all.take(all.len() as int) == all);
    Json::List(result)
}

fn to_text_map(value: Json) -> (result: Json)
    ensures
        result.doc() == text_map_of(value.doc()),
{
    let entries = match value {
        Json::Object(entries) => entries,
        other => {
            return other;
        },
    };
    let ghost shaped = |item: Doc| text_of(item);
    let mut result: Vec<(String, Json)> = Vec::new();
    let mut index: usize = 0;
    assert(entries@.subrange(0, 0) =~= Seq::<(String, Json)>::empty());
    assert(json::fields(result@) =~= json::fields(entries@.subrange(0, 0)).map_values(shaped));
    while index < entries.len()
        invariant
            index <= entries.len(),
            shaped == (|item: Doc| text_of(item)),
            json::fields(result@) == json::fields(entries@.subrange(0, index as int)).map_values(
                shaped,
            ),
        decreases entries.len() - index,
    {
        let name = entries[index].0.clone();
        let item = to_text(json::copy(&entries[index].1));
        proof {
            let before = entries@.subrange(0, index as int);
            let entry = entries@[index as int];
            json::lemma_fields_push(before, entry);
            json::lemma_fields_push(result@, (name, item));
            assert(before.push(entry) =~= entries@.subrange(0, index + 1));
            assert(json::fields(before).insert(entry.0@, entry.1.doc()).map_values(shaped)
                =~= json::fields(before).map_values(shaped).insert(name@, item.doc()));
        }
        result.push((name, item));
        index = index + 1;
    }
    assert(entries@.subrange(0, entries@.len() as int) =~= entries@);
    Json::Object(result)
}

fn taken(value: &Json, key: &str) -> (result: Option<Json>)
    ensures
        match result {
            Some(inner) => inner.doc() == value.doc().at(key@) && (value.doc() matches Doc::Object(
                map,
            ) && map.dom().contains(key@)),
            None => !(value.doc() matches Doc::Object(map) && map.dom().contains(key@)),
        },
{
    match value.get(key) {
        Some(inner) => Some(json::copy(inner)),
        None => None,
    }
}

fn put_text(value: Json, key: &str) -> (result: Json)
    ensures
        result.doc() == with_text(value.doc(), key@),
{
    match taken(&value, key) {
        Some(inner) => value.with(key, to_text(inner)),
        None => value,
    }
}

fn put_truth(value: Json, key: &str) -> (result: Json)
    ensures
        result.doc() == with_truth(value.doc(), key@),
{
    match taken(&value, key) {
        Some(inner) => value.with(key, to_truth(inner)),
        None => value,
    }
}

fn put_texts(value: Json, key: &str) -> (result: Json)
    ensures
        result.doc() == with_texts(value.doc(), key@),
{
    match taken(&value, key) {
        Some(inner) => value.with(key, to_texts(inner)),
        None => value,
    }
}

fn put_text_map(value: Json, key: &str) -> (result: Json)
    ensures
        result.doc() == with_text_map(value.doc(), key@),
{
    match taken(&value, key) {
        Some(inner) => value.with(key, to_text_map(inner)),
        None => value,
    }
}

fn parameter(value: Json) -> (result: Json)
    ensures
        result.doc() == parameter_of(value.doc()),
{
    let first = put_truth(put_text(value, "type"), "required");
    let second = put_texts(put_text(first, "description"), "examples");
    let third = put_text(put_texts(second, "enum"), "pattern");
    put_texts(third, "reserved_values")
}

fn parameters(value: Json) -> (result: Json)
    ensures
        result.doc() == parameters_of(value.doc()),
{
    let entries = match value {
        Json::Object(entries) => entries,
        other => {
            return other;
        },
    };
    let ghost shaped = |item: Doc| parameter_of(item);
    let mut result: Vec<(String, Json)> = Vec::new();
    let mut index: usize = 0;
    assert(entries@.subrange(0, 0) =~= Seq::<(String, Json)>::empty());
    assert(json::fields(result@) =~= json::fields(entries@.subrange(0, 0)).map_values(shaped));
    while index < entries.len()
        invariant
            index <= entries.len(),
            shaped == (|item: Doc| parameter_of(item)),
            json::fields(result@) == json::fields(entries@.subrange(0, index as int)).map_values(
                shaped,
            ),
        decreases entries.len() - index,
    {
        let name = entries[index].0.clone();
        let item = parameter(json::copy(&entries[index].1));
        proof {
            let before = entries@.subrange(0, index as int);
            let entry = entries@[index as int];
            json::lemma_fields_push(before, entry);
            json::lemma_fields_push(result@, (name, item));
            assert(before.push(entry) =~= entries@.subrange(0, index + 1));
            assert(json::fields(before).insert(entry.0@, entry.1.doc()).map_values(shaped)
                =~= json::fields(before).map_values(shaped).insert(name@, item.doc()));
        }
        result.push((name, item));
        index = index + 1;
    }
    assert(entries@.subrange(0, entries@.len() as int) =~= entries@);
    Json::Object(result)
}

fn validation(value: Json) -> (result: Json)
    ensures
        result.doc() == validation_of(value.doc()),
{
    if let Json::Null = &value {
        return value;
    }
    put_texts(put_text(put_truth(value, "json"), "pattern"), "enum")
}

fn body(value: Json) -> (result: Json)
    ensures
        result.doc() == body_of(value.doc()),
{
    if let Json::Null = &value {
        return value;
    }
    let first = put_texts(value, "content_types");
    let second = match taken(&first, "required") {
        Some(inner) => first.with("required", to_truth(inner)),
        None => first,
    };
    match taken(&second, "validation") {
        Some(inner) => second.with("validation", validation(inner)),
        None => second,
    }
}

/// Brings the profile of a request into its shape. Numbers are left as they are.
pub fn coerce(value: Json) -> (result: Json)
    ensures
        result.doc() == coerced(value.doc()),
{
    let first = put_text(put_text(value, "origin"), "method");
    let second = match taken(&first, "body_policy") {
        Some(inner) => first.with("body_policy", body(inner)),
        None => first,
    };
    let third = put_text_map(put_text(second, "path_template"), "query");
    let fourth = match taken(&third, "parameters") {
        Some(inner) => third.with("parameters", parameters(inner)),
        None => third,
    };
    put_truth(put_text_map(fourth, "headers"), "follow_redirects")
}

/// What is in its shape stays as it is.
pub proof fn lemma_shape_kept(doc: Doc)
    ensures
        text_of(text_of(doc)) == text_of(doc),
        truth_of(truth_of(doc)) == truth_of(doc),
{
}

/// The old words for truth count as such, and no other word does; what is no text but stands for one becomes one.
pub proof fn lemma_words_of_truth(value: Seq<char>)
    ensures
        value == "y"@ || value == "Y"@ || value == "yes"@ || value == "Yes"@ || value == "YES"@ || value
            == "on"@ || value == "On"@ || value == "ON"@ ==> truth_of(Doc::Text(value)) == Doc::Bool(true),
        value == "n"@ || value == "N"@ || value == "no"@ || value == "No"@ || value == "NO"@ || value
            == "off"@ || value == "Off"@ || value == "OFF"@ ==> truth_of(Doc::Text(value)) == Doc::Bool(false),
        truth_of(Doc::Text(value)) is Text ==> truth_of(Doc::Text(value)) == Doc::Text(value),
        text_of(Doc::Number(value)) == Doc::Text(value),
        text_of(Doc::Bool(true)) == Doc::Text("true"@),
        text_of(Doc::Bool(false)) == Doc::Text("false"@),
        text_of(Doc::Text(value)) == Doc::Text(value),
{
    reveal_strlit("y");
    reveal_strlit("Y");
    reveal_strlit("yes");
    reveal_strlit("Yes");
    reveal_strlit("YES");
    reveal_strlit("on");
    reveal_strlit("On");
    reveal_strlit("ON");
    reveal_strlit("n");
    reveal_strlit("N");
    reveal_strlit("no");
    reveal_strlit("No");
    reveal_strlit("NO");
    reveal_strlit("off");
    reveal_strlit("Off");
    reveal_strlit("OFF");
    assert("y"@[0] == 'y' && "Y"@[0] == 'Y' && "yes"@[0] == 'y' && "Yes"@[0] == 'Y' && "YES"@[0] == 'Y');
    assert("on"@[0] == 'o' && "On"@[0] == 'O' && "ON"@[0] == 'O');
    assert("n"@[0] == 'n' && "N"@[0] == 'N' && "no"@[0] == 'n' && "No"@[0] == 'N' && "NO"@[0] == 'N');
    assert("off"@.len() == 3 && "Off"@.len() == 3 && "OFF"@.len() == 3);
    assert("on"@.len() == 2 && "On"@.len() == 2 && "ON"@.len() == 2);
    assert("off"@[0] == 'o' && "Off"@[0] == 'O' && "OFF"@[0] == 'O');
}

/// Where a text is expected, what was read as something plainer is written out again.
pub proof fn lemma_texts_taken(map: Map<Seq<char>, Doc>, key: Seq<char>, value: Seq<char>)
    ensures
        text_of(Doc::Null) == Doc::Text(""@),
        text_of(Doc::Bool(true)) == Doc::Text("true"@) && text_of(Doc::Bool(false)) == Doc::Text("false"@),
        text_of(Doc::Number(value)) == Doc::Text(value),
        text_of(Doc::Text(value)) == Doc::Text(value),
        map.dom().contains(key) ==> with_text(Doc::Object(map), key).at(key) == text_of(map[key]),
        !map.dom().contains(key) ==> with_text(Doc::Object(map), key) == Doc::Object(map),
        map.dom().contains(key) ==> with_truth(Doc::Object(map), key).at(key) == truth_of(map[key]),
        maybe_truth_of(Doc::Null) == Doc::Null,
        maybe_truth_of(Doc::Text(value)) == truth_of(Doc::Text(value)),
        truth_of(Doc::Bool(true)) == Doc::Bool(true),
{
}

} // verus!
