//! Texts of documents that are put together from parts, in an order of their own.

use vstd::prelude::*;
use crate::json::{json_text, Doc, Json};
use crate::{json, text};

verus! {

/// A string of a document.
pub open spec fn string_text(value: Seq<char>) -> Seq<char> {
    json_text(Doc::Text(value))
}

/// A string of a document.
pub fn quote(value: &str) -> (result: String)
    ensures
        result@ == string_text(value@),
{
    json::write(Json::text(value))
}

/// A truth value of a document.
pub open spec fn bool_text(value: bool) -> Seq<char> {
    if value {
        "true"@
    } else {
        "false"@
    }
}

/// A truth value of a document.
pub fn boolean(value: bool) -> (result: String)
    ensures
        result@ == bool_text(value),
{
    if value {
        "true".to_owned()
    } else {
        "false".to_owned()
    }
}

/// A list of a document.
pub open spec fn list_text(items: Seq<Seq<char>>) -> Seq<char> {
    "["@ + text::joined(items, ","@) + "]"@
}

/// The strings of a document.
pub open spec fn string_texts(items: Seq<Seq<char>>) -> Seq<Seq<char>> {
    items.map_values(|item: Seq<char>| string_text(item))
}

/// A list of strings of a document.
pub fn quotes(items: &Vec<String>) -> (result: String)
    ensures
        result@ == list_text(string_texts(text::views(items@))),
{
    let ghost all = string_texts(text::views(items@));
    let mut parts: Vec<String> = Vec::new();
    let mut index: usize = 0;
    while index < items.len()
        invariant
            index <= items.len(),
            all == string_texts(text::views(items@)),
            text::views(parts@) == all.take(index as int),
        decreases items.len() - index,
    {
        let part = quote(&items[index]);
        proof {
            assert(all[index as int] == part@);
            assert(text::views(parts@.push(part)) == text::views(parts@).push(part@));
            assert(all.take(index + 1) == all.take(index as int).push(part@));
        }
        parts.push(part);
        index = index + 1;
    }
    assert(all.take(all.len() as int) == all);
    text::cat3("[", &text::join(&parts, ","), "]")
}

/// An entry of an object of a document.
pub open spec fn member_text(name: Seq<char>, value: Seq<char>) -> Seq<char> {
    string_text(name) + ":"@ + value
}

/// An object of a document.
pub open spec fn object_text(members: Seq<Seq<char>>) -> Seq<char> {
    "{"@ + text::joined(members, ","@) + "}"@
}

/// An object of a document.
pub fn object(members: &Vec<String>) -> (result: String)
    ensures
        result@ == object_text(text::views(members@)),
{
    text::cat3("{", &text::join(members, ","), "}")
}

/// The entries with one more, on a condition.
pub open spec fn with_member(
    members: Seq<Seq<char>>,
    there: bool,
    name: Seq<char>,
    value: Seq<char>,
) -> Seq<Seq<char>> {
    if there {
        members.push(member_text(name, value))
    } else {
        members
    }
}

/// Adds an entry on a condition.
pub fn append(members: &mut Vec<String>, there: bool, name: &str, value: &str)
    ensures
        text::views(final(members)@) == with_member(
            text::views(old(members)@),
            there,
            name@,
            value@,
        ),
{
    if there {
        let member = text::cat3(&quote(name), ":", value);
        assert(text::views(members@.push(member)) == text::views(members@).push(member@));
        members.push(member);
    }
}

/// A list of a document.
pub fn list(items: &Vec<String>) -> (result: String)
    ensures
        result@ == list_text(text::views(items@)),
{
    text::cat3("[", &text::join(items, ","), "]")
}

/// An object with one entry for each key.
pub open spec fn keyed_members(keys: Seq<Seq<char>>, value: spec_fn(int) -> Seq<char>) -> Seq<Seq<char>> {
    Seq::new(keys.len(), |i: int| member_text(keys[i], value(i)))
}

/// How parts of a document are written.
pub proof fn lemma_parts_written(name: Seq<char>, value: Seq<char>, members: Seq<Seq<char>>)
    ensures
        bool_text(true) == "true"@ && bool_text(false) == "false"@,
        member_text(name, value) == json_text(Doc::Text(name)) + ":"@ + value,
        object_text(members) == "{"@ + text::joined(members, ","@) + "}"@,
        list_text(members) == "["@ + text::joined(members, ","@) + "]"@,
        with_member(members, true, name, value) == members.push(member_text(name, value)),
        with_member(members, false, name, value) == members,
{
}

} // verus!
