//! The settings of the command line and of the environment.

use vstd::prelude::*;
use crate::cli::mapping::{mapping, mapping_of, reads};
use crate::header;
use crate::json::{self, parsed_json, Doc, Json};
use crate::management::records::{read_texts, texts_of};
use crate::table::{lemma_ordered_keys, lists_in_order, ordered_keys, strings_of};
use crate::text;

verus! {

/// What a setting holds.
#[derive(Clone, Copy, PartialEq, Eq, Structural)]
pub enum Kind {
    Text,
    Number,
    Boolean,
    List,
    Headers,
    Servers,
    Commands,
    Targets,
}

impl Kind {
    /// Whether a setting can be given more than once.
    pub open spec fn is_many(self) -> bool {
        !(self == Kind::Text || self == Kind::Number || self == Kind::Boolean)
    }

    /// Whether a setting can be given more than once.
    pub fn many(self) -> (result: bool)
        ensures
            result == self.is_many(),
    {
        match self {
            Kind::Text | Kind::Number | Kind::Boolean => false,
            _ => true,
        }
    }
}

/// The truth value of a word.
pub open spec fn boolean_of(value: Seq<char>) -> Option<bool> {
    if value == "1"@ || value == "t"@ || value == "T"@ || value == "TRUE"@ || value == "true"@ || value
        == "True"@ {
        Some(true)
    } else if value == "0"@ || value == "f"@ || value == "F"@ || value == "FALSE"@ || value
        == "false"@ || value == "False"@ {
        Some(false)
    } else {
        None
    }
}

/// The truth value of a word, or why it has none.
pub fn boolean(value: &str) -> (result: Result<bool, String>)
    ensures
        match result {
            Ok(truth) => boolean_of(value@) == Some(truth),
            Err(reason) => boolean_of(value@) is None && reason@ == "invalid boolean "@
                + text::debug_text(value@),
        },
{
    if text::same(value, "1") || text::same(value, "t") || text::same(value, "T") || text::same(
        value,
        "TRUE",
    ) || text::same(value, "true") || text::same(value, "True") {
        return Ok(true);
    }
    if text::same(value, "0") || text::same(value, "f") || text::same(value, "F") || text::same(
        value,
        "FALSE",
    ) || text::same(value, "false") || text::same(value, "False") {
        return Ok(false);
    }
    Err(text::cat("invalid boolean ", &text::quoted(value)))
}

/// Whether a text begins with a character, but for white space.
pub open spec fn opens_with(value: Seq<char>, ch: char) -> bool {
    text::trim_start_of(value).len() > 0 && text::trim_start_of(value)[0] == ch
}

fn opens(value: &str, ch: char) -> (result: bool)
    ensures
        result == opens_with(value@, ch),
{
    let all = text::chars(value);
    let mut index: usize = 0;
    assert(value@.skip(0) =~= value@);
    while index < all.len() && text::space(all[index])
        invariant
            index <= all.len(),
            all@ == value@,
            text::trim_start_of(value@) == text::trim_start_of(value@.skip(index as int)),
        decreases all.len() - index,
    {
        assert(value@.skip(index as int).drop_first() =~= value@.skip(index + 1));
        index = index + 1;
    }
    let ghost rest = value@.skip(index as int);
    assert(text::trim_start_of(rest) == rest);
    index < all.len() && all[index] == ch
}

/// The texts in a list.
pub open spec fn listed_of(value: Seq<char>) -> Option<Seq<Seq<char>>> {
    match parsed_json(value) {
        Some(Doc::List(items)) => texts_of(items),
        _ => None,
    }
}

fn listed(value: &str) -> (result: Option<Vec<String>>)
    ensures
        match result {
            Some(items) => listed_of(value@) == Some(text::views(items@)),
            None => listed_of(value@) is None,
        },
{
    match json::parse(value) {
        Some(Json::List(items)) => read_texts(&items),
        _ => None,
    }
}

/// The pieces of texts between a character.
pub open spec fn pieces_of(items: Seq<Seq<char>>, ch: char) -> Seq<Seq<char>>
    decreases items.len(),
{
    if items.len() == 0 {
        Seq::empty()
    } else {
        pieces_of(items.drop_last(), ch) + text::split_of(items.last(), ch)
    }
}

/// The texts without white space around them, and without those that are only that.
pub open spec fn solid_of(items: Seq<Seq<char>>) -> Seq<Seq<char>>
    decreases items.len(),
{
    if items.len() == 0 {
        Seq::empty()
    } else {
        let rest = solid_of(items.drop_last());
        let last = text::trim_of(items.last());
        if last.len() == 0 {
            rest
        } else {
            rest.push(last)
        }
    }
}

fn pieces(items: &Vec<String>, ch: char) -> (result: Vec<String>)
    ensures
        text::views(result@) == pieces_of(text::views(items@), ch),
{
    let ghost all = text::views(items@);
    let mut result: Vec<String> = Vec::new();
    let mut index: usize = 0;
    assert(text::views(result@) =~= pieces_of(all.take(0), ch));
    while index < items.len()
        invariant
            index <= items.len(),
            all == text::views(items@),
            text::views(result@) == pieces_of(all.take(index as int), ch),
        decreases items.len() - index,
    {
        proof {
            assert(all.take(index + 1).drop_last() == all.take(index as int));
            assert(all.take(index + 1).last() == items@[index as int]@);
        }
        let mut more = text::split(&items[index], ch);
        assert(text::views(result@ + more@) =~= text::views(result@) + text::views(more@));
        result.append(&mut more);
        index = index + 1;
    }
    assert(all.take(all.len() as int) == all);
    result
}

fn solid(items: &Vec<String>) -> (result: Vec<String>)
    ensures
        text::views(result@) == solid_of(text::views(items@)),
{
    let ghost all = text::views(items@);
    let mut result: Vec<String> = Vec::new();
    let mut index: usize = 0;
    assert(text::views(result@) =~= solid_of(all.take(0)));
    while index < items.len()
        invariant
            index <= items.len(),
            all == text::views(items@),
            text::views(result@) == solid_of(all.take(index as int)),
        decreases items.len() - index,
    {
        proof {
            assert(all.take(index + 1).drop_last() == all.take(index as int));
            assert(all.take(index + 1).last() == items@[index as int]@);
        }
        let own = text::trim(&items[index]);
        if !own.is_empty() {
            assert(text::views(result@.push(own)) =~= text::views(result@).push(own@));
            result.push(own);
        }
        index = index + 1;
    }
    assert(all.take(all.len() as int) == all);
    result
}

/// The lines of the headers of an object, in the order of their names.
pub open spec fn header_lines(map: Map<Seq<char>, Seq<char>>) -> Seq<Seq<char>> {
    ordered_keys(map.dom()).map_values(|name: Seq<char>| name + ": "@ + map[name])
}

/// The lines of the headers of an object, or why the text holds none.
pub open spec fn object_lines(value: Seq<char>) -> Result<Seq<Seq<char>>, Seq<char>> {
    match json::string_map(value) {
        Ok(map) => Ok(header_lines(map)),
        Err(reason) => Err(reason),
    }
}

fn object(value: &str) -> (result: Result<Vec<String>, String>)
    ensures
        lists(result, object_lines(value@)),
{
    let table = match json::string_table(value) {
        Ok(table) => table,
        Err(reason) => {
            return Err(reason);
        },
    };
    let count: usize = table.len();
    let ghost keys = table.keys();
    let ghost map = strings_of(table@);
    let ghost all = header_lines(map);
    proof {
        assert(map.dom() =~= table@.dom());
        assert forall|key: Seq<char>| #[trigger] keys.contains(key) <==> map.dom().contains(key) by {
            assert(table@.dom().contains(key) <==> keys.contains(key));
        }
        assert(lists_in_order(keys, map.dom()));
        lemma_ordered_keys(keys, map.dom());
    }
    let mut result: Vec<String> = Vec::new();
    let mut index: usize = 0;
    while index < count
        invariant
            index <= count,
            count == keys.len(),
            keys == table.keys(),
            map == strings_of(table@),
            keys == ordered_keys(map.dom()),
            all == header_lines(map),
            text::views(result@) == all.take(index as int),
        decreases count - index,
    {
        let line = text::cat3(table.key(index), ": ", table.value(index));
        proof {
            assert(all[index as int] == line@);
            assert(all.take(index + 1) =~= all.take(index as int).push(line@));
            assert(text::views(result@.push(line)) =~= text::views(result@).push(line@));
        }
        result.push(line);
        index = index + 1;
    }
    assert(all.take(all.len() as int) =~= all);
    Ok(result)
}

/// The setting with the channels that are polled.
pub const CHANNELS: &'static str = "control-plane.poll-channel";

/// What the values of a setting come to, or why they come to nothing: a list may be written as one, and a
/// variable of the environment may hold several values.
pub open spec fn unpacked(name: Seq<char>, kind: Kind, given: Seq<Seq<char>>) -> Result<
    Seq<Seq<char>>,
    Seq<char>,
> {
    if kind.is_many() && given.len() == 1 && opens_with(given[0], '[') {
        match listed_of(given[0]) {
            Some(items) => Ok(items),
            None => Err("parse --"@ + name),
        }
    } else {
        Ok(given)
    }
}

/// The values that a variable of the environment holds, or why it holds none.
pub open spec fn spread(name: Seq<char>, kind: Kind, given: Seq<Seq<char>>) -> Result<
    Seq<Seq<char>>,
    Seq<char>,
> {
    match kind {
        Kind::Servers | Kind::Commands | Kind::Targets => Ok(solid_of(pieces_of(given, '\n'))),
        Kind::List => if name == CHANNELS@ {
            Ok(given)
        } else {
            Ok(pieces_of(given, ';'))
        },
        Kind::Headers => if given.len() == 1 && opens_with(given[0], '{') {
            object_lines(given[0])
        } else {
            Ok(solid_of(pieces_of(pieces_of(given, ','), ';')))
        },
        _ => Ok(given),
    }
}

/// The headers of the first values, or why one is none.
pub open spec fn headers_of(items: Seq<Seq<char>>, count: int) -> Result<Doc, Seq<char>>
    decreases count,
{
    if count <= 0 {
        Ok(Doc::object())
    } else {
        match headers_of(items, count - 1) {
            Err(reason) => Err(reason),
            Ok(before) => match text::split_once_of(items[count - 1], ':') {
                None => Err("HTTP headers use Name: Value"@),
                Some((name, value)) => if header::is_name(text::trim_of(name)) {
                    Ok(before.with(text::trim_of(name), Doc::Text(text::trim_of(value))))
                } else {
                    Err("invalid HTTP header name"@)
                },
            },
        }
    }
}

proof fn lemma_headers_fail(items: Seq<Seq<char>>, at: int, count: int)
    requires
        0 <= at <= count,
        headers_of(items, at) is Err,
    ensures
        headers_of(items, count) == headers_of(items, at),
    decreases count - at,
{
    if at < count {
        lemma_headers_fail(items, at, count - 1);
    }
}

fn headers(items: &Vec<String>) -> (result: Result<Json, String>)
    ensures
        reads(result, headers_of(text::views(items@), items@.len() as int)),
{
    let ghost all = text::views(items@);
    let mut made = Json::object();
    let mut index: usize = 0;
    while index < items.len()
        invariant
            index <= items.len(),
            all == text::views(items@),
            headers_of(all, index as int) == Ok::<Doc, Seq<char>>(made.doc()),
        decreases items.len() - index,
    {
        assert(all[index as int] == items@[index as int]@);
        let failed = match text::split_once(&items[index], ':') {
            None => Some("HTTP headers use Name: Value".to_owned()),
            Some((name, value)) => {
                let name = text::trim(&name);
                match header::name(&name) {
                    Some(_) => {
                        made = made.with(&name, Json::text(&text::trim(&value)));
                        None
                    },
                    None => Some("invalid HTTP header name".to_owned()),
                }
            },
        };
        if let Some(reason) = failed {
            proof {
                lemma_headers_fail(all, index + 1, all.len() as int);
            }
            return Err(reason);
        }
        index = index + 1;
    }
    Ok(made)
}

/// The services or the targets of the first values, or why one is none.
pub open spec fn mappings_of(items: Seq<Seq<char>>, kind: Kind, count: int) -> Result<
    Seq<Doc>,
    Seq<char>,
>
    decreases count,
{
    if count <= 0 {
        Ok(Seq::empty())
    } else {
        match (mappings_of(items, kind, count - 1), mapping_of(items[count - 1], kind)) {
            (Err(reason), _) => Err(reason),
            (_, Err(reason)) => Err(reason),
            (Ok(before), Ok(doc)) => Ok(before.push(doc)),
        }
    }
}

proof fn lemma_mappings_fail(items: Seq<Seq<char>>, kind: Kind, at: int, count: int)
    requires
        0 <= at <= count,
        mappings_of(items, kind, at) is Err,
    ensures
        mappings_of(items, kind, count) == mappings_of(items, kind, at),
    decreases count - at,
{
    if at < count {
        lemma_mappings_fail(items, kind, at, count - 1);
    }
}

/// A list of documents, or why there is none.
pub open spec fn list_of(items: Result<Seq<Doc>, Seq<char>>) -> Result<Doc, Seq<char>> {
    match items {
        Ok(items) => Ok(Doc::List(items)),
        Err(reason) => Err(reason),
    }
}

fn mappings(items: &Vec<String>, kind: Kind) -> (result: Result<Json, String>)
    ensures
        reads(result, list_of(mappings_of(text::views(items@), kind, items@.len() as int))),
{
    let ghost all = text::views(items@);
    let mut made: Vec<Json> = Vec::new();
    let mut index: usize = 0;
    assert(json::docs(made@) =~= Seq::<Doc>::empty());
    while index < items.len()
        invariant
            index <= items.len(),
            all == text::views(items@),
            mappings_of(all, kind, index as int) == Ok::<Seq<Doc>, Seq<char>>(json::docs(made@)),
        decreases items.len() - index,
    {
        assert(all[index as int] == items@[index as int]@);
        match mapping(&items[index], kind) {
            Ok(value) => {
                proof {
                    json::lemma_docs_push(made@, value);
                }
                made.push(value);
            },
            Err(reason) => {
                proof {
                    lemma_mappings_fail(all, kind, index + 1, all.len() as int);
                }
                return Err(reason);
            },
        }
        index = index + 1;
    }
    Ok(Json::List(made))
}

/// The document of the values of a setting, or why there is none.
pub open spec fn value_of(name: Seq<char>, kind: Kind, items: Seq<Seq<char>>) -> Result<Doc, Seq<char>> {
    match kind {
        Kind::Text => Ok(Doc::Text(items[0])),
        Kind::Number => match text::unsigned_of(items[0]) {
            Some(number) => Ok(Doc::number(number as nat)),
            None => Err("--"@ + name + " requires an unsigned integer"@),
        },
        Kind::Boolean => match boolean_of(items[0]) {
            Some(truth) => Ok(Doc::Bool(truth)),
            None => Err("invalid boolean "@ + text::debug_text(items[0])),
        },
        Kind::List => if name == CHANNELS@ {
            Ok(json::texts(solid_of(pieces_of(items, ','))))
        } else {
            Ok(json::texts(solid_of(items)))
        },
        Kind::Headers => headers_of(items, items.len() as int),
        _ => list_of(mappings_of(items, kind, items.len() as int)),
    }
}

/// The document of a setting, or why there is none.
pub open spec fn setting_of(
    name: Seq<char>,
    kind: Kind,
    environment: bool,
    given: Seq<Seq<char>>,
) -> Result<Doc, Seq<char>> {
    match unpacked(name, kind, given) {
        Err(reason) => Err(reason),
        Ok(items) => if environment {
            match spread(name, kind, items) {
                Err(reason) => Err(reason),
                Ok(items) => value_of(name, kind, items),
            }
        } else {
            value_of(name, kind, items)
        },
    }
}

/// The texts, or why there are none.
pub open spec fn lists(result: Result<Vec<String>, String>, expected: Result<Seq<Seq<char>>, Seq<char>>) -> bool {
    match (result, expected) {
        (Ok(items), Ok(expected)) => text::views(items@) == expected,
        (Err(reason), Err(expected)) => reason@ == expected,
        _ => false,
    }
}

fn unpack(name: &str, kind: Kind, given: Vec<String>) -> (result: Result<Vec<String>, String>)
    ensures
        lists(result, unpacked(name@, kind, text::views(given@))),
{
    assert(text::views(given@).len() == given@.len());
    if kind.many() && given.len() == 1 {
        assert(text::views(given@)[0] == given@[0]@);
        if opens(&given[0], '[') {
            return match listed(&given[0]) {
                Some(items) => Ok(items),
                None => Err(text::cat("parse --", name)),
            };
        }
    }
    Ok(given)
}

fn spread_out(name: &str, kind: Kind, given: Vec<String>) -> (result: Result<Vec<String>, String>)
    ensures
        lists(result, spread(name@, kind, text::views(given@))),
{
    match kind {
        Kind::Servers | Kind::Commands | Kind::Targets => Ok(solid(&pieces(&given, '\n'))),
        Kind::List => if text::same(name, CHANNELS) {
            Ok(given)
        } else {
            Ok(pieces(&given, ';'))
        },
        Kind::Headers => {
            assert(text::views(given@).len() == given@.len());
            if given.len() == 1 {
                assert(text::views(given@)[0] == given@[0]@);
                if opens(&given[0], '{') {
                    return object(&given[0]);
                }
            }
            Ok(solid(&pieces(&pieces(&given, ','), ';')))
        },
        _ => Ok(given),
    }
}

fn value(name: &str, kind: Kind, items: &Vec<String>) -> (result: Result<Json, String>)
    requires
        kind.is_many() || items@.len() > 0,
    ensures
        reads(result, value_of(name@, kind, text::views(items@))),
{
    match kind {
        Kind::Text => Ok(Json::text(&items[0])),
        Kind::Number => match text::unsigned(&items[0]) {
            Some(number) => Ok(Json::number(number)),
            None => Err(text::cat3("--", name, " requires an unsigned integer")),
        },
        Kind::Boolean => match boolean(&items[0]) {
            Ok(truth) => Ok(Json::Bool(truth)),
            Err(reason) => Err(reason),
        },
        Kind::List => if text::same(name, CHANNELS) {
            Ok(Json::texts(&solid(&pieces(items, ','))))
        } else {
            Ok(Json::texts(&solid(items)))
        },
        Kind::Headers => headers(items),
        _ => mappings(items, kind),
    }
}

/// The document of a setting from what is given for it on the command line or in the environment, or why
/// there is none.
pub fn setting(name: &str, kind: Kind, environment: bool, given: Vec<String>) -> (result: Result<
    Json,
    String,
>)
    requires
        kind.is_many() || given@.len() > 0,
    ensures
        reads(result, setting_of(name@, kind, environment, text::views(given@))),
{
    let mut items = match unpack(name, kind, given) {
        Ok(items) => items,
        Err(reason) => {
            return Err(reason);
        },
    };
    assert(text::views(items@).len() == items@.len());
    assert(text::views(given@).len() == given@.len());
    if environment {
        items =
        match spread_out(name, kind, items) {
            Ok(items) => items,
            Err(reason) => {
                return Err(reason);
            },
        };
        assert(text::views(items@).len() == items@.len());
    }
    value(name, kind, &items)
}

/// Whether a setting is given under its own name on the command line, or else under another one there.
pub fn spelling(own: bool, others: &Vec<bool>) -> (result: Option<usize>)
    ensures
        match result {
            None => own || forall|i: int| 0 <= i < others@.len() ==> !#[trigger] others@[i],
            Some(at) => !own && at < others@.len() && others@[at as int] && forall|i: int|
                0 <= i < at ==> !#[trigger] others@[i],
        },
{
    if own {
        return None;
    }
    let mut index: usize = 0;
    while index < others.len()
        invariant
            index <= others.len(),
            !own,
            forall|i: int| 0 <= i < index ==> !#[trigger] others@[i],
        decreases others.len() - index,
    {
        if others[index] {
            return Some(index);
        }
        index = index + 1;
    }
    None
}

/// The words for yes and for no.
pub proof fn lemma_booleans(value: Seq<char>)
    ensures
        boolean_of("1"@) == Some(true) && boolean_of("t"@) == Some(true) && boolean_of("T"@) == Some(true)
            && boolean_of("TRUE"@) == Some(true) && boolean_of("true"@) == Some(true) && boolean_of("True"@)
            == Some(true),
        boolean_of("0"@) == Some(false) && boolean_of("f"@) == Some(false) && boolean_of("F"@) == Some(false)
            && boolean_of("FALSE"@) == Some(false) && boolean_of("false"@) == Some(false) && boolean_of("False"@)
            == Some(false),
        value.len() == 0 || value.len() > 5 ==> boolean_of(value) is None,
{
    reveal_strlit("1");
    reveal_strlit("t");
    reveal_strlit("T");
    reveal_strlit("TRUE");
    reveal_strlit("true");
    reveal_strlit("True");
    reveal_strlit("0");
    reveal_strlit("f");
    reveal_strlit("F");
    reveal_strlit("FALSE");
    reveal_strlit("false");
    reveal_strlit("False");
    assert("1"@.len() == 1 && "1"@[0] == '1');
    assert("t"@.len() == 1 && "t"@[0] == 't');
    assert("T"@.len() == 1 && "T"@[0] == 'T');
    assert("TRUE"@.len() == 4 && "TRUE"@[0] == 'T' && "TRUE"@[1] == 'R');
    assert("true"@.len() == 4 && "true"@[0] == 't');
    assert("True"@.len() == 4 && "True"@[1] == 'r' && "True"@[0] == 'T');
    assert("0"@.len() == 1 && "0"@[0] == '0');
    assert("f"@.len() == 1 && "f"@[0] == 'f');
    assert("F"@.len() == 1 && "F"@[0] == 'F');
    assert("FALSE"@.len() == 5 && "FALSE"@[0] == 'F' && "FALSE"@[1] == 'A');
    assert("false"@.len() == 5 && "false"@[0] == 'f');
    assert("False"@.len() == 5 && "False"@[1] == 'a' && "False"@[0] == 'F');
}

/// Some settings hold one value, others many.
pub proof fn lemma_kinds_many()
    ensures
        !Kind::Text.is_many() && !Kind::Number.is_many() && !Kind::Boolean.is_many(),
        Kind::List.is_many() && Kind::Headers.is_many() && Kind::Servers.is_many() && Kind::Commands.is_many()
            && Kind::Targets.is_many(),
{
}

/// Splitting a list splits each of its items in turn.
pub proof fn lemma_pieces(items: Seq<Seq<char>>, last: Seq<char>, ch: char)
    ensures
        pieces_of(items.push(last), ch) == pieces_of(items, ch) + text::split_of(last, ch),
        pieces_of(Seq::empty(), ch).len() == 0,
{
    assert(items.push(last).drop_last() =~= items);
}

/// Of a list the items stay that hold more than white space, without the white space around them.
pub proof fn lemma_solid(items: Seq<Seq<char>>, last: Seq<char>)
    ensures
        text::trim_of(last).len() > 0 ==> solid_of(items.push(last)) == solid_of(items).push(
            text::trim_of(last),
        ),
        text::trim_of(last).len() == 0 ==> solid_of(items.push(last)) == solid_of(items),
        solid_of(Seq::empty()).len() == 0,
{
    assert(items.push(last).drop_last() =~= items);
}

/// A setting of one value is read as such, whether it comes from a flag or from the environment.
pub proof fn lemma_single_settings(name: Seq<char>, environment: bool, value: Seq<char>)
    ensures
        setting_of(name, Kind::Text, environment, seq![value]) == Ok::<Doc, Seq<char>>(Doc::Text(value)),
        text::unsigned_of(value) matches Some(number) ==> setting_of(
            name,
            Kind::Number,
            environment,
            seq![value],
        ) == Ok::<Doc, Seq<char>>(Doc::number(number as nat)),
        text::unsigned_of(value) is None ==> setting_of(name, Kind::Number, environment, seq![value]) is Err,
        value == "true"@ || value == "1"@ ==> setting_of(name, Kind::Boolean, environment, seq![value]) == Ok::<
            Doc,
            Seq<char>,
        >(Doc::Bool(true)),
        value == "false"@ || value == "0"@ ==> setting_of(name, Kind::Boolean, environment, seq![value])
            == Ok::<Doc, Seq<char>>(Doc::Bool(false)),
        value.len() == 0 ==> setting_of(name, Kind::Boolean, environment, seq![value]) is Err,
{
    lemma_booleans(value);
}

/// A list comes one item a flag; from the environment it is split at semicolons.
pub proof fn lemma_list_settings(name: Seq<char>, first: Seq<char>, second: Seq<char>)
    requires
        name != "control-plane.poll-channel"@,
    ensures
        setting_of(name, Kind::List, false, seq![first, second]) == Ok::<Doc, Seq<char>>(
            json::texts(solid_of(seq![first, second])),
        ),
        setting_of(name, Kind::List, true, seq![first, second]) == Ok::<Doc, Seq<char>>(
            json::texts(solid_of(pieces_of(seq![first, second], ';'))),
        ),
{
}

/// The channels to poll are split at commas, wherever they come from.
pub proof fn lemma_channel_settings(environment: bool, first: Seq<char>, second: Seq<char>)
    ensures
        setting_of("control-plane.poll-channel"@, Kind::List, environment, seq![first, second]) == Ok::<
            Doc,
            Seq<char>,
        >(json::texts(solid_of(pieces_of(seq![first, second], ',')))),
{
}

/// A list can be given as one document; one that cannot be read is refused.
pub proof fn lemma_document_settings(name: Seq<char>, value: Seq<char>, kind: Kind, items: Seq<Doc>)
    requires
        kind.is_many(),
        text::trim_start_of(value).len() > 0,
        text::trim_start_of(value)[0] == '[',
    ensures
        parsed_json(value) == Some(Doc::List(items)) && texts_of(items) is Some ==> unpacked(
            name,
            kind,
            seq![value],
        ) == Ok::<Seq<Seq<char>>, Seq<char>>(texts_of(items)->0),
        parsed_json(value) is None ==> setting_of(name, kind, false, seq![value]) is Err && setting_of(
            name,
            kind,
            true,
            seq![value],
        ) is Err,
{
}

/// Servers, commands and targets come from the environment one a line.
pub proof fn lemma_lines_given(name: Seq<char>, given: Seq<Seq<char>>)
    ensures
        spread(name, Kind::Servers, given) == Ok::<Seq<Seq<char>>, Seq<char>>(solid_of(pieces_of(given, '\n'))),
        spread(name, Kind::Commands, given) == Ok::<Seq<Seq<char>>, Seq<char>>(solid_of(pieces_of(given, '\n'))),
        spread(name, Kind::Targets, given) == Ok::<Seq<Seq<char>>, Seq<char>>(solid_of(pieces_of(given, '\n'))),
        given.len() != 1 ==> spread(name, Kind::Headers, given) == Ok::<Seq<Seq<char>>, Seq<char>>(
            solid_of(pieces_of(pieces_of(given, ','), ';')),
        ),
{
}

/// A header is given as its name and its value with a colon between; the last of a name counts, and one that is wrong
/// has all of them refused.
pub proof fn lemma_headers_given(items: Seq<Seq<char>>, before: Doc, name: Seq<char>, value: Seq<char>)
    requires
        items.len() > 0,
        headers_of(items, items.len() - 1) == Ok::<Doc, Seq<char>>(before),
    ensures
        text::split_once_of(items.last(), ':') is None ==> headers_of(items, items.len() as int) is Err,
        text::split_once_of(items.last(), ':') == Some((name, value)) && header::is_name(text::trim_of(name))
            ==> headers_of(items, items.len() as int) == Ok::<Doc, Seq<char>>(
            before.with(text::trim_of(name), Doc::Text(text::trim_of(value))),
        ),
        text::split_once_of(items.last(), ':') == Some((name, value)) && !header::is_name(text::trim_of(name))
            ==> headers_of(items, items.len() as int) is Err,
{
}

/// A list of mappings holds each of them in order, or is refused.
pub proof fn lemma_mappings_given(items: Seq<Seq<char>>, kind: Kind, count: int, at: int)
    requires
        0 <= count <= items.len(),
    ensures
        mappings_of(items, kind, count) matches Ok(docs) ==> docs.len() == count && (0 <= at < count
            ==> mapping_of(items[at], kind) == Ok::<Doc, Seq<char>>(docs[at])),
        0 <= at < count && mapping_of(items[at], kind) is Err ==> mappings_of(items, kind, count) is Err,
    decreases count,
{
    if count > 0 {
        lemma_mappings_given(items, kind, count - 1, at);
    }
}

} // verus!
