//! Configuration of the client.

use vstd::prelude::*;
use crate::table::{strings_of, Table};
use crate::{header, text};
use crate::config::reference::Sources;

pub mod duration;
pub mod normal;
pub mod reference;
pub mod settings;
pub mod source;
pub mod validation;
pub mod values;
pub mod yaml;

verus! {

/// The channel that requests without one go to.
pub fn main_channel() -> (result: String)
    ensures
        result@ == "main"@,
{
    "main".to_owned()
}

/// White space of ASCII.
pub open spec fn is_blank(byte: u8) -> bool {
    byte == 32 || byte == 9 || byte == 10 || byte == 12 || byte == 13
}

/// Whether there is nothing but white space.
pub open spec fn is_all_blank(value: Seq<u8>) -> bool {
    forall|i: int| 0 <= i < value.len() ==> is_blank(#[trigger] value[i])
}

fn all_blank(value: &Vec<u8>) -> (result: bool)
    ensures
        result == is_all_blank(value@),
{
    let mut index: usize = 0;
    while index < value.len()
        invariant
            index <= value.len(),
            forall|i: int| 0 <= i < index ==> is_blank(#[trigger] value@[i]),
        decreases value.len() - index,
    {
        let byte: u8 = value[index];
        if !(byte == 32 || byte == 9 || byte == 10 || byte == 12 || byte == 13) {
            return false;
        }
        index = index + 1;
    }
    true
}

/// The bytes without one line ending.
pub open spec fn without_ending(value: Seq<u8>) -> Seq<u8> {
    let count = value.len();
    if count >= 2 && value[count - 2] == 13 && value[count - 1] == 10 {
        value.take(count - 2)
    } else if count >= 1 && (value[count - 1] == 13 || value[count - 1] == 10) {
        value.take(count - 1)
    } else {
        value
    }
}

fn strip_ending(value: &Vec<u8>) -> (result: Vec<u8>)
    ensures
        result@ == without_ending(value@),
{
    let count: usize = value.len();
    let mut result = value.clone();
    if count >= 2 && value[count - 2] == 13 && value[count - 1] == 10 {
        result.truncate(count - 2);
    } else if count >= 1 && (value[count - 1] == 13 || value[count - 1] == 10) {
        result.truncate(count - 1);
    }
    result
}

/// The bytes that a configured header value refers to, or why there are none.
pub open spec fn header_source(raw: Seq<char>, sources: Sources) -> Result<Seq<u8>, Seq<char>> {
    let trimmed = text::trim_of(raw);
    match text::split_once_of(trimmed, ':') {
        Some((kind, rest)) => if text::same_folded(kind, "env"@) {
            if sources.variables@.dom().contains(text::trim_of(rest)) {
                Ok(
                    vstd::utf8::encode_utf8(
                        text::trim_of(sources.variables@[text::trim_of(rest)]@),
                    ),
                )
            } else {
                Err("read header environment variable "@ + rest)
            }
        } else if text::same_folded(kind, "file"@) {
            if sources.files@.dom().contains(text::trim_of(rest)) {
                Ok(without_ending(sources.files@[text::trim_of(rest)]@))
            } else {
                Err("read header file "@ + rest)
            }
        } else {
            Ok(vstd::utf8::encode_utf8(trimmed))
        },
        None => Ok(vstd::utf8::encode_utf8(trimmed)),
    }
}

/// The bytes that a configured header value stands for, or why there are none.
pub open spec fn header_bytes(name: Seq<char>, raw: Seq<char>, sources: Sources) -> Result<
    Seq<u8>,
    Seq<char>,
> {
    match header_source(raw, sources) {
        Err(reason) => Err(reason),
        Ok(bytes) => if is_all_blank(bytes) {
            Err("resolved HTTP header "@ + name + " is empty"@)
        } else if !header::is_value(bytes) {
            Err("failed to parse header value"@)
        } else {
            Ok(bytes)
        },
    }
}

fn resolve_header(name: &str, raw: &str, sources: &Sources) -> (result: Result<Vec<u8>, String>)
    ensures
        match (result, header_bytes(name@, raw@, *sources)) {
            (Ok(bytes), Ok(expected)) => bytes@ == expected,
            (Err(reason), Err(expected)) => reason@ == expected,
            _ => false,
        },
{
    let trimmed = text::trim(raw);
    let found = match text::split_once(&trimmed, ':') {
        Some((kind, rest)) => {
            if text::same_ignoring_case(&kind, "env") {
                match sources.variables.get(&text::trim(&rest)) {
                    Some(value) => text::bytes(&text::trim(value)),
                    None => {
                        return Err(text::cat("read header environment variable ", &rest));
                    },
                }
            } else if text::same_ignoring_case(&kind, "file") {
                match sources.files.get(&text::trim(&rest)) {
                    Some(value) => strip_ending(value),
                    None => {
                        return Err(text::cat("read header file ", &rest));
                    },
                }
            } else {
                text::bytes(&trimmed)
            }
        },
        None => text::bytes(&trimmed),
    };
    if all_blank(&found) {
        return Err(text::cat3("resolved HTTP header ", name, " is empty"));
    }
    if !header::valid_value(&found) {
        return Err("failed to parse header value".to_owned());
    }
    Ok(found)
}

/// Why a configured header name is refused, if so: it is no header name, or an earlier one differs
/// only in capitals and has another value.
pub open spec fn name_fault(keys: Seq<Seq<char>>, values: Seq<String>, at: int) -> Option<Seq<char>> {
    let name = text::lowercase_of(keys[at]);
    if !header::is_name(keys[at]) {
        Some("invalid HTTP header name"@)
    } else if exists|j: int|
        0 <= j < at && text::lowercase_of(#[trigger] keys[j]) == name && values[j]@
            != values[at]@ {
        Some("conflicting values for case-insensitive HTTP header "@ + name)
    } else {
        None
    }
}

/// The configured headers by their small names, or why there are none.
pub open spec fn normalized_headers(keys: Seq<Seq<char>>, values: Seq<String>, count: int) -> Result<
    Map<Seq<char>, Seq<char>>,
    Seq<char>,
>
    decreases count,
{
    if count <= 0 {
        Ok(Map::empty())
    } else {
        match normalized_headers(keys, values, count - 1) {
            Err(reason) => Err(reason),
            Ok(map) => match name_fault(keys, values, count - 1) {
                Some(reason) => Err(reason),
                None => Ok(map.insert(text::lowercase_of(keys[count - 1]), values[count - 1]@)),
            },
        }
    }
}

/// There are no more names than there were headers.
pub proof fn lemma_given_size(keys: Seq<Seq<char>>, values: Seq<String>, count: int)
    requires
        0 <= count,
    ensures
        normalized_headers(keys, values, count) matches Ok(map) ==> map.dom().finite()
            && map.dom().len() <= count,
    decreases count,
{
    if count > 0 {
        lemma_given_size(keys, values, count - 1);
    }
}

/// Whether the map holds the resolved value of each header.
pub open spec fn holds_headers(
    map: Map<Seq<char>, Seq<Seq<u8>>>,
    given: Map<Seq<char>, Seq<char>>,
    sources: Sources,
) -> bool {
    &&& map.dom() == given.dom()
    &&& forall|name: Seq<char>| #[trigger]
        map.dom().contains(name) ==> header_bytes(name, given[name], sources) == Ok::<
            Seq<u8>,
            Seq<char>,
        >(map[name][0]) && map[name].len() == 1
}

/// Whether a header is the first one in the order of names that cannot be resolved, with the reason.
pub open spec fn first_unresolved(
    given: Map<Seq<char>, Seq<char>>,
    sources: Sources,
    reason: Seq<char>,
) -> bool {
    exists|name: Seq<char>|
        #![trigger given.dom().contains(name)]
        given.dom().contains(name) && header_bytes(name, given[name], sources) == Err::<
            Seq<u8>,
            Seq<char>,
        >(reason) && forall|other: Seq<char>| #[trigger]
            given.dom().contains(other) && text::precedes(other, name) ==> header_bytes(
                other,
                given[other],
                sources,
            ) is Ok
}

fn earlier_conflict(values: &Table<String>, at: usize) -> (result: bool)
    requires
        at < values.keys().len(),
    ensures
        result == exists|j: int|
            0 <= j < at && text::lowercase_of(#[trigger] values.keys()[j]) == text::lowercase_of(
                values.keys()[at as int],
            ) && values.values()[j]@ != values.values()[at as int]@,
{
    let name = text::lowercase(values.key(at));
    let mut index: usize = 0;
    while index < at
        invariant
            index <= at < values.keys().len(),
            name@ == text::lowercase_of(values.keys()[at as int]),
            forall|j: int|
                0 <= j < index ==> !(text::lowercase_of(#[trigger] values.keys()[j])
                    == text::lowercase_of(values.keys()[at as int]) && values.values()[j]@
                    != values.values()[at as int]@),
        decreases at - index,
    {
        if text::same(&text::lowercase(values.key(index)), &name) && !text::same(
            values.value(index),
            values.value(at),
        ) {
            return true;
        }
        index = index + 1;
    }
    false
}

proof fn lemma_normalized_failing(keys: Seq<Seq<char>>, values: Seq<String>, count: int, all: int)
    requires
        0 <= count <= all,
    ensures
        normalized_headers(keys, values, count) is Err ==> normalized_headers(keys, values, all)
            == normalized_headers(keys, values, count),
    decreases all - count,
{
    if count < all {
        lemma_normalized_failing(keys, values, count, all - 1);
    }
}

fn normalize_headers(values: &Table<String>) -> (result: Result<Table<String>, String>)
    ensures
        match (result, normalized_headers(values.keys(), values.values(), values.keys().len() as int)) {
            (Ok(table), Ok(map)) => strings_of(table@) == map && forall|name: Seq<char>| #[trigger]
                table@.dom().contains(name) ==> header::is_name(name) && text::lowercase_of(name)
                    == name,
            (Err(reason), Err(expected)) => reason@ == expected,
            _ => false,
        },
        result matches Ok(table) ==> table@.dom().finite() && table@.dom().len()
            <= values.keys().len(),
{
    let count: usize = values.len();
    let ghost keys = values.keys();
    let ghost items = values.values();
    let mut table: Table<String> = Table::new();
    let mut index: usize = 0;
    assert(strings_of(table@) =~= Map::<Seq<char>, Seq<char>>::empty());
    while index < count
        invariant
            index <= count,
            count == keys.len(),
            keys == values.keys(),
            items == values.values(),
            normalized_headers(keys, items, index as int) == Ok::<
                Map<Seq<char>, Seq<char>>,
                Seq<char>,
            >(strings_of(table@)),
            forall|name: Seq<char>| #[trigger]
                table@.dom().contains(name) ==> header::is_name(name) && text::lowercase_of(name)
                    == name,
            table@.dom().finite(),
            table@.dom().len() <= index,
        decreases count - index,
    {
        proof {
            lemma_normalized_failing(keys, items, index + 1, count as int);
        }
        let name = match header::name(values.key(index)) {
            Some(name) => name,
            None => {
                return Err("invalid HTTP header name".to_owned());
            },
        };
        if earlier_conflict(values, index) {
            return Err(text::cat("conflicting values for case-insensitive HTTP header ", &name));
        }
        let value = values.value(index).clone();
        let ghost before = table@;
        let ghost small = name@;
        proof {
            let raw = keys[index as int];
            assert(text::lowercase_of(small) =~= small);
            assert(header::is_name(small)) by {
                let test = |ch: char| header::is_token(ch);
                assert forall|i: int| 0 <= i < small.len() implies test(#[trigger] small[i]) by {
                    assert(test(raw[i]));
                    assert(small[i] == text::lower_of(raw[i]));
                }
            }
        }
        table = table.insert(name, value);
        proof {
            assert(strings_of(table@) =~= strings_of(before).insert(small, items[index as int]@));
        }
        index = index + 1;
    }
    Ok(table)
}

/// The headers that a configuration gives, with references resolved.
pub fn headers(values: &Table<String>, sources: &Sources) -> (result: Result<header::Headers, String>)
    requires
        values.keys().len() < header::ROOM,
    ensures
        match normalized_headers(values.keys(), values.values(), values.keys().len() as int) {
            Err(expected) => result matches Err(reason) && reason@ == expected,
            Ok(given) => match result {
                Ok(map) => holds_headers(header::header_entries(map), given, *sources),
                Err(reason) => first_unresolved(given, *sources, reason@),
            },
        },
{
    let given = match normalize_headers(values) {
        Ok(given) => given,
        Err(reason) => {
            return Err(reason);
        },
    };
    let ghost map = strings_of(given@);
    let mut result = header::empty();
    let count: usize = given.len();
    let mut index: usize = 0;
    proof {
        assert(given.keys().to_set() =~= given@.dom());
        assert(given.keys().no_duplicates()) by {
            assert forall|i: int, j: int|
                0 <= i < given.keys().len() && 0 <= j < given.keys().len() && i
                    != j implies given.keys()[i] != given.keys()[j] by {
                if given.keys()[i] == given.keys()[j] {
                    crate::table::lemma_ascending_distinct(given.keys(), i, j);
                }
            }
        }
        given.keys().unique_seq_to_set();
    }
    while index < count
        invariant
            index <= count,
            count == given.keys().len(),
            count < header::ROOM,
            map == strings_of(given@),
            normalized_headers(values.keys(), values.values(), values.keys().len() as int) == Ok::<
                Map<Seq<char>, Seq<char>>,
                Seq<char>,
            >(map),
            given.keys().len() == given.values().len(),
            crate::table::ascending(given.keys()),
            forall|i: int|
                0 <= i < count ==> given@.dom().contains(#[trigger] given.keys()[i])
                    && given@[given.keys()[i]] == given.values()[i],
            forall|key: Seq<char>|
                given@.dom().contains(key) <==> #[trigger] given.keys().contains(key),
            forall|name: Seq<char>| #[trigger]
                given@.dom().contains(name) ==> header::is_name(name) && text::lowercase_of(name)
                    == name,
            header::header_entries(result).dom().finite(),
            header::header_entries(result).dom().len() <= index,
            forall|name: Seq<char>| #[trigger]
                header::header_entries(result).dom().contains(name) <==> exists|i: int|
                    0 <= i < index && #[trigger] given.keys()[i] == name,
            forall|i: int|
                0 <= i < index ==> header_bytes(
                    #[trigger] given.keys()[i],
                    map[given.keys()[i]],
                    *sources,
                ) == Ok::<Seq<u8>, Seq<char>>(
                    header::header_entries(result)[given.keys()[i]][0],
                ) && header::header_entries(result)[given.keys()[i]].len() == 1,
        decreases count - index,
    {
        let ghost name = given.keys()[index as int];
        let ghost before = header::header_entries(result);
        assert(given@.dom().contains(name));
        assert(map[name] == given.values()[index as int]@);
        match resolve_header(given.key(index), given.value(index), sources) {
            Ok(bytes) => {
                header::put(&mut result, given.key(index), bytes);
                proof {
                    let after = header::header_entries(result);
                    assert forall|i: int| 0 <= i < index implies after[
                        #[trigger] given.keys()[i]] == before[given.keys()[i]] by {
                        if given.keys()[i] == name {
                            crate::table::lemma_ascending_distinct(given.keys(), i, index as int);
                        }
                    }
                    assert forall|other: Seq<char>| #[trigger]
                        after.dom().contains(other) implies exists|i: int|
                        0 <= i < index + 1 && #[trigger] given.keys()[i] == other by {
                        if other == name {
                            assert(given.keys()[index as int] == other);
                        } else {
                            assert(before.dom().contains(other));
                            let i = choose|i: int|
                                0 <= i < index && #[trigger] given.keys()[i] == other;
                            assert(given.keys()[i] == other);
                        }
                    }
                }
            },
            Err(reason) => {
                proof {
                    assert(map.dom().contains(name));
                    assert forall|other: Seq<char>| #[trigger]
                        map.dom().contains(other) && text::precedes(
                        other,
                        name,
                    ) implies header_bytes(other, map[other], *sources) is Ok by {
                        assert(given@.dom().contains(other));
                        assert(given.keys().contains(other));
                        let i = choose|i: int|
                            0 <= i < given.keys().len() && given.keys()[i] == other;
                        if i > index {
                            text::lemma_precedes_transitive(name, other, name);
                            text::lemma_precedes_irreflexive(name);
                        } else if i == index {
                            text::lemma_precedes_irreflexive(name);
                        }
                    }
                }
                return Err(reason);
            },
        }
        index = index + 1;
    }
    proof {
        let entries = header::header_entries(result);
        assert forall|name: Seq<char>| entries.dom().contains(name) == map.dom().contains(name) by {
            if map.dom().contains(name) {
                assert(given.keys().contains(name));
                let i = choose|i: int| 0 <= i < given.keys().len() && given.keys()[i] == name;
                assert(given.keys()[i] == name);
            }
            if entries.dom().contains(name) {
                let i = choose|i: int| 0 <= i < index && #[trigger] given.keys()[i] == name;
                assert(given@.dom().contains(given.keys()[i]));
            }
        }
        assert(entries.dom() =~= map.dom());
        assert forall|name: Seq<char>| #[trigger] entries.dom().contains(name) implies header_bytes(
            name,
            map[name],
            *sources,
        ) == Ok::<Seq<u8>, Seq<char>>(entries[name][0]) && entries[name].len() == 1 by {
            let i = choose|i: int| 0 <= i < index && #[trigger] given.keys()[i] == name;
            assert(given.keys()[i] == name);
        }
    }
    Ok(result)
}

/// The value of a header is what its variable or its file holds, or the text itself; that of a file loses one line
/// ending only. It is never blank, and can stand in a header.
pub proof fn lemma_header_resolved(name: Seq<char>, raw: Seq<char>, sources: Sources, rest: Seq<char>, at: int)
    ensures
        header_bytes(name, raw, sources) matches Ok(bytes) ==> (0 <= at < bytes.len() ==> (bytes[at] >= 32
            && bytes[at] != 127) || bytes[at] == 9),
        header_bytes(name, raw, sources) matches Ok(bytes) ==> exists|i: int|
            0 <= i < bytes.len() && #[trigger] bytes[i] != 32 && bytes[i] != 9,
        text::split_once_of(text::trim_of(raw), ':') is None && header_bytes(name, raw, sources) is Ok
            ==> header_bytes(name, raw, sources)->Ok_0 == vstd::utf8::encode_utf8(text::trim_of(raw)),
        text::split_once_of(text::trim_of(raw), ':') == Some(("env"@, rest)) && header_bytes(
            name,
            raw,
            sources,
        ) is Ok ==> sources.variables@.dom().contains(text::trim_of(rest)) && header_bytes(
            name,
            raw,
            sources,
        )->Ok_0 == vstd::utf8::encode_utf8(text::trim_of(sources.variables@[text::trim_of(rest)]@)),
        text::split_once_of(text::trim_of(raw), ':') == Some(("file"@, rest)) && header_bytes(
            name,
            raw,
            sources,
        ) is Ok ==> sources.files@.dom().contains(text::trim_of(rest)) && header_bytes(
            name,
            raw,
            sources,
        )->Ok_0 == without_ending(sources.files@[text::trim_of(rest)]@),
{
    reveal_strlit("env");
    reveal_strlit("file");
    assert(text::lowercase_of("env"@).len() == 3);
    assert(text::lowercase_of("file"@).len() == 4);
    if header_bytes(name, raw, sources) is Ok {
        let bytes = header_bytes(name, raw, sources)->Ok_0;
        assert(!is_all_blank(bytes));
        let i = choose|i: int| 0 <= i < bytes.len() && !is_blank(#[trigger] bytes[i]);
        assert(bytes[i] != 32 && bytes[i] != 9);
        if 0 <= at < bytes.len() {
            assert(header::is_value_byte(bytes[at]));
        }
    }
}

/// One line ending is taken off, of either kind, and nothing else.
pub proof fn lemma_ending_taken(value: Seq<u8>)
    ensures
        without_ending(value + seq![13u8, 10u8]) == value,
        value.len() == 0 || value.last() != 13 ==> without_ending(value + seq![10u8]) == value,
        without_ending(value + seq![13u8]) == value,
        value.len() > 0 && value.last() != 13 && value.last() != 10 ==> without_ending(value) == value,
{
    let both = value + seq![13u8, 10u8];
    assert(both.take(both.len() - 2) =~= value);
    let feed = value + seq![10u8];
    assert(feed.take(feed.len() - 1) =~= value);
    let back = value + seq![13u8];
    assert(back.take(back.len() - 1) =~= value);
}

/// Headers are told apart without their case: each name keeps its value, and two values for one name are refused.
pub proof fn lemma_headers_folded(keys: Seq<Seq<char>>, values: Seq<String>, count: int, at: int)
    requires
        normalized_headers(keys, values, count) is Ok,
        0 <= at < count,
    ensures
        normalized_headers(keys, values, count)->Ok_0.dom().contains(text::lowercase_of(keys[at])),
        normalized_headers(keys, values, count)->Ok_0[text::lowercase_of(keys[at])] == values[at]@,
        header::is_name(keys[at]),
    decreases count,
{
    if at < count - 1 {
        lemma_headers_folded(keys, values, count - 1, at);
        assert(name_fault(keys, values, count - 1) is None);
        if text::lowercase_of(keys[at]) == text::lowercase_of(keys[count - 1]) {
            assert(values[at]@ == values[count - 1]@);
        }
    }
}

} // verus!
