//! HTTP header names, values and maps.

use vstd::prelude::*;
use crate::text;

verus! {

/// A character that a header name may hold.
pub open spec fn is_token(ch: char) -> bool {
    ||| text::is_alnum(ch)
    ||| ch == '!'
    ||| ch == '#'
    ||| ch == '$'
    ||| ch == '%'
    ||| ch == '&'
    ||| ch == '\''
    ||| ch == '*'
    ||| ch == '+'
    ||| ch == '-'
    ||| ch == '.'
    ||| ch == '^'
    ||| ch == '_'
    ||| ch == '`'
    ||| ch == '|'
    ||| ch == '~'
}

/// Whether the text is a header name.
pub open spec fn is_name(value: Seq<char>) -> bool {
    1 <= value.len() <= 65535 && text::every(value, |ch: char| is_token(ch))
}

/// Reads a header name: `http::HeaderName::from_bytes` takes the characters of a token, at most
/// 65535 of them, and `as_str` gives the name with its capitals made small.
#[verifier::external_body]
pub(crate) fn name(value: &str) -> (result: Option<String>)
    ensures
        text::view_of(result) == (if is_name(value@) {
            Some(text::lowercase_of(value@))
        } else {
            None
        }),
{
    http::HeaderName::from_bytes(value.as_bytes()).ok().map(|name| name.as_str().to_owned())
}

/// A byte that a header value may hold.
pub open spec fn is_value_byte(byte: u8) -> bool {
    (byte >= 32 && byte != 127) || byte == 9
}

/// Whether the bytes are a header value.
pub open spec fn is_value(value: Seq<u8>) -> bool {
    forall|i: int| 0 <= i < value.len() ==> is_value_byte(#[trigger] value[i])
}

/// Checks a header value: `http::HeaderValue::from_bytes` takes tabs and every byte from 32 on but
/// 127.
#[verifier::external_body]
pub(crate) fn valid_value(value: &[u8]) -> (result: bool)
    ensures
        result == is_value(value@),
{
    http::HeaderValue::from_bytes(value).is_ok()
}

/// Whether the text can be a method.
pub open spec fn is_http_method(value: Seq<char>) -> bool {
    value.len() > 0 && text::every(value, |ch: char| is_token(ch))
}

/// Reads a method: `http::Method::from_bytes` accepts the characters of a token, one at least.
#[verifier::external_body]
pub(crate) fn valid_method(value: &str) -> (result: bool)
    ensures
        result == is_http_method(value@),
{
    http::Method::from_bytes(value.as_bytes()).is_ok()
}

/// A text of visible ASCII can be the value of a header.
pub proof fn lemma_plain_value(value: Seq<char>)
    requires
        forall|i: int| 0 <= i < value.len() ==> ' ' <= #[trigger] value[i] <= '~',
    ensures
        is_value(vstd::utf8::encode_utf8(value)),
    decreases value.len(),
{
    if value.len() > 0 {
        let first = value[0];
        let code = first as u32;
        let rest = value.drop_first();
        assert forall|i: int| 0 <= i < rest.len() implies ' ' <= #[trigger] rest[i] <= '~' by {
            assert(rest[i] == value[i + 1]);
        }
        lemma_plain_value(rest);
        assert(' ' <= first <= '~');
        assert(code & 0x7F == code) by (bit_vector)
            requires
                code <= 126,
        ;
        let bytes = vstd::utf8::encode_utf8(value);
        let head = vstd::utf8::encode_scalar(code);
        let tail = vstd::utf8::encode_utf8(rest);
        assert(head.len() == 1);
        assert(is_value_byte(head[0]));
        assert(bytes == head + tail);
        assert forall|i: int| 0 <= i < bytes.len() implies is_value_byte(#[trigger] bytes[i]) by {
            if i > 0 {
                assert(bytes[i] == tail[i - 1]);
            }
        }
    }
}

/// The header map of `http`, here with the bytes of the values.
#[verifier::external_type_specification]
#[verifier::external_body]
#[verifier::reject_recursive_types(T)]
pub struct ExHeaderMap<T>(http::HeaderMap<T>);

/// Headers by their small names.
pub type Headers = http::HeaderMap<Vec<u8>>;

/// What a header map holds: the values of each name, in the order in which they came.
pub uninterp spec fn header_entries(map: Headers) -> Map<Seq<char>, Seq<Seq<u8>>>;

/// The contents of a list of byte strings.
pub open spec fn byte_views(items: Seq<Vec<u8>>) -> Seq<Seq<u8>> {
    items.map_values(|item: Vec<u8>| item@)
}

/// The values of a name, none where the map does not hold it.
pub open spec fn values_in(map: Map<Seq<char>, Seq<Seq<u8>>>, name: Seq<char>) -> Seq<Seq<u8>> {
    if map.dom().contains(name) {
        map[name]
    } else {
        Seq::empty()
    }
}

/// What an empty header map holds.
pub open spec fn no_entries() -> Map<Seq<char>, Seq<Seq<u8>>> {
    Map::empty()
}

/// Whether the list gives each name of the map once. A name is a token without capitals, and has at
/// least one value.
pub open spec fn lists_names(list: Seq<Seq<char>>, map: Map<Seq<char>, Seq<Seq<u8>>>) -> bool {
    &&& list.no_duplicates()
    &&& map.dom().finite()
    &&& map.dom().len() == list.len()
    &&& forall|name: Seq<char>| list.contains(name) <==> #[trigger] map.dom().contains(name)
    &&& forall|i: int|
        0 <= i < list.len() ==> is_name(#[trigger] list[i]) && text::lowercase_of(list[i])
            == list[i] && map[list[i]].len() > 0
}

/// The empty header map: `http::HeaderMap::default`.
#[verifier::external_body]
pub(crate) fn empty() -> (result: Headers)
    ensures
        header_entries(result) == no_entries(),
{
    http::HeaderMap::default()
}

/// The largest number of names at which another one can be put into a header map without fail.
pub const ROOM: usize = 6553;

/// Whether another name can be put into the map.
pub open spec fn has_room(map: Map<Seq<char>, Seq<Seq<u8>>>) -> bool {
    map.dom().finite() && map.dom().len() <= ROOM
}

/// Sets a header: `http::HeaderMap::insert` replaces all values of the name. It panics where its
/// table cannot grow beyond 32768 slots, which does not happen while it holds at most `ROOM` names: a
/// table whose names fall badly is doubled where a fifth of its slots is taken, and no table earlier.
#[verifier::external_body]
pub(crate) fn put(map: &mut Headers, name: &str, value: Vec<u8>)
    requires
        is_name(name@),
        has_room(header_entries(*old(map))),
    ensures
        header_entries(*final(map)) == header_entries(*old(map)).insert(
            text::lowercase_of(name@),
            seq![value@],
        ),
{
    if let Ok(name) = http::HeaderName::from_bytes(name.as_bytes()) {
        map.insert(name, value);
    }
}

/// Adds a value to a header: `http::HeaderMap::append` puts it behind the values of the name. It
/// panics as `insert` does.
#[verifier::external_body]
pub(crate) fn extend(map: &mut Headers, name: &str, value: Vec<u8>)
    requires
        is_name(name@),
        has_room(header_entries(*old(map))),
    ensures
        header_entries(*final(map)) == header_entries(*old(map)).insert(
            text::lowercase_of(name@),
            values_in(header_entries(*old(map)), text::lowercase_of(name@)).push(value@),
        ),
{
    if let Ok(name) = http::HeaderName::from_bytes(name.as_bytes()) {
        map.append(name, value);
    }
}

/// Takes a header out: `http::HeaderMap::remove` drops all values of the name, whatever its case.
#[verifier::external_body]
pub(crate) fn take(map: &mut Headers, name: &str)
    ensures
        header_entries(*final(map)) == header_entries(*old(map)).remove(text::lowercase_of(name@)),
{
    map.remove(name);
}

/// The values of a name, whatever its case: `http::HeaderMap::get_all`.
#[verifier::external_body]
pub(crate) fn values(map: &Headers, name: &str) -> (result: Vec<Vec<u8>>)
    ensures
        byte_views(result@) == values_in(header_entries(*map), text::lowercase_of(name@)),
{
    map.get_all(name).iter().cloned().collect()
}

/// Whether the map holds a name, whatever its case: `http::HeaderMap::contains_key`.
#[verifier::external_body]
pub(crate) fn has(map: &Headers, name: &str) -> (result: bool)
    ensures
        result == header_entries(*map).dom().contains(text::lowercase_of(name@)),
{
    map.contains_key(name)
}

/// The names of the map, each once, in an order that is left open: `http::HeaderMap::keys`.
#[verifier::external_body]
pub(crate) fn names(map: &Headers) -> (result: Vec<String>)
    ensures
        lists_names(text::views(result@), header_entries(*map)),
{
    map.keys().map(|name| name.as_str().to_owned()).collect()
}

/// A copy of the map: `Clone` of `http::HeaderMap`.
#[verifier::external_body]
pub(crate) fn duplicate(map: &Headers) -> (result: Headers)
    ensures
        header_entries(result) == header_entries(*map),
{
    map.clone()
}

/// Whether a byte can be shown: visible ASCII, a space or a tab.
pub open spec fn is_shown(byte: u8) -> bool {
    byte == 9 || 32 <= byte < 127
}

/// The text of a value, where each of its bytes can be shown.
pub open spec fn ascii_text(value: Seq<u8>) -> Option<Seq<char>> {
    if forall|i: int| 0 <= i < value.len() ==> is_shown(#[trigger] value[i]) {
        Some(value.map_values(|byte: u8| byte as char))
    } else {
        None
    }
}

/// The text of a value, where each of its bytes can be shown.
pub fn ascii(value: &Vec<u8>) -> (result: Option<String>)
    ensures
        text::view_of(result) == ascii_text(value@),
{
    let ghost all = value@.map_values(|byte: u8| byte as char);
    let mut result = String::new();
    let mut index: usize = 0;
    while index < value.len()
        invariant
            index <= value.len(),
            all == value@.map_values(|byte: u8| byte as char),
            result@ == all.take(index as int),
            forall|i: int| 0 <= i < index ==> is_shown(#[trigger] value@[i]),
        decreases value.len() - index,
    {
        let byte: u8 = value[index];
        if !(byte == 9 || (byte >= 32 && byte < 127)) {
            assert(!is_shown(value@[index as int]));
            return None;
        }
        assert(all.take(index + 1) == all.take(index as int).push(byte as char));
        result.push(byte as char);
        index = index + 1;
    }
    assert(all.take(all.len() as int) == all);
    Some(result)
}

/// The bytes that a name and its values take together.
pub open spec fn entry_size(name: Seq<char>, values: Seq<Seq<u8>>) -> nat {
    text::byte_len(name) + values_size(values)
}

/// The bytes that values take together.
pub open spec fn values_size(values: Seq<Seq<u8>>) -> nat
    decreases values.len(),
{
    if values.len() == 0 {
        0
    } else {
        values_size(values.drop_last()) + values.last().len()
    }
}

/// The bytes that the names and values of a map take together.
pub open spec fn map_size(map: Map<Seq<char>, Seq<Seq<u8>>>) -> nat
    decreases map.dom().len(),
{
    if map.dom().finite() && map.dom().len() > 0 {
        let name = map.dom().choose();
        entry_size(name, map[name]) + map_size(map.remove(name))
    } else {
        0
    }
}

/// The size does not depend on the order in which the names are counted.
pub proof fn lemma_map_size(map: Map<Seq<char>, Seq<Seq<u8>>>, name: Seq<char>)
    requires
        map.dom().finite(),
        map.dom().contains(name),
    ensures
        map_size(map) == entry_size(name, map[name]) + map_size(map.remove(name)),
    decreases map.dom().len(),
{
    let first = map.dom().choose();
    assert(map.dom().contains(first));
    if first != name {
        let rest = map.remove(first);
        assert(rest.dom() =~= map.dom().remove(first));
        lemma_map_size(rest, name);
        let other = map.remove(name);
        assert(other.dom() =~= map.dom().remove(name));
        assert(other.dom().contains(first));
        lemma_map_size(other, first);
        assert(rest.remove(name) =~= other.remove(first));
    }
}

/// The bytes that values take together, or `limit + 1` where it is more.
fn capped_values_size(values: &Vec<Vec<u8>>, limit: usize) -> (result: usize)
    requires
        limit < usize::MAX,
    ensures
        result == (if values_size(byte_views(values@)) <= limit {
            values_size(byte_views(values@)) as int
        } else {
            limit + 1
        }),
{
    let mut total: usize = 0;
    let mut index: usize = 0;
    let ghost all = byte_views(values@);
    while index < values.len()
        invariant
            index <= values.len(),
            limit < usize::MAX,
            all == byte_views(values@),
            total == values_size(all.take(index as int)),
            total <= limit,
        decreases values.len() - index,
    {
        proof {
            assert(all.take(index + 1).drop_last() == all.take(index as int));
            assert(all.take(index + 1).last() == values@[index as int]@);
            lemma_values_size_grows(all, index + 1);
        }
        let count: usize = values[index].len();
        if count > limit - total {
            return limit + 1;
        }
        total = total + count;
        index = index + 1;
    }
    assert(all.take(all.len() as int) == all);
    total
}

proof fn lemma_values_size_grows(values: Seq<Seq<u8>>, count: int)
    requires
        0 <= count <= values.len(),
    ensures
        values_size(values.take(count)) <= values_size(values),
    decreases values.len() - count,
{
    if count < values.len() {
        assert(values.take(count + 1).drop_last() == values.take(count));
        lemma_values_size_grows(values, count + 1);
    } else {
        assert(values.take(count) == values);
    }
}

/// Whether the names and values of the map take at most `limit` bytes.
pub fn within(map: &Headers, limit: usize) -> (result: bool)
    requires
        limit < usize::MAX,
    ensures
        result == (map_size(header_entries(*map)) <= limit),
{
    let all = names(map);
    let ghost full = header_entries(*map);
    let ghost mut rest = full;
    let mut used: usize = 0;
    let mut index: usize = 0;
    assert(text::views(all@).len() == all@.len());
    assert forall|i: int| 0 <= i < all@.len() implies full.dom().contains(#[trigger] all@[i]@) by {
        assert(text::views(all@)[i] == all@[i]@);
        assert(text::views(all@).contains(all@[i]@));
    }
    while index < all.len()
        invariant
            index <= all.len(),
            limit < usize::MAX,
            full == header_entries(*map),
            full.dom().finite(),
            lists_names(text::views(all@), full),
            text::views(all@).len() == all@.len(),
            forall|i: int| 0 <= i < all@.len() ==> text::views(all@)[i] == #[trigger] all@[i]@,
            rest.dom().finite(),
            rest.submap_of(full),
            forall|i: int| index <= i < all@.len() ==> rest.dom().contains(#[trigger] all@[i]@),
            forall|name: Seq<char>| #[trigger]
                rest.dom().contains(name) ==> exists|i: int|
                    index <= i < all@.len() && #[trigger] all@[i]@ == name,
            used <= limit,
            used + map_size(rest) == map_size(full),
        decreases all.len() - index,
    {
        let ghost name = all@[index as int]@;
        assert(text::views(all@)[index as int] == name);
        let items = values(map, &all[index]);
        let size: usize = capped_values_size(&items, limit);
        proof {
            assert(rest.dom().contains(name));
            lemma_map_size(rest, name);
            assert(rest[name] == full[name]);
        }
        if !text::fits(&all[index], limit) {
            return false;
        }
        let width: usize = text::bytes(&all[index]).len();
        if size > limit - used || width > limit - used - size {
            return false;
        }
        used = used + size + width;
        proof {
            let next = rest.remove(name);
            assert forall|i: int| index + 1 <= i < all@.len() implies next.dom().contains(
                #[trigger] all@[i]@,
            ) by {
                assert(text::views(all@)[i] != text::views(all@)[index as int]);
            }
            assert forall|other: Seq<char>| #[trigger] next.dom().contains(other) implies exists|
                i: int,
            |
                index + 1 <= i < all@.len() && #[trigger] all@[i]@ == other by {
                assert(rest.dom().contains(other));
                let i = choose|i: int| index <= i < all@.len() && #[trigger] all@[i]@ == other;
                assert(i != index);
            }
            rest = next;
        }
        index = index + 1;
    }
    proof {
        assert(rest.dom() =~= Set::<Seq<char>>::empty()) by {
            assert forall|name: Seq<char>| !rest.dom().contains(name) by {
                if rest.dom().contains(name) {
                    let i = choose|i: int| index <= i < all@.len() && #[trigger] all@[i]@ == name;
                }
            }
        }
        assert(map_size(rest) == 0);
    }
    true
}

/// The characters of the name of a header.
pub proof fn lemma_tokens(ch: char)
    ensures
        is_token('!'),
        is_token('#'),
        is_token('$'),
        is_token('%'),
        is_token('&'),
        is_token('*'),
        is_token('+'),
        is_token('-'),
        is_token('.'),
        is_token('^'),
        is_token('_'),
        is_token('`'),
        is_token('|'),
        is_token('~'),
        is_token('\''),
        text::is_alnum(ch) ==> is_token(ch),
        !is_token(' ') && !is_token(':') && !is_token('/') && !is_token('"') && !is_token('(') && !is_token(')')
            && !is_token(',') && !is_token(';') && !is_token('@') && !is_token('[') && !is_token('\n'),
{
}

/// A name holds only such characters, and at least one.
pub proof fn lemma_names(value: Seq<char>, at: int)
    ensures
        is_name(value) ==> value.len() > 0 && value.len() <= 65535,
        is_name(value) && 0 <= at < value.len() ==> is_token(value[at]),
        is_http_method(value) ==> value.len() > 0,
        is_http_method(value) && 0 <= at < value.len() ==> is_token(value[at]),
        1 <= value.len() <= 65535 && (forall|i: int| 0 <= i < value.len() ==> is_token(#[trigger] value[i]))
            ==> is_name(value),
{
    let test = |ch: char| is_token(ch);
    if 0 <= at < value.len() && text::every(value, test) {
        assert(test(value[at]));
    }
}

/// A value holds no control characters but the tab.
pub proof fn lemma_values(value: Seq<u8>, at: int)
    ensures
        is_value(value) && 0 <= at < value.len() ==> value[at] == 9 || value[at] >= 32 && value[at] != 127,
        !is_value(seq![0u8]) && !is_value(seq![10u8]) && !is_value(seq![13u8]) && !is_value(seq![127u8]),
        0 <= at < value.len() && (value[at] == 10 || value[at] == 13 || value[at] == 0 || value[at] == 127)
            ==> !is_value(value),
        (forall|i: int| 0 <= i < value.len() ==> 32 <= #[trigger] value[i] <= 126) ==> is_value(value),
{
    assert(!is_value_byte(seq![0u8][0]));
    assert(!is_value_byte(seq![10u8][0]));
    assert(!is_value_byte(seq![13u8][0]));
    assert(!is_value_byte(seq![127u8][0]));
}

/// A value is read as text where it holds only what can be shown, character for character.
pub proof fn lemma_shown_text(value: Seq<u8>, at: int)
    ensures
        ascii_text(value) matches Some(found) ==> found.len() == value.len() && (0 <= at < value.len()
            ==> found[at] == value[at] as char && (value[at] == 9 || 32 <= value[at] <= 126)),
        0 <= at < value.len() && value[at] >= 127 ==> ascii_text(value) is None,
        0 <= at < value.len() && value[at] < 32 && value[at] != 9 ==> ascii_text(value) is None,
        (forall|i: int| 0 <= i < value.len() ==> 32 <= #[trigger] value[i] <= 126) ==> ascii_text(value) is Some,
{
    if 0 <= at < value.len() {
        assert(is_shown(value[at]) == is_shown(value[at]));
    }
}

/// The values of a name are all of them, or none where the name is not there.
pub proof fn lemma_values_in(map: Map<Seq<char>, Seq<Seq<u8>>>, name: Seq<char>)
    ensures
        map.dom().contains(name) ==> values_in(map, name) == map[name],
        !map.dom().contains(name) ==> values_in(map, name).len() == 0,
        values_size(Seq::empty()) == 0,
{
}

/// The size of headers is that of their names and of their values.
pub proof fn lemma_sizes(name: Seq<char>, values: Seq<Seq<u8>>, last: Seq<u8>)
    ensures
        values_size(values.push(last)) == values_size(values) + last.len(),
        entry_size(name, values) == text::byte_len(name) + values_size(values),
        map_size(Map::empty()) == 0,
        has_room(Map::empty()),
{
    assert(values.push(last).drop_last() =~= values);
}

} // verus!
