//! Messages between the service and the MCP servers.

use vstd::prelude::*;
use crate::config::duration::Span;
use crate::config::reference::gives;
use crate::json::assembly::{append, object, object_text, string_text, with_member};
use crate::json::record::{option_views, record, record_of};
use crate::json::{self, json_text, parsed_json, plain_map, raw_map, Doc, Json};
use crate::table::{self, strings_of, Table};
use crate::{header, text};

verus! {

/// The version of MCP that this client speaks.
pub const MCP_VERSION: &'static str = "2026-07-28";

/// The version of the messages to the service.
pub const WIRE_VERSION: &'static str = "2026-08-25";

/// A request of the service.
pub struct Command {
    pub request_id: String,
    pub shard_token: String,
    pub command_type: String,
    pub channel: String,
    pub headers: Table<Vec<String>>,
    pub response_timeout: Json,
    /// The message as it is written.
    pub jsonrpc: Option<String>,
}

/// A message with its headers.
pub struct Request {
    /// The message as it is written.
    pub message: String,
    pub headers: header::Headers,
}

/// An answer to the service.
pub struct Reply {
    /// The message as it is written.
    pub message: Option<String>,
    pub headers: Table<Vec<String>>,
    pub status: u16,
    pub kind: String,
}

/// What decides how a message is handled.
pub struct Envelope {
    /// The identity as it is written.
    pub id: Option<String>,
    pub method: Option<String>,
    pub result: Option<String>,
    pub error: Option<String>,
}

/// The contents of [`Envelope`].
#[verifier::ext_equal]
pub struct EnvelopeView {
    pub id: Option<Seq<char>>,
    pub method: Option<Seq<char>>,
    pub result: Option<Seq<char>>,
    pub error: Option<Seq<char>>,
}

impl View for Envelope {
    type V = EnvelopeView;

    open spec fn view(&self) -> EnvelopeView {
        EnvelopeView {
            id: text::view_of(self.id),
            method: text::view_of(self.method),
            result: text::view_of(self.result),
            error: text::view_of(self.error),
        }
    }
}

/// A field, where it is there and not null.
pub open spec fn filled(field: Option<Seq<char>>) -> Option<Seq<char>> {
    if field == Some("null"@) {
        None
    } else {
        field
    }
}

fn fill(field: &Option<String>) -> (result: Option<String>)
    ensures
        text::view_of(result) == filled(text::view_of(*field)),
{
    match field {
        Some(value) => if text::same(value, "null") {
            None
        } else {
            Some(value.clone())
        },
        None => None,
    }
}

/// The fields of a message that decide how it is handled.
pub open spec fn envelope_names() -> Seq<Seq<char>> {
    seq!["id"@, "method"@, "result"@, "error"@]
}

/// A method as it is written: a string without escapes.
pub open spec fn method_of(raw: Seq<char>) -> Option<Seq<char>> {
    match parsed_json(raw) {
        Some(Doc::Text(name)) => if raw.contains('\\') {
            None
        } else {
            Some(name)
        },
        _ => None,
    }
}

/// What decides how a message is handled, or why the message cannot be read.
pub open spec fn view_of(message: Seq<char>) -> Result<EnvelopeView, Seq<char>> {
    match record_of(message, envelope_names(), false) {
        Err(reason) => Err(reason),
        Ok(fields) => {
            let raw = filled(fields[1]);
            if raw is Some && method_of(raw->0) is None {
                Err("invalid type for method, expected a borrowed string"@)
            } else {
                Ok(
                    EnvelopeView {
                        id: filled(fields[0]),
                        method: match raw {
                            Some(inner) => method_of(inner),
                            None => None,
                        },
                        result: filled(fields[2]),
                        error: filled(fields[3]),
                    },
                )
            }
        },
    }
}

/// What decides how a message is handled.
pub fn view(message: &str) -> (result: Result<Envelope, String>)
    ensures
        match (result, view_of(message@)) {
            (Ok(envelope), Ok(expected)) => envelope@ == expected,
            (Err(reason), Err(expected)) => reason@ == expected,
            _ => false,
        },
{
    let mut names: Vec<String> = Vec::new();
    names.push("id".to_owned());
    names.push("method".to_owned());
    names.push("result".to_owned());
    names.push("error".to_owned());
    assert(text::views(names@) =~= envelope_names());
    let fields = match record(message, &names, false) {
        Ok(fields) => fields,
        Err(reason) => {
            return Err(reason);
        },
    };
    proof {
        let views = option_views(fields@);
        assert(views[0] == text::view_of(fields@[0]));
        assert(views[1] == text::view_of(fields@[1]));
        assert(views[2] == text::view_of(fields@[2]));
        assert(views[3] == text::view_of(fields@[3]));
    }
    let method = match fill(&fields[1]) {
        Some(raw) => match json::parse(&raw) {
            Some(Json::Text(name)) if !text::contains_char(&raw, '\\') => Some(name),
            _ => {
                return Err("invalid type for method, expected a borrowed string".to_owned());
            },
        },
        None => None,
    };
    Ok(
        Envelope {
            id: fill(&fields[0]),
            method,
            result: fill(&fields[2]),
            error: fill(&fields[3]),
        },
    )
}

/// The entry of an object as it is written, where the text is an object with keys that hold no escapes.
pub open spec fn raw_member(message: Seq<char>, key: Seq<char>) -> Option<Seq<char>> {
    match plain_map(message) {
        Some(map) => if map.dom().contains(key) {
            Some(map[key])
        } else {
            None
        },
        None => None,
    }
}

/// The entry of an object as it is written.
pub fn field(message: &str, key: &str) -> (result: Option<String>)
    ensures
        text::view_of(result) == raw_member(message@, key@),
{
    match json::plain_table(message) {
        Some(table) => match table.get(key) {
            Some(value) => Some(value.clone()),
            None => None,
        },
        None => None,
    }
}

/// The entry at the end of a path of keys, as it is written.
pub open spec fn member_at(message: Seq<char>, keys: Seq<Seq<char>>) -> Option<Seq<char>>
    decreases keys.len(),
{
    if keys.len() == 0 {
        Some(message)
    } else {
        match raw_member(message, keys[0]) {
            Some(inner) => member_at(inner, keys.skip(1)),
            None => None,
        }
    }
}

impl Request {
    /// A request without headers.
    pub fn new(value: Json) -> (result: Request)
        ensures
            result.message@ == json_text(value.doc()),
            header::header_entries(result.headers) == header::no_entries(),
    {
        Request { message: json::write(value), headers: header::empty() }
    }

    /// The session that the request belongs to: the one of its header, or the one of its metadata, or
    /// none.
    pub open spec fn session(self) -> Seq<char> {
        let values = header::values_in(header::header_entries(self.headers), "mcp-session-id"@);
        if values.len() > 0 && header::ascii_text(values[0]) is Some {
            header::ascii_text(values[0])->0
        } else {
            match member_at(
                self.message@,
                seq!["params"@, "_meta"@, "openai/session"@],
            ) {
                Some(inner) => inner,
                None => Seq::empty(),
            }
        }
    }

    /// The session that the request belongs to.
    pub fn scope(&self) -> (result: String)
        ensures
            result@ == self.session(),
    {
        proof {
            reveal_strlit("mcp-session-id");
            assert(text::lowercase_of("mcp-session-id"@) =~= "mcp-session-id"@);
        }
        let values = header::values(&self.headers, "mcp-session-id");
        assert(header::byte_views(values@).len() == values@.len());
        if values.len() > 0 {
            assert(header::byte_views(values@)[0] == values@[0]@);
            if let Some(value) = header::ascii(&values[0]) {
                return value;
            }
        }
        proof {
            let keys = seq!["params"@, "_meta"@, "openai/session"@];
            assert(keys.skip(1) =~= seq!["_meta"@, "openai/session"@]);
            assert(keys.skip(1).skip(1) =~= seq!["openai/session"@]);
            assert(keys.skip(1).skip(1).skip(1) =~= Seq::<Seq<char>>::empty());
            reveal_with_fuel(member_at, 4);
        }
        let params = match field(&self.message, "params") {
            Some(params) => params,
            None => {
                return String::new();
            },
        };
        let meta = match field(&params, "_meta") {
            Some(meta) => meta,
            None => {
                return String::new();
            },
        };
        match field(&meta, "openai/session") {
            Some(session) => session,
            None => String::new(),
        }
    }
}

/// The entries of an object with one set, as they are written.
pub open spec fn object_with(map: Map<Seq<char>, Seq<char>>) -> Seq<char> {
    let keys = table::ordered_keys(map.dom());
    object_text(json::assembly::keyed_members(keys, |i: int| map[keys[i]]))
}

/// The message with the entry at the end of a path of keys replaced, or why it cannot be read. A
/// missing object on the way is made.
pub open spec fn replaced(message: Seq<char>, keys: Seq<Seq<char>>, replacement: Seq<char>) -> Result<
    Seq<char>,
    Seq<char>,
>
    decreases keys.len(),
{
    if keys.len() == 0 {
        Ok(replacement)
    } else {
        match raw_map(message) {
            Err(reason) => Err(reason),
            Ok(map) => {
                let child = if map.dom().contains(keys[0]) {
                    map[keys[0]]
                } else {
                    "{}"@
                };
                match replaced(child, keys.skip(1), replacement) {
                    Err(reason) => Err(reason),
                    Ok(inner) => Ok(object_with(map.insert(keys[0], inner))),
                }
            },
        }
    }
}

fn write_object(table: &Table<String>) -> (result: String)
    ensures
        result@ == object_with(strings_of(table@)),
{
    let count: usize = table.len();
    let ghost map = strings_of(table@);
    let ghost keys = table.keys();
    let ghost all = json::assembly::keyed_members(keys, |i: int| map[keys[i]]);
    let mut members: Vec<String> = Vec::new();
    let mut index: usize = 0;
    while index < count
        invariant
            index <= count,
            count == keys.len(),
            keys == table.keys(),
            map == strings_of(table@),
            all == json::assembly::keyed_members(keys, |i: int| map[keys[i]]),
            text::views(members@) == all.take(index as int),
        decreases count - index,
    {
        assert(all.take(index + 1) == all.take(index as int).push(all[index as int]));
        append(&mut members, true, table.key(index), table.value(index));
        index = index + 1;
    }
    proof {
        assert(all.take(all.len() as int) == all);
        assert(map.dom() =~= table@.dom());
        assert forall|key: Seq<char>| #[trigger] keys.contains(key) <==> map.dom().contains(key) by {
            assert(table@.dom().contains(key) <==> keys.contains(key));
        }
        assert(table::lists_in_order(keys, map.dom()));
        table::lemma_ordered_keys(keys, map.dom());
    }
    object(&members)
}

/// The message with the entry at the end of a path of keys replaced.
pub fn replace(message: &str, keys: &Vec<String>, replacement: &str) -> (result: Result<
    String,
    String,
>)
    ensures
        gives(result, replaced(message@, text::views(keys@), replacement@)),
{
    assert(text::views(keys@).skip(0) == text::views(keys@));
    replace_from(message, keys, 0, replacement)
}

fn replace_from(message: &str, keys: &Vec<String>, at: usize, replacement: &str) -> (result: Result<
    String,
    String,
>)
    requires
        at <= keys.len(),
    ensures
        gives(result, replaced(message@, text::views(keys@).skip(at as int), replacement@)),
    decreases keys.len() - at,
{
    let ghost rest = text::views(keys@).skip(at as int);
    if at == keys.len() {
        assert(rest.len() == 0);
        return Ok(replacement.to_owned());
    }
    proof {
        assert(rest[0] == keys@[at as int]@);
        assert(rest.skip(1) == text::views(keys@).skip(at + 1));
    }
    let table = match json::raw_table(message) {
        Ok(table) => table,
        Err(reason) => {
            return Err(reason);
        },
    };
    let child = match table.get(&keys[at]) {
        Some(child) => child.clone(),
        None => "{}".to_owned(),
    };
    let ghost before = strings_of(table@);
    match replace_from(&child, keys, at + 1, replacement) {
        Ok(inner) => {
            let ghost value = inner@;
            let changed = table.insert(keys[at].clone(), inner);
            assert(strings_of(changed@) =~= before.insert(rest[0], value));
            Ok(write_object(&changed))
        },
        Err(reason) => Err(reason),
    }
}

/// The strings of headers that the service sent, as headers.
pub open spec fn sent_headers(
    keys: Seq<Seq<char>>,
    values: Seq<Vec<String>>,
    count: int,
) -> Result<Map<Seq<char>, Seq<Seq<u8>>>, Seq<char>>
    decreases count,
{
    if count <= 0 {
        Ok(header::no_entries())
    } else {
        match sent_headers(keys, values, count - 1) {
            Err(reason) => Err(reason),
            Ok(map) => if !header::is_name(keys[count - 1]) {
                Err("invalid HTTP header name"@)
            } else if !all_values(text::views(values[count - 1]@)) {
                Err("failed to parse header value"@)
            } else if values[count - 1]@.len() == 0 {
                Ok(map)
            } else {
                Ok(
                    map.insert(
                        text::lowercase_of(keys[count - 1]),
                        header::values_in(map, text::lowercase_of(keys[count - 1]))
                            + encoded_values(text::views(values[count - 1]@)),
                    ),
                )
            },
        }
    }
}

/// Whether each string can be the value of a header.
pub open spec fn all_values(values: Seq<Seq<char>>) -> bool {
    forall|i: int|
        0 <= i < values.len() ==> header::is_value(vstd::utf8::encode_utf8(#[trigger] values[i]))
}

/// The bytes of the strings.
pub open spec fn encoded_values(values: Seq<Seq<char>>) -> Seq<Seq<u8>> {
    values.map_values(|value: Seq<char>| vstd::utf8::encode_utf8(value))
}

fn add_values(map: &mut header::Headers, name: &str, list: &Vec<String>) -> (result: bool)
    requires
        header::is_name(name@),
        header::header_entries(*old(map)).dom().finite(),
        header::header_entries(*old(map)).dom().len() < header::ROOM,
    ensures
        result == all_values(text::views(list@)),
        result ==> header::header_entries(*final(map)) == appended(
            header::header_entries(*old(map)),
            text::lowercase_of(name@),
            encoded_values(text::views(list@)),
        ),
{
    let ghost before = header::header_entries(*map);
    let ghost small = text::lowercase_of(name@);
    let ghost values = text::views(list@);
    let ghost all = encoded_values(values);
    let mut at: usize = 0;
    assert(before =~= appended(before, small, all.take(0)));
    while at < list.len()
        invariant
            at <= list.len(),
            header::is_name(name@),
            small == text::lowercase_of(name@),
            values == text::views(list@),
            all == encoded_values(values),
            before.dom().finite(),
            before.dom().len() < header::ROOM,
            header::header_entries(*map) == appended(before, small, all.take(at as int)),
            forall|i: int|
                0 <= i < at ==> header::is_value(vstd::utf8::encode_utf8(#[trigger] values[i])),
        decreases list.len() - at,
    {
        let bytes = text::bytes(&list[at]);
        assert(values[at as int] == list@[at as int]@);
        if !header::valid_value(&bytes) {
            assert(!all_values(values));
            return false;
        }
        proof {
            assert(all[at as int] == bytes@);
            assert(all.take(at + 1) == all.take(at as int).push(bytes@));
            lemma_appended(before, small, all.take(at as int), bytes@);
        }
        header::extend(map, name, bytes);
        at = at + 1;
    }
    assert(all.take(all.len() as int) == all);
    true
}

/// The headers that the service sent. The map of `http` takes a limited number of names.
pub fn header_map(headers: &Table<Vec<String>>) -> (result: Result<header::Headers, String>)
    requires
        headers.keys().len() <= header::ROOM,
    ensures
        match (
            result,
            sent_headers(headers.keys(), headers.values(), headers.keys().len() as int),
        ) {
            (Ok(map), Ok(expected)) => header::header_entries(map) == expected,
            (Err(reason), Err(expected)) => reason@ == expected,
            _ => false,
        },
{
    let count: usize = headers.len();
    let ghost keys = headers.keys();
    let ghost lists = headers.values();
    let mut map = header::empty();
    let mut index: usize = 0;
    while index < count
        invariant
            index <= count,
            count == keys.len(),
            count <= header::ROOM,
            count == lists.len(),
            keys == headers.keys(),
            lists == headers.values(),
            sent_headers(keys, lists, index as int) == Ok::<
                Map<Seq<char>, Seq<Seq<u8>>>,
                Seq<char>,
            >(header::header_entries(map)),
            header::header_entries(map).dom().finite(),
            header::header_entries(map).dom().len() <= index,
        decreases count - index,
    {
        let name = headers.key(index);
        let list = headers.value(index);
        let ghost before = header::header_entries(map);
        proof {
            lemma_sent_fails(keys, lists, index + 1, count as int);
        }
        if header::name(name).is_none() {
            return Err("invalid HTTP header name".to_owned());
        }
        if !add_values(&mut map, name, list) {
            return Err("failed to parse header value".to_owned());
        }
        proof {
            let small = text::lowercase_of(name@);
            let values = encoded_values(text::views(list@));
            assert(lists[index as int] == *list);
            assert(header::header_entries(map).dom() =~= if values.len() == 0 {
                before.dom()
            } else {
                before.dom().insert(small)
            });
        }
        index = index + 1;
    }
    Ok(map)
}

/// The map with the values behind those of the name.
pub open spec fn appended(
    map: Map<Seq<char>, Seq<Seq<u8>>>,
    name: Seq<char>,
    values: Seq<Seq<u8>>,
) -> Map<Seq<char>, Seq<Seq<u8>>> {
    if values.len() == 0 {
        map
    } else {
        map.insert(name, header::values_in(map, name) + values)
    }
}

proof fn lemma_appended(
    map: Map<Seq<char>, Seq<Seq<u8>>>,
    name: Seq<char>,
    values: Seq<Seq<u8>>,
    value: Seq<u8>,
)
    ensures
        appended(map, name, values.push(value)) == appended(map, name, values).insert(
            name,
            header::values_in(appended(map, name, values), name).push(value),
        ),
        map.dom().finite() ==> appended(map, name, values).dom().finite()
            && appended(map, name, values).dom().len() <= map.dom().len() + 1,
{
    let left = appended(map, name, values.push(value));
    let right = appended(map, name, values).insert(
        name,
        header::values_in(appended(map, name, values), name).push(value),
    );
    assert(left[name] =~= right[name]);
    assert(left =~= right);
}

proof fn lemma_sent_fails(
    keys: Seq<Seq<char>>,
    values: Seq<Vec<String>>,
    at: int,
    count: int,
)
    requires
        0 <= at <= count,
    ensures
        sent_headers(keys, values, at) is Err ==> sent_headers(keys, values, count)
            == sent_headers(keys, values, at),
    decreases count - at,
{
    if at < count {
        lemma_sent_fails(keys, values, at + 1, count);
    }
}

impl Reply {
    /// Whether this is the answer to a message, and nothing but one.
    pub open spec fn is_json(self, message: Seq<char>, status: u16) -> bool {
        &&& text::view_of(self.message) == Some(message)
        &&& self.status == status
        &&& self.kind@ == "jsonrpc_response"@
        &&& self.headers.keys() == seq!["Content-Type"@]
        &&& text::views(self.headers.values()[0]@) == seq!["application/json"@]
    }

    /// Whether this tells the service of a status, and nothing else.
    pub open spec fn is_ack(self, status: u16, kind: Seq<char>) -> bool {
        &&& self.message is None
        &&& self.status == status
        &&& self.kind@ == kind
        &&& self.headers.keys().len() == 0
    }

    /// The answer that carries a message.
    pub fn json(message: String) -> (result: Reply)
        ensures
            result.is_json(message@, 200),
    {
        let mut kinds: Vec<String> = Vec::new();
        kinds.push("application/json".to_owned());
        assert(text::views(kinds@) =~= seq!["application/json"@]);
        let mut entries: Vec<(String, Vec<String>)> = Vec::new();
        entries.push(("Content-Type".to_owned(), kinds));
        assert(table::entry_keys(entries@) =~= seq!["Content-Type"@]);
        Reply {
            message: Some(message),
            headers: Table::from_sorted(entries),
            status: 200,
            kind: "jsonrpc_response".to_owned(),
        }
    }

    /// The answer without a message.
    pub fn ack(status: u16, kind: &str) -> (result: Reply)
        ensures
            result.is_ack(status, kind@),
    {
        Reply { message: None, headers: Table::new(), status, kind: kind.to_owned() }
    }

    /// Whether nothing follows the answer.
    pub fn terminal(&self) -> (result: bool)
        ensures
            result == (self.kind@ != "jsonrpc_notify"@),
    {
        !text::same(&self.kind, "jsonrpc_notify")
    }

    /// The answer that tells of an error: with the identity of the request, or without a message where
    /// it has none.
    pub fn error(request: &Request, status: u16, code: i32, message: &str) -> (result: Result<
        Reply,
        String,
    >)
        ensures
            match (result, view_of(request.message@)) {
                (Ok(reply), Ok(envelope)) => match envelope.id {
                    None => reply.is_ack(status, "notify_ack"@),
                    Some(id) => parsed_json(id) is Some && reply.is_json(
                        error_text(parsed_json(id)->0, code as int, message@),
                        status,
                    ),
                },
                (Err(reason), Err(expected)) => reason@ == expected,
                (Err(reason), Ok(envelope)) => envelope.id is Some && parsed_json(envelope.id->0)
                    is None && reason@ == "invalid message identity"@,
                _ => false,
            },
    {
        let envelope = match view(&request.message) {
            Ok(envelope) => envelope,
            Err(reason) => {
                return Err(reason);
            },
        };
        match envelope.id {
            None => Ok(Reply::ack(status, "notify_ack")),
            Some(id) => match json::compact(&id) {
                None => Err("invalid message identity".to_owned()),
                Some(id) => {
                    let mut inner: Vec<String> = Vec::new();
                    assert(text::views(inner@) == Seq::<Seq<char>>::empty());
                    append(&mut inner, true, "code", &text::signed(code));
                    append(&mut inner, true, "message", &json::assembly::quote(message));
                    let mut members: Vec<String> = Vec::new();
                    assert(text::views(members@) == Seq::<Seq<char>>::empty());
                    append(&mut members, true, "error", &object(&inner));
                    append(&mut members, true, "id", &id);
                    append(&mut members, true, "jsonrpc", &json::assembly::quote("2.0"));
                    let mut reply = Reply::json(object(&members));
                    reply.status = status;
                    Ok(reply)
                },
            },
        }
    }
}

/// The text of an error with the identity of its request.
pub open spec fn error_text(id: Doc, code: int, message: Seq<char>) -> Seq<char> {
    let inner = with_member(
        with_member(Seq::empty(), true, "code"@, text::signed_of(code)),
        true,
        "message"@,
        string_text(message),
    );
    object_text(
        with_member(
            with_member(
                with_member(Seq::empty(), true, "error"@, object_text(inner)),
                true,
                "id"@,
                json_text(id),
            ),
            true,
            "jsonrpc"@,
            string_text("2.0"@),
        ),
    )
}

/// The text of a result with the identity of its request.
pub open spec fn result_text(id: Doc, value: Doc) -> Seq<char> {
    object_text(
        with_member(
            with_member(
                with_member(Seq::empty(), true, "id"@, json_text(id)),
                true,
                "jsonrpc"@,
                string_text("2.0"@),
            ),
            true,
            "result"@,
            json_text(value),
        ),
    )
}

/// The answer that carries the result of a request.
pub fn result(request: &Request, value: &str) -> (result: Result<Reply, String>)
    ensures
        match (result, view_of(request.message@)) {
            (Err(reason), Err(expected)) => reason@ == expected,
            (_, Err(_)) => false,
            (Ok(reply), Ok(envelope)) => envelope.id is Some && parsed_json(envelope.id->0) is Some
                && parsed_json(value@) is Some && reply.is_json(
                result_text(parsed_json(envelope.id->0)->0, parsed_json(value@)->0),
                200,
            ),
            (Err(reason), Ok(envelope)) => if envelope.id is None {
                reason@ == "request has no response ID"@
            } else {
                (parsed_json(envelope.id->0) is None || parsed_json(value@) is None) && reason@
                    == "invalid message value"@
            },
        },
{
    let envelope = match view(&request.message) {
        Ok(envelope) => envelope,
        Err(reason) => {
            return Err(reason);
        },
    };
    let id = match envelope.id {
        Some(id) => id,
        None => {
            return Err("request has no response ID".to_owned());
        },
    };
    match (json::compact(&id), json::compact(value)) {
        (Some(id), Some(value)) => Ok(result_reply(&id, &value)),
        _ => Err("invalid message value".to_owned()),
    }
}

/// The answer that carries a document as the result of a request.
pub fn respond(request: &Request, value: Json) -> (result: Result<Reply, String>)
    ensures
        match (result, view_of(request.message@)) {
            (Err(reason), Err(expected)) => reason@ == expected,
            (_, Err(_)) => false,
            (Ok(reply), Ok(envelope)) => envelope.id is Some && parsed_json(envelope.id->0) is Some
                && reply.is_json(result_text(parsed_json(envelope.id->0)->0, value.doc()), 200),
            (Err(reason), Ok(envelope)) => if envelope.id is None {
                reason@ == "request has no response ID"@
            } else {
                parsed_json(envelope.id->0) is None && reason@ == "invalid message value"@
            },
        },
{
    let envelope = match view(&request.message) {
        Ok(envelope) => envelope,
        Err(reason) => {
            return Err(reason);
        },
    };
    let id = match envelope.id {
        Some(id) => id,
        None => {
            return Err("request has no response ID".to_owned());
        },
    };
    match json::compact(&id) {
        Some(id) => Ok(result_reply(&id, &json::write(value))),
        None => Err("invalid message value".to_owned()),
    }
}

fn result_reply(id: &str, value: &str) -> (result: Reply)
    ensures
        result.is_json(
            object_text(
                with_member(
                    with_member(
                        with_member(Seq::empty(), true, "id"@, id@),
                        true,
                        "jsonrpc"@,
                        string_text("2.0"@),
                    ),
                    true,
                    "result"@,
                    value@,
                ),
            ),
            200,
        ),
{
    let mut members: Vec<String> = Vec::new();
    assert(text::views(members@) == Seq::<Seq<char>>::empty());
    append(&mut members, true, "id", id);
    append(&mut members, true, "jsonrpc", &json::assembly::quote("2.0"));
    append(&mut members, true, "result", value);
    Reply::json(object(&members))
}

/// Whether two identities are the same.
pub fn same_id(left: &str, right: &str) -> (result: bool)
    ensures
        result == json::same_text(left@, right@),
        left@ == right@ ==> result,
{
    json::equal(left, right)
}

/// The nanoseconds of a unit by its whole name.
pub open spec fn unit_named(name: Seq<char>) -> Option<u64> {
    if name == "ns"@ {
        Some(1)
    } else if name == "us"@ {
        Some(1_000)
    } else if name == "ms"@ {
        Some(1_000_000)
    } else if name == "s"@ {
        Some(1_000_000_000)
    } else if name == "m"@ {
        Some(60_000_000_000)
    } else if name == "h"@ {
        Some(3_600_000_000_000)
    } else {
        None
    }
}

fn unit(name: &str) -> (result: Option<u64>)
    ensures
        result == unit_named(name@),
        result matches Some(scale) ==> scale <= 3_600_000_000_000,
{
    if text::same(name, "ns") {
        Some(1)
    } else if text::same(name, "us") {
        Some(1_000)
    } else if text::same(name, "ms") {
        Some(1_000_000)
    } else if text::same(name, "s") {
        Some(1_000_000_000)
    } else if text::same(name, "m") {
        Some(60_000_000_000)
    } else if text::same(name, "h") {
        Some(3_600_000_000_000)
    } else {
        None
    }
}

/// The nanoseconds that a message waits for its answer: a whole number with a unit behind it.
pub open spec fn timeout_of(value: Doc) -> Option<nat> {
    match value {
        Doc::Text(text) => {
            let digits = crate::config::duration::digit_count(text) as int;
            match unit_named(text.skip(digits)) {
                Some(scale) => {
                    let number = text::digits_value(text.take(digits));
                    if digits > 0 && number * scale <= i64::MAX {
                        Some(number * scale as nat)
                    } else {
                        None
                    }
                },
                None => None,
            }
        },
        _ => None,
    }
}

/// The time that a message waits for its answer.
pub fn timeout(value: &Json) -> (result: Option<Span>)
    ensures
        match (result, timeout_of(value.doc())) {
            (Some(span), Some(nanos)) => span.0 == nanos,
            (None, None) => true,
            _ => false,
        },
{
    let given = match value {
        Json::Text(given) => given,
        _ => {
            return None;
        },
    };
    let all = text::chars(given);
    let digits: usize = crate::config::duration::count_digits(&all, 0);
    let front = text::piece(&all, 0, digits);
    let back = text::piece(&all, digits, all.len());
    proof {
        crate::config::duration::lemma_digit_count(given@);
        assert(all@.skip(0) == given@);
        assert(given@.take(digits as int) == given@.subrange(0, digits as int));
        assert(given@.skip(digits as int) == given@.subrange(digits as int, given@.len() as int));
    }
    let scale: u64 = match unit(&back) {
        Some(scale) => scale,
        None => {
            return None;
        },
    };
    if digits == 0 {
        return None;
    }
    assert(text::all_digits(front@));
    assert(front@[0] != '+');
    let number: u64 = match text::unsigned(&front) {
        Some(number) => number,
        None => {
            proof {
                let wide = text::digits_value(front@);
                assert(wide * scale >= wide) by (nonlinear_arith)
                    requires
                        wide >= 0,
                        scale >= 1,
                ;
            }
            return None;
        },
    };
    assert(number as u128 * scale as u128 <= 0xffff_ffff_ffff_ffff * 3_600_000_000_000)
        by (nonlinear_arith)
        requires
            number <= 0xffff_ffff_ffff_ffff,
            scale <= 3_600_000_000_000,
    ;
    let nanos: u128 = number as u128 * scale as u128;
    if nanos > 9_223_372_036_854_775_807 {
        return None;
    }
    Some(Span(nanos as u64))
}

/// The document of the first message of a session.
pub open spec fn initialize_doc() -> Doc {
    Doc::object().with("jsonrpc"@, Doc::Text("2.0"@)).with("id"@, Doc::number(0)).with(
        "method"@,
        Doc::Text("initialize"@),
    ).with(
        "params"@,
        Doc::object().with("protocolVersion"@, Doc::Text(MCP_VERSION@)).with(
            "capabilities"@,
            Doc::object(),
        ).with(
            "clientInfo"@,
            Doc::object().with("name"@, Doc::Text("otunnel"@)).with(
                "version"@,
                Doc::Text("0.1.0"@),
            ),
        ),
    )
}

/// The first message of a session.
pub fn initialize() -> (result: Request)
    ensures
        result.message@ == json_text(initialize_doc()),
        header::header_entries(result.headers) == header::no_entries(),
{
    let info = Json::object().with("name", Json::text("otunnel")).with(
        "version",
        Json::text("0.1.0"),
    );
    let params = Json::object().with("protocolVersion", Json::text(MCP_VERSION)).with(
        "capabilities",
        Json::object(),
    ).with("clientInfo", info);
    Request::new(
        Json::object().with("jsonrpc", Json::text("2.0")).with("id", Json::number(0)).with(
            "method",
            Json::text("initialize"),
        ).with("params", params),
    )
}

/// The headers that a connection keeps to itself.
pub open spec fn is_nominated(values: Seq<Seq<u8>>, name: Seq<char>) -> bool {
    exists|i: int|
        0 <= i < values.len() && header::ascii_text(#[trigger] values[i]) is Some && lists_token(
            header::ascii_text(values[i])->0,
            name,
        )
}

/// Whether a list with commas holds a name, whatever its case.
pub open spec fn lists_token(list: Seq<char>, name: Seq<char>) -> bool {
    exists|j: int|
        0 <= j < text::split_of(list, ',').len() && text::lowercase_of(
            text::trim_of(#[trigger] text::split_of(list, ',')[j]),
        ) == name
}

fn nominated(values: &Vec<Vec<u8>>, name: &str) -> (result: bool)
    ensures
        result == is_nominated(header::byte_views(values@), name@),
{
    let ghost all = header::byte_views(values@);
    let mut index: usize = 0;
    while index < values.len()
        invariant
            index <= values.len(),
            all == header::byte_views(values@),
            forall|i: int|
                0 <= i < index && header::ascii_text(#[trigger] all[i]) is Some ==> !lists_token(
                    header::ascii_text(all[i])->0,
                    name@,
                ),
        decreases values.len() - index,
    {
        assert(all[index as int] == values@[index as int]@);
        if let Some(list) = header::ascii(&values[index]) {
            let parts = text::split(&list, ',');
            let ghost pieces = text::split_of(list@, ',');
            let mut at: usize = 0;
            while at < parts.len()
                invariant
                    at <= parts.len(),
                    pieces == text::split_of(list@, ','),
                    text::views(parts@) == pieces,
                    index < values.len(),
                    all == header::byte_views(values@),
                    all[index as int] == values@[index as int]@,
                    header::ascii_text(all[index as int]) == Some(list@),
                    forall|j: int|
                        0 <= j < at ==> text::lowercase_of(text::trim_of(#[trigger] pieces[j]))
                            != name@,
                decreases parts.len() - at,
            {
                assert(pieces[at as int] == parts@[at as int]@);
                if text::same(&text::lowercase(&text::trim(&parts[at])), name) {
                    assert(lists_token(list@, name@));
                    return true;
                }
                at = at + 1;
            }
            assert(text::views(parts@).len() == parts@.len());
        }
        index = index + 1;
    }
    false
}

/// A header that a filtered answer keeps.
pub open spec fn is_allowed(name: Seq<char>) -> bool {
    ||| name == "content-type"@
    ||| name == "mcp-session-id"@
    ||| name == "mcp-protocol-version"@
    ||| name == "last-event-id"@
    ||| name == "access-control-expose-headers"@
    ||| name == "www-authenticate"@
}

fn allowed(name: &str) -> (result: bool)
    ensures
        result == is_allowed(name@),
{
    text::same(name, "content-type") || text::same(name, "mcp-session-id") || text::same(
        name,
        "mcp-protocol-version",
    ) || text::same(name, "last-event-id") || text::same(name, "access-control-expose-headers")
        || text::same(name, "www-authenticate")
}

/// The values that can be shown: visible and not empty.
pub open spec fn shown_values(values: Seq<Seq<u8>>) -> Seq<Seq<char>>
    decreases values.len(),
{
    if values.len() == 0 {
        Seq::empty()
    } else {
        let rest = shown_values(values.drop_last());
        match header::ascii_text(values.last()) {
            Some(value) => if value.len() > 0 {
                rest.push(value)
            } else {
                rest
            },
            None => rest,
        }
    }
}

fn show_values(values: &Vec<Vec<u8>>) -> (result: Vec<String>)
    ensures
        text::views(result@) == shown_values(header::byte_views(values@)),
{
    let ghost all = header::byte_views(values@);
    let mut result: Vec<String> = Vec::new();
    let mut index: usize = 0;
    assert(text::views(result@) == Seq::<Seq<char>>::empty());
    while index < values.len()
        invariant
            index <= values.len(),
            all == header::byte_views(values@),
            text::views(result@) == shown_values(all.take(index as int)),
        decreases values.len() - index,
    {
        proof {
            assert(all.take(index + 1).drop_last() == all.take(index as int));
            assert(all.take(index + 1).last() == values@[index as int]@);
        }
        if let Some(value) = header::ascii(&values[index]) {
            if !value.is_empty() {
                assert(text::views(result@.push(value)) == text::views(result@).push(value@));
                result.push(value);
            }
        }
        index = index + 1;
    }
    assert(all.take(all.len() as int) == all);
    result
}

/// Whether an answer passes a header on.
pub open spec fn passes(entries: Map<Seq<char>, Seq<Seq<u8>>>, filtered: bool, name: Seq<char>) -> bool {
    &&& entries.dom().contains(name)
    &&& name != "connection"@
    &&& !is_nominated(header::values_in(entries, "connection"@), name)
    &&& filtered ==> is_allowed(name)
    &&& shown_values(entries[name]).len() > 0
}

/// The headers that an answer passes on.
pub open spec fn passed(entries: Map<Seq<char>, Seq<Seq<u8>>>, filtered: bool) -> Map<
    Seq<char>,
    Seq<Seq<char>>,
> {
    Map::new(
        |name: Seq<char>| passes(entries, filtered, name),
        |name: Seq<char>| shown_values(entries[name]),
    )
}

/// The contents of a map of lists of strings.
pub open spec fn lists_of(map: Map<Seq<char>, Vec<String>>) -> Map<Seq<char>, Seq<Seq<char>>> {
    Map::new(
        |name: Seq<char>| map.dom().contains(name),
        |name: Seq<char>| text::views(map[name]@),
    )
}

/// The headers that an answer passes on: not those of the connection, and with a filter only those
/// that the service asks for.
pub fn wire_headers(headers: &header::Headers, filtered: bool) -> (result: Table<Vec<String>>)
    ensures
        lists_of(result@) == passed(header::header_entries(*headers), filtered),
{
    let ghost entries = header::header_entries(*headers);
    proof {
        reveal_strlit("connection");
        assert(text::lowercase_of("connection"@) =~= "connection"@);
    }
    let connection = header::values(headers, "connection");
    let names = header::names(headers);
    let ghost all = text::views(names@);
    let mut result: Table<Vec<String>> = Table::new();
    let mut index: usize = 0;
    while index < names.len()
        invariant
            index <= names.len(),
            entries == header::header_entries(*headers),
            header::byte_views(connection@) == header::values_in(entries, "connection"@),
            all == text::views(names@),
            header::lists_names(all, entries),
            forall|name: Seq<char>| #[trigger]
                result@.dom().contains(name) ==> passes(entries, filtered, name) && text::views(
                    result@[name]@,
                ) == shown_values(entries[name]),
            forall|i: int|
                0 <= i < index && passes(entries, filtered, #[trigger] all[i])
                    ==> result@.dom().contains(all[i]),
        decreases names.len() - index,
    {
        let name = &names[index];
        proof {
            assert(all[index as int] == name@);
            assert(all.contains(name@));
            assert(entries.dom().contains(name@));
        }
        if !text::same(name, "connection") && !nominated(&connection, name) && (!filtered
            || allowed(name)) {
            let values = header::values(headers, name);
            let shown = show_values(&values);
            assert(text::views(shown@).len() == shown@.len());
            if shown.len() > 0 {
                result = result.insert(name.clone(), shown);
            }
        }
        index = index + 1;
    }
    proof {
        let left = lists_of(result@);
        let right = passed(entries, filtered);
        assert forall|name: Seq<char>| left.dom().contains(name) == right.dom().contains(name) by {
            if right.dom().contains(name) {
                assert(entries.dom().contains(name));
                assert(all.contains(name));
                let i = choose|i: int| 0 <= i < all.len() && all[i] == name;
                assert(passes(entries, filtered, all[i]));
            }
        }
        assert(left =~= right);
    }
    result
}

/// A header that the connection keeps to itself is not passed on.
pub proof fn lemma_connection_kept(
    entries: Map<Seq<char>, Seq<Seq<u8>>>,
    filtered: bool,
    name: Seq<char>,
)
    requires
        name == "connection"@ || is_nominated(header::values_in(entries, "connection"@), name),
    ensures
        !passed(entries, filtered).dom().contains(name),
{
}

/// With a filter nothing is passed on that is not passed on without one.
pub proof fn lemma_filter_narrows(entries: Map<Seq<char>, Seq<Seq<u8>>>, name: Seq<char>)
    requires
        passed(entries, true).dom().contains(name),
    ensures
        passed(entries, false).dom().contains(name),
        passed(entries, false)[name] == passed(entries, true)[name],
        is_allowed(name),
{
}

/// A filtered answer keeps what a client of the protocol needs, where the server sent a value that can be
/// shown and the connection does not claim it; of everything else it keeps nothing.
pub proof fn lemma_filter_keeps(entries: Map<Seq<char>, Seq<Seq<u8>>>, name: Seq<char>, at: int, value: Seq<char>)
    requires
        entries.dom().contains(name),
        0 <= at < entries[name].len(),
        header::ascii_text(entries[name][at]) == Some(value),
        value.len() > 0,
        !is_nominated(header::values_in(entries, "connection"@), name),
    ensures
        (name == "content-type"@ || name == "mcp-session-id"@ || name == "mcp-protocol-version"@ || name
            == "last-event-id"@ || name == "access-control-expose-headers"@ || name
            == "www-authenticate"@) <==> passed(entries, true).dom().contains(name),
        passed(entries, true).dom().contains(name) ==> passed(entries, true)[name].contains(value),
        name != "connection"@ ==> passed(entries, false).dom().contains(name) && passed(
            entries,
            false,
        )[name].contains(value),
{
    lemma_shown(entries[name], at, value);
    reveal_strlit("connection");
    reveal_strlit("content-type");
    reveal_strlit("mcp-session-id");
    reveal_strlit("mcp-protocol-version");
    reveal_strlit("last-event-id");
    reveal_strlit("access-control-expose-headers");
    reveal_strlit("www-authenticate");
    assert("connection"@.len() == 10);
    assert("content-type"@.len() == 12);
    assert("mcp-session-id"@.len() == 14);
    assert("mcp-protocol-version"@.len() == 20);
    assert("last-event-id"@.len() == 13);
    assert("access-control-expose-headers"@.len() == 29);
    assert("www-authenticate"@.len() == 16);
    assert(shown_values(entries[name]).len() > 0);
}

/// Of the values of a header those are shown that are visible and not empty, in their order.
pub proof fn lemma_shown(values: Seq<Seq<u8>>, at: int, value: Seq<char>)
    requires
        0 <= at < values.len(),
        header::ascii_text(values[at]) == Some(value),
        value.len() > 0,
    ensures
        shown_values(values).contains(value),
    decreases values.len(),
{
    let front = values.drop_last();
    let rest = shown_values(front);
    let all = shown_values(values);
    if at < front.len() {
        lemma_shown(front, at, value);
        let i = choose|i: int| 0 <= i < rest.len() && rest[i] == value;
        assert(all[i] == value);
    } else {
        assert(all.last() == value);
    }
}

/// What is shown of a header is one of its values, and never empty.
pub proof fn lemma_shown_sent(values: Seq<Seq<u8>>, at: int)
    requires
        0 <= at < shown_values(values).len(),
    ensures
        shown_values(values)[at].len() > 0,
        exists|i: int|
            0 <= i < values.len() && header::ascii_text(#[trigger] values[i]) == Some(
                shown_values(values)[at],
            ),
        shown_values(values).len() <= values.len(),
    decreases values.len(),
{
    if values.len() > 0 {
        let front = values.drop_last();
        let rest = shown_values(front);
        if rest.len() > 0 {
            lemma_shown_sent(front, 0);
        }
        if at < rest.len() {
            lemma_shown_sent(front, at);
            let i = choose|i: int|
                0 <= i < front.len() && header::ascii_text(#[trigger] front[i]) == Some(rest[at]);
            assert(values[i] == front[i]);
        } else {
            assert(values[values.len() - 1] == values.last());
        }
    }
}

/// A message is answered as one of its kind: a refusal and a result name the request and the version of the protocol.
pub proof fn lemma_answers_written(id: Doc, code: int, message: Seq<char>, value: Doc)
    ensures
        error_text(id, code, message) == object_text(
            Seq::empty().push(crate::json::assembly::member_text("error"@, object_text(
            Seq::empty().push(crate::json::assembly::member_text("code"@, text::signed_of(code))).push(crate::json::assembly::member_text("message"@, string_text(message))),
        ))).push(crate::json::assembly::member_text("id"@, json_text(id))).push(crate::json::assembly::member_text("jsonrpc"@, string_text("2.0"@))),
        ),
        result_text(id, value) == object_text(
            Seq::empty().push(crate::json::assembly::member_text("id"@, json_text(id))).push(crate::json::assembly::member_text("jsonrpc"@, string_text("2.0"@))).push(crate::json::assembly::member_text("result"@, json_text(value))),
        ),
{
}

/// A field that is null counts as missing.
pub proof fn lemma_nulls_missing(field: Seq<char>)
    ensures
        filled(Some("null"@)) is None,
        filled(None) is None,
        field != "null"@ ==> filled(Some(field)) == Some(field),
{
}

/// The name of a method is a text without escapes.
pub proof fn lemma_method_read(raw: Seq<char>, name: Seq<char>)
    ensures
        parsed_json(raw) == Some(Doc::Text(name)) && !raw.contains('\\') ==> method_of(raw) == Some(name),
        raw.contains('\\') ==> method_of(raw) is None,
        parsed_json(raw) is None ==> method_of(raw) is None,
        method_of(raw) matches Some(found) ==> parsed_json(raw) == Some(Doc::Text(found)),
{
}

/// The session of a request is that of its header, or else that of its message.
pub proof fn lemma_session_found(request: Request, value: Seq<char>)
    ensures
        ({
            let values = header::values_in(header::header_entries(request.headers), "mcp-session-id"@);
            &&& values.len() > 0 && header::ascii_text(values[0]) == Some(value) ==> request.session() == value
            &&& values.len() == 0 && member_at(
                request.message@,
                seq!["params"@, "_meta"@, "openai/session"@],
            ) == Some(value) ==> request.session() == value
            &&& values.len() == 0 && member_at(
                request.message@,
                seq!["params"@, "_meta"@, "openai/session"@],
            ) is None ==> request.session().len() == 0
        }),
{
}

/// A member is found by its name in each object on the way.
pub proof fn lemma_member_found(message: Seq<char>, map: Map<Seq<char>, Seq<char>>, key: Seq<char>, rest: Seq<Seq<char>>)
    ensures
        member_at(message, Seq::empty()) == Some(message),
        plain_map(message) == Some(map) && map.dom().contains(key) ==> member_at(message, seq![key] + rest)
            == member_at(map[key], rest),
        plain_map(message) == Some(map) && !map.dom().contains(key) ==> member_at(message, seq![key] + rest)
            is None,
        plain_map(message) is None ==> member_at(message, seq![key] + rest) is None,
{
    let keys = seq![key] + rest;
    assert(keys[0] == key);
    assert(keys.skip(1) =~= rest);
}

/// A replacement stands in its place, and every other member as it was; what is missing on the way is made.
pub proof fn lemma_member_replaced(
    message: Seq<char>,
    map: Map<Seq<char>, Seq<char>>,
    key: Seq<char>,
    replacement: Seq<char>,
)
    ensures
        replaced(message, Seq::empty(), replacement) == Ok::<Seq<char>, Seq<char>>(replacement),
        raw_map(message) == Ok::<Map<Seq<char>, Seq<char>>, Seq<char>>(map) ==> replaced(
            message,
            seq![key],
            replacement,
        ) == Ok::<Seq<char>, Seq<char>>(object_with(map.insert(key, replacement))),
        raw_map(message) is Err ==> replaced(message, seq![key], replacement) is Err,
{
    let keys = seq![key];
    assert(keys.skip(1).len() == 0);
    assert(keys[0] == key);
    if raw_map(message) is Ok {
        let child = if map.dom().contains(key) {
            map[key]
        } else {
            "{}"@
        };
        assert(replaced(child, keys.skip(1), replacement) == Ok::<Seq<char>, Seq<char>>(replacement));
    }
}

/// The headers that are sent are those that were given, under their names in small letters; one that cannot be sent has
/// all of them refused.
pub proof fn lemma_headers_sent(
    keys: Seq<Seq<char>>,
    values: Seq<Vec<String>>,
    count: int,
    before: Map<Seq<char>, Seq<Seq<u8>>>,
)
    requires
        0 < count <= keys.len(),
        keys.len() == values.len(),
        sent_headers(keys, values, count - 1) == Ok::<Map<Seq<char>, Seq<Seq<u8>>>, Seq<char>>(before),
    ensures
        !header::is_name(keys[count - 1]) ==> sent_headers(keys, values, count) is Err,
        header::is_name(keys[count - 1]) && !all_values(text::views(values[count - 1]@)) ==> sent_headers(
            keys,
            values,
            count,
        ) is Err,
        header::is_name(keys[count - 1]) && all_values(text::views(values[count - 1]@)) ==> {
            &&& sent_headers(keys, values, count) matches Ok(after)
            &&& values[count - 1]@.len() == 0 ==> after == before
            &&& values[count - 1]@.len() > 0 ==> after[text::lowercase_of(keys[count - 1])] == header::values_in(
                before,
                text::lowercase_of(keys[count - 1]),
            ) + encoded_values(text::views(values[count - 1]@))
        },
{
}

/// A reply with a message is told as such, and as one in JSON; one without a message is an acknowledgement.
pub proof fn lemma_replies(reply: Reply, message: Seq<char>, status: u16, kind: Seq<char>)
    ensures
        reply.is_json(message, status) ==> reply.message is Some && reply.message->0@ == message && reply.status
            == status && reply.kind@ == "jsonrpc_response"@ && reply.headers.keys() == seq!["Content-Type"@]
            && text::views(reply.headers.values()[0]@) == seq!["application/json"@],
        reply.is_ack(status, kind) ==> reply.message is None && reply.status == status && reply.kind@ == kind
            && reply.headers.keys().len() == 0,
{
}

/// The units of a wait, and the longest.
pub proof fn lemma_waits(value: Seq<char>)
    ensures
        unit_named("ns"@) == Some(1u64),
        unit_named("us"@) == Some(1_000u64),
        unit_named("ms"@) == Some(1_000_000u64),
        unit_named("s"@) == Some(1_000_000_000u64),
        unit_named("m"@) == Some(60_000_000_000u64),
        unit_named("h"@) == Some(3_600_000_000_000u64),
        value.len() == 0 || value.len() > 2 ==> unit_named(value) is None,
        timeout_of(Doc::Text(value)) matches Some(wait) ==> wait <= i64::MAX,
        timeout_of(Doc::Null) is None && timeout_of(Doc::Bool(true)) is None,
{
    reveal_strlit("ns");
    reveal_strlit("us");
    reveal_strlit("ms");
    reveal_strlit("s");
    reveal_strlit("m");
    reveal_strlit("h");
    assert("ns"@.len() == 2 && "ns"@[0] == 'n');
    assert("us"@.len() == 2 && "us"@[0] == 'u');
    assert("ms"@.len() == 2 && "ms"@[0] == 'm');
    assert("s"@.len() == 1 && "s"@[0] == 's');
    assert("m"@.len() == 1 && "m"@[0] == 'm');
    assert("h"@.len() == 1 && "h"@[0] == 'h');
}

/// What a server is asked first.
pub proof fn lemma_first_message()
    ensures
        initialize_doc().at("jsonrpc"@) == Doc::Text("2.0"@),
        initialize_doc().at("id"@) == Doc::number(0),
        initialize_doc().at("method"@) == Doc::Text("initialize"@),
        initialize_doc().at("params"@).at("protocolVersion"@) == Doc::Text("2026-07-28"@),
        initialize_doc().at("params"@).at("capabilities"@) == Doc::object(),
        initialize_doc().at("params"@).at("clientInfo"@).at("name"@) == Doc::Text("otunnel"@),
        initialize_doc().at("params"@).at("clientInfo"@).at("version"@) == Doc::Text("0.1.0"@),
{
    reveal_strlit("jsonrpc");
    reveal_strlit("id");
    reveal_strlit("method");
    reveal_strlit("params");
    reveal_strlit("protocolVersion");
    reveal_strlit("capabilities");
    reveal_strlit("clientInfo");
    reveal_strlit("name");
    reveal_strlit("version");
    assert("jsonrpc"@.len() == 7 && "jsonrpc"@[0] == 'j');
    assert("id"@.len() == 2);
    assert("method"@.len() == 6 && "method"@[0] == 'm');
    assert("params"@.len() == 6 && "params"@[0] == 'p');
    assert("protocolVersion"@.len() == 15);
    assert("capabilities"@.len() == 12);
    assert("clientInfo"@.len() == 10);
    assert("name"@.len() == 4);
    assert("version"@.len() == 7 && "version"@[0] == 'v');
}

/// What decides on a message is read from its own members: its identity, its method, its result and its error.
pub proof fn lemma_message_read(message: Seq<char>, fields: Seq<Option<Seq<char>>>, raw: Seq<char>)
    requires
        record_of(message, seq!["id"@, "method"@, "result"@, "error"@], false) == Ok::<
            Seq<Option<Seq<char>>>,
            Seq<char>,
        >(fields),
    ensures
        view_of(message) matches Ok(envelope) ==> {
            &&& envelope.id == filled(fields[0])
            &&& envelope.result == filled(fields[2])
            &&& envelope.error == filled(fields[3])
            &&& fields[1] is None ==> envelope.method is None
            &&& fields[1] == Some(raw) && raw != "null"@ ==> envelope.method is Some && envelope.method
                == method_of(raw)
        },
        fields[1] == Some(raw) && raw != "null"@ && method_of(raw) is None ==> view_of(message) is Err,
        fields[1] is None ==> view_of(message) is Ok,
        fields[1] == Some(raw) && method_of(raw) is Some ==> view_of(message) is Ok,
{
    assert(envelope_names() == seq!["id"@, "method"@, "result"@, "error"@]);
}

/// A name is nominated where the list of a connection names it, in whatever capitals.
pub proof fn lemma_nominated(list: Seq<char>, name: Seq<char>, at: int, values: Seq<Seq<u8>>, from: int)
    ensures
        0 <= at < text::split_of(list, ',').len() && text::lowercase_of(
            text::trim_of(text::split_of(list, ',')[at]),
        ) == name ==> lists_token(list, name),
        0 <= from < values.len() && header::ascii_text(values[from]) == Some(list) && lists_token(list, name)
            ==> is_nominated(values, name),
        values.len() == 0 ==> !is_nominated(values, name),
{
}

} // verus!
