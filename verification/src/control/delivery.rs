//! How answers reach the service.

use vstd::prelude::*;
use crate::control::client::{is_header_text, with_header};
use crate::json::assembly::{
    append, keyed_members, list_text, member_text, object, object_text, quote, quotes, string_text,
    string_texts, with_member,
};
use crate::json::{Doc, Json};
use crate::protocol::{self, Command, Reply};
use crate::table::Table;
use crate::{header, text};

verus! {

/// How one attempt to deliver an answer ended.
#[derive(Clone, Copy, Debug, PartialEq, Eq, Structural)]
pub enum Attempted {
    /// The service answered with the status.
    Status(u16),
    /// The request failed; `connecting` where no connection was made.
    Failed { connecting: bool },
    /// The time ran out.
    TimedOut,
}

/// What follows from an attempt.
#[derive(Clone, Copy, Debug, PartialEq, Eq, Structural)]
pub enum Next {
    /// The answer has been delivered, or nobody waits for it any more.
    Done(u16),
    /// Another attempt follows after a delay.
    Retry,
    /// The delivery is given up.
    GiveUp,
}

/// What follows from an attempt. An answer that is not the last one is sent again only where the
/// service cannot have taken it up.
pub open spec fn next_of(attempt: int, terminal: bool, event: Attempted) -> Next {
    match event {
        Attempted::Status(status) => if status == 200 || status == 404 {
            Next::Done(status)
        } else if attempt < 2 && (status == 429 || (terminal && (status == 408 || status == 502
            || status == 503 || status == 504))) {
            Next::Retry
        } else {
            Next::GiveUp
        },
        Attempted::Failed { connecting } => if attempt < 2 && (terminal || connecting) {
            Next::Retry
        } else {
            Next::GiveUp
        },
        Attempted::TimedOut => if attempt < 2 && terminal {
            Next::Retry
        } else {
            Next::GiveUp
        },
    }
}

/// What follows from an attempt.
pub fn next(attempt: u32, terminal: bool, event: Attempted) -> (result: Next)
    ensures
        result == next_of(attempt as int, terminal, event),
{
    match event {
        Attempted::Status(status) => if status == 200 || status == 404 {
            Next::Done(status)
        } else if attempt < 2 && (status == 429 || (terminal && (status == 408 || status == 502
            || status == 503 || status == 504))) {
            Next::Retry
        } else {
            Next::GiveUp
        },
        Attempted::Failed { connecting } => if attempt < 2 && (terminal || connecting) {
            Next::Retry
        } else {
            Next::GiveUp
        },
        Attempted::TimedOut => if attempt < 2 && terminal {
            Next::Retry
        } else {
            Next::GiveUp
        },
    }
}

/// A delivery takes three attempts at most.
pub proof fn lemma_attempts_bounded(attempt: int, terminal: bool, event: Attempted)
    requires
        attempt >= 2,
    ensures
        next_of(attempt, terminal, event) != Next::Retry,
{
}

/// An answer that others follow is not sent again where the service may have taken it up.
pub proof fn lemma_notifications_sent_once(attempt: int, event: Attempted)
    requires
        next_of(attempt, false, event) == Next::Retry,
    ensures
        event == Attempted::Status(429) || event == (Attempted::Failed { connecting: true }),
{
}

/// The answers to one request.
pub struct Delivery {
    terminal_started: bool,
    notifications_failed: bool,
    delivered_status: u16,
}

/// The contents of [`Delivery`].
#[verifier::ext_equal]
pub struct DeliveryView {
    /// Whether the last answer has been begun.
    pub terminal_started: bool,
    /// Whether an answer before the last one could not be delivered.
    pub notifications_failed: bool,
    /// The status of the last answer, zero where it has not been delivered.
    pub delivered_status: u16,
}

impl View for Delivery {
    type V = DeliveryView;

    closed spec fn view(&self) -> DeliveryView {
        DeliveryView {
            terminal_started: self.terminal_started,
            notifications_failed: self.notifications_failed,
            delivered_status: self.delivered_status,
        }
    }
}

impl DeliveryView {
    /// Whether an answer is refused: it is a last one, and one has been begun.
    pub open spec fn refuses(self, terminal: bool) -> bool {
        terminal && self.terminal_started
    }

    /// Whether an answer goes to the service. After one that could not be delivered only the last one
    /// does.
    pub open spec fn posts(self, terminal: bool) -> bool {
        if terminal {
            !self.terminal_started
        } else {
            !self.notifications_failed
        }
    }

    /// After an answer has come.
    pub open spec fn begun(self, terminal: bool) -> DeliveryView {
        DeliveryView { terminal_started: self.terminal_started || terminal, ..self }
    }

    /// After an answer has been sent.
    pub open spec fn ended(self, terminal: bool, status: u16, delivered: bool) -> DeliveryView {
        if terminal {
            DeliveryView {
                delivered_status: if delivered {
                    status
                } else {
                    self.delivered_status
                },
                ..self
            }
        } else {
            DeliveryView {
                notifications_failed: self.notifications_failed || !delivered,
                ..self
            }
        }
    }
}

impl Delivery {
    /// No answer has come.
    pub fn new() -> (result: Delivery)
        ensures
            result@ == (DeliveryView {
                terminal_started: false,
                notifications_failed: false,
                delivered_status: 0,
            }),
    {
        Delivery { terminal_started: false, notifications_failed: false, delivered_status: 0 }
    }

    /// An answer comes. Tells whether it goes to the service; another last one is refused.
    pub fn send(&mut self, terminal: bool) -> (result: Result<bool, String>)
        ensures
            match result {
                Ok(posts) => !old(self)@.refuses(terminal) && posts == old(self)@.posts(terminal),
                Err(reason) => old(self)@.refuses(terminal) && reason@
                    == "request already has a terminal response"@,
            },
            final(self)@ == old(self)@.begun(terminal),
    {
        if terminal {
            if self.terminal_started {
                return Err("request already has a terminal response".to_owned());
            }
            self.terminal_started = true;
            Ok(true)
        } else {
            Ok(!self.notifications_failed)
        }
    }

    /// An answer has been sent to the service.
    pub fn sent(&mut self, terminal: bool, status: u16, delivered: bool)
        ensures
            final(self)@ == old(self)@.ended(terminal, status, delivered),
    {
        if terminal {
            if delivered {
                self.delivered_status = status;
            }
        } else if !delivered {
            self.notifications_failed = true;
        }
    }

    /// Whether the last answer has been begun.
    pub fn terminal_started(&self) -> (result: bool)
        ensures
            result == self@.terminal_started,
    {
        self.terminal_started
    }

    /// The status of the last answer, zero where it has not been delivered.
    pub fn delivered_status(&self) -> (result: u16)
        ensures
            result == self@.delivered_status,
    {
        self.delivered_status
    }
}

/// What happens to the answers to a request.
pub enum Event {
    /// An answer comes.
    Comes { terminal: bool },
    /// An answer has been sent to the service.
    Sent { terminal: bool, status: u16, delivered: bool },
}

impl DeliveryView {
    /// After something has happened.
    pub open spec fn after(self, event: Event) -> DeliveryView {
        match event {
            Event::Comes { terminal } => self.begun(terminal),
            Event::Sent { terminal, status, delivered } => self.ended(terminal, status, delivered),
        }
    }

    /// After some events.
    pub open spec fn after_all(self, events: Seq<Event>) -> DeliveryView
        decreases events.len(),
    {
        if events.len() == 0 {
            self
        } else {
            self.after(events[0]).after_all(events.drop_first())
        }
    }

    /// How many of the answers that come go to the service, of the last ones or of the others.
    pub open spec fn posted(self, terminal: bool, events: Seq<Event>) -> nat
        decreases events.len(),
    {
        if events.len() == 0 {
            0
        } else {
            let own: nat = if events[0] == (Event::Comes { terminal }) && self.posts(terminal) {
                1
            } else {
                0
            };
            own + self.after(events[0]).posted(terminal, events.drop_first())
        }
    }
}

/// Whatever happens, one last answer at most goes to the service. Once it has been begun every other one
/// is refused, and it stays begun.
pub proof fn lemma_one_terminal(state: DeliveryView, events: Seq<Event>)
    ensures
        state.posted(true, events) <= 1,
        state.terminal_started ==> {
            &&& state.posted(true, events) == 0
            &&& state.after_all(events).terminal_started
            &&& state.after_all(events).refuses(true)
        },
    decreases events.len(),
{
    if events.len() > 0 {
        lemma_one_terminal(state.after(events[0]), events.drop_first());
    }
}

/// After an answer before the last one could not be delivered, no further one goes to the service; none
/// of them is refused.
pub proof fn lemma_notifications_stop(state: DeliveryView, events: Seq<Event>)
    requires
        state.notifications_failed,
    ensures
        state.posted(false, events) == 0,
        state.after_all(events).notifications_failed,
        !state.after_all(events).refuses(false),
    decreases events.len(),
{
    if events.len() > 0 {
        lemma_notifications_stop(state.after(events[0]), events.drop_first());
    }
}

/// What ties an answer to its request.
pub struct Correlation {
    pub request_id: String,
    pub shard_token: String,
    pub channel: String,
    pub client_request_id: Option<String>,
    pub request_kind: String,
    pub request_method: Option<String>,
}

/// The kind of a request: a message with an identity is a call, and one without is a notification.
pub open spec fn kind_of(command: Command) -> Seq<char> {
    if command.command_type@ == "jsonrpc"@ {
        if command.jsonrpc is Some && (protocol::view_of(command.jsonrpc->0@) matches Ok(envelope)
            && envelope.id is Some) {
            "call"@
        } else {
            "notification"@
        }
    } else {
        command.command_type@
    }
}

/// The method of a request.
pub open spec fn method_of(command: Command) -> Option<Seq<char>> {
    match command.jsonrpc {
        Some(message) => match protocol::view_of(message@) {
            Ok(envelope) => envelope.method,
            Err(_) => None,
        },
        None => None,
    }
}

/// Whether a header names the request of a client.
pub open spec fn names_request(name: Seq<char>) -> bool {
    text::same_folded(name, "x-request-id"@)
}

/// The first header that names the request of a client, from an index on.
pub open spec fn client_id_from(keys: Seq<Seq<char>>, values: Seq<Vec<String>>, at: int) -> Option<
    Seq<char>,
>
    decreases keys.len() - at,
{
    if at >= keys.len() {
        None
    } else if names_request(keys[at]) {
        if values[at]@.len() > 0 && values[at]@[0]@.len() > 0 {
            Some(values[at]@[0]@)
        } else {
            None
        }
    } else {
        client_id_from(keys, values, at + 1)
    }
}

impl Correlation {
    /// What ties the answers to a request.
    pub fn new(command: &Command) -> (result: Correlation)
        ensures
            result.request_id@ == command.request_id@,
            result.shard_token@ == command.shard_token@,
            result.channel@ == command.channel@,
            result.request_kind@ == kind_of(*command),
            text::view_of(result.request_method) == method_of(*command),
            text::view_of(result.client_request_id) == client_id_from(
                command.headers.keys(),
                command.headers.values(),
                0,
            ),
    {
        let envelope = match &command.jsonrpc {
            Some(message) => match protocol::view(message) {
                Ok(envelope) => Some(envelope),
                Err(_) => None,
            },
            None => None,
        };
        let identified = match &envelope {
            Some(envelope) => envelope.id.is_some(),
            None => false,
        };
        let request_kind = if text::same(&command.command_type, "jsonrpc") {
            if identified {
                "call".to_owned()
            } else {
                "notification".to_owned()
            }
        } else {
            command.command_type.clone()
        };
        let request_method = match envelope {
            Some(envelope) => envelope.method,
            None => None,
        };
        Correlation {
            request_id: command.request_id.clone(),
            shard_token: command.shard_token.clone(),
            channel: command.channel.clone(),
            client_request_id: client_id(command),
            request_kind,
            request_method,
        }
    }
}

fn client_id(command: &Command) -> (result: Option<String>)
    ensures
        text::view_of(result) == client_id_from(
            command.headers.keys(),
            command.headers.values(),
            0,
        ),
{
    let count: usize = command.headers.len();
    let ghost keys = command.headers.keys();
    let ghost lists = command.headers.values();
    let mut index: usize = 0;
    while index < count
        invariant
            index <= count,
            count == keys.len(),
            count == lists.len(),
            keys == command.headers.keys(),
            lists == command.headers.values(),
            client_id_from(keys, lists, 0) == client_id_from(keys, lists, index as int),
        decreases count - index,
    {
        if text::same_ignoring_case(command.headers.key(index), "x-request-id") {
            let values = command.headers.value(index);
            assert(lists[index as int] == *values);
            if values.len() > 0 && !values[0].is_empty() {
                return Some(values[0].clone());
            }
            return None;
        }
        index = index + 1;
    }
    None
}

/// The headers with one set unless it is there.
pub open spec fn or_header(
    map: Map<Seq<char>, Seq<Seq<u8>>>,
    name: Seq<char>,
    value: Seq<char>,
) -> Map<Seq<char>, Seq<Seq<u8>>> {
    if map.dom().contains(name) {
        map
    } else {
        with_header(map, name, value)
    }
}

/// The headers of an answer.
pub open spec fn answer_headers(
    map: Map<Seq<char>, Seq<Seq<u8>>>,
    token: Seq<char>,
    client: Option<Seq<char>>,
) -> Map<Seq<char>, Seq<Seq<u8>>> {
    let base = or_header(
        with_header(map, "x-tunnel-shard-token"@, token),
        "content-type"@,
        "application/json"@,
    );
    match client {
        Some(id) => or_header(base, "x-client-request-id"@, id),
        None => base,
    }
}

/// Puts what an answer carries into the headers of a request.
pub fn answer(headers: &mut header::Headers, correlation: &Correlation) -> (result: Result<
    (),
    String,
>)
    requires
        header::header_entries(*old(headers)).dom().finite(),
        header::header_entries(*old(headers)).dom().len() + 3 <= header::ROOM,
    ensures
        match result {
            Ok(()) => is_header_text(correlation.shard_token@) && (
            correlation.client_request_id is Some ==> is_header_text(
                correlation.client_request_id->0@,
            )) && header::header_entries(*final(headers)) == answer_headers(
                header::header_entries(*old(headers)),
                correlation.shard_token@,
                text::view_of(correlation.client_request_id),
            ),
            Err(reason) => reason@ == "failed to parse header value"@ && (!is_header_text(
                correlation.shard_token@,
            ) || (correlation.client_request_id is Some && !is_header_text(
                correlation.client_request_id->0@,
            ))),
        },
{
    proof {
        reveal_strlit("x-tunnel-shard-token");
        reveal_strlit("content-type");
        reveal_strlit("x-client-request-id");
        assert(text::lowercase_of("x-tunnel-shard-token"@) =~= "x-tunnel-shard-token"@);
        assert(text::lowercase_of("content-type"@) =~= "content-type"@);
        assert(text::lowercase_of("x-client-request-id"@) =~= "x-client-request-id"@);
    }
    let token = text::bytes(&correlation.shard_token);
    if !header::valid_value(&token) {
        return Err("failed to parse header value".to_owned());
    }
    header::put(headers, "x-tunnel-shard-token", token);
    if !header::has(headers, "content-type") {
        header::put(headers, "content-type", text::bytes("application/json"));
    }
    if let Some(id) = &correlation.client_request_id {
        let bytes = text::bytes(id);
        if !header::valid_value(&bytes) {
            return Err("failed to parse header value".to_owned());
        }
        if !header::has(headers, "x-client-request-id") {
            header::put(headers, "x-client-request-id", bytes);
        }
    }
    Ok(())
}

/// Whether an entry of a document is a string with more than white space.
pub open spec fn is_filled(doc: Doc) -> bool {
    match doc {
        Doc::Text(value) => text::trim_of(value).len() > 0,
        _ => false,
    }
}

/// Whether a document tells how a managed connector runs.
pub open spec fn is_connector(payload: Doc) -> bool {
    let tunnel = payload.at("cloudflare_tunnel"@);
    &&& is_filled(payload.at("runtime_token"@))
    &&& is_filled(tunnel.at("tunnel_id"@))
    &&& is_filled(tunnel.at("name"@))
    &&& is_filled(tunnel.at("account_id"@))
}

fn entry_filled(doc: &Json, key: &str) -> (result: bool)
    ensures
        result == is_filled(doc.doc().at(key@)),
{
    match doc.get(key) {
        Some(Json::Text(value)) => !text::trim(value).is_empty(),
        _ => false,
    }
}

/// Whether a document tells how a managed connector runs.
pub fn connector(payload: &Json) -> (result: bool)
    ensures
        result == is_connector(payload.doc()),
{
    match payload.get("cloudflare_tunnel") {
        Some(tunnel) => entry_filled(payload, "runtime_token") && entry_filled(
            tunnel,
            "tunnel_id",
        ) && entry_filled(tunnel, "name") && entry_filled(tunnel, "account_id"),
        None => false,
    }
}

/// What follows from an attempt to ask for a managed connector: whether the answer is read, another
/// attempt follows, or it is given up.
#[derive(Clone, Copy, Debug, PartialEq, Eq, Structural)]
pub enum Asked {
    Read,
    Retry,
    GiveUp,
}

/// What follows from an attempt to ask for a managed connector. No status stands for a request that
/// failed.
pub open spec fn asked_of(attempt: int, status: Option<u16>) -> Asked {
    match status {
        Some(status) => if 200 <= status <= 299 {
            Asked::Read
        } else if attempt == 2 || !(status == 429 || 500 <= status <= 599) {
            Asked::GiveUp
        } else {
            Asked::Retry
        },
        None => if attempt == 2 {
            Asked::GiveUp
        } else {
            Asked::Retry
        },
    }
}

/// What follows from an attempt to ask for a managed connector.
pub fn asked(attempt: u32, status: Option<u16>) -> (result: Asked)
    ensures
        result == asked_of(attempt as int, status),
{
    match status {
        Some(status) => if status >= 200 && status <= 299 {
            Asked::Read
        } else if attempt == 2 || !(status == 429 || (status >= 500 && status <= 599)) {
            Asked::GiveUp
        } else {
            Asked::Retry
        },
        None => if attempt == 2 {
            Asked::GiveUp
        } else {
            Asked::Retry
        },
    }
}

/// The headers of an answer as they are told, in the order of their names.
pub open spec fn headers_text(headers: Table<Vec<String>>) -> Seq<char> {
    object_text(
        keyed_members(
            headers.keys(),
            |i: int| list_text(string_texts(text::views(headers.values()[i]@))),
        ),
    )
}

fn write_headers(headers: &Table<Vec<String>>) -> (result: String)
    ensures
        result@ == headers_text(*headers),
{
    let count: usize = headers.len();
    let ghost keys = headers.keys();
    let ghost all = keyed_members(
        keys,
        |i: int| list_text(string_texts(text::views(headers.values()[i]@))),
    );
    let mut members: Vec<String> = Vec::new();
    let mut index: usize = 0;
    while index < count
        invariant
            index <= count,
            count == keys.len(),
            keys == headers.keys(),
            all == keyed_members(
                keys,
                |i: int| list_text(string_texts(text::views(headers.values()[i]@))),
            ),
            text::views(members@) == all.take(index as int),
        decreases count - index,
    {
        assert(all.take(index + 1) == all.take(index as int).push(all[index as int]));
        let key = headers.key(index);
        let shown = quotes(headers.value(index));
        assert(all[index as int] == member_text(key@, shown@));
        append(&mut members, true, key, &shown);
        index = index + 1;
    }
    assert(all.take(all.len() as int) == all);
    object(&members)
}

/// What the service is told of an answer: to which request it is, and the answer itself.
pub open spec fn payload_of(command: Correlation, reply: Reply) -> Seq<char> {
    let base = Seq::<Seq<char>>::empty();
    let named = with_member(
        with_member(base, true, "request_id"@, string_text(command.request_id@)),
        true,
        "channel"@,
        string_text(command.channel@),
    );
    let answered = match reply.message {
        Some(message) => with_member(named, true, "resp_json"@, message@),
        None => named,
    };
    let headed = with_member(
        answered,
        reply.headers.keys().len() > 0,
        "resp_headers"@,
        headers_text(reply.headers),
    );
    object_text(
        with_member(
            with_member(headed, true, "resp_code"@, text::decimal_of(reply.status as nat)),
            true,
            "resp_type"@,
            string_text(reply.kind@),
        ),
    )
}

/// Writes what the service is told of an answer.
pub fn payload(command: &Correlation, reply: &Reply) -> (result: String)
    ensures
        result@ == payload_of(*command, *reply),
{
    let mut members: Vec<String> = Vec::new();
    assert(text::views(members@) =~= Seq::<Seq<char>>::empty());
    append(&mut members, true, "request_id", &quote(&command.request_id));
    append(&mut members, true, "channel", &quote(&command.channel));
    if let Some(message) = &reply.message {
        append(&mut members, true, "resp_json", message);
    }
    append(&mut members, reply.headers.len() > 0, "resp_headers", &write_headers(&reply.headers));
    append(&mut members, true, "resp_code", &text::decimal(reply.status as u64));
    append(&mut members, true, "resp_type", &quote(&reply.kind));
    object(&members)
}

/// The attributes of the time that a command took.
pub open spec fn latency_of(
    command: Correlation,
    tunnel: Seq<char>,
    status: u16,
    kind: Seq<char>,
) -> Seq<(Seq<char>, Seq<char>)> {
    let base = seq![
        ("channel"@, command.channel@),
        ("tunnel_id"@, tunnel),
        ("tunnel_service_status"@, text::decimal_of(status as nat)),
        ("request_kind"@, command.request_kind@),
    ];
    let named = match command.request_method {
        Some(method) if method@.len() > 0 => base.push(("request_method"@, method@)),
        _ => base,
    };
    named.push(("latency_type"@, kind))
}

/// The attributes of the time that a command took; none before it is answered.
pub fn latency(command: &Correlation, tunnel: &str, status: u16, kind: &str) -> (result: Option<
    Vec<(String, String)>,
>)
    ensures
        match result {
            Some(attributes) => status != 0 && crate::metrics::label_views(attributes@)
                == latency_of(*command, tunnel@, status, kind@),
            None => status == 0,
        },
{
    if status == 0 {
        return None;
    }
    let mut attributes: Vec<(String, String)> = Vec::new();
    attributes.push(("channel".to_owned(), command.channel.clone()));
    attributes.push(("tunnel_id".to_owned(), tunnel.to_owned()));
    attributes.push(("tunnel_service_status".to_owned(), text::decimal(status as u64)));
    attributes.push(("request_kind".to_owned(), command.request_kind.clone()));
    if let Some(method) = &command.request_method {
        if !method.is_empty() {
            attributes.push(("request_method".to_owned(), method.clone()));
        }
    }
    attributes.push(("latency_type".to_owned(), kind.to_owned()));
    assert(crate::metrics::label_views(attributes@) =~= latency_of(
        *command,
        tunnel@,
        status,
        kind@,
    ));
    Some(attributes)
}

/// An answer is delivered with 200 and with 404; 429 is tried again for every answer, and 408, 502, 503 and 504 only
/// for the last one of a request; everything else is given up.
pub proof fn lemma_delivery_next(attempt: int, terminal: bool, status: u16)
    ensures
        status == 200 || status == 404 ==> next_of(attempt, terminal, Attempted::Status(status))
            == Next::Done(status),
        attempt < 2 && status == 429 ==> next_of(attempt, terminal, Attempted::Status(status))
            == Next::Retry,
        attempt < 2 && terminal && (status == 408 || status == 502 || status == 503 || status == 504)
            ==> next_of(attempt, terminal, Attempted::Status(status)) == Next::Retry,
        !terminal && status != 200 && status != 404 && status != 429 ==> next_of(
            attempt,
            terminal,
            Attempted::Status(status),
        ) == Next::GiveUp,
        next_of(attempt, terminal, Attempted::Status(status)) == Next::Retry ==> status == 429 || status
            == 408 || status == 502 || status == 503 || status == 504,
        attempt < 2 && terminal ==> next_of(attempt, terminal, Attempted::TimedOut) == Next::Retry,
        !terminal ==> next_of(attempt, terminal, Attempted::TimedOut) == Next::GiveUp,
        attempt < 2 ==> next_of(attempt, terminal, Attempted::Failed { connecting: true }) == Next::Retry,
        attempt < 2 && terminal ==> next_of(attempt, terminal, Attempted::Failed { connecting: false })
            == Next::Retry,
        !terminal ==> next_of(attempt, terminal, Attempted::Failed { connecting: false })
            == Next::GiveUp,
        next_of(attempt, terminal, Attempted::TimedOut) == Next::Retry ==> attempt < 2,
{
}

/// What the service tells of the companion is read on success, asked for again after 429 and 5xx or where nothing
/// answered, and given up on the third try or after any other refusal.
pub proof fn lemma_companion_asked(attempt: int, status: Option<u16>)
    ensures
        status matches Some(code) ==> (asked_of(attempt, status) == Asked::Read <==> 200 <= code <= 299),
        status is None ==> asked_of(attempt, status) != Asked::Read,
        attempt == 2 ==> asked_of(attempt, status) != Asked::Retry,
        attempt != 2 && status is None ==> asked_of(attempt, status) == Asked::Retry,
        status matches Some(code) ==> (attempt != 2 && (code == 429 || 500 <= code <= 599) ==> asked_of(
            attempt,
            status,
        ) == Asked::Retry),
        status matches Some(code) ==> (asked_of(attempt, status) == Asked::Retry ==> code == 429 || 500
            <= code <= 599),
{
}

/// An answer carries the token of its command, and says that it is JSON and which request it answers unless it says
/// so itself; its other headers stay.
pub proof fn lemma_answer_headers(
    map: Map<Seq<char>, Seq<Seq<u8>>>,
    token: Seq<char>,
    client: Option<Seq<char>>,
    name: Seq<char>,
)
    ensures
        ({
            let sent = answer_headers(map, token, client);
            &&& sent.dom().contains("x-tunnel-shard-token"@)
            &&& sent["x-tunnel-shard-token"@] == seq![vstd::utf8::encode_utf8(token)]
            &&& sent.dom().contains("content-type"@)
            &&& sent["content-type"@] == if map.dom().contains("content-type"@) {
                map["content-type"@]
            } else {
                seq![vstd::utf8::encode_utf8("application/json"@)]
            }
            &&& client matches Some(id) ==> sent.dom().contains("x-client-request-id"@)
                && sent["x-client-request-id"@] == (if map.dom().contains("x-client-request-id"@) {
                map["x-client-request-id"@]
            } else {
                seq![vstd::utf8::encode_utf8(id)]
            })
            &&& map.dom().contains(name) && name != "x-tunnel-shard-token"@ ==> sent.dom().contains(name)
                && sent[name] == map[name]
        }),
{
    reveal_strlit("x-tunnel-shard-token");
    reveal_strlit("content-type");
    reveal_strlit("x-client-request-id");
    assert("x-tunnel-shard-token"@.len() == 20);
    assert("content-type"@.len() == 12);
    assert("x-client-request-id"@.len() == 19);
}

/// A message with an identity is a call and one without it a notification; any other command is its own kind.
pub proof fn lemma_request_kinds(command: Command)
    ensures
        command.command_type@ != "jsonrpc"@ ==> kind_of(command) == command.command_type@,
        command.command_type@ == "jsonrpc"@ && command.jsonrpc is Some && protocol::view_of(
            command.jsonrpc->0@,
        ) is Ok ==> (if protocol::view_of(command.jsonrpc->0@)->Ok_0.id is Some {
            kind_of(command) == "call"@
        } else {
            kind_of(command) == "notification"@
        }),
        command.command_type@ == "jsonrpc"@ && command.jsonrpc is None ==> kind_of(command)
            == "notification"@,
{
}

/// A payload holds the request, the channel, the answer where there is one, its headers where there are some, its
/// status and its kind, in this order.
pub proof fn lemma_payload_holds(command: Correlation, reply: Reply)
    requires
        reply.message is Some,
        reply.headers.keys().len() > 0,
    ensures
        payload_of(command, reply) == object_text(
            seq![
                string_text("request_id"@) + ":"@ + string_text(command.request_id@),
                string_text("channel"@) + ":"@ + string_text(command.channel@),
                string_text("resp_json"@) + ":"@ + reply.message->0@,
                string_text("resp_headers"@) + ":"@ + headers_text(reply.headers),
                string_text("resp_code"@) + ":"@ + text::decimal_of(reply.status as nat),
                string_text("resp_type"@) + ":"@ + string_text(reply.kind@),
            ],
        ),
{
    let all = seq![
        string_text("request_id"@) + ":"@ + string_text(command.request_id@),
        string_text("channel"@) + ":"@ + string_text(command.channel@),
        string_text("resp_json"@) + ":"@ + reply.message->0@,
        string_text("resp_headers"@) + ":"@ + headers_text(reply.headers),
        string_text("resp_code"@) + ":"@ + text::decimal_of(reply.status as nat),
        string_text("resp_type"@) + ":"@ + string_text(reply.kind@),
    ];
    let made = with_member(
        with_member(
            with_member(
                with_member(
                    with_member(
                        with_member(
                            Seq::empty(),
                            true,
                            "request_id"@,
                            string_text(command.request_id@),
                        ),
                        true,
                        "channel"@,
                        string_text(command.channel@),
                    ),
                    true,
                    "resp_json"@,
                    reply.message->0@,
                ),
                true,
                "resp_headers"@,
                headers_text(reply.headers),
            ),
            true,
            "resp_code"@,
            text::decimal_of(reply.status as nat),
        ),
        true,
        "resp_type"@,
        string_text(reply.kind@),
    );
    assert(made =~= all);
}

/// The request that a caller names is the first value of the header for it.
pub proof fn lemma_request_named(keys: Seq<Seq<char>>, values: Seq<Vec<String>>, from: int, at: int)
    requires
        0 <= from <= at < keys.len(),
        keys.len() == values.len(),
        text::lowercase_of(keys[at]) == text::lowercase_of("x-request-id"@),
        forall|i: int|
            from <= i < at ==> text::lowercase_of(#[trigger] keys[i]) != text::lowercase_of("x-request-id"@),
    ensures
        values[at]@.len() > 0 && values[at]@[0]@.len() > 0 ==> client_id_from(keys, values, from) == Some(
            values[at]@[0]@,
        ),
        values[at]@.len() == 0 ==> client_id_from(keys, values, from) is None,
    decreases at - from,
{
    if from < at {
        assert(text::lowercase_of(keys[from]) != text::lowercase_of("x-request-id"@));
        lemma_request_named(keys, values, from + 1, at);
    }
}

/// How long a command took is told by its channel, its tunnel, the status, its kind and its method.
pub proof fn lemma_latency_labels(command: Correlation, tunnel: Seq<char>, status: u16, kind: Seq<char>)
    ensures
        ({
            let labels = latency_of(command, tunnel, status, kind);
            &&& labels[0] == ("channel"@, command.channel@)
            &&& labels[1] == ("tunnel_id"@, tunnel)
            &&& labels[2] == ("tunnel_service_status"@, text::decimal_of(status as nat))
            &&& labels[3] == ("request_kind"@, command.request_kind@)
            &&& labels.last() == ("latency_type"@, kind)
            &&& command.request_method is None ==> labels.len() == 5
            &&& command.request_method matches Some(method) ==> (method@.len() > 0 ==> labels[4] == (
                "request_method"@,
                method@,
            ))
        }),
{
}

/// A connector is told where a token and a tunnel with its identity, its name and its account are, none of them blank.
pub proof fn lemma_connector_told(payload: Doc, value: Seq<char>)
    ensures
        is_connector(payload) ==> is_filled(payload.at("runtime_token"@)) && is_filled(
            payload.at("cloudflare_tunnel"@).at("tunnel_id"@),
        ) && is_filled(payload.at("cloudflare_tunnel"@).at("name"@)) && is_filled(
            payload.at("cloudflare_tunnel"@).at("account_id"@),
        ),
        is_filled(Doc::Text(value)) <==> text::trim_of(value).len() > 0,
        !is_filled(Doc::Null),
{
}

} // verus!
