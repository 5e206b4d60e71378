//! What a runtime does with a request of the service.

use vstd::prelude::*;
use crate::checks::{either, fault_from, first_fault, tells, unless};
use crate::config::values::{self, channel_of};
use crate::control::client::{channel_views, Channel, ChannelView};
use crate::header;
use crate::json::assembly::{append, object, object_text, quote, string_text, with_member};
use crate::json::{self, parsed_json, Doc, Json};
use crate::protocol::{self, error_text, sent_headers, view_of, Command, Reply};
use crate::text;

verus! {

/// A channel that can be used.
pub struct Binding {
    pub name: String,
    pub available: bool,
    pub stateless: bool,
    pub affinity: bool,
}

/// Why a channel cannot be bound, if so: its name is none, or the channel is bound already.
pub open spec fn bind_fault(bound: Seq<Seq<char>>, name: Seq<char>) -> Option<Seq<char>> {
    match channel_of(name) {
        Ok(channel) => unless(!bound.contains(channel), "duplicate channel "@ + channel),
        Err(reason) => Some(reason),
    }
}

/// The channel to which something is bound under a name, beside those that are bound already.
pub fn bind(bound: &Vec<String>, name: &str) -> (result: Result<String, String>)
    ensures
        match result {
            Ok(channel) => channel_of(name@) == Ok::<Seq<char>, Seq<char>>(channel@)
                && !text::views(bound@).contains(channel@),
            Err(reason) => bind_fault(text::views(bound@), name@) == Some(reason@),
        },
{
    match values::channel(name) {
        Ok(channel) => if text::contained(bound, &channel) {
            Err(text::cat("duplicate channel ", &channel))
        } else {
            Ok(channel)
        },
        Err(reason) => Err(reason),
    }
}

/// The channels that the service is told of: those that are available.
pub open spec fn channels_of(bindings: Seq<Binding>) -> Seq<ChannelView>
    decreases bindings.len(),
{
    if bindings.len() == 0 {
        Seq::empty()
    } else {
        let rest = channels_of(bindings.drop_last());
        let last = bindings.last();
        if last.available {
            rest.push(
                ChannelView {
                    name: last.name@,
                    stateless: last.stateless,
                    proc_affinity: last.affinity,
                },
            )
        } else {
            rest
        }
    }
}

/// The channels that the service is told of.
pub fn channels(bindings: &Vec<Binding>) -> (result: Vec<Channel>)
    ensures
        channel_views(result@) == channels_of(bindings@),
{
    let mut result: Vec<Channel> = Vec::new();
    let mut index: usize = 0;
    assert(channel_views(result@) =~= Seq::<ChannelView>::empty());
    while index < bindings.len()
        invariant
            index <= bindings.len(),
            channel_views(result@) == channels_of(bindings@.take(index as int)),
        decreases bindings.len() - index,
    {
        let binding = &bindings[index];
        proof {
            assert(bindings@.take(index + 1).drop_last() == bindings@.take(index as int));
            assert(bindings@.take(index + 1).last() == bindings@[index as int]);
        }
        if binding.available {
            let channel = Channel {
                name: binding.name.clone(),
                stateless: binding.stateless,
                proc_affinity: binding.affinity,
            };
            assert(channel_views(result@.push(channel)) =~= channel_views(result@).push(channel@));
            result.push(channel);
        }
        index = index + 1;
    }
    assert(bindings@.take(bindings@.len() as int) == bindings@);
    result
}

/// The names of bindings.
pub open spec fn binding_names(bindings: Seq<Binding>) -> Seq<Seq<char>> {
    bindings.map_values(|binding: Binding| binding.name@)
}

fn bound(bindings: &Vec<Binding>, name: &str) -> (result: bool)
    ensures
        result == binding_names(bindings@).contains(name@),
{
    let ghost names = binding_names(bindings@);
    let mut index: usize = 0;
    while index < bindings.len()
        invariant
            index <= bindings.len(),
            names == binding_names(bindings@),
            forall|i: int| 0 <= i < index ==> #[trigger] names[i] != name@,
        decreases bindings.len() - index,
    {
        assert(names[index as int] == bindings@[index as int].name@);
        if text::same(&bindings[index].name, name) {
            return true;
        }
        index = index + 1;
    }
    false
}

/// Why a polled channel cannot be used, if so.
pub open spec fn polled_fault(bindings: Seq<Binding>, channel: Seq<char>) -> Option<Seq<char>> {
    unless(
        binding_names(bindings).contains(channel),
        "channel "@ + channel + " has no binding"@,
    )
}

/// Why a runtime cannot start with its channels, if so: none is available, the main one is missing, or
/// a polled one is.
pub open spec fn bindings_fault(bindings: Seq<Binding>, polled: Option<Vec<String>>) -> Option<Seq<char>> {
    either(
        unless(
            exists|i: int| 0 <= i < bindings.len() && (#[trigger] bindings[i]).available,
            "no MCP channels configured"@,
        ),
        match polled {
            None => unless(
                binding_names(bindings).contains("main"@),
                "main channel is required; set --mcp.server-url or --mcp.command"@,
            ),
            Some(channels) => first_fault(
                channels@.len() as int,
                |i: int| polled_fault(bindings, channels@[i]@),
            ),
        },
    )
}

/// Checks that a runtime can start with its channels.
pub fn check_bindings(bindings: &Vec<Binding>, polled: &Option<Vec<String>>) -> (result: Result<
    (),
    String,
>)
    ensures
        tells(result, bindings_fault(bindings@, *polled)),
{
    let mut available = false;
    let mut index: usize = 0;
    while index < bindings.len()
        invariant
            index <= bindings.len(),
            available == exists|i: int|
                0 <= i < index && (#[trigger] bindings@[i]).available,
        decreases bindings.len() - index,
    {
        assert(bindings@[index as int].available == bindings[index as int].available);
        available = available || bindings[index].available;
        index = index + 1;
    }
    if !available {
        return Err("no MCP channels configured".to_owned());
    }
    match polled {
        None => {
            if !bound(bindings, "main") {
                return Err(
                    "main channel is required; set --mcp.server-url or --mcp.command".to_owned(),
                );
            }
            Ok(())
        },
        Some(channels) => check_polled(bindings, channels),
    }
}

fn check_polled(bindings: &Vec<Binding>, channels: &Vec<String>) -> (result: Result<(), String>)
    ensures
        tells(
            result,
            first_fault(
                channels@.len() as int,
                |i: int| polled_fault(bindings@, channels@[i]@),
            ),
        ),
{
    let ghost fault = |i: int| polled_fault(bindings@, channels@[i]@);
    let mut next: usize = 0;
    while next < channels.len()
        invariant
            next <= channels.len(),
            fault == (|i: int| polled_fault(bindings@, channels@[i]@)),
            first_fault(channels@.len() as int, fault) == fault_from(
                next as int,
                channels@.len() as int,
                fault,
            ),
        decreases channels.len() - next,
    {
        assert(fault(next as int) == polled_fault(bindings@, channels@[next as int]@));
        if !bound(bindings, &channels[next]) {
            return Err(text::cat3("channel ", &channels[next], " has no binding"));
        }
        next = next + 1;
    }
    Ok(())
}

/// What is done with a request of the service.
pub enum Plan {
    /// The request is of a kind that is not known.
    Ignore,
    /// The request is refused with an answer, and its failure is noted.
    Refuse { reply: Reply, message: String },
    /// The message of the request is passed on.
    Forward { message: String, headers: header::Headers },
    /// The session of the request is ended.
    Terminate(header::Headers),
    /// The OAuth metadata is looked up.
    Discover,
}

/// Whether a request is of a kind that is known.
pub open spec fn is_known(kind: Seq<char>) -> bool {
    kind == "jsonrpc"@ || kind == "session_termination"@ || kind == "oauth_discovery"@
}

/// Why a channel is refused.
pub open spec fn unsupported_of(channel: Seq<char>) -> Seq<char> {
    "unsupported channel "@ + text::debug_text(channel)
}

/// The text of the refusal of a search for OAuth metadata.
pub open spec fn refused_discovery(message: Seq<char>) -> Seq<char> {
    object_text(
        with_member(
            Seq::empty(),
            true,
            "error"@,
            object_text(
                with_member(
                    with_member(
                        with_member(
                            Seq::empty(),
                            true,
                            "code"@,
                            string_text("unsupported_channel"@),
                        ),
                        true,
                        "message"@,
                        string_text(message),
                    ),
                    true,
                    "type"@,
                    string_text("invalid_request_error"@),
                ),
            ),
        ),
    )
}

/// Whether this is the refusal of a request.
pub open spec fn is_refusal(reply: Reply, command: Command) -> bool {
    let message = unsupported_of(command.channel@);
    &&& reply.status == 400
    &&& reply.headers.keys().len() == 0
    &&& if command.command_type@ == "jsonrpc"@ {
        &&& reply.kind@ == "jsonrpc_response"@
        &&& command.jsonrpc is Some
        &&& view_of(command.jsonrpc->0@) is Ok
        &&& text::view_of(reply.message) == Some(
            error_text(
                identity_doc(view_of(command.jsonrpc->0@)->Ok_0.id),
                -32603,
                "Bad Request: "@ + message,
            ),
        )
    } else if command.command_type@ == "oauth_discovery"@ {
        reply.kind@ == "oauth_discovery_response"@ && text::view_of(reply.message) == Some(
            refused_discovery(message),
        )
    } else {
        reply.kind@ == "session_termination_response"@ && reply.message is None
    }
}

/// The identity of a message, or null.
pub open spec fn identity_doc(id: Option<Seq<char>>) -> Doc {
    match id {
        Some(raw) => match parsed_json(raw) {
            Some(doc) => doc,
            None => Doc::Null,
        },
        None => Doc::Null,
    }
}

fn refuse_message(raw: &str, message: &str) -> (result: Result<String, String>)
    ensures
        match (result, view_of(raw@)) {
            (Ok(value), Ok(envelope)) => value@ == error_text(
                identity_doc(envelope.id),
                -32603,
                "Bad Request: "@ + message@,
            ),
            (Err(reason), Err(expected)) => reason@ == expected,
            _ => false,
        },
{
    let envelope = match protocol::view(raw) {
        Ok(envelope) => envelope,
        Err(reason) => {
            return Err(reason);
        },
    };
    let id = match envelope.id {
        Some(id) => match json::compact(&id) {
            Some(id) => id,
            None => json::write(Json::Null),
        },
        None => json::write(Json::Null),
    };
    let mut inner: Vec<String> = Vec::new();
    assert(text::views(inner@) == Seq::<Seq<char>>::empty());
    append(&mut inner, true, "code", &text::signed(-32603));
    append(&mut inner, true, "message", &quote(&text::cat("Bad Request: ", message)));
    let mut members: Vec<String> = Vec::new();
    assert(text::views(members@) == Seq::<Seq<char>>::empty());
    append(&mut members, true, "error", &object(&inner));
    append(&mut members, true, "id", &id);
    append(&mut members, true, "jsonrpc", &quote("2.0"));
    Ok(object(&members))
}

fn refuse_discovery(message: &str) -> (result: String)
    ensures
        result@ == refused_discovery(message@),
{
    let mut inner: Vec<String> = Vec::new();
    assert(text::views(inner@) == Seq::<Seq<char>>::empty());
    append(&mut inner, true, "code", &quote("unsupported_channel"));
    append(&mut inner, true, "message", &quote(message));
    append(&mut inner, true, "type", &quote("invalid_request_error"));
    let mut members: Vec<String> = Vec::new();
    assert(text::views(members@) == Seq::<Seq<char>>::empty());
    append(&mut members, true, "error", &object(&inner));
    object(&members)
}

/// Whether a channel takes a request: it is available, and OAuth metadata is that of the main one.
pub open spec fn takes(command: Command, available: bool) -> bool {
    available && (command.command_type@ != "oauth_discovery"@ || command.channel@ == "main"@)
}

/// Whether this is what is done with a request.
pub open spec fn is_plan(plan: Plan, command: Command, available: bool) -> bool {
    let kind = command.command_type@;
    if !is_known(kind) {
        plan is Ignore
    } else if !takes(command, available) {
        plan matches Plan::Refuse { reply, message } && is_refusal(reply, command) && message@
            == unsupported_of(command.channel@)
    } else if kind == "jsonrpc"@ {
        plan matches Plan::Forward { message, headers } && text::view_of(command.jsonrpc) == Some(
            message@,
        ) && is_sent(headers, command)
    } else if kind == "session_termination"@ {
        plan matches Plan::Terminate(headers) && is_sent(headers, command)
    } else {
        plan is Discover
    }
}

/// Whether the headers are those of a request.
pub open spec fn is_sent(headers: header::Headers, command: Command) -> bool {
    sent_headers(
        command.headers.keys(),
        command.headers.values(),
        command.headers.keys().len() as int,
    ) == Ok::<Map<Seq<char>, Seq<Seq<u8>>>, Seq<char>>(header::header_entries(headers))
}

/// Why nothing can be done with a request, if so.
pub open spec fn plan_fault(command: Command, available: bool) -> Option<Seq<char>> {
    if !is_known(command.command_type@) {
        None
    } else {
        match sent_headers(
            command.headers.keys(),
            command.headers.values(),
            command.headers.keys().len() as int,
        ) {
            Err(reason) => Some(reason),
            Ok(_) => if command.command_type@ != "jsonrpc"@ {
                None
            } else {
                match command.jsonrpc {
                    None => Some("JSON-RPC command has no payload"@),
                    Some(raw) => if takes(command, available) {
                        None
                    } else {
                        match view_of(raw@) {
                            Err(reason) => Some(reason),
                            Ok(_) => None,
                        }
                    },
                }
            },
        }
    }
}

/// Decides what is done with a request of the service.
pub fn plan(command: &Command, available: bool) -> (result: Result<Plan, String>)
    requires
        command.headers.keys().len() < header::ROOM,
    ensures
        match result {
            Ok(plan) => plan_fault(*command, available) is None && is_plan(
                plan,
                *command,
                available,
            ),
            Err(reason) => plan_fault(*command, available) == Some(reason@),
        },
{
    let kind = &command.command_type;
    let rpc = text::same(kind, "jsonrpc");
    let search = text::same(kind, "oauth_discovery");
    let end = text::same(kind, "session_termination");
    proof {
        reveal_strlit("jsonrpc");
        reveal_strlit("oauth_discovery");
        reveal_strlit("session_termination");
        assert("jsonrpc"@.len() == 7);
        assert("oauth_discovery"@.len() == 15);
        assert("session_termination"@.len() == 19);
    }
    if !rpc && !search && !end {
        return Ok(Plan::Ignore);
    }
    let headers = match protocol::header_map(&command.headers) {
        Ok(headers) => headers,
        Err(reason) => {
            return Err(reason);
        },
    };
    let taken = available && (!search || text::same(&command.channel, "main"));
    if taken {
        if rpc {
            return match &command.jsonrpc {
                Some(message) => Ok(Plan::Forward { message: message.clone(), headers }),
                None => Err("JSON-RPC command has no payload".to_owned()),
            };
        }
        if end {
            return Ok(Plan::Terminate(headers));
        }
        return Ok(Plan::Discover);
    }
    let message = text::cat("unsupported channel ", &text::quoted(&command.channel));
    let mut reply = Reply::ack(400, "session_termination_response");
    if rpc {
        let raw = match &command.jsonrpc {
            Some(raw) => raw,
            None => {
                return Err("JSON-RPC command has no payload".to_owned());
            },
        };
        match refuse_message(raw, &message) {
            Ok(value) => {
                reply.message = Some(value);
                reply.kind = "jsonrpc_response".to_owned();
            },
            Err(reason) => {
                return Err(reason);
            },
        }
    } else if search {
        reply.message = Some(refuse_discovery(&message));
        reply.kind = "oauth_discovery_response".to_owned();
    }
    Ok(Plan::Refuse { reply, message })
}

/// The kind of the answer to a request that is no message.
pub open spec fn answer_kind(command_type: Seq<char>) -> Seq<char> {
    if command_type == "session_termination"@ {
        "session_termination_response"@
    } else {
        "oauth_discovery_response"@
    }
}

/// The answer to a request that failed and is no message.
pub fn failed(command_type: &str, error: &str) -> (result: Reply)
    ensures
        result.status == 502,
        result.kind@ == answer_kind(command_type@),
        result.headers.keys().len() == 0,
        text::view_of(result.message) == Some(
            object_text(with_member(Seq::empty(), true, "error"@, string_text(error@))),
        ),
{
    let kind = if text::same(command_type, "session_termination") {
        "session_termination_response"
    } else {
        "oauth_discovery_response"
    };
    let mut members: Vec<String> = Vec::new();
    assert(text::views(members@) == Seq::<Seq<char>>::empty());
    append(&mut members, true, "error", &quote(error));
    let mut reply = Reply::ack(502, kind);
    reply.message = Some(object(&members));
    reply
}

/// A known command is forwarded, ends a session or asks for the authorization where its channel is there; else it is
/// refused, and an unknown command is ignored. Only the main channel answers for the authorization.
pub proof fn lemma_command_planned(plan: Plan, command: Command, available: bool)
    requires
        is_plan(plan, command, available),
    ensures
        plan is Ignore <==> command.command_type@ != "jsonrpc"@ && command.command_type@
            != "session_termination"@ && command.command_type@ != "oauth_discovery"@,
        !(plan is Ignore) && !available ==> plan is Refuse,
        available && command.command_type@ == "jsonrpc"@ ==> (plan matches Plan::Forward { message, headers }
            && command.jsonrpc is Some && message@ == command.jsonrpc->0@),
        available && command.command_type@ == "session_termination"@ ==> plan is Terminate,
        available && command.command_type@ == "oauth_discovery"@ && command.channel@ == "main"@ ==> plan
            is Discover,
        command.command_type@ == "oauth_discovery"@ && command.channel@ != "main"@ ==> plan is Refuse,
        plan matches Plan::Refuse { reply, message } ==> reply.status == 400 && message@
            == "unsupported channel "@ + text::debug_text(command.channel@),
{
    reveal_strlit("jsonrpc");
    reveal_strlit("session_termination");
    reveal_strlit("oauth_discovery");
    assert("jsonrpc"@.len() == 7);
    assert("session_termination"@.len() == 19);
    assert("oauth_discovery"@.len() == 15);
}

/// A refusal has the kind of its command: an error with the identity of a message, a description of the error for the
/// authorization, and no message for the end of a session.
pub proof fn lemma_refusal_kinds(reply: Reply, command: Command)
    requires
        is_refusal(reply, command),
    ensures
        reply.status == 400,
        command.command_type@ == "jsonrpc"@ ==> reply.kind@ == "jsonrpc_response"@ && reply.message is Some,
        command.command_type@ == "oauth_discovery"@ ==> reply.kind@ == "oauth_discovery_response"@
            && reply.message is Some,
        command.command_type@ == "session_termination"@ ==> reply.kind@ == "session_termination_response"@
            && reply.message is None,
        answer_kind("session_termination"@) == "session_termination_response"@,
        answer_kind("oauth_discovery"@) == "oauth_discovery_response"@,
{
    reveal_strlit("jsonrpc");
    reveal_strlit("session_termination");
    reveal_strlit("oauth_discovery");
    assert("jsonrpc"@.len() == 7);
    assert("session_termination"@.len() == 19);
    assert("oauth_discovery"@.len() == 15);
}

/// A runtime needs a channel that is there; without a list of polled channels that is the main one, and with a list
/// every one of them is bound.
pub proof fn lemma_bindings_needed(bindings: Seq<Binding>, polled: Option<Vec<String>>, at: int)
    requires
        bindings_fault(bindings, polled) is None,
    ensures
        exists|i: int| 0 <= i < bindings.len() && (#[trigger] bindings[i]).available,
        polled is None ==> exists|i: int| 0 <= i < bindings.len() && (#[trigger] bindings[i]).name@ == "main"@,
        polled matches Some(channels) ==> (0 <= at < channels@.len() ==> exists|i: int|
            0 <= i < bindings.len() && (#[trigger] bindings[i]).name@ == channels@[at]@),
{
    let names = binding_names(bindings);
    if polled is None {
        let i = choose|i: int| 0 <= i < names.len() && names[i] == "main"@;
        assert(bindings[i].name@ == "main"@);
    } else {
        let channels = polled->0;
        let faults = |i: int| polled_fault(bindings, channels@[i]@);
        crate::checks::lemma_first_fault(0, channels@.len() as int, faults);
        if 0 <= at < channels@.len() {
            assert(faults(at) is None);
            let i = choose|i: int| 0 <= i < names.len() && names[i] == channels@[at]@;
            assert(bindings[i].name@ == channels@[at]@);
        }
    }
}

/// The service is told of every channel that is there, with what holds of it, and of no other.
pub proof fn lemma_channels_told(bindings: Seq<Binding>, at: int)
    ensures
        0 <= at < bindings.len() && bindings[at].available ==> channels_of(bindings).contains(
            ChannelView {
                name: bindings[at].name@,
                stateless: bindings[at].stateless,
                proc_affinity: bindings[at].affinity,
            },
        ),
        channels_of(bindings).len() <= bindings.len(),
        0 <= at < channels_of(bindings).len() ==> exists|i: int|
            0 <= i < bindings.len() && (#[trigger] bindings[i]).available && bindings[i].name@
                == channels_of(bindings)[at].name,
    decreases bindings.len(),
{
    if bindings.len() > 0 {
        let front = bindings.drop_last();
        let rest = channels_of(front);
        let all = channels_of(bindings);
        lemma_channels_told(front, at);
        if 0 <= at < bindings.len() && bindings[at].available {
            let own = ChannelView {
                name: bindings[at].name@,
                stateless: bindings[at].stateless,
                proc_affinity: bindings[at].affinity,
            };
            if at < front.len() {
                assert(front[at] == bindings[at]);
                let i = choose|i: int| 0 <= i < rest.len() && rest[i] == own;
                assert(all[i] == own);
            } else {
                assert(all.last() == own);
            }
        }
        if 0 <= at < all.len() {
            if at < rest.len() {
                let i = choose|i: int|
                    0 <= i < front.len() && (#[trigger] front[i]).available && front[i].name@
                        == rest[at].name;
                assert(bindings[i] == front[i]);
            } else {
                assert(bindings[bindings.len() - 1].available);
            }
        }
    }
}

/// A channel is bound once, under its normalized name.
pub proof fn lemma_bound_once(bound: Seq<Seq<char>>, name: Seq<char>)
    ensures
        bind_fault(bound, name) is None <==> channel_of(name) is Ok && !bound.contains(
            channel_of(name)->Ok_0,
        ),
{
}

/// Which reason a command is refused for.
pub proof fn lemma_command_reasons(command: Command, available: bool, channel: Seq<char>)
    ensures
        command.command_type@ != "jsonrpc"@ && command.command_type@ != "session_termination"@
            && command.command_type@ != "oauth_discovery"@ ==> plan_fault(command, available) is None,
        command.command_type@ == "jsonrpc"@ && command.jsonrpc is None && sent_headers(
            command.headers.keys(),
            command.headers.values(),
            command.headers.keys().len() as int,
        ) is Ok ==> plan_fault(command, available) == Some("JSON-RPC command has no payload"@),
        unsupported_of(channel) == "unsupported channel "@ + text::debug_text(channel),
        answer_kind("session_termination"@) == "session_termination_response"@,
        answer_kind("oauth_discovery"@) == "oauth_discovery_response"@,
        refused_discovery(channel) == object_text(
            Seq::empty().push(
                crate::json::assembly::member_text(
                    "error"@,
                    object_text(
                        Seq::empty().push(
                            crate::json::assembly::member_text("code"@, string_text("unsupported_channel"@)),
                        ).push(crate::json::assembly::member_text("message"@, string_text(channel))).push(
                            crate::json::assembly::member_text("type"@, string_text("invalid_request_error"@)),
                        ),
                    ),
                ),
            ),
        ),
{
    reveal_strlit("session_termination");
    reveal_strlit("oauth_discovery");
    reveal_strlit("jsonrpc");
    assert("session_termination"@.len() == 19);
    assert("oauth_discovery"@.len() == 15);
    assert("jsonrpc"@.len() == 7);
}

} // verus!
