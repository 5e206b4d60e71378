//! The messages to which the caller of targets answers.

use vstd::prelude::*;
use crate::control::client::VERSION;
use crate::harpoon::registry::{Harpoon, Target};
use crate::harpoon::schema;
use crate::harpoon::targets::info_doc;
use crate::json::assembly::{quote, string_text};
use crate::json::{self, json_text, parsed_json, Doc, Json};
use crate::protocol::{self, raw_member, view_of, Reply, Request, MCP_VERSION};
use crate::template::policy::{encode, encoded_of};
use crate::text;

verus! {

/// What is to be done about a message.
pub enum Step {
    /// The message is answered.
    Answer(Reply),
    /// A tool is called.
    Tool { name: String, arguments: String },
}

/// Who answers.
pub open spec fn identity_doc() -> Doc {
    Doc::object().with("name"@, Doc::Text("harpoon"@)).with(
        "title"@,
        Doc::Text("Harpoon (Constrained HTTP Client)"@),
    ).with("version"@, Doc::Text(VERSION@))
}

fn identity() -> (result: Json)
    ensures
        result.doc() == identity_doc(),
{
    Json::object().with("name", Json::text("harpoon")).with(
        "title",
        Json::text("Harpoon (Constrained HTTP Client)"),
    ).with("version", Json::text(VERSION))
}

/// What can be done here.
pub open spec fn capabilities_doc() -> Doc {
    Doc::object().with("tools"@, Doc::object())
}

fn capabilities() -> (result: Json)
    ensures
        result.doc() == capabilities_doc(),
{
    Json::object().with("tools", Json::object())
}

/// Whether a message is of a version without a session.
pub open spec fn is_modern(version: Option<Seq<char>>) -> bool {
    match version {
        Some(value) => !text::precedes(value, MCP_VERSION@),
        None => false,
    }
}

/// Whether a message is of a version without a session.
pub fn modern(version: Option<&str>) -> (result: bool)
    ensures
        result == is_modern(text::str_view(version)),
{
    match version {
        Some(value) => !text::before(value, MCP_VERSION),
        None => false,
    }
}

/// The version that a message asks for.
pub open spec fn requested_of(message: Seq<char>) -> Seq<char> {
    match protocol::member_at(message, seq!["params"@, "protocolVersion"@]) {
        Some(raw) => match parsed_json(raw) {
            Some(Doc::Text(value)) => value,
            _ => Seq::empty(),
        },
        None => Seq::empty(),
    }
}

fn requested(message: &str) -> (result: String)
    ensures
        result@ == requested_of(message@),
{
    proof {
        let keys = seq!["params"@, "protocolVersion"@];
        assert(keys.skip(1) =~= seq!["protocolVersion"@]);
        assert(keys.skip(1).skip(1) =~= Seq::<Seq<char>>::empty());
        reveal_with_fuel(protocol::member_at, 3);
    }
    if let Some(params) = protocol::field(message, "params") {
        if let Some(raw) = protocol::field(&params, "protocolVersion") {
            if let Some(Json::Text(value)) = json::parse(&raw) {
                return value;
            }
        }
    }
    String::new()
}

/// The version with which a session starts: the one that is asked for, where it has sessions and is
/// known, or the last one that has.
pub open spec fn agreed(requested: Seq<char>, supported: Seq<Seq<char>>) -> Seq<char> {
    if text::precedes(requested, MCP_VERSION@) && supported.contains(requested) {
        requested
    } else {
        "2025-11-25"@
    }
}

impl Harpoon {
    /// What can be found out of this side.
    pub open spec fn discover_doc(self, supported: Seq<Seq<char>>) -> Doc {
        Doc::object().with("supportedVersions"@, json::texts(supported)).with(
            "capabilities"@,
            capabilities_doc(),
        ).with("instructions"@, Doc::Text(self.instructions_of())).with(
            "ttlMs"@,
            Doc::number(0),
        ).with("cacheScope"@, Doc::Text("public"@))
    }

    /// With what a session starts.
    pub open spec fn initialize_doc(self, version: Seq<char>) -> Doc {
        Doc::object().with("protocolVersion"@, Doc::Text(version)).with(
            "serverInfo"@,
            identity_doc(),
        ).with("capabilities"@, capabilities_doc()).with(
            "instructions"@,
            Doc::Text(self.instructions_of()),
        )
    }

    /// The result of a message that needs no tool, by its method.
    pub open spec fn result_of(
        self,
        method: Seq<char>,
        message: Seq<char>,
        modern: bool,
        supported: Seq<Seq<char>>,
    ) -> Option<Doc> {
        if method == "server/discover"@ {
            Some(self.discover_doc(supported))
        } else if method == "initialize"@ {
            Some(self.initialize_doc(agreed(requested_of(message), supported)))
        } else if method == "ping"@ && !modern {
            Some(Doc::object())
        } else if method == "tools/list"@ {
            Some(
                schema::tools_doc(
                    self.response_limit_of(),
                    self.config.max_redirects,
                    self.templated(),
                ),
            )
        } else {
            None
        }
    }

    fn plain_result(
        &self,
        method: &str,
        message: &str,
        modern: bool,
        supported: &Vec<String>,
    ) -> (result: Option<Json>)
        ensures
            match (
                result,
                self.result_of(method@, message@, modern, text::views(supported@)),
            ) {
                (Some(value), Some(doc)) => value.doc() == doc,
                (None, None) => true,
                _ => false,
            },
    {
        if text::same(method, "server/discover") {
            Some(
                Json::object().with("supportedVersions", Json::texts(supported)).with(
                    "capabilities",
                    capabilities(),
                ).with("instructions", Json::text(self.instructions())).with(
                    "ttlMs",
                    Json::number(0),
                ).with("cacheScope", Json::text("public")),
            )
        } else if text::same(method, "initialize") {
            let asked = requested(message);
            let version = if text::before(&asked, MCP_VERSION) && text::contained(
                supported,
                &asked,
            ) {
                asked
            } else {
                "2025-11-25".to_owned()
            };
            Some(
                Json::object().with("protocolVersion", Json::text(&version)).with(
                    "serverInfo",
                    identity(),
                ).with("capabilities", capabilities()).with(
                    "instructions",
                    Json::text(self.instructions()),
                ),
            )
        } else if text::same(method, "ping") && !modern {
            Some(Json::object())
        } else if text::same(method, "tools/list") {
            Some(self.tools())
        } else {
            None
        }
    }
}

/// A result as it is told: of a version without a session also that it is complete, and who answers.
pub open spec fn told(doc: Doc, modern: bool) -> Doc {
    doc.with_if(modern, "resultType"@, Doc::Text("complete"@)).with_if(
        modern,
        "_meta"@,
        Doc::object().with("io.modelcontextprotocol/serverInfo"@, identity_doc()),
    )
}

/// Whether a reply carries the result of a message.
pub open spec fn carries(reply: Reply, message: Seq<char>, doc: Doc, modern: bool) -> bool {
    match view_of(message) {
        Ok(envelope) => envelope.id is Some && parsed_json(envelope.id->0) is Some
            && reply.is_json(
            protocol::result_text(parsed_json(envelope.id->0)->0, told(doc, modern)),
            200,
        ),
        Err(_) => false,
    }
}

/// Whether the identity of a message can be told.
pub open spec fn is_identified(message: Seq<char>) -> bool {
    match view_of(message) {
        Ok(envelope) => envelope.id is Some && parsed_json(envelope.id->0) is Some,
        Err(_) => false,
    }
}

/// Answers a message with a result.
pub fn conclude(request: &Request, value: Json, modern: bool) -> (result: Result<Reply, String>)
    ensures
        match result {
            Ok(reply) => carries(reply, request.message@, value.doc(), modern),
            Err(_) => !is_identified(request.message@),
        },
{
    let value = value.with_if(modern, "resultType", Json::text("complete")).with_if(
        modern,
        "_meta",
        Json::object().with("io.modelcontextprotocol/serverInfo", identity()),
    );
    protocol::respond(request, value)
}

/// Whether a reply tells of an error about a message.
pub open spec fn reports(reply: Reply, message: Seq<char>, code: int, reason: Seq<char>) -> bool {
    match view_of(message) {
        Ok(envelope) => envelope.id is Some && parsed_json(envelope.id->0) is Some
            && reply.is_json(
            protocol::error_text(parsed_json(envelope.id->0)->0, code, reason),
            200,
        ),
        Err(_) => false,
    }
}

/// The name of the tool that a message calls, or why there is none.
pub open spec fn tool_of(message: Seq<char>) -> Result<(Seq<char>, Seq<char>), Seq<char>> {
    match raw_member(message, "params"@) {
        None => Err("tools/call has no parameters"@),
        Some(params) => match raw_member(params, "name"@) {
            None => Err("tool name is missing"@),
            Some(raw) => match parsed_json(raw) {
                Some(Doc::Text(name)) => Ok(
                    (
                        name,
                        match raw_member(params, "arguments"@) {
                            Some(arguments) => arguments,
                            None => "{}"@,
                        },
                    ),
                ),
                _ => Err("invalid type for tool name, expected a string"@),
            },
        },
    }
}

fn tool(message: &str) -> (result: Result<(String, String), String>)
    ensures
        match (result, tool_of(message@)) {
            (Ok((name, arguments)), Ok((expected, given))) => name@ == expected && arguments@
                == given,
            (Err(reason), Err(expected)) => reason@ == expected,
            _ => false,
        },
{
    let params = match protocol::field(message, "params") {
        Some(params) => params,
        None => {
            return Err("tools/call has no parameters".to_owned());
        },
    };
    let raw = match protocol::field(&params, "name") {
        Some(raw) => raw,
        None => {
            return Err("tool name is missing".to_owned());
        },
    };
    match json::parse(&raw) {
        Some(Json::Text(name)) => {
            let arguments = match protocol::field(&params, "arguments") {
                Some(arguments) => arguments,
                None => "{}".to_owned(),
            };
            Ok((name, arguments))
        },
        _ => Err("invalid type for tool name, expected a string".to_owned()),
    }
}

impl Harpoon {
    /// Whether this is what is to be done about a message.
    pub open spec fn does(
        self,
        step: Step,
        message: Seq<char>,
        fault: Option<Seq<char>>,
        version: Option<Seq<char>>,
        supported: Seq<Seq<char>>,
    ) -> bool {
        match view_of(message) {
            Err(_) => false,
            Ok(envelope) => match (envelope.id, fault, envelope.method) {
                (None, _, _) => step matches Step::Answer(reply) && reply.is_ack(
                    202,
                    "notify_ack"@,
                ),
                (Some(_), Some(reason), _) => step matches Step::Answer(reply) && reports(
                    reply,
                    message,
                    -32602,
                    reason,
                ),
                (Some(_), None, None) => step matches Step::Answer(reply) && reports(
                    reply,
                    message,
                    -32601,
                    "Method not found"@,
                ),
                (Some(_), None, Some(method)) => {
                    let modern = is_modern(version);
                    match self.result_of(method, message, modern, supported) {
                        Some(doc) => step matches Step::Answer(reply) && carries(
                            reply,
                            message,
                            doc,
                            modern,
                        ),
                        None => if method == "tools/call"@ {
                            step matches Step::Tool { name, arguments } && tool_of(message) == Ok::<
                                (Seq<char>, Seq<char>),
                                Seq<char>,
                            >((name@, arguments@))
                        } else {
                            step matches Step::Answer(reply) && reports(
                                reply,
                                message,
                                -32601,
                                "Method not found"@,
                            )
                        },
                    }
                },
            },
        }
    }

    /// Decides what is to be done about a message, given what is wrong with its metadata, the version
    /// that it names, and the versions that are known.
    pub fn forward(
        &self,
        request: &Request,
        fault: Option<&str>,
        version: Option<&str>,
        supported: &Vec<String>,
    ) -> (result: Result<Step, String>)
        ensures
            match result {
                Ok(step) => self.does(
                    step,
                    request.message@,
                    text::str_view(fault),
                    text::str_view(version),
                    text::views(supported@),
                ),
                Err(reason) => match view_of(request.message@) {
                    Err(expected) => reason@ == expected,
                    Ok(envelope) => envelope.id is Some && (!is_identified(request.message@) || (
                    fault is None && envelope.method == Some("tools/call"@) && tool_of(
                        request.message@,
                    ) == Err::<(Seq<char>, Seq<char>), Seq<char>>(reason@))),
                },
            },
    {
        let message = &request.message;
        let envelope = match protocol::view(message) {
            Ok(envelope) => envelope,
            Err(reason) => {
                return Err(reason);
            },
        };
        if envelope.id.is_none() {
            return Ok(Step::Answer(Reply::ack(202, "notify_ack")));
        }
        if let Some(reason) = fault {
            return match Reply::error(request, 200, -32602, reason) {
                Ok(reply) => Ok(Step::Answer(reply)),
                Err(reason) => Err(reason),
            };
        }
        if let Some(method) = &envelope.method {
            let modern = modern(version);
            if let Some(value) = self.plain_result(method, message, modern, supported) {
                return match conclude(request, value, modern) {
                    Ok(reply) => Ok(Step::Answer(reply)),
                    Err(reason) => Err(reason),
                };
            }
            if text::same(method, "tools/call") {
                return match tool(message) {
                    Ok((name, arguments)) => Ok(Step::Tool { name, arguments }),
                    Err(reason) => Err(reason),
                };
            }
        }
        match Reply::error(request, 200, -32601, "Method not found") {
            Ok(reply) => Ok(Step::Answer(reply)),
            Err(reason) => Err(reason),
        }
    }
}

/// Whether a document is an object without entries.
pub open spec fn is_bare(doc: Doc) -> bool {
    doc matches Doc::Object(map) && map == Map::<Seq<char>, Doc>::empty()
}

fn bare(value: &Json) -> (result: bool)
    ensures
        result == is_bare(value.doc()),
{
    match value {
        Json::Object(entries) => {
            proof {
                if entries@.len() > 0 {
                    let last = entries@[entries@.len() - 1];
                    assert(json::fields(entries@).dom().contains(last.0@));
                } else {
                    assert(json::fields(entries@) =~= Map::<Seq<char>, Doc>::empty());
                }
            }
            entries.len() == 0
        },
        _ => false,
    }
}

/// What a person is shown of the value of a tool: of the answer of a target nothing that is empty.
pub open spec fn shown(name: Seq<char>, doc: Doc) -> Doc {
    if name == "call_target"@ {
        let first = doc.without("truncated"@);
        let second = if is_bare(first.at("headers"@)) {
            first.without("headers"@)
        } else {
            first
        };
        if second.at("body_base64"@) == Doc::Text(Seq::empty()) {
            second.without("body_base64"@)
        } else {
            second
        }
    } else {
        doc
    }
}

fn show(name: &str, value: &Json) -> (result: Json)
    ensures
        result.doc() == shown(name@, value.doc()),
{
    let copy = json::copy(value);
    if !text::same(name, "call_target") {
        return copy;
    }
    let mut result = copy.without("truncated");
    let empty = match result.get("headers") {
        Some(headers) => bare(headers),
        None => false,
    };
    if empty {
        result = result.without("headers");
    }
    let hollow = match result.get("body_base64") {
        Some(Json::Text(body)) => {
            if body.is_empty() {
                assert(body@ =~= Seq::<char>::empty());
            }
            body.is_empty()
        },
        _ => false,
    };
    if hollow {
        result = result.without("body_base64");
    }
    result
}

/// The content of a result: one text.
pub open spec fn content_doc(value: Seq<char>) -> Doc {
    Doc::List(
        seq![Doc::object().with("type"@, Doc::Text("text"@)).with("text"@, Doc::Text(value))],
    )
}

fn content(value: &str) -> (result: Json)
    ensures
        result.doc() == content_doc(value@),
{
    let item = Json::object().with("type", Json::text("text")).with("text", Json::text(value));
    let mut items: Vec<Json> = Vec::new();
    proof {
        json::lemma_docs_push(items@, item);
        assert(json::docs(items@) =~= Seq::<Doc>::empty());
    }
    items.push(item);
    assert(json::docs(items@) =~= content_doc(value@)->List_0);
    Json::List(items)
}

/// The result of a tool: its value, also as a text; or why it failed.
pub open spec fn outcome_doc(name: Seq<char>, outcome: Result<Doc, Seq<char>>) -> Doc {
    match outcome {
        Ok(doc) => Doc::object().with("content"@, content_doc(json_text(shown(name, doc)))).with(
            "structuredContent"@,
            doc,
        ),
        Err(reason) => Doc::object().with("isError"@, Doc::Bool(true)).with(
            "content"@,
            content_doc(reason),
        ),
    }
}

/// The result of a tool.
pub fn outcome(name: &str, value: Result<Json, String>) -> (result: Json)
    ensures
        result.doc() == outcome_doc(
            name@,
            match value {
                Ok(inner) => Ok(inner.doc()),
                Err(reason) => Err(reason@),
            },
        ),
{
    match value {
        Ok(inner) => Json::object().with("content", content(&json::write(show(name, &inner)))).with(
            "structuredContent",
            inner,
        ),
        Err(reason) => Json::object().with("isError", Json::Bool(true)).with(
            "content",
            content(&reason),
        ),
    }
}

/// The largest size of what is told of a target.
pub const CATALOG_LIMIT: usize = 458752;

/// The schema of a call whose answer may be as large as can be.
pub open spec fn widest(schema: Doc) -> Doc {
    let most = Doc::number(isize::MAX as nat);
    let properties = schema.at("properties"@);
    let size = properties.at("max_response_bytes"@);
    schema.with(
        "properties"@,
        properties.with(
            "max_response_bytes"@,
            size.with("maximum"@, most).with("default"@, most),
        ),
    )
}

fn widen(schema: Json) -> (result: Json)
    ensures
        result.doc() == widest(schema.doc()),
{
    let most: u64 = isize::MAX as u64;
    let properties = match schema.get("properties") {
        Some(inner) => json::copy(inner),
        None => Json::Null,
    };
    let size = match properties.get("max_response_bytes") {
        Some(inner) => json::copy(inner),
        None => Json::Null,
    };
    let size = size.with("maximum", Json::number(most)).with("default", Json::number(most));
    schema.with("properties", properties.with("max_response_bytes", size))
}

/// The label with which the size of what is told of a template is taken.
pub open spec fn widest_label(label: Seq<char>, rich: bool) -> Seq<char> {
    if rich {
        "hr1:"@ + Seq::new(64, |i: int| '0') + (":"@ + label)
    } else {
        label
    }
}

/// What is told of a target at most.
pub open spec fn widest_doc(target: Target, schema: Doc) -> Doc {
    match target.template {
        Some(template) => info_doc(target.info).with(
            "invocation"@,
            template.invocation_doc(
                widest_label(
                    target.info.label@,
                    crate::template::request::is_rich(template.header_rules@),
                ),
                widest(schema),
            ),
        ),
        None => info_doc(target.info),
    }
}

/// The size of what is told of a target, as a document and as the text of one; beyond the limit it is
/// one more than that.
pub open spec fn size_of(target: Target, schema: Doc) -> nat {
    let payload = encoded_of(json_text(widest_doc(target, schema)));
    let escaped = encoded_of(string_text(payload));
    let sum = text::byte_len(payload) + text::byte_len(escaped);
    if text::byte_len(payload) > CATALOG_LIMIT || sum > CATALOG_LIMIT {
        (CATALOG_LIMIT + 1) as nat
    } else {
        sum
    }
}

/// The size of what is told of a target.
pub fn size(target: &Target, schema: Json) -> (result: usize)
    requires
        target.template matches Some(template) ==> template.wf(),
        widest(schema.doc()) is Object,
        widest(schema.doc()).at("properties"@) is Object,
        widest(schema.doc()).at("required"@) is List,
    ensures
        result == size_of(*target, schema.doc()),
{
    let mut info = target.info.document();
    if let Some(template) = &target.template {
        let label = if template.rich() {
            let zeros = "0000000000000000000000000000000000000000000000000000000000000000";
            proof {
                reveal_strlit("0000000000000000000000000000000000000000000000000000000000000000");
                assert(zeros@ =~= Seq::new(64, |i: int| '0'));
            }
            text::cat(&text::cat("hr1:", zeros), &text::cat(":", &target.info.label))
        } else {
            target.info.label.clone()
        };
        info = info.with("invocation", template.invocation(&label, widen(schema)));
    }
    let payload = encode(&json::write(info));
    if !text::fits(&payload, CATALOG_LIMIT) {
        return CATALOG_LIMIT + 1;
    }
    let escaped = encode(&quote(&payload));
    proof {
        text::lemma_byte_len_utf8(payload@);
        text::lemma_byte_len_utf8(escaped@);
    }
    if !text::fits(&escaped, CATALOG_LIMIT) {
        return CATALOG_LIMIT + 1;
    }
    let sum: usize = text::bytes(&payload).len() + text::bytes(&escaped).len();
    if sum > CATALOG_LIMIT {
        CATALOG_LIMIT + 1
    } else {
        sum
    }
}

/// A tool that can be called.
#[derive(Clone, Copy, PartialEq, Eq, Structural)]
pub enum Tool {
    ListTargets,
    Audience,
    CallTarget,
    CallTemplate,
}

/// The tool of a name.
pub open spec fn tool_named(name: Seq<char>) -> Option<Tool> {
    if name == "list_targets"@ {
        Some(Tool::ListTargets)
    } else if name == "get_oauth_target_audience"@ {
        Some(Tool::Audience)
    } else if name == "call_target"@ {
        Some(Tool::CallTarget)
    } else if name == "call_target_template"@ {
        Some(Tool::CallTemplate)
    } else {
        None
    }
}

/// The tool of a name, or why there is none.
pub fn select(name: &str) -> (result: Result<Tool, String>)
    ensures
        match result {
            Ok(tool) => tool_named(name@) == Some(tool),
            Err(reason) => tool_named(name@) is None && reason@ == "unknown Harpoon tool "@ + name@,
        },
{
    if text::same(name, "list_targets") {
        Ok(Tool::ListTargets)
    } else if text::same(name, "get_oauth_target_audience") {
        Ok(Tool::Audience)
    } else if text::same(name, "call_target") {
        Ok(Tool::CallTarget)
    } else if text::same(name, "call_target_template") {
        Ok(Tool::CallTemplate)
    } else {
        Err(text::cat("unknown Harpoon tool ", name))
    }
}

/// A caller gets the version that it asks for where that is an older one that is supported, and else the newest
/// of the older ones.
pub proof fn lemma_version_agreed(requested: Seq<char>, supported: Seq<Seq<char>>)
    ensures
        text::precedes(requested, MCP_VERSION@) && supported.contains(requested) ==> agreed(
            requested,
            supported,
        ) == requested,
        !supported.contains(requested) || !text::precedes(requested, MCP_VERSION@) ==> agreed(
            requested,
            supported,
        ) == "2025-11-25"@,
        is_modern(Some(MCP_VERSION@)),
        !is_modern(None),
{
    text::lemma_precedes_irreflexive(MCP_VERSION@);
}

/// A notification is answered with 202 and no message, a fault in the request with the code for wrong parameters,
/// and an unknown method with the code for that; only a call of a tool is carried out.
pub proof fn lemma_messages_answered(
    harpoon: Harpoon,
    step: Step,
    message: Seq<char>,
    fault: Option<Seq<char>>,
    version: Option<Seq<char>>,
    supported: Seq<Seq<char>>,
)
    requires
        harpoon.does(step, message, fault, version, supported),
    ensures
        view_of(message) is Ok,
        view_of(message)->Ok_0.id is None ==> (step matches Step::Answer(reply) && reply.message is None
            && reply.status == 202 && reply.kind@ == "notify_ack"@),
        view_of(message)->Ok_0.id is Some && fault is Some ==> (step matches Step::Answer(reply)
            && reports(reply, message, -32602, fault->0)),
        step is Tool ==> fault is None && view_of(message)->Ok_0.method == Some("tools/call"@)
            && view_of(message)->Ok_0.id is Some,
        step matches Step::Tool { name, arguments } ==> tool_of(message) is Ok && tool_of(message)->Ok_0.0
            == name@ && tool_of(message)->Ok_0.1 == arguments@,
{
}

/// The methods that are answered: discovery, the start of a session, the list of tools, and, before the newest
/// version, the ping with nothing.
pub proof fn lemma_methods_known(
    harpoon: Harpoon,
    method: Seq<char>,
    message: Seq<char>,
    modern: bool,
    supported: Seq<Seq<char>>,
)
    ensures
        harpoon.result_of(method, message, modern, supported) is Some <==> method == "server/discover"@
            || method == "initialize"@ || method == "tools/list"@ || (method == "ping"@ && !modern),
        method == "ping"@ && !modern ==> harpoon.result_of(method, message, modern, supported) == Some(
            Doc::object(),
        ),
        method == "tools/list"@ ==> harpoon.result_of(method, message, modern, supported) == Some(
            schema::tools_doc(
                harpoon.response_limit_of(),
                harpoon.config.max_redirects,
                harpoon.templated(),
            ),
        ),
{
    reveal_strlit("server/discover");
    reveal_strlit("initialize");
    reveal_strlit("ping");
    reveal_strlit("tools/list");
    assert("server/discover"@.len() == 15);
    assert("initialize"@.len() == 10 && "initialize"@[0] == 'i');
    assert("ping"@.len() == 4);
    assert("tools/list"@.len() == 10 && "tools/list"@[0] == 't');
}

/// The four tools have their names, and there is no other.
pub proof fn lemma_tools_named(name: Seq<char>)
    ensures
        tool_named("list_targets"@) == Some(Tool::ListTargets),
        tool_named("get_oauth_target_audience"@) == Some(Tool::Audience),
        tool_named("call_target"@) == Some(Tool::CallTarget),
        tool_named("call_target_template"@) == Some(Tool::CallTemplate),
        tool_named(name) is Some ==> name == "list_targets"@ || name == "get_oauth_target_audience"@ || name
            == "call_target"@ || name == "call_target_template"@,
{
    reveal_strlit("list_targets");
    reveal_strlit("get_oauth_target_audience");
    reveal_strlit("call_target");
    reveal_strlit("call_target_template");
    assert("list_targets"@.len() == 12);
    assert("get_oauth_target_audience"@.len() == 25);
    assert("call_target"@.len() == 11);
    assert("call_target_template"@.len() == 20);
}

/// A tool that fails says so, with the reason as its text; one that succeeds gives its document.
pub proof fn lemma_outcome_told(name: Seq<char>, outcome: Result<Doc, Seq<char>>)
    ensures
        outcome matches Err(reason) ==> outcome_doc(name, outcome).at("isError"@) == Doc::Bool(true)
            && outcome_doc(name, outcome).at("content"@) == content_doc(reason),
        outcome matches Ok(doc) ==> outcome_doc(name, outcome).at("structuredContent"@) == doc,
        outcome is Ok ==> outcome_doc(name, outcome).at("isError"@) == Doc::Null,
        outcome matches Ok(doc) ==> (name != "call_target"@ ==> outcome_doc(name, outcome).at("content"@)
            == content_doc(json_text(doc))),
{
    reveal_strlit("isError");
    reveal_strlit("content");
    reveal_strlit("structuredContent");
    assert("isError"@.len() == 7 && "isError"@[0] == 'i');
    assert("content"@.len() == 7 && "content"@[0] == 'c');
    assert("structuredContent"@.len() == 17);
}

/// A tool is called with the name and the arguments of the message, and with none where it gives none.
pub proof fn lemma_tool_read(message: Seq<char>, params: Seq<char>, name: Seq<char>, raw: Seq<char>)
    requires
        raw_member(message, "params"@) == Some(params),
        raw_member(params, "name"@) == Some(raw),
        parsed_json(raw) == Some(Doc::Text(name)),
    ensures
        tool_of(message) is Ok,
        tool_of(message)->Ok_0.0 == name,
        raw_member(params, "arguments"@) matches Some(arguments) ==> tool_of(message)->Ok_0.1 == arguments,
        raw_member(params, "arguments"@) is None ==> tool_of(message)->Ok_0.1 == "{}"@,
{
}

/// What a catalog tells of itself, and the size of an entry: what is too large counts as one over the limit.
pub proof fn lemma_catalog_told(harpoon: Harpoon, supported: Seq<Seq<char>>, version: Seq<char>)
    ensures
        harpoon.discover_doc(supported).at("supportedVersions"@) == json::texts(supported),
        harpoon.discover_doc(supported).at("instructions"@) == Doc::Text(harpoon.instructions_of()),
        harpoon.discover_doc(supported).at("cacheScope"@) == Doc::Text("public"@),
        harpoon.initialize_doc(version).at("protocolVersion"@) == Doc::Text(version),
        harpoon.initialize_doc(version).at("serverInfo"@).at("name"@) == Doc::Text("harpoon"@),
        harpoon.initialize_doc(version).at("capabilities"@).at("tools"@) == Doc::object(),
        harpoon.templated() ==> harpoon.instructions_of() == crate::harpoon::registry::TEMPLATE_INSTRUCTIONS@,
        !harpoon.templated() ==> harpoon.instructions_of() == crate::harpoon::registry::INSTRUCTIONS@,
{
    reveal_strlit("supportedVersions");
    reveal_strlit("capabilities");
    reveal_strlit("instructions");
    reveal_strlit("ttlMs");
    reveal_strlit("cacheScope");
    reveal_strlit("protocolVersion");
    reveal_strlit("serverInfo");
    reveal_strlit("name");
    reveal_strlit("title");
    reveal_strlit("version");
    reveal_strlit("tools");
    assert("supportedVersions"@.len() == 17);
    assert("capabilities"@.len() == 12 && "capabilities"@[0] == 'c');
    assert("instructions"@.len() == 12 && "instructions"@[0] == 'i');
    assert("ttlMs"@.len() == 5 && "ttlMs"@[1] == 't');
    assert("cacheScope"@.len() == 10 && "cacheScope"@[0] == 'c');
    assert("protocolVersion"@.len() == 15);
    assert("serverInfo"@.len() == 10 && "serverInfo"@[0] == 's');
    assert("name"@.len() == 4);
    assert("title"@.len() == 5 && "title"@[1] == 'i');
    assert("version"@.len() == 7);
    assert("tools"@.len() == 5 && "tools"@[1] == 'o');
}

/// An entry is measured with the longest label and the largest limit that it can get.
pub proof fn lemma_entry_measured(target: Target, schema: Doc, label: Seq<char>)
    ensures
        size_of(target, schema) <= 458753,
        widest_label(label, false) == label,
        widest_label(label, true).len() == "hr1:"@.len() + 64 + ":"@.len() + label.len(),
        target.template is None ==> widest_doc(target, schema) == info_doc(target.info),
{
}

/// The size of an entry that fits is that of its text and of its text as a text.
pub proof fn lemma_entry_size(target: Target, schema: Doc)
    ensures
        ({
            let payload = encoded_of(json_text(widest_doc(target, schema)));
            let sum = text::byte_len(payload) + text::byte_len(encoded_of(string_text(payload)));
            &&& sum <= 458752 ==> size_of(target, schema) == sum
            &&& sum > 458752 ==> size_of(target, schema) == 458753
        }),
{
}

} // verus!
