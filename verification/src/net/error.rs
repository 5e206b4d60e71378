//! What an answer with an error says.

use vstd::prelude::*;
use crate::json::record::{repeated_from, repeated_name};
use crate::json::{self, json_text, parsed_json, raw_map, Doc, Json};
use crate::text;

verus! {

/// What an answer with an error says.
pub struct ErrorInfo {
    pub code: String,
    pub kind: String,
    pub message: String,
    /// The answer itself, where it does not have the form of an error.
    pub body: String,
    pub mitigation: String,
}

/// The contents of [`ErrorInfo`].
#[verifier::ext_equal]
pub struct InfoView {
    pub code: Seq<char>,
    pub kind: Seq<char>,
    pub message: Seq<char>,
    pub body: Seq<char>,
    pub mitigation: Seq<char>,
}

impl View for ErrorInfo {
    type V = InfoView;

    open spec fn view(&self) -> InfoView {
        InfoView {
            code: self.code@,
            kind: self.kind@,
            message: self.message@,
            body: self.body@,
            mitigation: self.mitigation@,
        }
    }
}

impl InfoView {
    /// An answer that says nothing.
    pub open spec fn empty() -> InfoView {
        InfoView {
            code: Seq::empty(),
            kind: Seq::empty(),
            message: Seq::empty(),
            body: Seq::empty(),
            mitigation: Seq::empty(),
        }
    }
}

impl Default for ErrorInfo {
    fn default() -> (result: ErrorInfo)
        ensures
            result@ == InfoView::empty(),
    {
        ErrorInfo {
            code: String::new(),
            kind: String::new(),
            message: String::new(),
            body: String::new(),
            mitigation: String::new(),
        }
    }
}

/// The text that `String::from_utf8_lossy` reads in bytes.
pub uninterp spec fn lossy_text(value: Seq<u8>) -> Seq<char>;

/// Reads bytes as a text: `String::from_utf8_lossy` replaces what is no UTF-8, and leaves UTF-8 as it
/// is.
#[verifier::external_body]
pub(crate) fn lossy(value: &[u8]) -> (result: String)
    ensures
        result@ == lossy_text(value@),
        text::utf8_text(value@) matches Some(inner) ==> result@ == inner,
{
    String::from_utf8_lossy(value).into_owned()
}

/// What an error of the service advises.
pub open spec fn mitigation_of(code: Seq<char>) -> Seq<char> {
    if code == "invalid_tunnel_id_format"@ {
        "set --control-plane.tunnel-id, CONTROL_PLANE_TUNNEL_ID, or control_plane.tunnel_id to the exact tunnel_... ID from Platform tunnel settings"@
    } else if code == "invalid_channel_format"@ {
        "use only lowercase letters, digits, hyphens, or underscores in MCP channel names"@
    } else if code == "rate_limit_exceeded"@ {
        "reduce request concurrency or volume and let tunnel-client retry after backoff"@
    } else if code == "request_body_too_large"@ {
        "send a smaller MCP request body and avoid large inline payloads"@
    } else if code == "invalid_json_payload"@ {
        "fix the MCP caller or server to send a valid JSON object request body"@
    } else if code == "missing_mcp_session_id"@ {
        "send DELETE session termination requests with the Mcp-Session-Id header from the active MCP session"@
    } else if code == "rfc9728_www_authenticate_unsupported"@ {
        "use the well-known OAuth discovery endpoints instead of WWW-Authenticate probing"@
    } else if code == "tunnel_missing_principals"@ {
        "use a runtime API key associated with the intended organization or workspace"@
    } else if code == "tunnel_management_permission_required"@ {
        "use an admin key or account with Tunnels Read and Manage for the target org/workspace"@
    } else if code == "tunnel_use_forbidden"@ {
        "use credentials for a principal that has access to this tunnel, or recreate/connect the runtime in the owning org/workspace"@
    } else if code == "tunnel_active_organization_required"@ {
        "set --control-plane.organization-id, CONTROL_PLANE_ORGANIZATION_ID, or control_plane.organization_id to the tunnel's organization ID"@
    } else if code == "tunnel_active_organization_context_required"@ {
        "select or pass the intended organization ID before listing principals or managing principal-validation overrides"@
    } else if code == "tunnel_principal_validation_override_management_permission_required"@ {
        "use a credential authorized for tunnel principal-validation override management"@
    } else if code == "tunnel_principal_validation_override_automatically_derivable"@ {
        "create or update the tunnel directly; no reviewed override is needed for that principal set"@
    } else if code == "tunnel_principal_association_unverified"@ {
        "use an automatically verifiable org/workspace/tenant combination or request a reviewed association override"@
    } else if code == "tunnel_principal_limit_exceeded"@ {
        "reduce each of tenant_ids, workspace_ids, and organization_ids to the documented maximum"@
    } else if code == "tunnel_request_mismatch"@ {
        "verify the client uses the same control_plane.tunnel_id that received the command"@
    } else if code == "pending_request_not_found"@ {
        "ignore isolated races; if repeated, ensure only healthy clients acknowledge requests for this tunnel"@
    } else if code == "tunnel_queue_full"@ {
        "reduce MCP request concurrency or add enough healthy tunnel-client capacity to drain the tunnel"@
    } else if code == "tunnel_client_not_seen"@ {
        "start or restart tunnel-client with the matching control_plane.tunnel_id and control_plane.api_key"@
    } else if code == "tunnel_client_not_connected"@ {
        "start or restart tunnel-client, then check its /readyz endpoint and logs"@
    } else if code == "oauth_shim_invalid_target_uri"@ {
        "use an absolute http(s) URI or harpoon://<label> that matches harpoon.targets[].label"@
    } else if code == "oauth_shim_unshimmable_endpoint"@ {
        "configure supported OAuth metadata endpoints and grouped harpoon targets for auth-server metadata"@
    } else if code == "oauth_shim_target_not_found"@ {
        "add or correct the matching harpoon.targets[].label entry and restart tunnel-client"@
    } else if code == "oauth_shim_harpoon_call_failed"@ {
        "check the Harpoon target URL, upstream MCP server health, and tunnel-client logs"@
    } else if code == "oauth_shim_upstream_timeout"@ {
        "ensure the Harpoon target and upstream MCP server respond before the tunnel timeout"@
    } else {
        Seq::empty()
    }
}

/// What an error of the service advises.
pub fn mitigation(code: &str) -> (result: String)
    ensures
        result@ == mitigation_of(code@),
{
    let advice = if text::same(code, "invalid_tunnel_id_format") {
        "set --control-plane.tunnel-id, CONTROL_PLANE_TUNNEL_ID, or control_plane.tunnel_id to the exact tunnel_... ID from Platform tunnel settings"
    } else if text::same(code, "invalid_channel_format") {
        "use only lowercase letters, digits, hyphens, or underscores in MCP channel names"
    } else if text::same(code, "rate_limit_exceeded") {
        "reduce request concurrency or volume and let tunnel-client retry after backoff"
    } else if text::same(code, "request_body_too_large") {
        "send a smaller MCP request body and avoid large inline payloads"
    } else if text::same(code, "invalid_json_payload") {
        "fix the MCP caller or server to send a valid JSON object request body"
    } else if text::same(code, "missing_mcp_session_id") {
        "send DELETE session termination requests with the Mcp-Session-Id header from the active MCP session"
    } else if text::same(code, "rfc9728_www_authenticate_unsupported") {
        "use the well-known OAuth discovery endpoints instead of WWW-Authenticate probing"
    } else if text::same(code, "tunnel_missing_principals") {
        "use a runtime API key associated with the intended organization or workspace"
    } else if text::same(code, "tunnel_management_permission_required") {
        "use an admin key or account with Tunnels Read and Manage for the target org/workspace"
    } else if text::same(code, "tunnel_use_forbidden") {
        "use credentials for a principal that has access to this tunnel, or recreate/connect the runtime in the owning org/workspace"
    } else if text::same(code, "tunnel_active_organization_required") {
        "set --control-plane.organization-id, CONTROL_PLANE_ORGANIZATION_ID, or control_plane.organization_id to the tunnel's organization ID"
    } else if text::same(code, "tunnel_active_organization_context_required") {
        "select or pass the intended organization ID before listing principals or managing principal-validation overrides"
    } else if text::same(code, "tunnel_principal_validation_override_management_permission_required") {
        "use a credential authorized for tunnel principal-validation override management"
    } else if text::same(code, "tunnel_principal_validation_override_automatically_derivable") {
        "create or update the tunnel directly; no reviewed override is needed for that principal set"
    } else if text::same(code, "tunnel_principal_association_unverified") {
        "use an automatically verifiable org/workspace/tenant combination or request a reviewed association override"
    } else if text::same(code, "tunnel_principal_limit_exceeded") {
        "reduce each of tenant_ids, workspace_ids, and organization_ids to the documented maximum"
    } else if text::same(code, "tunnel_request_mismatch") {
        "verify the client uses the same control_plane.tunnel_id that received the command"
    } else if text::same(code, "pending_request_not_found") {
        "ignore isolated races; if repeated, ensure only healthy clients acknowledge requests for this tunnel"
    } else if text::same(code, "tunnel_queue_full") {
        "reduce MCP request concurrency or add enough healthy tunnel-client capacity to drain the tunnel"
    } else if text::same(code, "tunnel_client_not_seen") {
        "start or restart tunnel-client with the matching control_plane.tunnel_id and control_plane.api_key"
    } else if text::same(code, "tunnel_client_not_connected") {
        "start or restart tunnel-client, then check its /readyz endpoint and logs"
    } else if text::same(code, "oauth_shim_invalid_target_uri") {
        "use an absolute http(s) URI or harpoon://<label> that matches harpoon.targets[].label"
    } else if text::same(code, "oauth_shim_unshimmable_endpoint") {
        "configure supported OAuth metadata endpoints and grouped harpoon targets for auth-server metadata"
    } else if text::same(code, "oauth_shim_target_not_found") {
        "add or correct the matching harpoon.targets[].label entry and restart tunnel-client"
    } else if text::same(code, "oauth_shim_harpoon_call_failed") {
        "check the Harpoon target URL, upstream MCP server health, and tunnel-client logs"
    } else if text::same(code, "oauth_shim_upstream_timeout") {
        "ensure the Harpoon target and upstream MCP server respond before the tunnel timeout"
    } else {
        ""
    };
    proof {
        reveal_strlit("");
        assert(""@ =~= Seq::<char>::empty());
    }
    advice.to_owned()
}

/// A string or nothing.
pub open spec fn is_string_or_null(doc: Doc) -> bool {
    doc is Text || doc is Null
}

/// The text of a string, or nothing.
pub open spec fn text_or_empty(doc: Doc) -> Seq<char> {
    match doc {
        Doc::Text(value) => value,
        _ => Seq::empty(),
    }
}

/// The code, the kind and the message of an error.
#[verifier::ext_equal]
pub struct FieldsView {
    pub code: Seq<char>,
    pub kind: Seq<char>,
    pub message: Seq<char>,
}

/// The fields of an error, where they are strings. They come by name, or in order.
pub open spec fn fields_of(doc: Doc) -> Option<FieldsView> {
    match doc {
        Doc::Object(_) => {
            let code = doc.at("code"@);
            let kind = doc.at("type"@);
            let message = doc.at("message"@);
            fields_from(code, kind, message)
        },
        Doc::List(items) => if items.len() == 3 {
            fields_from(items[0], items[1], items[2])
        } else {
            None
        },
        _ => None,
    }
}

/// The fields of an error, where they are strings.
pub open spec fn fields_from(code: Doc, kind: Doc, message: Doc) -> Option<FieldsView> {
    if is_string_or_null(code) && is_string_or_null(kind) && is_string_or_null(message) {
        Some(
            FieldsView {
                code: text_or_empty(code),
                kind: text_or_empty(kind),
                message: text_or_empty(message),
            },
        )
    } else {
        None
    }
}

struct Fields {
    code: String,
    kind: String,
    message: String,
}

fn string_or_null(value: Option<&Json>) -> (result: Option<String>)
    ensures
        ({
            let doc = match value {
                Some(inner) => inner.doc(),
                None => Doc::Null,
            };
            match result {
                Some(found) => is_string_or_null(doc) && found@ == text_or_empty(doc),
                None => !is_string_or_null(doc),
            }
        }),
{
    match value {
        None => Some(String::new()),
        Some(Json::Null) => Some(String::new()),
        Some(Json::Text(inner)) => Some(inner.clone()),
        Some(_) => None,
    }
}

fn join_fields(code: Option<&Json>, kind: Option<&Json>, message: Option<&Json>) -> (result: Option<
    Fields,
>)
    ensures
        ({
            let first = match code {
                Some(inner) => inner.doc(),
                None => Doc::Null,
            };
            let second = match kind {
                Some(inner) => inner.doc(),
                None => Doc::Null,
            };
            let third = match message {
                Some(inner) => inner.doc(),
                None => Doc::Null,
            };
            match (result, fields_from(first, second, third)) {
                (Some(found), Some(expected)) => found.code@ == expected.code && found.kind@
                    == expected.kind && found.message@ == expected.message,
                (None, None) => true,
                _ => false,
            }
        }),
{
    match (string_or_null(code), string_or_null(kind), string_or_null(message)) {
        (Some(code), Some(kind), Some(message)) => Some(Fields { code, kind, message }),
        _ => None,
    }
}

fn fields(value: &Json) -> (result: Option<Fields>)
    ensures
        match (result, fields_of(value.doc())) {
            (Some(found), Some(expected)) => found.code@ == expected.code && found.kind@
                == expected.kind && found.message@ == expected.message,
            (None, None) => true,
            _ => false,
        },
{
    match value {
        Json::Object(_) => join_fields(
            value.get("code"),
            value.get("type"),
            value.get("message"),
        ),
        Json::List(items) => {
            proof {
                json::lemma_docs(items@);
            }
            if items.len() == 3 {
                assert(json::docs(items@)[0] == items@[0].doc());
                assert(json::docs(items@)[1] == items@[1].doc());
                assert(json::docs(items@)[2] == items@[2].doc());
                join_fields(Some(&items[0]), Some(&items[1]), Some(&items[2]))
            } else {
                None
            }
        },
        _ => None,
    }
}

/// A text that is too long to be shown, cut.
pub open spec fn shortened(value: Seq<char>) -> Seq<char> {
    if text::byte_len(value) > 1024 {
        text::front_within(value, 1024) + "..."@
    } else {
        value
    }
}

/// An answer that does not have the form of an error.
pub open spec fn unread(value: Seq<char>) -> InfoView {
    InfoView { body: shortened(value), ..InfoView::empty() }
}

/// What a text with an error says.
pub open spec fn info_of(value: Seq<char>) -> InfoView {
    if value.len() == 0 {
        InfoView::empty()
    } else {
        match parsed_json(value) {
            None => unread(value),
            Some(Doc::Null) => InfoView::empty(),
            Some(doc) => if says_twice(value) {
                unread(value)
            } else {
                payload_info(value, doc)
            },
        }
    }
}

/// The fields of an error.
pub open spec fn field_names() -> Seq<Seq<char>> {
    seq!["code"@, "type"@, "message"@]
}

/// Whether an object, or the error in it, has one of its fields twice.
pub open spec fn says_twice(value: Seq<char>) -> bool {
    match raw_map(value) {
        Ok(map) => {
            ||| repeated_from(value, seq!["error"@, "detail"@] + field_names(), 0) is Some
            ||| map.dom().contains("error"@) && raw_map(map["error"@]) is Ok && repeated_from(
                map["error"@],
                field_names(),
                0,
            ) is Some
        },
        Err(_) => false,
    }
}

fn twice(value: &str) -> (result: bool)
    ensures
        result == says_twice(value@),
{
    let mut inner: Vec<String> = Vec::new();
    inner.push("code".to_owned());
    inner.push("type".to_owned());
    inner.push("message".to_owned());
    assert(text::views(inner@) =~= field_names());
    let mut outer: Vec<String> = Vec::new();
    outer.push("error".to_owned());
    outer.push("detail".to_owned());
    outer.push("code".to_owned());
    outer.push("type".to_owned());
    outer.push("message".to_owned());
    assert(text::views(outer@) =~= seq!["error"@, "detail"@] + field_names());
    let table = match json::raw_table(value) {
        Ok(table) => table,
        Err(_) => {
            return false;
        },
    };
    if repeated_name(value, &outer).is_some() {
        return true;
    }
    match table.get("error") {
        Some(error) => json::raw_table(error).is_ok() && repeated_name(error, &inner).is_some(),
        None => false,
    }
}

/// What a document with an error says.
pub open spec fn payload_info(value: Seq<char>, doc: Doc) -> InfoView {
    let nested = doc.at("error"@);
    if !(doc is Object) || fields_of(doc) is None || (!(nested is Null) && fields_of(nested) is None) {
        unread(value)
    } else if !(nested is Null) {
        let fields = fields_of(nested)->0;
        InfoView {
            code: fields.code,
            kind: fields.kind,
            message: fields.message,
            body: Seq::empty(),
            mitigation: mitigation_of(fields.code),
        }
    } else {
        let fields = fields_of(doc)->0;
        let detail = doc.at("detail"@);
        InfoView {
            code: fields.code,
            kind: fields.kind,
            message: if fields.message.len() > 0 || detail is Null {
                fields.message
            } else {
                match detail {
                    Doc::Text(inner) => inner,
                    _ => json_text(detail),
                }
            },
            body: Seq::empty(),
            mitigation: mitigation_of(fields.code),
        }
    }
}

fn unread_info(value: &str) -> (result: ErrorInfo)
    ensures
        result@ == unread(value@),
{
    let body = if text::fits(value, 1024) {
        value.to_owned()
    } else {
        text::cat(&text::front(value, 1024), "...")
    };
    ErrorInfo {
        code: String::new(),
        kind: String::new(),
        message: String::new(),
        body,
        mitigation: String::new(),
    }
}

fn info_from(fields: Fields) -> (result: ErrorInfo)
    ensures
        result@ == (InfoView {
            code: fields.code@,
            kind: fields.kind@,
            message: fields.message@,
            body: Seq::empty(),
            mitigation: mitigation_of(fields.code@),
        }),
{
    let advice = mitigation(&fields.code);
    ErrorInfo {
        code: fields.code,
        kind: fields.kind,
        message: fields.message,
        body: String::new(),
        mitigation: advice,
    }
}

impl ErrorInfo {
    /// Reads what an answer with an error says.
    pub fn parse(body: &[u8]) -> (result: ErrorInfo)
        ensures
            result@ == info_of(text::trim_of(lossy_text(body@))),
    {
        let raw = text::trim(&lossy(body));
        if raw.is_empty() {
            return ErrorInfo::default();
        }
        let doc = match json::parse(&raw) {
            Some(doc) => doc,
            None => {
                return unread_info(&raw);
            },
        };
        if let Json::Null = &doc {
            return ErrorInfo::default();
        }
        if twice(&raw) {
            return unread_info(&raw);
        }
        if !doc.is_object() {
            return unread_info(&raw);
        }
        let own = match fields(&doc) {
            Some(own) => own,
            None => {
                return unread_info(&raw);
            },
        };
        let nested = match doc.get("error") {
            Some(Json::Null) => None,
            other => other,
        };
        if let Some(nested) = nested {
            return match fields(nested) {
                Some(inner) => info_from(inner),
                None => unread_info(&raw),
            };
        }
        let mut own = own;
        if own.message.is_empty() {
            match doc.get("detail") {
                None => {},
                Some(Json::Null) => {},
                Some(Json::Text(detail)) => {
                    own.message = detail.clone();
                },
                Some(_) => {
                    if let Some(detail) = json::entry(&raw, "detail") {
                        own.message = detail;
                    }
                },
            }
        }
        info_from(own)
    }

    /// What an error says in one line.
    pub open spec fn line(info: InfoView) -> Seq<char> {
        let message = if info.message.len() == 0 {
            info.body
        } else {
            info.message
        };
        let front = if info.code.len() > 0 && message.len() > 0 {
            info.code + ": "@ + message
        } else {
            info.code + message
        };
        if info.mitigation.len() == 0 {
            front
        } else if front.len() == 0 {
            "mitigation: "@ + info.mitigation
        } else {
            front + " mitigation: "@ + info.mitigation
        }
    }

    /// What the error says in one line.
    pub fn detail(&self) -> (result: String)
        ensures
            result@ == ErrorInfo::line(self@),
    {
        let message = if self.message.is_empty() {
            &self.body
        } else {
            &self.message
        };
        let front = if !self.code.is_empty() && !message.is_empty() {
            text::cat3(&self.code, ": ", message)
        } else {
            text::cat(&self.code, message)
        };
        if self.mitigation.is_empty() {
            front
        } else if front.is_empty() {
            text::cat("mitigation: ", &self.mitigation)
        } else {
            text::cat3(&front, " mitigation: ", &self.mitigation)
        }
    }
}

/// An error is read from the object under its name, or from the answer itself; a detail is its message where it has no
/// other.
pub proof fn lemma_error_read(value: Seq<char>, doc: Doc)
    requires
        value.len() > 0,
        parsed_json(value) == Some(doc),
        doc is Object,
        !says_twice(value),
        fields_of(doc) is Some,
    ensures
        fields_of(doc.at("error"@)) matches Some(inner) ==> info_of(value).code == inner.code && info_of(
            value,
        ).message == inner.message && info_of(value).kind == inner.kind && info_of(value).body.len() == 0,
        doc.at("error"@) is Null ==> info_of(value).code == fields_of(doc)->0.code && info_of(value).kind
            == fields_of(doc)->0.kind,
        doc.at("error"@) is Null && fields_of(doc)->0.message.len() > 0 ==> info_of(value).message == fields_of(
            doc,
        )->0.message,
        doc.at("error"@) is Null && fields_of(doc)->0.message.len() == 0 ==> (doc.at("detail"@) matches Doc::Text(
            detail,
        ) ==> info_of(value).message == detail),
{
}

/// The fields of an error come from their own entries.
pub proof fn lemma_error_fields(doc: Doc, code: Seq<char>, kind: Seq<char>, message: Seq<char>)
    requires
        doc is Object,
        doc.at("code"@) == Doc::Text(code),
        doc.at("type"@) == Doc::Text(kind),
        doc.at("message"@) == Doc::Text(message),
    ensures
        fields_of(doc) matches Some(found) && found.code == code && found.kind == kind && found.message
            == message,
{
}

/// What is no error that can be read is told as it is, up to a kilobyte; nothing is told of an empty answer.
pub proof fn lemma_error_unread(value: Seq<char>)
    ensures
        value.len() == 0 ==> info_of(value) == InfoView::empty(),
        value.len() > 0 && parsed_json(value) is None ==> info_of(value).code.len() == 0 && info_of(
            value,
        ).message.len() == 0,
        value.len() > 0 && parsed_json(value) is None && text::byte_len(value) <= 1024 ==> info_of(value).body
            == value,
        value.len() > 0 && parsed_json(value) is None && text::byte_len(value) > 1024 ==> info_of(value).body
            == text::front_within(value, 1024) + "..."@,
{
}

/// An error in one line: its code, its message or what was answered, and what helps.
pub proof fn lemma_error_line(info: InfoView)
    ensures
        info.code.len() > 0 && info.message.len() > 0 && info.mitigation.len() == 0 ==> ErrorInfo::line(info)
            == info.code + ": "@ + info.message,
        info.code.len() > 0 && info.message.len() > 0 && info.mitigation.len() > 0 ==> ErrorInfo::line(info)
            == info.code + ": "@ + info.message + " mitigation: "@ + info.mitigation,
        info.code.len() == 0 && info.message.len() == 0 && info.mitigation.len() == 0 ==> ErrorInfo::line(info)
            == info.body,
        info.code.len() == 0 && info.message.len() > 0 && info.mitigation.len() == 0 ==> ErrorInfo::line(info)
            == info.message,
{
    assert(Seq::<char>::empty() + info.body =~= info.body);
    if info.code.len() == 0 {
        assert(info.code + info.message =~= info.message);
        assert(info.code + info.body =~= info.body);
    }
}

/// What helps against some errors of the service.
pub proof fn lemma_mitigations(code: Seq<char>)
    ensures
        mitigation_of("rate_limit_exceeded"@)
            == "reduce request concurrency or volume and let tunnel-client retry after backoff"@,
        mitigation_of("invalid_json_payload"@)
            == "fix the MCP caller or server to send a valid JSON object request body"@,
        mitigation_of("tunnel_client_not_connected"@)
            == "start or restart tunnel-client, then check its /readyz endpoint and logs"@,
        mitigation_of("request_body_too_large"@)
            == "send a smaller MCP request body and avoid large inline payloads"@,
        code.len() == 0 ==> mitigation_of(code).len() == 0,
{
    reveal_strlit("invalid_tunnel_id_format");
    reveal_strlit("invalid_channel_format");
    reveal_strlit("rate_limit_exceeded");
    reveal_strlit("request_body_too_large");
    reveal_strlit("invalid_json_payload");
    reveal_strlit("missing_mcp_session_id");
    reveal_strlit("rfc9728_www_authenticate_unsupported");
    reveal_strlit("tunnel_missing_principals");
    reveal_strlit("tunnel_management_permission_required");
    reveal_strlit("tunnel_use_forbidden");
    reveal_strlit("tunnel_active_organization_required");
    reveal_strlit("tunnel_active_organization_context_required");
    reveal_strlit("tunnel_principal_validation_override_management_permission_required");
    reveal_strlit("tunnel_principal_validation_override_automatically_derivable");
    reveal_strlit("tunnel_principal_association_unverified");
    reveal_strlit("tunnel_principal_limit_exceeded");
    reveal_strlit("tunnel_request_mismatch");
    reveal_strlit("pending_request_not_found");
    reveal_strlit("tunnel_queue_full");
    reveal_strlit("tunnel_client_not_seen");
    reveal_strlit("tunnel_client_not_connected");
    reveal_strlit("oauth_shim_invalid_target_uri");
    reveal_strlit("oauth_shim_unshimmable_endpoint");
    reveal_strlit("oauth_shim_target_not_found");
    reveal_strlit("oauth_shim_harpoon_call_failed");
    reveal_strlit("oauth_shim_upstream_timeout");
    assert("invalid_tunnel_id_format"@.len() == 24);
    assert("invalid_channel_format"@.len() == 22 && "invalid_channel_format"@[0] == 'i');
    assert("rate_limit_exceeded"@.len() == 19);
    assert("request_body_too_large"@.len() == 22 && "request_body_too_large"@[0] == 'r');
    assert("invalid_json_payload"@.len() == 20 && "invalid_json_payload"@[0] == 'i');
    assert("missing_mcp_session_id"@.len() == 22 && "missing_mcp_session_id"@[0] == 'm');
    assert("rfc9728_www_authenticate_unsupported"@.len() == 36);
    assert("tunnel_missing_principals"@.len() == 25 && "tunnel_missing_principals"@[0] == 't');
    assert("tunnel_management_permission_required"@.len() == 37);
    assert("tunnel_use_forbidden"@.len() == 20 && "tunnel_use_forbidden"@[0] == 't');
    assert("tunnel_active_organization_required"@.len() == 35);
    assert("tunnel_active_organization_context_required"@.len() == 43);
    assert("tunnel_principal_validation_override_management_permission_required"@.len() == 67);
    assert("tunnel_principal_validation_override_automatically_derivable"@.len() == 60);
    assert("tunnel_principal_association_unverified"@.len() == 39);
    assert("tunnel_principal_limit_exceeded"@.len() == 31 && "tunnel_principal_limit_exceeded"@[0] == 't');
    assert("tunnel_request_mismatch"@.len() == 23);
    assert("pending_request_not_found"@.len() == 25 && "pending_request_not_found"@[0] == 'p');
    assert("tunnel_queue_full"@.len() == 17);
    assert("tunnel_client_not_seen"@.len() == 22 && "tunnel_client_not_seen"@[0] == 't');
    assert("tunnel_client_not_connected"@.len() == 27 && "tunnel_client_not_connected"@[0] == 't');
    assert("oauth_shim_invalid_target_uri"@.len() == 29);
    assert("oauth_shim_unshimmable_endpoint"@.len() == 31 && "oauth_shim_unshimmable_endpoint"@[0] == 'o');
    assert("oauth_shim_target_not_found"@.len() == 27 && "oauth_shim_target_not_found"@[0] == 'o' && "oauth_shim_target_not_found"@[11] == 't');
    assert("oauth_shim_harpoon_call_failed"@.len() == 30);
    assert("oauth_shim_upstream_timeout"@.len() == 27 && "oauth_shim_upstream_timeout"@[0] == 'o' && "oauth_shim_upstream_timeout"@[11] == 'u');
}

/// What helps, for each code that the service may tell.
#[verifier::spinoff_prover]
pub proof fn lemma_every_mitigation(code: Seq<char>)
    ensures
        code == "invalid_tunnel_id_format"@ ==> mitigation_of(code)
            == "set --control-plane.tunnel-id, CONTROL_PLANE_TUNNEL_ID, or control_plane.tunnel_id to the exact tunnel_... ID from Platform tunnel settings"@,
        code == "invalid_channel_format"@ ==> mitigation_of(code)
            == "use only lowercase letters, digits, hyphens, or underscores in MCP channel names"@,
        code == "rate_limit_exceeded"@ ==> mitigation_of(code)
            == "reduce request concurrency or volume and let tunnel-client retry after backoff"@,
        code == "request_body_too_large"@ ==> mitigation_of(code)
            == "send a smaller MCP request body and avoid large inline payloads"@,
        code == "invalid_json_payload"@ ==> mitigation_of(code)
            == "fix the MCP caller or server to send a valid JSON object request body"@,
        code == "missing_mcp_session_id"@ ==> mitigation_of(code)
            == "send DELETE session termination requests with the Mcp-Session-Id header from the active MCP session"@,
        code == "rfc9728_www_authenticate_unsupported"@ ==> mitigation_of(code)
            == "use the well-known OAuth discovery endpoints instead of WWW-Authenticate probing"@,
        code == "tunnel_missing_principals"@ ==> mitigation_of(code)
            == "use a runtime API key associated with the intended organization or workspace"@,
        code == "tunnel_management_permission_required"@ ==> mitigation_of(code)
            == "use an admin key or account with Tunnels Read and Manage for the target org/workspace"@,
        code == "tunnel_use_forbidden"@ ==> mitigation_of(code)
            == "use credentials for a principal that has access to this tunnel, or recreate/connect the runtime in the owning org/workspace"@,
        code == "tunnel_active_organization_required"@ ==> mitigation_of(code)
            == "set --control-plane.organization-id, CONTROL_PLANE_ORGANIZATION_ID, or control_plane.organization_id to the tunnel's organization ID"@,
        code == "tunnel_active_organization_context_required"@ ==> mitigation_of(code)
            == "select or pass the intended organization ID before listing principals or managing principal-validation overrides"@,
        code == "tunnel_principal_validation_override_management_permission_required"@ ==> mitigation_of(code)
            == "use a credential authorized for tunnel principal-validation override management"@,
        code == "tunnel_principal_validation_override_automatically_derivable"@ ==> mitigation_of(code)
            == "create or update the tunnel directly; no reviewed override is needed for that principal set"@,
        code == "tunnel_principal_association_unverified"@ ==> mitigation_of(code)
            == "use an automatically verifiable org/workspace/tenant combination or request a reviewed association override"@,
        code == "tunnel_principal_limit_exceeded"@ ==> mitigation_of(code)
            == "reduce each of tenant_ids, workspace_ids, and organization_ids to the documented maximum"@,
        code == "tunnel_request_mismatch"@ ==> mitigation_of(code)
            == "verify the client uses the same control_plane.tunnel_id that received the command"@,
        code == "pending_request_not_found"@ ==> mitigation_of(code)
            == "ignore isolated races; if repeated, ensure only healthy clients acknowledge requests for this tunnel"@,
        code == "tunnel_queue_full"@ ==> mitigation_of(code)
            == "reduce MCP request concurrency or add enough healthy tunnel-client capacity to drain the tunnel"@,
        code == "tunnel_client_not_seen"@ ==> mitigation_of(code)
            == "start or restart tunnel-client with the matching control_plane.tunnel_id and control_plane.api_key"@,
        code == "tunnel_client_not_connected"@ ==> mitigation_of(code)
            == "start or restart tunnel-client, then check its /readyz endpoint and logs"@,
        code == "oauth_shim_invalid_target_uri"@ ==> mitigation_of(code)
            == "use an absolute http(s) URI or harpoon://<label> that matches harpoon.targets[].label"@,
        code == "oauth_shim_unshimmable_endpoint"@ ==> mitigation_of(code)
            == "configure supported OAuth metadata endpoints and grouped harpoon targets for auth-server metadata"@,
        code == "oauth_shim_target_not_found"@ ==> mitigation_of(code)
            == "add or correct the matching harpoon.targets[].label entry and restart tunnel-client"@,
        code == "oauth_shim_harpoon_call_failed"@ ==> mitigation_of(code)
            == "check the Harpoon target URL, upstream MCP server health, and tunnel-client logs"@,
        code == "oauth_shim_upstream_timeout"@ ==> mitigation_of(code)
            == "ensure the Harpoon target and upstream MCP server respond before the tunnel timeout"@,
{
    reveal_strlit("invalid_tunnel_id_format");
    reveal_strlit("invalid_channel_format");
    reveal_strlit("rate_limit_exceeded");
    reveal_strlit("request_body_too_large");
    reveal_strlit("invalid_json_payload");
    reveal_strlit("missing_mcp_session_id");
    reveal_strlit("rfc9728_www_authenticate_unsupported");
    reveal_strlit("tunnel_missing_principals");
    reveal_strlit("tunnel_management_permission_required");
    reveal_strlit("tunnel_use_forbidden");
    reveal_strlit("tunnel_active_organization_required");
    reveal_strlit("tunnel_active_organization_context_required");
    reveal_strlit("tunnel_principal_validation_override_management_permission_required");
    reveal_strlit("tunnel_principal_validation_override_automatically_derivable");
    reveal_strlit("tunnel_principal_association_unverified");
    reveal_strlit("tunnel_principal_limit_exceeded");
    reveal_strlit("tunnel_request_mismatch");
    reveal_strlit("pending_request_not_found");
    reveal_strlit("tunnel_queue_full");
    reveal_strlit("tunnel_client_not_seen");
    reveal_strlit("tunnel_client_not_connected");
    reveal_strlit("oauth_shim_invalid_target_uri");
    reveal_strlit("oauth_shim_unshimmable_endpoint");
    reveal_strlit("oauth_shim_target_not_found");
    reveal_strlit("oauth_shim_harpoon_call_failed");
    reveal_strlit("oauth_shim_upstream_timeout");
    assert("invalid_tunnel_id_format"@.len() == 24);
    assert("invalid_channel_format"@.len() == 22 && "invalid_channel_format"@[0] == 'i');
    assert("rate_limit_exceeded"@.len() == 19);
    assert("request_body_too_large"@.len() == 22 && "request_body_too_large"@[0] == 'r');
    assert("invalid_json_payload"@.len() == 20 && "invalid_json_payload"@[0] == 'i');
    assert("missing_mcp_session_id"@.len() == 22 && "missing_mcp_session_id"@[0] == 'm');
    assert("rfc9728_www_authenticate_unsupported"@.len() == 36);
    assert("tunnel_missing_principals"@.len() == 25 && "tunnel_missing_principals"@[0] == 't');
    assert("tunnel_management_permission_required"@.len() == 37);
    assert("tunnel_use_forbidden"@.len() == 20 && "tunnel_use_forbidden"@[0] == 't');
    assert("tunnel_active_organization_required"@.len() == 35);
    assert("tunnel_active_organization_context_required"@.len() == 43);
    assert("tunnel_principal_validation_override_management_permission_required"@.len() == 67);
    assert("tunnel_principal_validation_override_automatically_derivable"@.len() == 60);
    assert("tunnel_principal_association_unverified"@.len() == 39);
    assert("tunnel_principal_limit_exceeded"@.len() == 31 && "tunnel_principal_limit_exceeded"@[0] == 't');
    assert("tunnel_request_mismatch"@.len() == 23);
    assert("pending_request_not_found"@.len() == 25 && "pending_request_not_found"@[0] == 'p');
    assert("tunnel_queue_full"@.len() == 17);
    assert("tunnel_client_not_seen"@.len() == 22 && "tunnel_client_not_seen"@[0] == 't');
    assert("tunnel_client_not_connected"@.len() == 27 && "tunnel_client_not_connected"@[0] == 't');
    assert("oauth_shim_invalid_target_uri"@.len() == 29);
    assert("oauth_shim_unshimmable_endpoint"@.len() == 31 && "oauth_shim_unshimmable_endpoint"@[0] == 'o');
    assert("oauth_shim_target_not_found"@.len() == 27 && "oauth_shim_target_not_found"@[0] == 'o' && "oauth_shim_target_not_found"@[11] == 't');
    assert("oauth_shim_harpoon_call_failed"@.len() == 30);
    assert("oauth_shim_upstream_timeout"@.len() == 27 && "oauth_shim_upstream_timeout"@[0] == 'o' && "oauth_shim_upstream_timeout"@[11] == 'u');
}

/// An error is told with what helps against it; one without a code with nothing.
pub proof fn lemma_mitigation_told(value: Seq<char>, doc: Doc, fields: FieldsView)
    requires
        value.len() > 0,
        parsed_json(value) == Some(doc),
        doc is Object,
        !says_twice(value),
    ensures
        fields_of(doc) is Some && fields_of(doc.at("error"@)) == Some(fields) ==> info_of(value).mitigation
            == mitigation_of(fields.code),
        fields_of(doc) == Some(fields) && doc.at("error"@) is Null ==> info_of(value).mitigation == mitigation_of(
            fields.code,
        ),
        fields_of(doc) is None ==> info_of(value).code.len() == 0,
        fields_of(doc) is Some && !(doc.at("error"@) is Null) && fields_of(doc.at("error"@)) is None ==> info_of(
            value,
        ).code.len() == 0,
{
}

/// An answer that names a field twice is not read.
pub proof fn lemma_twice_unread(value: Seq<char>, doc: Doc)
    requires
        value.len() > 0,
        parsed_json(value) == Some(doc),
        !(doc is Null),
        says_twice(value),
    ensures
        info_of(value).code.len() == 0 && info_of(value).message.len() == 0 && info_of(value).mitigation.len() == 0,
{
}

/// Which answers name a field twice: in the answer itself, or in the error that it holds.
pub proof fn lemma_named_twice(value: Seq<char>, map: Map<Seq<char>, Seq<char>>)
    requires
        raw_map(value) == Ok::<Map<Seq<char>, Seq<char>>, Seq<char>>(map),
    ensures
        repeated_from(value, seq!["error"@, "detail"@] + seq!["code"@, "type"@, "message"@], 0) is Some
            ==> says_twice(value),
        map.dom().contains("error"@) && raw_map(map["error"@]) is Ok && repeated_from(
            map["error"@],
            seq!["code"@, "type"@, "message"@],
            0,
        ) is Some ==> says_twice(value),
        says_twice(value) && !map.dom().contains("error"@) ==> repeated_from(
            value,
            seq!["error"@, "detail"@] + seq!["code"@, "type"@, "message"@],
            0,
        ) is Some,
{
}

} // verus!
