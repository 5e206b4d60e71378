//! The tools that call targets, and what they take and give.

use vstd::prelude::*;
use crate::json::{self, Doc, Json};
use crate::text;

verus! {

/// The schema of a timeout.
pub open spec fn timeout_doc() -> Doc {
    Doc::object()
        .with("type"@, Doc::Text("integer"@))
        .with("maximum"@, Doc::number(120000))
        .with("minimum"@, Doc::number(100))
        .with("default"@, Doc::number(30000))
}

/// The schema of a timeout.
pub fn timeout() -> (result: Json)
    ensures
        result.doc() == timeout_doc(),
{
    Json::object()
        .with("type", Json::text("integer"))
        .with("maximum", Json::number(120000))
        .with("minimum", Json::number(100))
        .with("default", Json::number(30000))
}

/// The schema of a size of answers.
pub open spec fn size_doc(limit: usize) -> Doc {
    Doc::object()
        .with("type"@, Doc::Text("integer"@))
        .with("maximum"@, Doc::number(limit as nat))
        .with("minimum"@, Doc::number(1))
        .with("default"@, Doc::number(limit as nat))
}

/// The schema of a size of answers.
pub fn size(limit: usize) -> (result: Json)
    ensures
        result.doc() == size_doc(limit),
{
    Json::object()
        .with("type", Json::text("integer"))
        .with("maximum", Json::number(limit as u64))
        .with("minimum", Json::number(1))
        .with("default", Json::number(limit as u64))
}

/// The schema of headers.
pub open spec fn header_doc() -> Doc {
    Doc::object()
        .with("additionalProperties"@, Doc::object().with("type"@, Doc::Text("string"@)))
        .with(
            "propertyNames"@,
            Doc::object()
                .with("type"@, Doc::Text("string"@))
                .with("pattern"@, Doc::Text("^[!#$%&'*+.^_`|~0-9A-Za-z-]+$"@)),
        )
        .with("type"@, Doc::Text("object"@))
        .with("default"@, Doc::object())
}

/// The schema of headers.
pub fn header() -> (result: Json)
    ensures
        result.doc() == header_doc(),
{
    Json::object()
        .with("additionalProperties", Json::object().with("type", Json::text("string")))
        .with(
            "propertyNames",
            Json::object()
                .with("type", Json::text("string"))
                .with("pattern", Json::text("^[!#$%&'*+.^_`|~0-9A-Za-z-]+$")),
        )
        .with("type", Json::text("object"))
        .with("default", Json::object())
}

/// The schema of a call of a template.
pub open spec fn template_call_doc(limit: usize) -> Doc {
    Doc::object()
        .with("$schema"@, Doc::Text("https://json-schema.org/draft/2020-12/schema"@))
        .with(
            "$id"@,
            Doc::Text(
                "https://github.com/openai/tunnel-client/pkg/runtimeharpoon/call-target-template-request"@,
            ),
        )
        .with(
            "properties"@,
            Doc::object()
                .with(
                    "label"@,
                    Doc::object()
                        .with("type"@, Doc::Text("string"@))
                        .with("maxLength"@, Doc::number(64))
                        .with("minLength"@, Doc::number(1))
                        .with("pattern"@, Doc::Text("^[a-z0-9][a-z0-9_-]{0,63}$"@)),
                )
                .with(
                    "parameters"@,
                    Doc::object()
                        .with("type"@, Doc::Text("object"@))
                        .with(
                            "description"@,
                            Doc::Text(
                                "Required string values matching the target parameters_schema."@,
                            ),
                        ),
                )
                .with("headers"@, header_doc())
                .with("timeout_ms"@, timeout_doc())
                .with("max_response_bytes"@, size_doc(limit)),
        )
        .with("additionalProperties"@, Doc::Bool(false))
        .with("type"@, Doc::Text("object"@))
        .with("required"@, json::texts(seq!["label"@, "parameters"@]))
        .with("title"@, Doc::Text("Call Harpoon target template"@))
        .with(
            "description"@,
            Doc::Text("Call a configured GET operation with bounded string identifiers."@),
        )
}

/// The schema of a call of a template.
pub fn template_call(limit: usize) -> (result: Json)
    ensures
        result.doc() == template_call_doc(limit),
{
    Json::object()
        .with("$schema", Json::text("https://json-schema.org/draft/2020-12/schema"))
        .with(
            "$id",
            Json::text(
                "https://github.com/openai/tunnel-client/pkg/runtimeharpoon/call-target-template-request",
            ),
        )
        .with(
            "properties",
            Json::object()
                .with(
                    "label",
                    Json::object()
                        .with("type", Json::text("string"))
                        .with("maxLength", Json::number(64))
                        .with("minLength", Json::number(1))
                        .with("pattern", Json::text("^[a-z0-9][a-z0-9_-]{0,63}$")),
                )
                .with(
                    "parameters",
                    Json::object()
                        .with("type", Json::text("object"))
                        .with(
                            "description",
                            Json::text(
                                "Required string values matching the target parameters_schema.",
                            ),
                        ),
                )
                .with("headers", header())
                .with("timeout_ms", timeout())
                .with("max_response_bytes", size(limit)),
        )
        .with("additionalProperties", Json::Bool(false))
        .with("type", Json::text("object"))
        .with("required", Json::texts2("label", "parameters"))
        .with("title", Json::text("Call Harpoon target template"))
        .with(
            "description",
            Json::text("Call a configured GET operation with bounded string identifiers."),
        )
}

/// The schema of a call of a target.
pub open spec fn target_call_doc(limit: usize, redirects: usize) -> Doc {
    Doc::object()
        .with("$schema"@, Doc::Text("https://json-schema.org/draft/2020-12/schema"@))
        .with(
            "$id"@,
            Doc::Text(
                "https://github.com/openai/tunnel-client/pkg/runtimeharpoon/call-target-request"@,
            ),
        )
        .with(
            "properties"@,
            Doc::object()
                .with(
                    "label"@,
                    Doc::object()
                        .with("type"@, Doc::Text("string"@))
                        .with("maxLength"@, Doc::number(64))
                        .with("minLength"@, Doc::number(1))
                        .with("pattern"@, Doc::Text("^[a-z0-9][a-z0-9_-]{0,63}$"@))
                        .with("description"@, Doc::Text("Allowlisted target label"@)),
                )
                .with(
                    "method"@,
                    Doc::object()
                        .with("type"@, Doc::Text("string"@))
                        .with("enum"@, json::texts(seq!["GET"@, "POST"@, "PUT"@]))
                        .with("description"@, Doc::Text("HTTP method for the outbound request"@)),
                )
                .with(
                    "headers"@,
                    header_doc()
                        .with(
                            "description"@,
                            Doc::Text(
                                "HTTP headers to include in the request; transport proxy forwarding headers plus client-managed identity headers plus caller-supplied fields nominated by Connection are blocked"@,
                            ),
                        ),
                )
                .with(
                    "body"@,
                    Doc::object()
                        .with("type"@, Doc::Text("string"@))
                        .with("description"@, Doc::Text("Request body as a raw string"@)),
                )
                .with(
                    "timeout_ms"@,
                    timeout_doc()
                        .with("description"@, Doc::Text("Request timeout in milliseconds"@)),
                )
                .with(
                    "max_response_bytes"@,
                    size_doc(limit)
                        .with("description"@, Doc::Text("Maximum response bytes to read"@)),
                )
                .with(
                    "follow_redirects"@,
                    Doc::object()
                        .with("type"@, Doc::Text("boolean"@))
                        .with("description"@, Doc::Text("Whether to follow HTTP redirects"@))
                        .with("default"@, Doc::Bool(true)),
                )
                .with(
                    "max_redirects"@,
                    Doc::object()
                        .with("type"@, Doc::Text("integer"@))
                        .with("maximum"@, Doc::number(redirects as nat))
                        .with("minimum"@, Doc::number(0))
                        .with(
                            "description"@,
                            Doc::Text("Maximum redirects to follow when follow_redirects is true"@),
                        )
                        .with("default"@, Doc::number(redirects as nat)),
                ),
        )
        .with("additionalProperties"@, Doc::Bool(false))
        .with("type"@, Doc::Text("object"@))
        .with("required"@, json::texts(seq!["label"@, "method"@]))
        .with("title"@, Doc::Text("Call Harpoon target"@))
        .with("description"@, Doc::Text("Call an allowlisted HTTP target by label."@))
}

/// The schema of a call of a target.
pub fn target_call(limit: usize, redirects: usize) -> (result: Json)
    ensures
        result.doc() == target_call_doc(limit, redirects),
{
    Json::object()
        .with("$schema", Json::text("https://json-schema.org/draft/2020-12/schema"))
        .with(
            "$id",
            Json::text(
                "https://github.com/openai/tunnel-client/pkg/runtimeharpoon/call-target-request",
            ),
        )
        .with(
            "properties",
            Json::object()
                .with(
                    "label",
                    Json::object()
                        .with("type", Json::text("string"))
                        .with("maxLength", Json::number(64))
                        .with("minLength", Json::number(1))
                        .with("pattern", Json::text("^[a-z0-9][a-z0-9_-]{0,63}$"))
                        .with("description", Json::text("Allowlisted target label")),
                )
                .with(
                    "method",
                    Json::object()
                        .with("type", Json::text("string"))
                        .with("enum", Json::texts3("GET", "POST", "PUT"))
                        .with("description", Json::text("HTTP method for the outbound request")),
                )
                .with(
                    "headers",
                    header()
                        .with(
                            "description",
                            Json::text(
                                "HTTP headers to include in the request; transport proxy forwarding headers plus client-managed identity headers plus caller-supplied fields nominated by Connection are blocked",
                            ),
                        ),
                )
                .with(
                    "body",
                    Json::object()
                        .with("type", Json::text("string"))
                        .with("description", Json::text("Request body as a raw string")),
                )
                .with(
                    "timeout_ms",
                    timeout().with("description", Json::text("Request timeout in milliseconds")),
                )
                .with(
                    "max_response_bytes",
                    size(limit).with("description", Json::text("Maximum response bytes to read")),
                )
                .with(
                    "follow_redirects",
                    Json::object()
                        .with("type", Json::text("boolean"))
                        .with("description", Json::text("Whether to follow HTTP redirects"))
                        .with("default", Json::Bool(true)),
                )
                .with(
                    "max_redirects",
                    Json::object()
                        .with("type", Json::text("integer"))
                        .with("maximum", Json::number(redirects as u64))
                        .with("minimum", Json::number(0))
                        .with(
                            "description",
                            Json::text("Maximum redirects to follow when follow_redirects is true"),
                        )
                        .with("default", Json::number(redirects as u64)),
                ),
        )
        .with("additionalProperties", Json::Bool(false))
        .with("type", Json::text("object"))
        .with("required", Json::texts2("label", "method"))
        .with("title", Json::text("Call Harpoon target"))
        .with("description", Json::text("Call an allowlisted HTTP target by label."))
}

/// The schema of what a call gives.
pub open spec fn answer_doc(limit: usize) -> Doc {
    Doc::object()
        .with("$schema"@, Doc::Text("https://json-schema.org/draft/2020-12/schema"@))
        .with(
            "$id"@,
            Doc::Text(
                "https://github.com/openai/tunnel-client/pkg/runtimeharpoon/call-target-response"@,
            ),
        )
        .with(
            "properties"@,
            Doc::object()
                .with(
                    "status_code"@,
                    Doc::object()
                        .with("type"@, Doc::Text("integer"@))
                        .with("maximum"@, Doc::number(599))
                        .with("minimum"@, Doc::number(100))
                        .with(
                            "description"@,
                            Doc::Text("HTTP status code returned by the target."@),
                        ),
                )
                .with(
                    "headers"@,
                    Doc::object()
                        .with(
                            "additionalProperties"@,
                            Doc::object()
                                .with("items"@, Doc::object().with("type"@, Doc::Text("string"@)))
                                .with("type"@, Doc::Text("array"@)),
                        )
                        .with(
                            "propertyNames"@,
                            Doc::object()
                                .with("type"@, Doc::Text("string"@))
                                .with("pattern"@, Doc::Text("^[!#$%&'*+.^_`|~0-9A-Za-z-]+$"@)),
                        )
                        .with("type"@, Doc::Text("object"@))
                        .with(
                            "description"@,
                            Doc::Text("Response headers returned by the target."@),
                        ),
                )
                .with(
                    "body_base64"@,
                    Doc::object()
                        .with("type"@, Doc::Text("string"@))
                        .with("description"@, Doc::Text("Base64-encoded response body bytes."@))
                        .with("contentEncoding"@, Doc::Text("base64"@)),
                )
                .with(
                    "body_size_bytes"@,
                    Doc::object()
                        .with("type"@, Doc::Text("integer"@))
                        .with("maximum"@, Doc::number(limit as nat))
                        .with("minimum"@, Doc::number(0))
                        .with("description"@, Doc::Text("Number of bytes in body_base64."@)),
                )
                .with(
                    "truncated"@,
                    Doc::object()
                        .with("type"@, Doc::Text("boolean"@))
                        .with(
                            "description"@,
                            Doc::Text("Whether the response body was truncated."@),
                        ),
                ),
        )
        .with("additionalProperties"@, Doc::Bool(false))
        .with("type"@, Doc::Text("object"@))
        .with("required"@, json::texts(seq!["status_code"@, "body_size_bytes"@]))
        .with("title"@, Doc::Text("Harpoon call result"@))
        .with("description"@, Doc::Text("Response details from the target."@))
}

/// The schema of what a call gives.
pub fn answer(limit: usize) -> (result: Json)
    ensures
        result.doc() == answer_doc(limit),
{
    Json::object()
        .with("$schema", Json::text("https://json-schema.org/draft/2020-12/schema"))
        .with(
            "$id",
            Json::text(
                "https://github.com/openai/tunnel-client/pkg/runtimeharpoon/call-target-response",
            ),
        )
        .with(
            "properties",
            Json::object()
                .with(
                    "status_code",
                    Json::object()
                        .with("type", Json::text("integer"))
                        .with("maximum", Json::number(599))
                        .with("minimum", Json::number(100))
                        .with("description", Json::text("HTTP status code returned by the target.")),
                )
                .with(
                    "headers",
                    Json::object()
                        .with(
                            "additionalProperties",
                            Json::object()
                                .with("items", Json::object().with("type", Json::text("string")))
                                .with("type", Json::text("array")),
                        )
                        .with(
                            "propertyNames",
                            Json::object()
                                .with("type", Json::text("string"))
                                .with("pattern", Json::text("^[!#$%&'*+.^_`|~0-9A-Za-z-]+$")),
                        )
                        .with("type", Json::text("object"))
                        .with("description", Json::text("Response headers returned by the target.")),
                )
                .with(
                    "body_base64",
                    Json::object()
                        .with("type", Json::text("string"))
                        .with("description", Json::text("Base64-encoded response body bytes."))
                        .with("contentEncoding", Json::text("base64")),
                )
                .with(
                    "body_size_bytes",
                    Json::object()
                        .with("type", Json::text("integer"))
                        .with("maximum", Json::number(limit as u64))
                        .with("minimum", Json::number(0))
                        .with("description", Json::text("Number of bytes in body_base64.")),
                )
                .with(
                    "truncated",
                    Json::object()
                        .with("type", Json::text("boolean"))
                        .with("description", Json::text("Whether the response body was truncated.")),
                ),
        )
        .with("additionalProperties", Json::Bool(false))
        .with("type", Json::text("object"))
        .with("required", Json::texts2("status_code", "body_size_bytes"))
        .with("title", Json::text("Harpoon call result"))
        .with("description", Json::text("Response details from the target."))
}

/// The schema of a question for an audience.
pub open spec fn audience_input_doc() -> Doc {
    Doc::object()
        .with("$schema"@, Doc::Text("https://json-schema.org/draft/2020-12/schema"@))
        .with(
            "$id"@,
            Doc::Text(
                "https://github.com/openai/tunnel-client/pkg/harpoon/oauth-target-audience-request"@,
            ),
        )
        .with(
            "properties"@,
            Doc::object()
                .with(
                    "label"@,
                    Doc::object()
                        .with("type"@, Doc::Text("string"@))
                        .with("maxLength"@, Doc::number(64))
                        .with("minLength"@, Doc::number(1))
                        .with("pattern"@, Doc::Text("^[a-z0-9][a-z0-9_-]{0,63}$"@))
                        .with("description"@, Doc::Text("OAuth token-endpoint target label."@)),
                ),
        )
        .with("additionalProperties"@, Doc::Bool(false))
        .with("type"@, Doc::Text("object"@))
        .with("required"@, json::texts(seq!["label"@]))
        .with("title"@, Doc::Text("Get OAuth target audience"@))
        .with(
            "description"@,
            Doc::Text("Resolve the exact upstream URL for an allowlisted OAuth token endpoint."@),
        )
}

/// The schema of a question for an audience.
pub fn audience_input() -> (result: Json)
    ensures
        result.doc() == audience_input_doc(),
{
    Json::object()
        .with("$schema", Json::text("https://json-schema.org/draft/2020-12/schema"))
        .with(
            "$id",
            Json::text(
                "https://github.com/openai/tunnel-client/pkg/harpoon/oauth-target-audience-request",
            ),
        )
        .with(
            "properties",
            Json::object()
                .with(
                    "label",
                    Json::object()
                        .with("type", Json::text("string"))
                        .with("maxLength", Json::number(64))
                        .with("minLength", Json::number(1))
                        .with("pattern", Json::text("^[a-z0-9][a-z0-9_-]{0,63}$"))
                        .with("description", Json::text("OAuth token-endpoint target label.")),
                ),
        )
        .with("additionalProperties", Json::Bool(false))
        .with("type", Json::text("object"))
        .with("required", Json::texts1("label"))
        .with("title", Json::text("Get OAuth target audience"))
        .with(
            "description",
            Json::text("Resolve the exact upstream URL for an allowlisted OAuth token endpoint."),
        )
}

/// The schema of an audience.
pub open spec fn audience_output_doc() -> Doc {
    Doc::object()
        .with("$schema"@, Doc::Text("https://json-schema.org/draft/2020-12/schema"@))
        .with(
            "$id"@,
            Doc::Text(
                "https://github.com/openai/tunnel-client/pkg/harpoon/oauth-target-audience-response"@,
            ),
        )
        .with(
            "properties"@,
            Doc::object()
                .with(
                    "audience"@,
                    Doc::object()
                        .with("type"@, Doc::Text("string"@))
                        .with("format"@, Doc::Text("uri"@))
                        .with(
                            "description"@,
                            Doc::Text(
                                "Exact upstream OAuth token endpoint URL to use as a private_key_jwt audience."@,
                            ),
                        ),
                ),
        )
        .with("additionalProperties"@, Doc::Bool(false))
        .with("type"@, Doc::Text("object"@))
        .with("required"@, json::texts(seq!["audience"@]))
        .with("title"@, Doc::Text("OAuth target audience"@))
        .with(
            "description"@,
            Doc::Text("Exact private_key_jwt audience for an allowlisted OAuth token endpoint."@),
        )
}

/// The schema of an audience.
pub fn audience_output() -> (result: Json)
    ensures
        result.doc() == audience_output_doc(),
{
    Json::object()
        .with("$schema", Json::text("https://json-schema.org/draft/2020-12/schema"))
        .with(
            "$id",
            Json::text(
                "https://github.com/openai/tunnel-client/pkg/harpoon/oauth-target-audience-response",
            ),
        )
        .with(
            "properties",
            Json::object()
                .with(
                    "audience",
                    Json::object()
                        .with("type", Json::text("string"))
                        .with("format", Json::text("uri"))
                        .with(
                            "description",
                            Json::text(
                                "Exact upstream OAuth token endpoint URL to use as a private_key_jwt audience.",
                            ),
                        ),
                ),
        )
        .with("additionalProperties", Json::Bool(false))
        .with("type", Json::text("object"))
        .with("required", Json::texts1("audience"))
        .with("title", Json::text("OAuth target audience"))
        .with(
            "description",
            Json::text("Exact private_key_jwt audience for an allowlisted OAuth token endpoint."),
        )
}

/// The schema of a question for targets.
pub open spec fn list_input_doc() -> Doc {
    Doc::object()
        .with("$schema"@, Doc::Text("https://json-schema.org/draft/2020-12/schema"@))
        .with(
            "$id"@,
            Doc::Text(
                "https://github.com/openai/tunnel-client/pkg/runtimeharpoon/list-targets-request"@,
            ),
        )
        .with(
            "properties"@,
            Doc::object()
                .with(
                    "categories"@,
                    Doc::object()
                        .with("items"@, Doc::object().with("type"@, Doc::Text("string"@)))
                        .with("type"@, Doc::Text("array"@))
                        .with("description"@, Doc::Text("Target categories to include."@)),
                )
                .with(
                    "sources"@,
                    Doc::object()
                        .with("items"@, Doc::object().with("type"@, Doc::Text("string"@)))
                        .with("type"@, Doc::Text("array"@))
                        .with("description"@, Doc::Text("Target sources to include."@)),
                )
                .with(
                    "tags"@,
                    Doc::object()
                        .with("items"@, Doc::object().with("type"@, Doc::Text("string"@)))
                        .with("type"@, Doc::Text("array"@))
                        .with(
                            "description"@,
                            Doc::Text("Target tags to include (all tags must match)."@),
                        ),
                ),
        )
        .with("additionalProperties"@, Doc::Bool(false))
        .with("type"@, Doc::Text("object"@))
        .with("title"@, Doc::Text("List Harpoon targets"@))
        .with("description"@, Doc::Text("List available allowlisted targets."@))
}

/// The schema of a question for targets.
pub fn list_input() -> (result: Json)
    ensures
        result.doc() == list_input_doc(),
{
    Json::object()
        .with("$schema", Json::text("https://json-schema.org/draft/2020-12/schema"))
        .with(
            "$id",
            Json::text(
                "https://github.com/openai/tunnel-client/pkg/runtimeharpoon/list-targets-request",
            ),
        )
        .with(
            "properties",
            Json::object()
                .with(
                    "categories",
                    Json::object()
                        .with("items", Json::object().with("type", Json::text("string")))
                        .with("type", Json::text("array"))
                        .with("description", Json::text("Target categories to include.")),
                )
                .with(
                    "sources",
                    Json::object()
                        .with("items", Json::object().with("type", Json::text("string")))
                        .with("type", Json::text("array"))
                        .with("description", Json::text("Target sources to include.")),
                )
                .with(
                    "tags",
                    Json::object()
                        .with("items", Json::object().with("type", Json::text("string")))
                        .with("type", Json::text("array"))
                        .with(
                            "description",
                            Json::text("Target tags to include (all tags must match)."),
                        ),
                ),
        )
        .with("additionalProperties", Json::Bool(false))
        .with("type", Json::text("object"))
        .with("title", Json::text("List Harpoon targets"))
        .with("description", Json::text("List available allowlisted targets."))
}

/// The schema of what every target has.
pub open spec fn exact_entry_doc() -> Doc {
    Doc::object()
        .with(
            "label"@,
            Doc::object()
                .with("type"@, Doc::Text("string"@))
                .with("maxLength"@, Doc::number(64))
                .with("minLength"@, Doc::number(1))
                .with("pattern"@, Doc::Text("^[a-z0-9][a-z0-9_-]{0,63}$"@))
                .with("description"@, Doc::Text("Target label."@)),
        )
        .with(
            "description"@,
            Doc::object()
                .with("type"@, Doc::Text("string"@))
                .with("description"@, Doc::Text("Target description."@)),
        )
        .with(
            "category"@,
            Doc::object()
                .with("type"@, Doc::Text("string"@))
                .with("description"@, Doc::Text("Target category."@)),
        )
        .with(
            "source"@,
            Doc::object()
                .with("type"@, Doc::Text("string"@))
                .with("description"@, Doc::Text("Target source."@)),
        )
        .with(
            "tags"@,
            Doc::object()
                .with("items"@, Doc::object().with("type"@, Doc::Text("string"@)))
                .with("type"@, Doc::Text("array"@))
                .with("description"@, Doc::Text("Target tags."@)),
        )
        .with(
            "allowed_methods"@,
            Doc::object()
                .with(
                    "items"@,
                    Doc::object()
                        .with("type"@, Doc::Text("string"@))
                        .with("enum"@, json::texts(seq!["GET"@, "POST"@, "PUT"@])),
                )
                .with("type"@, Doc::Text("array"@))
                .with("description"@, Doc::Text("HTTP methods permitted for this target"@)),
        )
}

/// The schema of what every target has.
pub fn exact_entry() -> (result: Json)
    ensures
        result.doc() == exact_entry_doc(),
{
    Json::object()
        .with(
            "label",
            Json::object()
                .with("type", Json::text("string"))
                .with("maxLength", Json::number(64))
                .with("minLength", Json::number(1))
                .with("pattern", Json::text("^[a-z0-9][a-z0-9_-]{0,63}$"))
                .with("description", Json::text("Target label.")),
        )
        .with(
            "description",
            Json::object()
                .with("type", Json::text("string"))
                .with("description", Json::text("Target description.")),
        )
        .with(
            "category",
            Json::object()
                .with("type", Json::text("string"))
                .with("description", Json::text("Target category.")),
        )
        .with(
            "source",
            Json::object()
                .with("type", Json::text("string"))
                .with("description", Json::text("Target source.")),
        )
        .with(
            "tags",
            Json::object()
                .with("items", Json::object().with("type", Json::text("string")))
                .with("type", Json::text("array"))
                .with("description", Json::text("Target tags.")),
        )
        .with(
            "allowed_methods",
            Json::object()
                .with(
                    "items",
                    Json::object()
                        .with("type", Json::text("string"))
                        .with("enum", Json::texts3("GET", "POST", "PUT")),
                )
                .with("type", Json::text("array"))
                .with("description", Json::text("HTTP methods permitted for this target")),
        )
}

/// The schema of how a template is called.
pub open spec fn invocation_entry_doc() -> Doc {
    Doc::object()
        .with(
            "properties"@,
            Doc::object()
                .with(
                    "tool_name"@,
                    Doc::object()
                        .with("type"@, Doc::Text("string"@))
                        .with(
                            "description"@,
                            Doc::Text("MCP tool to call with arguments matching input_schema."@),
                        ),
                )
                .with(
                    "input_schema"@,
                    Doc::object()
                        .with("type"@, Doc::Text("object"@))
                        .with(
                            "description"@,
                            Doc::Text("Complete argument schema for this target"@),
                        ),
                )
                .with(
                    "examples"@,
                    Doc::object()
                        .with("items"@, Doc::object().with("type"@, Doc::Text("object"@)))
                        .with("type"@, Doc::Text("array"@))
                        .with(
                            "description"@,
                            Doc::Text(
                                "Complete validated example argument objects; omit optional call controls to use their defaults."@,
                            ),
                        ),
                ),
        )
        .with("additionalProperties"@, Doc::Bool(false))
        .with("type"@, Doc::Text("object"@))
        .with("required"@, json::texts(seq!["tool_name"@, "input_schema"@]))
        .with(
            "description"@,
            Doc::Text(
                "Self-contained template tool invocation contract; absent for exact targets."@,
            ),
        )
}

/// The schema of how a template is called.
pub fn invocation_entry() -> (result: Json)
    ensures
        result.doc() == invocation_entry_doc(),
{
    Json::object()
        .with(
            "properties",
            Json::object()
                .with(
                    "tool_name",
                    Json::object()
                        .with("type", Json::text("string"))
                        .with(
                            "description",
                            Json::text("MCP tool to call with arguments matching input_schema."),
                        ),
                )
                .with(
                    "input_schema",
                    Json::object()
                        .with("type", Json::text("object"))
                        .with("description", Json::text("Complete argument schema for this target")),
                )
                .with(
                    "examples",
                    Json::object()
                        .with("items", Json::object().with("type", Json::text("object")))
                        .with("type", Json::text("array"))
                        .with(
                            "description",
                            Json::text(
                                "Complete validated example argument objects; omit optional call controls to use their defaults.",
                            ),
                        ),
                ),
        )
        .with("additionalProperties", Json::Bool(false))
        .with("type", Json::text("object"))
        .with("required", Json::texts2("tool_name", "input_schema"))
        .with(
            "description",
            Json::text(
                "Self-contained template tool invocation contract; absent for exact targets.",
            ),
        )
}

/// The schema of what a target has.
pub open spec fn entry_doc(templates: bool) -> Doc {
    if templates {
        exact_entry_doc().with(
            "template_version"@,
            Doc::object().with("type"@, Doc::Text("integer"@)).with(
                "description"@,
                Doc::Text("Template contract version; absent for exact targets."@),
            ),
        ).with(
            "parameters_schema"@,
            Doc::object().with("type"@, Doc::Text("object"@)).with(
                "description"@,
                Doc::Text("Required string parameter schema for call_target_template."@),
            ),
        ).with("invocation"@, invocation_entry_doc())
    } else {
        exact_entry_doc()
    }
}

fn entry(templates: bool) -> (result: Json)
    ensures
        result.doc() == entry_doc(templates),
{
    if templates {
        exact_entry().with(
            "template_version",
            Json::object().with("type", Json::text("integer")).with(
                "description",
                Json::text("Template contract version; absent for exact targets."),
            ),
        ).with(
            "parameters_schema",
            Json::object().with("type", Json::text("object")).with(
                "description",
                Json::text("Required string parameter schema for call_target_template."),
            ),
        ).with("invocation", invocation_entry())
    } else {
        exact_entry()
    }
}

/// What a list of targets says of itself.
pub open spec fn list_description(templates: bool) -> Seq<char> {
    if templates {
        "Allowlisted targets: use call_target for exact targets. For entries with template_version and parameters_schema, use call_target_template with the label and all parameters declared by parameters_schema; each value must satisfy that schema."@
    } else {
        "Allowlisted targets available to call_target."@
    }
}

fn describe_list(templates: bool) -> (result: &'static str)
    ensures
        result@ == list_description(templates),
{
    if templates {
        "Allowlisted targets: use call_target for exact targets. For entries with template_version and parameters_schema, use call_target_template with the label and all parameters declared by parameters_schema; each value must satisfy that schema."
    } else {
        "Allowlisted targets available to call_target."
    }
}

/// The schema of a list of targets.
pub open spec fn list_output_doc(templates: bool) -> Doc {
    Doc::object()
        .with("$schema"@, Doc::Text("https://json-schema.org/draft/2020-12/schema"@))
        .with(
            "$id"@,
            Doc::Text(
                "https://github.com/openai/tunnel-client/pkg/runtimeharpoon/list-targets-response"@,
            ),
        )
        .with(
            "properties"@,
            Doc::object()
                .with(
                    "targets"@,
                    Doc::object()
                        .with(
                            "items"@,
                            Doc::object()
                                .with("properties"@, entry_doc(templates))
                                .with("additionalProperties"@, Doc::Bool(false))
                                .with("type"@, Doc::Text("object"@))
                                .with("required"@, json::texts(seq!["label"@, "allowed_methods"@])),
                        )
                        .with("type"@, Doc::Text("array"@))
                        .with("description"@, Doc::Text("Allowlisted targets."@)),
                ),
        )
        .with("additionalProperties"@, Doc::Bool(false))
        .with("type"@, Doc::Text("object"@))
        .with("required"@, json::texts(seq!["targets"@]))
        .with("title"@, Doc::Text("Harpoon target list"@))
        .with("description"@, Doc::Text(list_description(templates)))
}

/// The schema of a list of targets.
pub fn list_output(templates: bool) -> (result: Json)
    ensures
        result.doc() == list_output_doc(templates),
{
    Json::object()
        .with("$schema", Json::text("https://json-schema.org/draft/2020-12/schema"))
        .with(
            "$id",
            Json::text(
                "https://github.com/openai/tunnel-client/pkg/runtimeharpoon/list-targets-response",
            ),
        )
        .with(
            "properties",
            Json::object()
                .with(
                    "targets",
                    Json::object()
                        .with(
                            "items",
                            Json::object()
                                .with("properties", entry(templates))
                                .with("additionalProperties", Json::Bool(false))
                                .with("type", Json::text("object"))
                                .with("required", Json::texts2("label", "allowed_methods")),
                        )
                        .with("type", Json::text("array"))
                        .with("description", Json::text("Allowlisted targets.")),
                ),
        )
        .with("additionalProperties", Json::Bool(false))
        .with("type", Json::text("object"))
        .with("required", Json::texts1("targets"))
        .with("title", Json::text("Harpoon target list"))
        .with("description", Json::text(describe_list(templates)))
}

/// A tool.
pub open spec fn tool_doc(
    name: Seq<char>,
    title: Seq<char>,
    description: Seq<char>,
    input: Doc,
    output: Doc,
    read_only: bool,
    open_world: Option<bool>,
) -> Doc {
    let hints = Doc::object().with("readOnlyHint"@, Doc::Bool(read_only)).with(
        "idempotentHint"@,
        Doc::Bool(read_only),
    );
    Doc::object().with("name"@, Doc::Text(name)).with("title"@, Doc::Text(title)).with(
        "description"@,
        Doc::Text(description),
    ).with("inputSchema"@, input).with("outputSchema"@, output).with(
        "annotations"@,
        match open_world {
            Some(open) => hints.with("openWorldHint"@, Doc::Bool(open)),
            None => hints,
        },
    )
}

fn tool(
    name: &str,
    title: &str,
    description: &str,
    input: Json,
    output: Json,
    read_only: bool,
    open_world: Option<bool>,
) -> (result: Json)
    ensures
        result.doc() == tool_doc(
            name@,
            title@,
            description@,
            input.doc(),
            output.doc(),
            read_only,
            open_world,
        ),
{
    let hints = Json::object().with("readOnlyHint", Json::Bool(read_only)).with(
        "idempotentHint",
        Json::Bool(read_only),
    );
    let annotations = match open_world {
        Some(open) => hints.with("openWorldHint", Json::Bool(open)),
        None => hints,
    };
    Json::object().with("name", Json::text(name)).with("title", Json::text(title)).with(
        "description",
        Json::text(description),
    ).with("inputSchema", input).with("outputSchema", output).with("annotations", annotations)
}

/// The tools.
pub open spec fn tool_docs(limit: usize, redirects: usize, templates: bool) -> Seq<Doc> {
    let call = tool_doc(
        "call_target"@,
        "Call Harpoon target"@,
        "Call an allowlisted HTTP target by label."@,
        target_call_doc(limit, redirects),
        answer_doc(limit),
        false,
        Some(true),
    );
    let template = tool_doc(
        "call_target_template"@,
        "Call Harpoon target template"@,
        "Call a version-1 GET target template using only its declared string parameters and permitted headers. Discover the tool name, complete input schema, and available examples in each list_targets entry's invocation. The target fixes the destination and disables redirects."@,
        template_call_doc(limit),
        answer_doc(limit),
        true,
        None,
    );
    let audience = tool_doc(
        "get_oauth_target_audience"@,
        "Get OAuth target audience"@,
        "Resolve the exact private_key_jwt audience for an OAuth token endpoint target."@,
        audience_input_doc(),
        audience_output_doc(),
        true,
        Some(false),
    );
    let list = tool_doc(
        "list_targets"@,
        "List Harpoon targets"@,
        "List available Harpoon targets by label."@,
        list_input_doc(),
        list_output_doc(templates),
        true,
        Some(false),
    );
    if templates {
        seq![call, template, audience, list]
    } else {
        seq![call, audience, list]
    }
}

/// The answer to a question for tools.
pub open spec fn tools_doc(limit: usize, redirects: usize, templates: bool) -> Doc {
    Doc::object().with("ttlMs"@, Doc::number(0)).with("cacheScope"@, Doc::Text("public"@)).with(
        "tools"@,
        Doc::List(tool_docs(limit, redirects, templates)),
    )
}

/// The answer to a question for tools.
pub fn tools(limit: usize, redirects: usize, templates: bool) -> (result: Json)
    ensures
        result.doc() == tools_doc(limit, redirects, templates),
{
    let call = tool(
        "call_target",
        "Call Harpoon target",
        "Call an allowlisted HTTP target by label.",
        target_call(limit, redirects),
        answer(limit),
        false,
        Some(true),
    );
    let audience = tool(
        "get_oauth_target_audience",
        "Get OAuth target audience",
        "Resolve the exact private_key_jwt audience for an OAuth token endpoint target.",
        audience_input(),
        audience_output(),
        true,
        Some(false),
    );
    let list = tool(
        "list_targets",
        "List Harpoon targets",
        "List available Harpoon targets by label.",
        list_input(),
        list_output(templates),
        true,
        Some(false),
    );
    let none: Vec<Json> = Vec::new();
    assert(json::docs(none@) == Seq::<Doc>::empty());
    let mut items = Json::List(none).pushed(call);
    if templates {
        items = items.pushed(
            tool(
                "call_target_template",
                "Call Harpoon target template",
                "Call a version-1 GET target template using only its declared string parameters and permitted headers. Discover the tool name, complete input schema, and available examples in each list_targets entry's invocation. The target fixes the destination and disables redirects.",
                template_call(limit),
                answer(limit),
                true,
                None,
            ),
        );
    }
    items = items.pushed(audience).pushed(list);
    assert(items.doc()->List_0 =~= tool_docs(limit, redirects, templates));
    Json::object().with("ttlMs", Json::number(0)).with("cacheScope", Json::text("public")).with(
        "tools",
        items,
    )
}

/// The tools that are offered, in order: with templates one more.
pub proof fn lemma_tools_offered(limit: usize, redirects: usize)
    ensures
        ({
            let plain = tool_docs(limit, redirects, false);
            let rich = tool_docs(limit, redirects, true);
            &&& plain.len() == 3 && rich.len() == 4
            &&& plain[0].at("name"@) == Doc::Text("call_target"@)
            &&& plain[1].at("name"@) == Doc::Text("get_oauth_target_audience"@)
            &&& plain[2].at("name"@) == Doc::Text("list_targets"@)
            &&& rich[0].at("name"@) == Doc::Text("call_target"@)
            &&& rich[1].at("name"@) == Doc::Text("call_target_template"@)
            &&& rich[2].at("name"@) == Doc::Text("get_oauth_target_audience"@)
            &&& rich[3].at("name"@) == Doc::Text("list_targets"@)
            &&& plain[0].at("inputSchema"@) == target_call_doc(limit, redirects)
            &&& plain[0].at("outputSchema"@) == answer_doc(limit)
            &&& rich[1].at("inputSchema"@) == template_call_doc(limit)
            &&& rich[1].at("outputSchema"@) == answer_doc(limit)
            &&& plain[1].at("inputSchema"@) == audience_input_doc()
            &&& plain[1].at("outputSchema"@) == audience_output_doc()
            &&& plain[2].at("inputSchema"@) == list_input_doc()
            &&& plain[2].at("outputSchema"@) == list_output_doc(false)
            &&& rich[3].at("outputSchema"@) == list_output_doc(true)
            &&& plain[0].at("annotations"@).at("readOnlyHint"@) == Doc::Bool(false)
            &&& plain[0].at("annotations"@).at("openWorldHint"@) == Doc::Bool(true)
            &&& rich[1].at("annotations"@).at("readOnlyHint"@) == Doc::Bool(true)
            &&& rich[1].at("annotations"@).at("openWorldHint"@) == Doc::Null
            &&& plain[1].at("annotations"@).at("readOnlyHint"@) == Doc::Bool(true)
            &&& plain[1].at("annotations"@).at("openWorldHint"@) == Doc::Bool(false)
            &&& plain[2].at("annotations"@).at("readOnlyHint"@) == Doc::Bool(true)
            &&& plain[2].at("annotations"@).at("idempotentHint"@) == Doc::Bool(true)
            &&& plain[0].at("annotations"@).at("idempotentHint"@) == Doc::Bool(false)
        }),
        tools_doc(limit, redirects, false).at("tools"@) == Doc::List(tool_docs(limit, redirects, false)),
        tools_doc(limit, redirects, true).at("tools"@) == Doc::List(tool_docs(limit, redirects, true)),
        tools_doc(limit, redirects, true).at("cacheScope"@) == Doc::Text("public"@),
        tools_doc(limit, redirects, true).at("ttlMs"@) == Doc::number(0),
{
    reveal_strlit("name");
    reveal_strlit("title");
    reveal_strlit("description");
    reveal_strlit("inputSchema");
    reveal_strlit("outputSchema");
    reveal_strlit("annotations");
    reveal_strlit("readOnlyHint");
    reveal_strlit("idempotentHint");
    reveal_strlit("openWorldHint");
    reveal_strlit("ttlMs");
    reveal_strlit("cacheScope");
    reveal_strlit("tools");
    assert("name"@.len() == 4);
    assert("title"@.len() == 5 && "title"@[1] == 'i');
    assert("description"@.len() == 11 && "description"@[0] == 'd');
    assert("inputSchema"@.len() == 11 && "inputSchema"@[0] == 'i');
    assert("outputSchema"@.len() == 12 && "outputSchema"@[0] == 'o');
    assert("annotations"@.len() == 11 && "annotations"@[0] == 'a');
    assert("readOnlyHint"@.len() == 12 && "readOnlyHint"@[0] == 'r');
    assert("idempotentHint"@.len() == 14);
    assert("openWorldHint"@.len() == 13);
    assert("ttlMs"@.len() == 5 && "ttlMs"@[1] == 't');
    assert("cacheScope"@.len() == 10);
    assert("tools"@.len() == 5 && "tools"@[1] == 'o');
}

/// The bounds that a call is told: the wait, the size and the redirects.
pub proof fn lemma_bounds_told(limit: usize, redirects: usize)
    ensures
        timeout_doc().at("minimum"@) == Doc::number(100) && timeout_doc().at("maximum"@) == Doc::number(120000)
            && timeout_doc().at("default"@) == Doc::number(30000) && timeout_doc().at("type"@) == Doc::Text(
            "integer"@,
        ),
        size_doc(limit).at("minimum"@) == Doc::number(1) && size_doc(limit).at("maximum"@) == Doc::number(
            limit as nat,
        ) && size_doc(limit).at("default"@) == Doc::number(limit as nat),
        ({
            let fields = target_call_doc(limit, redirects).at("properties"@);
            &&& fields.at("max_redirects"@).at("maximum"@) == Doc::number(redirects as nat)
            &&& fields.at("max_redirects"@).at("minimum"@) == Doc::number(0)
            &&& fields.at("max_redirects"@).at("default"@) == Doc::number(redirects as nat)
            &&& fields.at("follow_redirects"@).at("default"@) == Doc::Bool(true)
            &&& fields.at("method"@).at("enum"@) == json::texts(seq!["GET"@, "POST"@, "PUT"@])
            &&& fields.at("label"@).at("maxLength"@) == Doc::number(64)
            &&& fields.at("label"@).at("minLength"@) == Doc::number(1)
            &&& fields.at("label"@).at("pattern"@) == Doc::Text("^[a-z0-9][a-z0-9_-]{0,63}$"@)
            &&& fields.at("body"@).at("type"@) == Doc::Text("string"@)
            &&& fields.at("timeout_ms"@).at("maximum"@) == Doc::number(120000)
            &&& fields.at("max_response_bytes"@).at("maximum"@) == Doc::number(limit as nat)
            &&& target_call_doc(limit, redirects).at("required"@) == json::texts(seq!["label"@, "method"@])
            &&& target_call_doc(limit, redirects).at("additionalProperties"@) == Doc::Bool(false)
        }),
{
    reveal_strlit("type");
    reveal_strlit("maximum");
    reveal_strlit("minimum");
    reveal_strlit("default");
    reveal_strlit("description");
    reveal_strlit("enum");
    reveal_strlit("maxLength");
    reveal_strlit("minLength");
    reveal_strlit("pattern");
    reveal_strlit("propertyNames");
    reveal_strlit("additionalProperties");
    assert("type"@.len() == 4 && "type"@[0] == 't');
    assert("maximum"@.len() == 7 && "maximum"@[1] == 'a' && "maximum"@[0] == 'm');
    assert("minimum"@.len() == 7 && "minimum"@[1] == 'i' && "minimum"@[0] == 'm');
    assert("default"@.len() == 7 && "default"@[0] == 'd');
    assert("description"@.len() == 11);
    assert("enum"@.len() == 4 && "enum"@[0] == 'e');
    assert("maxLength"@.len() == 9 && "maxLength"@[1] == 'a');
    assert("minLength"@.len() == 9 && "minLength"@[1] == 'i');
    assert("pattern"@.len() == 7 && "pattern"@[0] == 'p');
    assert("propertyNames"@.len() == 13);
    assert("additionalProperties"@.len() == 20);
    reveal_strlit("label");
    reveal_strlit("method");
    reveal_strlit("headers");
    reveal_strlit("body");
    reveal_strlit("timeout_ms");
    reveal_strlit("max_response_bytes");
    reveal_strlit("follow_redirects");
    reveal_strlit("max_redirects");
    assert("label"@.len() == 5);
    assert("method"@.len() == 6);
    assert("headers"@.len() == 7);
    assert("body"@.len() == 4);
    assert("timeout_ms"@.len() == 10);
    assert("max_response_bytes"@.len() == 18);
    assert("follow_redirects"@.len() == 16);
    assert("max_redirects"@.len() == 13);
    reveal_strlit("$schema");
    reveal_strlit("$id");
    reveal_strlit("properties");
    reveal_strlit("additionalProperties");
    reveal_strlit("type");
    reveal_strlit("required");
    reveal_strlit("title");
    reveal_strlit("description");
    assert("$schema"@.len() == 7);
    assert("$id"@.len() == 3);
    assert("properties"@.len() == 10);
    assert("additionalProperties"@.len() == 20);
    assert("type"@.len() == 4);
    assert("required"@.len() == 8);
    assert("title"@.len() == 5);
    assert("description"@.len() == 11);
}

/// A call of a template names its label and its parameters; an answer its status and its size.
pub proof fn lemma_other_calls_told(limit: usize)
    ensures
        ({
            let fields = template_call_doc(limit).at("properties"@);
            &&& template_call_doc(limit).at("required"@) == json::texts(seq!["label"@, "parameters"@])
            &&& template_call_doc(limit).at("additionalProperties"@) == Doc::Bool(false)
            &&& fields.at("parameters"@).at("type"@) == Doc::Text("object"@)
            &&& fields.at("timeout_ms"@) == timeout_doc()
            &&& fields.at("max_response_bytes"@) == size_doc(limit)
            &&& fields.at("headers"@) == header_doc()
            &&& fields.at("method"@) == Doc::Null
            &&& fields.at("body"@) == Doc::Null
        }),
        ({
            let fields = answer_doc(limit).at("properties"@);
            &&& answer_doc(limit).at("required"@) == json::texts(seq!["status_code"@, "body_size_bytes"@])
            &&& fields.at("status_code"@).at("minimum"@) == Doc::number(100)
            &&& fields.at("status_code"@).at("maximum"@) == Doc::number(599)
            &&& fields.at("body_size_bytes"@).at("maximum"@) == Doc::number(limit as nat)
            &&& fields.at("body_size_bytes"@).at("minimum"@) == Doc::number(0)
            &&& fields.at("body_base64"@).at("contentEncoding"@) == Doc::Text("base64"@)
            &&& fields.at("truncated"@).at("type"@) == Doc::Text("boolean"@)
        }),
{
    reveal_strlit("type");
    reveal_strlit("maximum");
    reveal_strlit("minimum");
    reveal_strlit("description");
    reveal_strlit("contentEncoding");
    assert("type"@.len() == 4);
    assert("maximum"@.len() == 7 && "maximum"@[1] == 'a');
    assert("minimum"@.len() == 7 && "minimum"@[1] == 'i');
    assert("description"@.len() == 11);
    assert("contentEncoding"@.len() == 15);
    reveal_strlit("label");
    reveal_strlit("parameters");
    reveal_strlit("headers");
    reveal_strlit("timeout_ms");
    reveal_strlit("max_response_bytes");
    reveal_strlit("status_code");
    reveal_strlit("body_base64");
    reveal_strlit("body_size_bytes");
    reveal_strlit("truncated");
    reveal_strlit("method");
    reveal_strlit("body");
    assert("label"@.len() == 5);
    assert("parameters"@.len() == 10 && "parameters"@[0] == 'p');
    assert("headers"@.len() == 7);
    assert("timeout_ms"@.len() == 10 && "timeout_ms"@[0] == 't');
    assert("max_response_bytes"@.len() == 18);
    assert("status_code"@.len() == 11 && "status_code"@[0] == 's');
    assert("body_base64"@.len() == 11 && "body_base64"@[0] == 'b');
    assert("body_size_bytes"@.len() == 15);
    assert("truncated"@.len() == 9);
    assert("method"@.len() == 6);
    assert("body"@.len() == 4);
    reveal_strlit("$schema");
    reveal_strlit("$id");
    reveal_strlit("properties");
    reveal_strlit("additionalProperties");
    reveal_strlit("type");
    reveal_strlit("required");
    reveal_strlit("title");
    reveal_strlit("description");
    assert("$schema"@.len() == 7);
    assert("$id"@.len() == 3);
    assert("properties"@.len() == 10);
    assert("additionalProperties"@.len() == 20);
    assert("type"@.len() == 4);
    assert("required"@.len() == 8);
    assert("title"@.len() == 5);
    assert("description"@.len() == 11);
}

/// What the two other tools take and tell.
pub proof fn lemma_other_tools_told()
    ensures
        audience_input_doc().at("required"@) == json::texts(seq!["label"@]),
        audience_output_doc().at("required"@) == json::texts(seq!["audience"@]),
        audience_output_doc().at("properties"@).at("audience"@).at("format"@) == Doc::Text("uri"@),
        audience_input_doc().at("properties"@).at("label"@).at("maxLength"@) == Doc::number(64),
        list_input_doc().at("properties"@).at("categories"@).at("type"@) == Doc::Text("array"@),
        list_input_doc().at("properties"@).at("sources"@).at("type"@) == Doc::Text("array"@),
        list_input_doc().at("properties"@).at("tags"@).at("type"@) == Doc::Text("array"@),
        list_input_doc().at("required"@) == Doc::Null,
        list_output_doc(true).at("required"@) == json::texts(seq!["targets"@]),
        entry_doc(false) == exact_entry_doc(),
        entry_doc(true).at("invocation"@) == invocation_entry_doc(),
        entry_doc(true).at("template_version"@).at("type"@) == Doc::Text("integer"@),
        entry_doc(true).at("parameters_schema"@).at("type"@) == Doc::Text("object"@),
        entry_doc(true).at("label"@) == entry_doc(false).at("label"@),
        entry_doc(true).at("allowed_methods"@) == entry_doc(false).at("allowed_methods"@),
        invocation_entry_doc().at("required"@) == json::texts(seq!["tool_name"@, "input_schema"@]),
{
    reveal_strlit("type");
    reveal_strlit("format");
    reveal_strlit("description");
    reveal_strlit("maxLength");
    reveal_strlit("minLength");
    reveal_strlit("pattern");
    reveal_strlit("items");
    assert("type"@.len() == 4);
    assert("format"@.len() == 6);
    assert("description"@.len() == 11);
    assert("maxLength"@.len() == 9 && "maxLength"@[1] == 'a');
    assert("minLength"@.len() == 9 && "minLength"@[1] == 'i');
    assert("pattern"@.len() == 7);
    assert("items"@.len() == 5);
    reveal_strlit("label");
    reveal_strlit("audience");
    reveal_strlit("categories");
    reveal_strlit("sources");
    reveal_strlit("tags");
    reveal_strlit("targets");
    reveal_strlit("category");
    reveal_strlit("source");
    reveal_strlit("allowed_methods");
    reveal_strlit("template_version");
    reveal_strlit("parameters_schema");
    reveal_strlit("invocation");
    reveal_strlit("tool_name");
    reveal_strlit("input_schema");
    reveal_strlit("examples");
    assert("label"@.len() == 5);
    assert("audience"@.len() == 8 && "audience"@[0] == 'a');
    assert("categories"@.len() == 10 && "categories"@[0] == 'c');
    assert("sources"@.len() == 7 && "sources"@[0] == 's');
    assert("tags"@.len() == 4);
    assert("targets"@.len() == 7 && "targets"@[0] == 't');
    assert("category"@.len() == 8 && "category"@[0] == 'c');
    assert("source"@.len() == 6);
    assert("allowed_methods"@.len() == 15);
    assert("template_version"@.len() == 16);
    assert("parameters_schema"@.len() == 17);
    assert("invocation"@.len() == 10 && "invocation"@[0] == 'i');
    assert("tool_name"@.len() == 9);
    assert("input_schema"@.len() == 12);
    assert("examples"@.len() == 8 && "examples"@[0] == 'e');
    reveal_strlit("$schema");
    reveal_strlit("$id");
    reveal_strlit("properties");
    reveal_strlit("additionalProperties");
    reveal_strlit("type");
    reveal_strlit("required");
    reveal_strlit("title");
    reveal_strlit("description");
    assert("$schema"@.len() == 7);
    assert("$id"@.len() == 3);
    assert("properties"@.len() == 10);
    assert("additionalProperties"@.len() == 20);
    assert("type"@.len() == 4);
    assert("required"@.len() == 8);
    assert("title"@.len() == 5);
    assert("description"@.len() == 11);
}

} // verus!
