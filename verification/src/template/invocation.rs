//! How a template tells a caller to call it.

use vstd::prelude::*;
use crate::table::strings_of;
use crate::json::{self, Doc, Json};
use crate::table::{self, Table};
use crate::template::body::{BodyRules, CompiledBodyPolicy};
use crate::template::parameter::{Parameter, ParameterView};
use crate::template::rules::{public_of, Rule};
use crate::template::Template;
use crate::{header, text};

verus! {

/// What the schema of a call says of itself.
pub open spec fn call_description(method: Seq<char>) -> Seq<char> {
    "Arguments for this fixed-origin HTTPS "@ + method
        + " operation. Supply raw parameter values without URL encoding; the client renders them. The method, path structure, and query names are fixed. Redirects are disabled. GET rejects bodies; writes enforce the advertised body policy and are never automatically replayed."@
}

/// A string that can have one value.
pub open spec fn constant(value: Doc) -> Doc {
    Doc::object().with("type"@, Doc::Text("string"@)).with("const"@, value)
}

fn constant_json(value: Json) -> (result: Json)
    ensures
        result.doc() == constant(value.doc()),
{
    Json::object().with("type", Json::text("string")).with("const", value)
}

/// The document of a text that is there or not.
pub open spec fn optional_text(value: Option<Seq<char>>) -> Doc {
    match value {
        Some(inner) => Doc::Text(inner),
        None => Doc::Null,
    }
}

fn optional_json(value: &Option<String>) -> (result: Json)
    ensures
        result.doc() == optional_text(text::view_of(*value)),
{
    match value {
        Some(inner) => Json::text(inner),
        None => Json::Null,
    }
}

impl BodyRules {
    /// The schema of a body.
    pub open spec fn body_schema(self) -> Doc {
        let limit = Doc::number(self.max_bytes as nat);
        let base = Doc::object().with("type"@, Doc::Text("string"@)).with(
            "maxLength"@,
            limit,
        ).with("x-maxBytes"@, limit).with(
            "description"@,
            Doc::Text(
                "Raw UTF-8 body. x-maxBytes is an enforced byte limit; maxLength is a character limit. All configured JSON, full-string pattern, and exact raw-string enum checks must pass."@,
            ),
        );
        let sized = base.with_if(self.required, "minLength"@, Doc::number(1));
        let typed = sized.with_if(
            self.validation.json,
            "contentMediaType"@,
            Doc::Text("application/json"@),
        );
        let matched = typed.with_if(
            self.validation.pattern.len() > 0,
            "pattern"@,
            Doc::Text("^(?:"@ + self.validation.pattern + ")$"@),
        ).with_if(
            self.validation.pattern.len() > 0,
            "not"@,
            Doc::object().with("pattern"@, Doc::Text("[^ -~]"@)),
        );
        matched.with_if(
            self.validation.values.len() > 0,
            "enum"@,
            json::texts(text::sorted_of(self.validation.values)),
        )
    }
}

fn body_schema(policy: &CompiledBodyPolicy) -> (result: Json)
    ensures
        result.doc() == policy.rules().body_schema(),
{
    let values = text::sorted(&policy.validation.values);
    proof {
        text::lemma_sorted(policy.rules().validation.values);
        assert(text::views(values@).len() == values@.len());
    }
    let pattern = &policy.validation.pattern;
    let base = Json::object().with("type", Json::text("string")).with(
        "maxLength",
        Json::number(policy.max_bytes as u64),
    ).with("x-maxBytes", Json::number(policy.max_bytes as u64)).with(
        "description",
        Json::text(
            "Raw UTF-8 body. x-maxBytes is an enforced byte limit; maxLength is a character limit. All configured JSON, full-string pattern, and exact raw-string enum checks must pass.",
        ),
    );
    let sized = base.with_if(policy.required, "minLength", Json::number(1));
    let typed = sized.with_if(
        policy.validation.json,
        "contentMediaType",
        Json::text("application/json"),
    );
    let matched = typed.with_if(
        !pattern.is_empty(),
        "pattern",
        Json::text(&text::cat3("^(?:", pattern, ")$")),
    ).with_if(
        !pattern.is_empty(),
        "not",
        Json::object().with("pattern", Json::text("[^ -~]")),
    );
    matched.with_if(values.len() > 0, "enum", Json::texts(&values))
}

/// The first string of a list in order, if any.
pub open spec fn least(items: Seq<Seq<char>>) -> Option<Seq<char>> {
    if items.len() == 0 {
        None
    } else {
        Some(text::sorted_of(items)[0])
    }
}

fn least_of(items: &Vec<String>) -> (result: Option<String>)
    ensures
        text::view_of(result) == least(text::views(items@)),
{
    if items.len() == 0 {
        return None;
    }
    let all = text::sorted(items);
    proof {
        text::lemma_sorted(text::views(items@));
        assert(text::views(all@).len() == all@.len());
        assert(text::views(all@)[0] == all@[0]@);
    }
    Some(all[0].clone())
}

impl ParameterView {
    /// A value to show, if there is one.
    pub open spec fn example(self) -> Option<Seq<char>> {
        if self.examples.len() > 0 {
            Some(self.examples[0])
        } else {
            least(self.values)
        }
    }
}

fn parameter_example(parameter: &Parameter) -> (result: Option<String>)
    ensures
        text::view_of(result) == parameter@.example(),
{
    if parameter.examples.len() > 0 {
        assert(text::views(parameter.examples@)[0] == parameter.examples@[0]@);
        Some(parameter.examples[0].clone())
    } else {
        least_of(&parameter.values)
    }
}

/// What a call of a template shows as an example of a body.
#[verifier::ext_equal]
pub struct ExampleBody {
    pub body: Option<Seq<char>>,
    pub content_type: Option<Seq<char>>,
}

impl Template {
    /// The value to show for the parameter at an index.
    pub open spec fn example_at(self, at: int) -> Option<Seq<char>> {
        self.parameters.values()[at].definition@.example()
    }

    /// Whether there is a value to show for each parameter.
    pub open spec fn has_examples(self) -> bool {
        forall|i: int|
            0 <= i < self.parameters.keys().len() ==> (#[trigger] self.example_at(i)) is Some
    }

    /// The values to show.
    pub open spec fn example_values(self) -> Map<Seq<char>, Seq<char>> {
        Map::new(
            |name: Seq<char>| self.parameters@.dom().contains(name),
            |name: Seq<char>| self.parameters@[name].definition@.example()->0,
        )
    }

    /// The document of the values to show.
    pub open spec fn example_doc(self, count: int) -> Doc {
        let values = self.parameters.values();
        json::object_of(
            self.parameters.keys(),
            count,
            |i: int| Doc::Text(values[i].definition@.example()->0),
        )
    }

    fn example_parameters(&self) -> (result: Option<(Table<String>, Json)>)
        ensures
            match result {
                Some((table, doc)) => self.has_examples() && strings_of(table@)
                    == self.example_values() && table.keys() == self.parameters.keys() && doc.doc()
                    == self.example_doc(self.parameters.keys().len() as int),
                None => !self.has_examples(),
            },
    {
        let count: usize = self.parameters.len();
        let ghost keys = self.parameters.keys();
        let mut entries: Vec<(String, String)> = Vec::new();
        let mut doc = Json::object();
        let mut index: usize = 0;
        while index < count
            invariant
                index <= count,
                count == keys.len(),
                keys == self.parameters.keys(),
                table::ascending(keys),
                entries@.len() == index,
                forall|i: int|
                    0 <= i < index ==> (#[trigger] entries@[i]).0@ == keys[i] && self.example_at(i)
                        == Some(entries@[i].1@),
                doc.doc() == self.example_doc(index as int),
            decreases count - index,
        {
            match parameter_example(&self.parameters.value(index).definition) {
                None => {
                    assert(self.example_at(index as int) is None);
                    return None;
                },
                Some(value) => {
                    let name = self.parameters.key(index);
                    assert(self.example_at(index as int) == Some(value@));
                    doc = doc.with(name, Json::text(&value));
                    entries.push((name.clone(), value));
                },
            }
            index = index + 1;
        }
        proof {
            assert(table::entry_keys(entries@) =~= keys);
            assert forall|i: int| 0 <= i < keys.len() implies (#[trigger] self.example_at(i)) is Some by {
                assert(entries@[i].0@ == keys[i]);
            }
        }
        let ghost all = entries@;
        let table = Table::from_sorted(entries);
        proof {
            table.lemma_entries();
            self.parameters.lemma_entries();
            let left = strings_of(table@);
            let right = self.example_values();
            assert forall|name: Seq<char>| left.dom().contains(name) == right.dom().contains(name) by {
                assert(table@.dom().contains(name) <==> table.keys().contains(name));
                assert(self.parameters@.dom().contains(name) <==> keys.contains(name));
            }
            assert forall|name: Seq<char>| #[trigger] left.dom().contains(name) implies left[name]
                == right[name] by {
                assert(table.keys().contains(name));
                let i = choose|i: int| 0 <= i < keys.len() && keys[i] == name;
                assert(table@[table.keys()[i]] == table.values()[i]);
                assert(self.parameters@[keys[i]] == self.parameters.values()[i]);
                assert(table.values()[i] == all[i].1);
                assert(self.example_at(i) == Some(all[i].1@));
            }
            assert(left =~= right);
        }
        Some((table, doc))
    }

    /// The body to show: none for a read, the first listed body in order for a write, or nothing
    /// where a write needs a body and none is listed.
    pub open spec fn example_body(self) -> Option<ExampleBody> {
        match self.body_policy {
            None => Some(ExampleBody { body: None, content_type: None }),
            Some(policy) => if policy.rules().validation.values.len() > 0 {
                Some(
                    ExampleBody {
                        body: least(policy.rules().validation.values),
                        content_type: least(policy.rules().content_types),
                    },
                )
            } else if policy.required {
                None
            } else {
                Some(ExampleBody { body: None, content_type: None })
            },
        }
    }

    /// The operation that an example of a call gives.
    pub open spec fn example_operation(self) -> Option<Seq<char>> {
        if self.body_policy is Some {
            text::view_of(self.operation)
        } else {
            None
        }
    }

    /// Whether an example of a call is shown: there is one, and it makes a request.
    pub open spec fn shows_example(self) -> bool {
        &&& !self.needs_headers()
        &&& self.has_examples()
        &&& self.example_body() matches Some(body) && self.request_accepted(
            self.example_values(),
            self.parameters.keys().len() as int,
            header::no_entries(),
            self.example_operation(),
            body.body,
            body.content_type,
        )
    }

    /// The example of a call.
    pub open spec fn example_call(self, label: Seq<char>) -> Doc {
        let base = Doc::object().with("label"@, Doc::Text(label)).with(
            "parameters"@,
            self.example_doc(self.parameters.keys().len() as int),
        );
        let body = self.example_body()->0;
        base.with_if(
            self.body_policy is Some,
            "operation"@,
            optional_text(text::view_of(self.operation)),
        ).with_if(body.body is Some, "body"@, optional_text(body.body)).with_if(
            body.content_type is Some,
            "content_type"@,
            optional_text(body.content_type),
        )
    }

    /// Whether some caller header has to be there.
    pub open spec fn needs_headers(self) -> bool {
        self.required_names(self.header_rules.keys().len() as int).len() > 0
    }

    /// The caller headers that have to be there, among the first rules.
    pub open spec fn required_names(self, count: int) -> Seq<Seq<char>>
        decreases count,
    {
        if count <= 0 {
            Seq::empty()
        } else {
            let rest = self.required_names(count - 1);
            let rule = self.header_rules.values()[count - 1];
            if rule.schema.required {
                rest.push(rule.schema.name@)
            } else {
                rest
            }
        }
    }

    /// The schemas of the caller headers.
    pub open spec fn header_properties(self, count: int) -> Doc {
        let values = self.header_rules.values();
        json::object_of(self.header_rules.keys(), count, |i: int| public_of(values[i].schema@))
    }

    /// The schema of the caller headers.
    pub open spec fn headers_schema(self) -> Doc {
        let count = self.header_rules.keys().len() as int;
        let base = Doc::object().with("type"@, Doc::Text("object"@)).with(
            "properties"@,
            self.header_properties(count),
        ).with("additionalProperties"@, Doc::Bool(false)).with(
            "maxProperties"@,
            Doc::number(32),
        ).with(
            "description"@,
            Doc::Text(
                "Caller headers using the advertised spelling; runtime names are case-insensitive. Values must be valid UTF-8 without control characters. Pattern-bearing rules require printable ASCII; length bounds count Unicode code points. The client also enforces an 8192-byte total header budget including managed headers."@,
            ),
        );
        base.with_if(!self.needs_headers(), "default"@, Doc::object()).with_if(
            self.needs_headers(),
            "required"@,
            json::texts(self.required_names(count)),
        )
    }

    fn header_schema(&self) -> (result: (Json, bool))
        ensures
            result.0.doc() == self.headers_schema(),
            result.1 == self.needs_headers(),
    {
        let count: usize = self.header_rules.len();
        let mut names: Vec<String> = Vec::new();
        let mut properties = Json::object();
        let mut index: usize = 0;
        while index < count
            invariant
                index <= count,
                count == self.header_rules.keys().len(),
                properties.doc() == self.header_properties(index as int),
                text::views(names@) == self.required_names(index as int),
            decreases count - index,
        {
            let rule: &Rule = self.header_rules.value(index);
            properties = properties.with(self.header_rules.key(index), rule.public());
            if rule.schema.required {
                let own = rule.schema.name.clone();
                assert(text::views(names@.push(own)) == text::views(names@).push(own@));
                names.push(own);
            }
            index = index + 1;
        }
        assert(text::views(names@).len() == names@.len());
        let needed = names.len() > 0;
        let base = Json::object().with("type", Json::text("object")).with(
            "properties",
            properties,
        ).with("additionalProperties", Json::Bool(false)).with(
            "maxProperties",
            Json::number(32),
        ).with(
            "description",
            Json::text(
                "Caller headers using the advertised spelling; runtime names are case-insensitive. Values must be valid UTF-8 without control characters. Pattern-bearing rules require printable ASCII; length bounds count Unicode code points. The client also enforces an 8192-byte total header budget including managed headers.",
            ),
        );
        let result = base.with_if(!needed, "default", Json::object()).with_if(
            needed,
            "required",
            Json::texts(&names),
        );
        (result, needed)
    }

    /// The properties of a call.
    pub open spec fn call_properties(self, label: Seq<char>, properties: Doc) -> Doc {
        let named = properties.with("label"@, constant(Doc::Text(label))).with(
            "parameters"@,
            self.schema_doc(),
        );
        let bodied = match self.body_policy {
            Some(policy) => named.with(
                "operation"@,
                constant(optional_text(text::view_of(self.operation))),
            ).with("body"@, policy.rules().body_schema()).with(
                "content_type"@,
                Doc::object().with("type"@, Doc::Text("string"@)).with(
                    "enum"@,
                    json::texts(text::sorted_of(policy.rules().content_types)),
                ),
            ),
            None => named.without("operation"@).without("body"@).without("content_type"@),
        };
        bodied.with("headers"@, self.headers_schema())
    }

    /// What a call has to give.
    pub open spec fn call_required(self, required: Doc) -> Doc {
        let bodied = match self.body_policy {
            Some(policy) => {
                let named = required.pushed(Doc::Text("operation"@));
                if policy.required {
                    named.pushed(Doc::Text("body"@)).pushed(Doc::Text("content_type"@))
                } else {
                    named
                }
            },
            None => required,
        };
        if self.needs_headers() {
            bodied.pushed(Doc::Text("headers"@))
        } else {
            bodied
        }
    }

    /// The schema of a call, made from the schema of the tool.
    pub open spec fn call_schema(self, label: Seq<char>, schema: Doc) -> Doc {
        let base = schema.without("$id"@).without("title"@);
        base.with("properties"@, self.call_properties(label, base.at("properties"@))).with(
            "required"@,
            self.call_required(base.at("required"@)),
        ).with("description"@, Doc::Text(call_description(self.method@))).with_if(
            self.body_policy is Some,
            "dependentRequired"@,
            Doc::object().with("body"@, json::texts(seq!["content_type"@])).with(
                "content_type"@,
                json::texts(seq!["body"@]),
            ),
        )
    }

    /// How a caller calls the template.
    pub open spec fn invocation_doc(self, label: Seq<char>, schema: Doc) -> Doc {
        Doc::object().with("tool_name"@, Doc::Text("call_target"@)).with(
            "input_schema"@,
            self.call_schema(label, schema),
        ).with_if(
            self.shows_example(),
            "examples"@,
            Doc::List(seq![self.example_call(label)]),
        )
    }

    fn example(&self, label: &str, needed: bool) -> (result: Option<Json>)
        requires
            self.wf(),
            needed == self.needs_headers(),
        ensures
            match result {
                Some(doc) => self.shows_example() && doc.doc() == self.example_call(label@),
                None => !self.shows_example(),
            },
    {
        if needed {
            return None;
        }
        let (parameters, shown) = match self.example_parameters() {
            Some(pair) => pair,
            None => {
                return None;
            },
        };
        let mut operation: Option<&str> = None;
        let mut body: Option<String> = None;
        let mut content_type: Option<String> = None;
        if let Some(policy) = &self.body_policy {
            operation = match &self.operation {
                Some(name) => Some(name),
                None => None,
            };
            assert(text::views(policy.validation.values@).len() == policy.validation.values@.len());
            if policy.validation.values.len() > 0 {
                body = least_of(&policy.validation.values);
                content_type = least_of(&policy.content_types);
            } else if policy.required {
                return None;
            }
        }
        let given_body: Option<&str> = match &body {
            Some(value) => Some(value),
            None => None,
        };
        let given_type: Option<&str> = match &content_type {
            Some(value) => Some(value),
            None => None,
        };
        let count: usize = parameters.len();
        if self.request(&parameters, &header::empty(), operation, given_body, given_type).is_err() {
            proof {
                self.lemma_not_both(
                    strings_of(parameters@),
                    count as int,
                    header::no_entries(),
                    self.example_operation(),
                    text::view_of(body),
                    text::view_of(content_type),
                );
            }
            return None;
        }
        let base = Json::object().with("label", Json::text(label)).with("parameters", shown);
        Some(
            base.with_if(
                self.body_policy.is_some(),
                "operation",
                optional_json(&self.operation),
            ).with_if(body.is_some(), "body", optional_json(&body)).with_if(
                content_type.is_some(),
                "content_type",
                optional_json(&content_type),
            ),
        )
    }

    /// How a caller calls the template, made from the schema of the tool.
    pub fn invocation(&self, label: &str, schema: Json) -> (result: Json)
        requires
            self.wf(),
            schema.doc() is Object,
            schema.doc().at("properties"@) is Object,
            schema.doc().at("required"@) is List,
        ensures
            result.doc() == self.invocation_doc(label@, schema.doc()),
    {
        let base = schema.without("$id").without("title");
        proof {
            reveal_strlit("$id");
            reveal_strlit("title");
            reveal_strlit("properties");
            reveal_strlit("required");
        }
        let mut properties = match base.get("properties") {
            Some(inner) => json::copy(inner),
            None => Json::Null,
        };
        let mut required = match base.get("required") {
            Some(inner) => json::copy(inner),
            None => Json::Null,
        };
        properties = properties.with("label", constant_json(Json::text(label))).with(
            "parameters",
            self.schema(),
        );
        let mut dependent = Json::object();
        if let Some(policy) = &self.body_policy {
            let canonical = policy.canonical();
            properties = properties.with(
                "operation",
                constant_json(optional_json(&self.operation)),
            ).with("body", body_schema(policy)).with(
                "content_type",
                Json::object().with("type", Json::text("string")).with(
                    "enum",
                    Json::texts(&canonical.content_types),
                ),
            );
            required = required.pushed(Json::text("operation"));
            if policy.required {
                required = required.pushed(Json::text("body")).pushed(Json::text("content_type"));
            }
            let mut with_type: Vec<String> = Vec::new();
            with_type.push("content_type".to_owned());
            let mut with_body: Vec<String> = Vec::new();
            with_body.push("body".to_owned());
            proof {
                assert(text::views(with_type@) =~= seq!["content_type"@]);
                assert(text::views(with_body@) =~= seq!["body"@]);
            }
            dependent = dependent.with("body", Json::texts(&with_type)).with(
                "content_type",
                Json::texts(&with_body),
            );
        } else {
            properties = properties.without("operation").without("body").without("content_type");
        }
        let (headers, needed) = self.header_schema();
        properties = properties.with("headers", headers);
        if needed {
            required = required.pushed(Json::text("headers"));
        }
        assert(properties.doc() == self.call_properties(
            label@,
            schema.doc().without("$id"@).without("title"@).at("properties"@),
        ));
        assert(required.doc() == self.call_required(
            schema.doc().without("$id"@).without("title"@).at("required"@),
        ));
        let description = text::cat3(
            "Arguments for this fixed-origin HTTPS ",
            &self.method,
            " operation. Supply raw parameter values without URL encoding; the client renders them. The method, path structure, and query names are fixed. Redirects are disabled. GET rejects bodies; writes enforce the advertised body policy and are never automatically replayed.",
        );
        let call = base.with("properties", properties).with("required", required).with(
            "description",
            Json::text(&description),
        ).with_if(self.body_policy.is_some(), "dependentRequired", dependent);
        let result = Json::object().with("tool_name", Json::text("call_target")).with(
            "input_schema",
            call,
        );
        match self.example(label, needed) {
            None => result,
            Some(shown) => {
                let mut list: Vec<Json> = Vec::new();
                proof {
                    json::lemma_docs_push(list@, shown);
                    assert(json::docs(list@) == Seq::<Doc>::empty());
                }
                list.push(shown);
                assert(json::docs(list@) =~= seq![self.example_call(label@)]);
                result.with("examples", Json::List(list))
            },
        }
    }

    proof fn lemma_not_both(
        self,
        values: Map<Seq<char>, Seq<char>>,
        count: int,
        caller: Map<Seq<char>, Seq<Seq<u8>>>,
        operation: Option<Seq<char>>,
        body: Option<Seq<char>>,
        content_type: Option<Seq<char>>,
    )
        ensures
            forall|reason: Seq<char>| #[trigger]
                self.request_refused(values, count, caller, operation, body, content_type, reason)
                    ==> !self.request_accepted(
                    values,
                    count,
                    caller,
                    operation,
                    body,
                    content_type,
                ),
    {
    }
}

/// The schema of a body tells its bounds.
pub proof fn lemma_body_schema(rules: BodyRules)
    ensures
        ({
            let doc = rules.body_schema();
            &&& doc.at("type"@) == Doc::Text("string"@)
            &&& doc.at("maxLength"@) == Doc::number(rules.max_bytes as nat)
            &&& doc.at("x-maxBytes"@) == Doc::number(rules.max_bytes as nat)
            &&& rules.required ==> doc.at("minLength"@) == Doc::number(1)
            &&& !rules.required ==> doc.at("minLength"@) == Doc::Null
            &&& rules.validation.json ==> doc.at("contentMediaType"@) == Doc::Text("application/json"@)
            &&& !rules.validation.json ==> doc.at("contentMediaType"@) == Doc::Null
            &&& rules.validation.pattern.len() > 0 ==> doc.at("pattern"@) == Doc::Text(
                "^(?:"@ + rules.validation.pattern + ")$"@,
            ) && doc.at("not"@).at("pattern"@) == Doc::Text("[^ -~]"@)
            &&& rules.validation.pattern.len() == 0 ==> doc.at("pattern"@) == Doc::Null
            &&& rules.validation.values.len() > 0 ==> doc.at("enum"@) == json::texts(
                text::sorted_of(rules.validation.values),
            )
            &&& rules.validation.values.len() == 0 ==> doc.at("enum"@) == Doc::Null
        }),
{
    reveal_strlit("type");
    reveal_strlit("maxLength");
    reveal_strlit("x-maxBytes");
    reveal_strlit("description");
    reveal_strlit("minLength");
    reveal_strlit("contentMediaType");
    reveal_strlit("pattern");
    reveal_strlit("not");
    reveal_strlit("enum");
    assert("type"@.len() == 4 && "type"@[0] == 't');
    assert("maxLength"@.len() == 9 && "maxLength"@[1] == 'a');
    assert("x-maxBytes"@.len() == 10);
    assert("description"@.len() == 11);
    assert("minLength"@.len() == 9 && "minLength"@[1] == 'i');
    assert("contentMediaType"@.len() == 16);
    assert("pattern"@.len() == 7);
    assert("not"@.len() == 3);
    assert("enum"@.len() == 4 && "enum"@[0] == 'e');
}

/// The example of a parameter is the first that is given, or else the least that is accepted.
pub proof fn lemma_examples(parameter: ParameterView, items: Seq<Seq<char>>)
    ensures
        parameter.examples.len() > 0 ==> parameter.example() == Some(parameter.examples[0]),
        parameter.examples.len() == 0 && parameter.values.len() > 0 ==> parameter.example() == Some(
            text::sorted_of(parameter.values)[0],
        ),
        parameter.examples.len() == 0 && parameter.values.len() == 0 ==> parameter.example() is None,
        items.len() == 0 ==> least(items) is None,
        items.len() > 0 ==> least(items) == Some(text::sorted_of(items)[0]),
{
}

/// An example holds a body only where the policy lists what it may be; without such a list a body that is required has
/// no example.
pub proof fn lemma_example_body(template: Template)
    ensures
        template.body_policy is None ==> template.example_body() == Some(
            ExampleBody { body: None, content_type: None },
        ),
        template.body_policy matches Some(policy) ==> {
            &&& policy.rules().validation.values.len() > 0 ==> (template.example_body() matches Some(found)
                && found.body == Some(text::sorted_of(policy.rules().validation.values)[0]))
            &&& policy.rules().validation.values.len() == 0 && policy.required ==> template.example_body() is None
            &&& policy.rules().validation.values.len() == 0 && !policy.required ==> template.example_body()
                == Some(ExampleBody { body: None, content_type: None })
        },
        template.shows_example() ==> !template.needs_headers() && template.example_body() is Some,
        template.body_policy is Some ==> template.example_operation() == text::view_of(template.operation),
        template.body_policy is None ==> template.example_operation() is None,
{
}

/// The headers that are required are those of the rules that say so.
pub proof fn lemma_required_headers(template: Template, count: int, at: int)
    requires
        0 <= count <= template.header_rules.keys().len(),
        template.header_rules.keys().len() == template.header_rules.values().len(),
    ensures
        0 <= at < count && template.header_rules.values()[at].schema.required ==> template.required_names(
            count,
        ).contains(template.header_rules.values()[at].schema.name@),
        (forall|i: int| 0 <= i < count ==> !(#[trigger] template.header_rules.values()[i]).schema.required)
            ==> template.required_names(count).len() == 0,
    decreases count,
{
    if count > 0 {
        lemma_required_headers(template, count - 1, at);
        let before = template.required_names(count - 1);
        let all = template.required_names(count);
        let rule = template.header_rules.values()[count - 1];
        if 0 <= at < count && template.header_rules.values()[at].schema.required {
            let name = template.header_rules.values()[at].schema.name@;
            if at < count - 1 {
                let i = choose|i: int| 0 <= i < before.len() && before[i] == name;
                assert(all[i] == name);
            } else {
                assert(all[all.len() - 1] == name);
            }
        }
    }
}

/// What a call may name: its label, its parameters and its headers always, and the operation and the body of one that
/// writes.
pub proof fn lemma_call_fields(template: Template, label: Seq<char>, map: Map<Seq<char>, Doc>)
    ensures
        ({
            let doc = template.call_properties(label, Doc::Object(map));
            &&& doc.at("label"@).at("const"@) == Doc::Text(label)
            &&& doc.at("parameters"@) == template.schema_doc()
            &&& doc.at("headers"@) == template.headers_schema()
            &&& template.body_policy is None ==> doc.at("operation"@) == Doc::Null && doc.at("body"@) == Doc::Null
                && doc.at("content_type"@) == Doc::Null
            &&& template.body_policy matches Some(policy) ==> {
                &&& doc.at("operation"@).at("const"@) == match text::view_of(template.operation) {
                    Some(name) => Doc::Text(name),
                    None => Doc::Null,
                }
                &&& doc.at("body"@) == policy.rules().body_schema()
                &&& doc.at("content_type"@).at("enum"@) == json::texts(
                    text::sorted_of(policy.rules().content_types),
                )
            }
        }),
{
    reveal_strlit("label");
    reveal_strlit("parameters");
    reveal_strlit("operation");
    reveal_strlit("body");
    reveal_strlit("content_type");
    reveal_strlit("headers");
    assert("label"@.len() == 5);
    assert("parameters"@.len() == 10);
    assert("operation"@.len() == 9);
    assert("body"@.len() == 4);
    assert("content_type"@.len() == 12);
    assert("headers"@.len() == 7);
    reveal_strlit("type");
    reveal_strlit("const");
    reveal_strlit("enum");
    assert("type"@.len() == 4 && "type"@[0] == 't');
    assert("const"@.len() == 5);
    assert("enum"@.len() == 4 && "enum"@[0] == 'e');
}

/// What a call must name.
pub proof fn lemma_call_needs(template: Template, items: Seq<Doc>)
    ensures
        template.body_policy is None && !template.needs_headers() ==> template.call_required(Doc::List(items))
            == Doc::List(items),
        template.body_policy is None && template.needs_headers() ==> template.call_required(Doc::List(items))
            == Doc::List(items.push(Doc::Text("headers"@))),
        template.body_policy matches Some(policy) ==> {
            &&& policy.required && !template.needs_headers() ==> template.call_required(Doc::List(items))
                == Doc::List(
                items.push(Doc::Text("operation"@)).push(Doc::Text("body"@)).push(Doc::Text("content_type"@)),
            )
            &&& !policy.required && !template.needs_headers() ==> template.call_required(Doc::List(items))
                == Doc::List(items.push(Doc::Text("operation"@)))
        },
{
}

/// How a template is called: with which tool, with what, and with an example where there is one.
pub proof fn lemma_invocation_told(template: Template, label: Seq<char>, schema: Doc)
    ensures
        ({
            let doc = template.invocation_doc(label, schema);
            &&& doc.at("tool_name"@) == Doc::Text("call_target"@)
            &&& doc.at("input_schema"@) == template.call_schema(label, schema)
            &&& template.shows_example() ==> doc.at("examples"@) == Doc::List(
                seq![template.example_call(label)],
            )
            &&& !template.shows_example() ==> doc.at("examples"@) == Doc::Null
        }),
        template.example_call(label).at("label"@) == Doc::Text(label),
        template.body_policy is None ==> template.example_call(label).at("operation"@) == Doc::Null,
{
    reveal_strlit("tool_name");
    reveal_strlit("input_schema");
    reveal_strlit("examples");
    assert("tool_name"@.len() == 9);
    assert("input_schema"@.len() == 12);
    assert("examples"@.len() == 8);
    reveal_strlit("label");
    reveal_strlit("parameters");
    reveal_strlit("operation");
    reveal_strlit("body");
    reveal_strlit("content_type");
    assert("label"@.len() == 5);
    assert("parameters"@.len() == 10);
    assert("operation"@.len() == 9);
    assert("body"@.len() == 4);
    assert("content_type"@.len() == 12);
}

} // verus!
