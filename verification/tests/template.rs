use otunnel::config::reference::Sources;
use otunnel::harpoon::schema;
use otunnel::header::Headers;
use otunnel::json;
use otunnel::table::Table;
use otunnel::template::body::{BodyPolicy, BodyValidation, CompiledBodyPolicy};
use otunnel::template::parameter::{Constraint, Parameter};
use otunnel::template::policy;
use otunnel::template::rules::{self, Header, HeaderRule, HeaderValidation};
use otunnel::template::syntax;
use otunnel::template::{Definition, Part, Template};

fn list(items: &[&str]) -> Vec<String> {
    items.iter().map(|item| item.to_string()).collect()
}

fn table(entries: &[(&str, &str)]) -> Table<String> {
    let mut table = Table::new();
    for (key, value) in entries {
        table = table.insert(key.to_string(), value.to_string());
    }
    table
}

fn headers(entries: &[(&'static str, &str)]) -> Headers {
    let mut map: Headers = http::HeaderMap::default();
    for (name, value) in entries {
        map.append(*name, value.as_bytes().to_vec());
    }
    map
}

fn sources() -> Sources {
    Sources { variables: table(&[("TOKEN", "secret")]), files: Table::new() }
}

fn parameter() -> Parameter {
    Parameter {
        kind: "string".to_owned(),
        required: true,
        description: String::new(),
        examples: list(&["ab"]),
        pattern: "[a-z]+".to_owned(),
        values: Vec::new(),
        min_length: 0,
        max_length: 8,
        reserved_values: list(&["Admin"]),
    }
}

fn definition() -> Definition {
    Definition {
        version: 1,
        origin: "https://api.example".to_owned(),
        method: "GET".to_owned(),
        body_policy: None,
        path_template: "/v1/{id}".to_owned(),
        query: table(&[("q", "a b"), ("r", "{id}")]),
        parameters: Table::new().insert("id".to_owned(), parameter()),
        headers: table(&[("Authorization", "env:TOKEN")]),
        allowed_headers: Some(vec![HeaderRule::Name("X-Mine".to_owned())]),
        header_rules: None,
        follow_redirects: false,
    }
}

fn body_policy() -> BodyPolicy {
    BodyPolicy {
        content_types: list(&["text/plain", "application/json"]),
        max_bytes: 16,
        required: Some(true),
        validation: Some(BodyValidation { json: true, pattern: String::new(), values: Vec::new() }),
    }
}

fn writing() -> Definition {
    let mut given = definition();
    given.method = "POST".to_owned();
    given.body_policy = Some(body_policy());
    given
}

fn rule(name: &str) -> Header {
    Header {
        name: name.to_owned(),
        description: "it".to_owned(),
        required: true,
        credential: false,
        forward_as: String::new(),
        validation: None,
    }
}

fn credential() -> Header {
    Header {
        credential: true,
        validation: Some(HeaderValidation {
            pattern: "[a-z]+".to_owned(),
            values: None,
            min_length: Some(1),
            max_length: Some(4),
        }),
        ..rule("Authorization")
    }
}

fn compiled(rules: Vec<HeaderRule>) -> Option<String> {
    rules::compile(&rules, &headers(&[("x-fixed", "1")]), false).err()
}

#[test]
fn templates_render_requests() {
    let template = Template::new(&definition(), &sources()).expect("template");
    assert_eq!(template.method(), definition().method);
    let request = template
        .request(&table(&[("id", "ab")]), &headers(&[("x-mine", "m")]), None, None, None)
        .expect("request");
    assert_eq!(request.url, "https://api.example/v1/ab?q=a+b&r=ab");
    assert_eq!(request.headers.get("authorization"), Some(&b"secret".to_vec()));
    assert_eq!(request.headers.get("x-mine"), Some(&b"m".to_vec()));
    assert_eq!(request.headers.get("user-agent"), Some(&b"otunnel/0.1.0".to_vec()));
    assert_eq!(request.headers.keys_len(), 3);
    assert!(request.body.is_empty());
}

#[test]
fn requests_stay_within_their_template() {
    let template = Template::new(&definition(), &sources()).expect("template");
    let fault = |values: &[(&str, &str)], map: Headers| {
        template.request(&table(values), &map, None, None, None).err()
    };
    assert_eq!(
        fault(&[], headers(&[])),
        Some("template parameter keys must match the declared schema".to_owned())
    );
    assert_eq!(
        fault(&[("x", "ab")], headers(&[])),
        Some("parameter id must be a string".to_owned())
    );
    assert_eq!(fault(&[("id", "..")], headers(&[])), Some("parameter id".to_owned()));
    assert_eq!(
        fault(&[("id", "ab")], headers(&[("x-other", "1")])),
        Some("caller header is not permitted by the target".to_owned())
    );
    assert_eq!(
        fault(&[("id", "ab")], headers(&[("x-mine", "1"), ("x-mine", "2")])),
        Some("duplicate caller header name".to_owned())
    );
    assert_eq!(
        template.request(&table(&[("id", "ab")]), &headers(&[]), Some("x"), None, None).err(),
        Some("GET templates do not accept a write operation".to_owned())
    );
    assert_eq!(
        template.request(&table(&[("id", "ab")]), &headers(&[]), None, Some("x"), None).err(),
        Some("template GET requests cannot contain body or content_type arguments".to_owned())
    );
}

#[test]
fn definitions_are_checked() {
    let fault = |change: fn(&mut Definition)| {
        let mut given = definition();
        change(&mut given);
        Template::new(&given, &sources()).err()
    };
    assert_eq!(
        fault(|given| given.origin = "https://a/%".to_owned()),
        Some("invalid template HTTPS origin".to_owned())
    );
    assert_eq!(
        fault(|given| given.origin = "http://a".to_owned()),
        Some("template origin must contain only an HTTPS scheme, host, and optional port".to_owned())
    );
    assert_eq!(
        fault(|given| given.parameters = Table::new()),
        Some("template must declare 1 to 16 parameters".to_owned())
    );
    assert_eq!(
        fault(|given| given.path_template = "v1".to_owned()),
        Some("template path must be absolute and bounded".to_owned())
    );
    assert_eq!(
        fault(|given| given.path_template = "/a b/{id}".to_owned()),
        Some("template path contains an invalid literal segment".to_owned())
    );
    assert_eq!(
        fault(|given| given.path_template = "/x{id}".to_owned()),
        Some("placeholder must occupy an entire path segment or query value".to_owned())
    );
    assert_eq!(
        fault(|given| given.path_template = "/{no}".to_owned()),
        Some("template uses an undeclared parameter".to_owned())
    );
    assert_eq!(
        fault(|given| given.header_rules = Some(Vec::new())),
        Some("header_rules and allowed_headers cannot be combined".to_owned())
    );
    assert_eq!(
        fault(|given| given.body_policy = Some(body_policy())),
        Some("template GET cannot configure a body policy".to_owned())
    );
    assert!(fault(|given| given.follow_redirects = true).is_some());
    assert!(fault(|given| given.version = 2).is_some());
    let mut unknown = definition();
    unknown.headers = table(&[("Authorization", "env:NONE")]);
    assert!(Template::new(&unknown, &sources()).is_err());
    assert_eq!(unknown.validate(&sources()), Ok(()));
}

#[test]
fn policies_go_by_the_method() {
    let template = Template::new(&writing(), &sources()).expect("template");
    assert!(template.body_policy.is_some());
    assert!(template.operation.is_some());
    let read = Template::new(&definition(), &sources()).expect("template");
    assert!(read.body_policy.is_none());
    assert!(read.operation.is_none());
    assert_ne!(read.digest, template.digest);
    assert_eq!(read.digest.len(), 64);
}

#[test]
fn writes_name_their_operation() {
    let template = Template::new(&writing(), &sources()).expect("template");
    let values = table(&[("id", "ab")]);
    let operation = template.operation.clone();
    assert_eq!(
        template.request(&values, &headers(&[]), Some("x"), None, None).err(),
        Some("write operation must match the discovered invocation schema".to_owned())
    );
    let request = template
        .request(&values, &headers(&[]), operation.as_deref(), Some("[1]"), Some("application/json"))
        .expect("request");
    assert_eq!(request.body, b"[1]".to_vec());
    assert_eq!(request.headers.get("content-type"), Some(&b"application/json".to_vec()));
}

#[test]
fn bodies_are_checked() {
    let compiled = CompiledBodyPolicy::new("POST", Some(&body_policy()))
        .expect("policy")
        .expect("policy");
    let fault = |body: Option<&str>, kind: Option<&str>| compiled.validate(body, kind).err();
    assert_eq!(fault(Some("[1]"), Some("text/plain")), None);
    assert_eq!(
        fault(None, None),
        Some("template body and content_type must be supplied together".to_owned())
    );
    assert_eq!(
        fault(Some("1"), Some("text/html")),
        Some("template content type is not permitted".to_owned())
    );
    assert_eq!(
        fault(Some("[1,2,3,4,5,6,7,8,9]"), Some("text/plain")),
        Some("template body violates its byte limit or required-body policy".to_owned())
    );
    assert_eq!(
        fault(Some("{"), Some("text/plain")),
        Some("template body must be valid JSON".to_owned())
    );
    assert_eq!(compiled.canonical().content_types, list(&["application/json", "text/plain"]));
}

#[test]
fn body_policies_are_checked() {
    let fault = |change: fn(&mut BodyPolicy)| {
        let mut given = body_policy();
        change(&mut given);
        CompiledBodyPolicy::new("PUT", Some(&given)).err()
    };
    assert_eq!(
        CompiledBodyPolicy::new("PUT", None).err(),
        Some("template writes require an explicit body policy".to_owned())
    );
    assert_eq!(
        fault(|given| given.required = None),
        Some("template writes require an explicit required setting".to_owned())
    );
    assert_eq!(
        fault(|given| given.validation = None),
        Some("template writes require explicit body validation".to_owned())
    );
    assert_eq!(
        fault(|given| given.max_bytes = 0),
        Some("template body byte limit must be within 1 to 102400".to_owned())
    );
    assert_eq!(
        fault(|given| given.content_types.clear()),
        Some("template body policy must allow 1 to 16 content types".to_owned())
    );
    assert_eq!(
        fault(|given| given.content_types[0] = "nothing".to_owned()),
        Some("invalid template content type".to_owned())
    );
    assert_eq!(
        fault(|given| given.content_types[0] = "text/*".to_owned()),
        Some("template content types must be canonical media types without parameters or wildcards".to_owned())
    );
    assert_eq!(
        fault(|given| given.content_types.push("text/plain".to_owned())),
        Some("duplicate template content type".to_owned())
    );
    let validate = |json: bool, pattern: &str, values: &[&str]| {
        let mut given = body_policy();
        given.validation = Some(BodyValidation { json, pattern: pattern.to_owned(), values: list(values) });
        CompiledBodyPolicy::new("PUT", Some(&given)).err()
    };
    assert_eq!(
        validate(false, "", &[]),
        Some("template body policy requires JSON, pattern, or enum validation".to_owned())
    );
    assert_eq!(
        validate(false, "a", &[]),
        Some("JSON content types require JSON body validation".to_owned())
    );
    assert_eq!(
        validate(true, "", &["{"]),
        Some("template body enum violates body policy or size limits".to_owned())
    );
    assert_eq!(
        validate(true, "", &["1", "1"]),
        Some("duplicate template body enum value".to_owned())
    );
    assert_eq!(validate(true, "[0-9]+", &["1", "22"]), None);
}

#[test]
fn parameters_are_segments() {
    let constraint = Constraint::new(parameter()).expect("constraint");
    let fault = |value: &str| constraint.validate(value).err();
    assert_eq!(fault("abc"), None);
    assert_eq!(fault(""), Some("identifier length is outside its bounds".to_owned()));
    assert_eq!(
        fault("a/b"),
        Some("identifier contains forbidden characters or path segments".to_owned())
    );
    assert_eq!(fault("ADMIN"), Some("identifier is reserved".to_owned()));
    assert_eq!(fault("a1"), Some("identifier does not match its pattern".to_owned()));
    let mut listed = parameter();
    listed.values = list(&["ab", "cd"]);
    let constraint = Constraint::new(listed).expect("constraint");
    assert_eq!(constraint.validate("cd"), Ok(()));
    assert_eq!(
        constraint.validate("ef").err(),
        Some("identifier is outside its enum".to_owned())
    );
}

#[test]
fn parameters_are_checked() {
    let fault = |change: fn(&mut Parameter)| {
        let mut given = parameter();
        change(&mut given);
        Constraint::new(given).err()
    };
    assert_eq!(
        fault(|given| given.kind = "number".to_owned()),
        Some("only required string parameters are supported".to_owned())
    );
    assert_eq!(
        fault(|given| given.max_length = 257),
        Some("length bounds must be within 1 to 256".to_owned())
    );
    assert_eq!(
        fault(|given| given.pattern.clear()),
        Some("a pattern or enum is required".to_owned())
    );
    assert_eq!(
        fault(|given| given.pattern = "(".to_owned()),
        Some("invalid parameter pattern".to_owned())
    );
    assert_eq!(
        fault(|given| given.reserved_values.push("admin".to_owned())),
        Some("duplicate reserved identifier".to_owned())
    );
    assert_eq!(
        fault(|given| given.reserved_values.push("/".to_owned())),
        Some("invalid reserved identifier".to_owned())
    );
    assert_eq!(
        fault(|given| given.examples.push("1".to_owned())),
        Some("example value violates parameter constraints".to_owned())
    );
    assert_eq!(
        fault(|given| given.examples.push("ab".to_owned())),
        Some("duplicate example identifier".to_owned())
    );
    assert_eq!(
        fault(|given| given.description = "x".repeat(1025)),
        Some("parameter description exceeds 1024 bytes".to_owned())
    );
}

#[test]
fn patterns_are_plain() {
    let fault = |value: &str| syntax::validate_pattern(value).err();
    assert_eq!(fault("a\\d(?:b|c)[^x]"), None);
    assert_eq!(fault("\u{e9}"), Some("parameter pattern must contain only printable ASCII".to_owned()));
    assert_eq!(fault("\\b"), Some("parameter pattern uses an unsupported escape".to_owned()));
    assert_eq!(fault("(?i)"), Some("parameter pattern uses unsupported group syntax".to_owned()));
    assert_eq!(
        fault("[[:alpha:]]"),
        Some("parameter pattern cannot use POSIX character classes".to_owned())
    );
    assert_eq!(
        fault("[]a]"),
        Some("parameter pattern must escape an initial closing bracket in a character class".to_owned())
    );
    let body = |value: &str| syntax::validate_body_pattern(value).err();
    assert_eq!(body("[a-z]{1,3}\\."), None);
    assert_eq!(body("."), Some("body patterns cannot use wildcard dots".to_owned()));
    assert_eq!(
        body("[^a]"),
        Some("body patterns cannot use nested or negated classes".to_owned())
    );
    assert_eq!(
        body("a{01}"),
        Some("body patterns must escape literal opening braces".to_owned())
    );
    assert_eq!(
        body("a{1,02}"),
        Some("body patterns cannot use leading zeros in repetition bounds".to_owned())
    );
    assert_eq!(
        body("a{1"),
        Some("body patterns require valid repetition bounds".to_owned())
    );
    assert_eq!(body("a}"), Some("body patterns must escape literal closing braces".to_owned()));
    assert_eq!(body("]"), Some("body patterns must escape literal closing brackets".to_owned()));
    assert_eq!(
        body("^*"),
        Some("body patterns cannot quantify anchors directly".to_owned())
    );
    assert_eq!(
        body("\\d"),
        Some("body patterns require explicit ASCII classes and escaped syntax punctuation".to_owned())
    );
    assert_eq!(syntax::compile_pattern("[a&&b]"), Some("\\A(?:[a\\x26\\x26b])\\z".to_owned()));
    assert_eq!(syntax::compile_pattern("[a"), None);
}

#[test]
fn rules_are_checked() {
    assert_eq!(compiled(vec![HeaderRule::Rule(rule("X-Own"))]), None);
    assert_eq!(
        compiled(vec![HeaderRule::Name("X-Own".to_owned()), HeaderRule::Name("x-own".to_owned())]),
        Some("duplicate template caller header name".to_owned())
    );
    assert_eq!(
        compiled(vec![HeaderRule::Rule(rule("X-Tunnel-A"))]),
        Some("reserved transport or identity header cannot be a runtime rule".to_owned())
    );
    assert_eq!(
        compiled(vec![HeaderRule::Name("X-Fixed".to_owned())]),
        Some("template caller header conflicts with a fixed header".to_owned())
    );
    assert_eq!(
        compiled(vec![HeaderRule::Name("Host".to_owned())]),
        Some("invalid or forbidden template header name".to_owned())
    );
    let mut bare = rule("X-Own");
    bare.description.clear();
    assert_eq!(
        compiled(vec![HeaderRule::Rule(bare)]),
        Some("template header rules require a bounded nonempty description".to_owned())
    );
    let mut first = rule("X-A");
    first.forward_as = "X-B".to_owned();
    assert_eq!(
        compiled(vec![HeaderRule::Rule(first), HeaderRule::Rule(rule("X-B"))]),
        Some("duplicate template outgoing header name".to_owned())
    );
    let write = rules::compile(&vec![HeaderRule::Name("Content-Type".to_owned())], &headers(&[]), true);
    assert_eq!(
        write.err(),
        Some("template writes require the body policy content type and unencoded body bytes".to_owned())
    );
}

#[test]
fn credentials_need_a_rule() {
    assert_eq!(
        compiled(vec![HeaderRule::Name("Authorization".to_owned())]),
        Some("template authentication headers must be fixed by the operator or explicitly supported by a credential rule".to_owned())
    );
    assert_eq!(compiled(vec![HeaderRule::Rule(credential())]), None);
    let mut free = credential();
    free.validation = None;
    assert_eq!(
        compiled(vec![HeaderRule::Rule(free)]),
        Some("template credential rules require positive length bounds and a pattern".to_owned())
    );
    let mut other = credential();
    other.name = "X-Plain".to_owned();
    assert_eq!(
        compiled(vec![HeaderRule::Rule(other)]),
        Some("template credential rule must use a supported credential header".to_owned())
    );
}

#[test]
fn rules_check_values() {
    let table = rules::compile(&vec![HeaderRule::Rule(credential())], &headers(&[]), false)
        .expect("rules");
    let made = table.get("Authorization").expect("rule");
    assert_eq!(made.validate("abc"), Ok(()));
    assert_eq!(
        made.validate("abcde").err(),
        Some("caller header length is outside its bounds".to_owned())
    );
    assert_eq!(
        made.validate("ab1").err(),
        Some("caller header does not match its pattern".to_owned())
    );
    assert_eq!(made.validate("\n").err(), Some("invalid caller header value".to_owned()));
    let shown = json::write(made.public());
    assert!(shown.contains("^(?:[a-z]+)$"));
}

#[test]
fn missing_headers_are_told() {
    let mut given = definition();
    given.headers = Table::new();
    given.allowed_headers = None;
    given.header_rules = Some(vec![HeaderRule::Rule(rule("X-Own"))]);
    assert!(given.rich());
    let template = Template::new(&given, &sources()).expect("template");
    assert!(template.rich());
    assert_eq!(
        template.caller_headers(&headers(&[])).err(),
        Some("header_required: required caller header is missing".to_owned())
    );
    assert_eq!(
        template.caller_headers(&headers(&[("x-no", "1")])).err(),
        Some("header_not_allowed: caller header is not permitted by the target".to_owned())
    );
}

#[test]
fn schemas_tell_how_to_call() {
    let template = Template::new(&writing(), &sources()).expect("template");
    let told = json::write(template.schema());
    assert!(told.contains("\"id\""));
    let shown = json::write(template.invocation("mine", schema::template_call(1024)));
    assert!(shown.contains("mine"));
}

#[test]
fn policies_have_digests() {
    assert_eq!(policy::encode("<&>"), "\\u003c\\u0026\\u003e");
    assert_eq!(
        policy::identity("abc"),
        "ba7816bf8f01cfea414140de5dae2223b00361a396177a9cb410ff61f20015ad"
    );
    let constraints = Table::new();
    assert!(matches!(Part::parse("plain", &constraints), Ok(Part::Literal(value)) if value == "plain"));
    assert_eq!(
        Part::parse("{1}", &constraints).err(),
        Some("invalid template placeholder".to_owned())
    );
}

#[test]
fn checks_read_no_references() {
    let given = definition();
    let none = Sources { variables: Table::new(), files: Table::new() };
    assert_eq!(given.validate(&sources()), given.validate(&none));
    assert!(Template::new(&given, &none).is_err());
    for value in ["ENV:UNSET", " Env:UNSET ", "FILE:/nowhere", "env:UNSET", "file:/nowhere"] {
        let mut capital = definition();
        capital.headers = table(&[("Authorization", value)]);
        assert_eq!(capital.validate(&none), Ok(()));
        assert!(Template::new(&capital, &none).is_err());
    }
}

#[test]
fn values_do_not_change_the_destination() {
    let template = Template::new(&definition(), &sources()).expect("template");
    let request = template
        .request(&table(&[("id", "ab")]), &headers(&[]), None, None, None)
        .expect("request");
    let url = otunnel::address::parse(&request.url).expect("URL");
    assert_eq!(url.host.as_deref(), Some("api.example"));
    assert_eq!(url.path, "/v1/ab");
    assert_eq!(url.query.as_deref(), Some("q=a+b&r=ab"));
    for value in ["a/b", "a?b", "a#b", "..", "%2e", "a\\b", "a@b"] {
        assert!(template.request(&table(&[("id", value)]), &headers(&[]), None, None, None).is_err());
    }
}
