use otunnel::config::reference::Sources;
use otunnel::config::settings;
use otunnel::harpoon::call::{self, Call};
use otunnel::harpoon::forward::{self, Step, Tool};
use otunnel::harpoon::headers as rules;
use otunnel::harpoon::label;
use otunnel::harpoon::metrics as measured;
use otunnel::harpoon::policy;
use otunnel::harpoon::registry::Harpoon;
use otunnel::harpoon::schema;
use otunnel::harpoon::targets::{self, Filter};
use otunnel::header::Headers;
use otunnel::json::{self, Json};
use otunnel::metrics::Metrics;
use otunnel::protocol::Request;
use otunnel::table::Table;
use otunnel::template::parameter::Parameter;
use otunnel::template::rules::{Header, HeaderRule};
use otunnel::template::Definition;

fn list(items: &[&str]) -> Vec<String> {
    items.iter().map(|item| item.to_string()).collect()
}

fn table(entries: &[(&str, &str)]) -> Table<String> {
    let mut table = Table::new();
    for (key, value) in entries {
        table = table.insert(key.to_string(), value.to_string());
    }
    table
}

fn headers(entries: &[(&'static str, &str)]) -> Headers {
    let mut map: Headers = http::HeaderMap::default();
    for (name, value) in entries {
        map.append(*name, value.as_bytes().to_vec());
    }
    map
}

fn sources() -> Sources {
    Sources { variables: table(&[("KEY", "k")]), files: Table::new() }
}

fn target(label: &str, url: &str) -> settings::Target {
    let mut target = settings::Target::default();
    target.label = label.to_owned();
    target.url = url.to_owned();
    target
}

fn templated(label: &str) -> settings::Target {
    let mut given = target(label, "");
    given.template = Some(Definition {
        version: 1,
        origin: "https://t.example".to_owned(),
        method: "GET".to_owned(),
        body_policy: None,
        path_template: "/{id}".to_owned(),
        query: Table::new(),
        parameters: Table::new().insert(
            "id".to_owned(),
            Parameter {
                kind: "string".to_owned(),
                required: true,
                description: String::new(),
                examples: Vec::new(),
                pattern: "[a-z]+".to_owned(),
                values: Vec::new(),
                min_length: 1,
                max_length: 8,
                reserved_values: Vec::new(),
            },
        ),
        headers: Table::new(),
        allowed_headers: None,
        header_rules: Some(vec![HeaderRule::Rule(Header {
            name: "X-Own".to_owned(),
            description: "own".to_owned(),
            required: false,
            credential: false,
            forward_as: String::new(),
            validation: None,
        })]),
        follow_redirects: false,
    });
    given
}

fn harpoon() -> Harpoon {
    let mut harpoon = Harpoon::new(settings::Harpoon::default(), vec![7; 32]).expect("targets");
    harpoon.register(&target("a", "https://a.example/x"), &sources()).expect("target");
    harpoon.register(&target("b", "https://b.example/y"), &sources()).expect("target");
    harpoon.register(&templated("t"), &sources()).expect("target");
    harpoon
}

fn plain_call(label: &str) -> Call {
    Call {
        label: label.to_owned(),
        method: "post".to_owned(),
        headers: table(&[("Authorization", "s"), ("Host", "no"), ("X-A", "1")]),
        body: "body".to_owned(),
        timeout_ms: None,
        max_response_bytes: None,
        follow_redirects: None,
        max_redirects: None,
    }
}

fn request(message: &str) -> Request {
    Request { message: message.to_owned(), headers: headers(&[]) }
}

#[test]
fn targets_are_registered() {
    let mut harpoon = harpoon();
    assert_eq!(harpoon.len(), 3);
    assert!(!harpoon.is_empty());
    assert!(harpoon.has_templates());
    let fault = |harpoon: &mut Harpoon, given: settings::Target| harpoon.register(&given, &sources()).err();
    assert_eq!(
        fault(&mut harpoon, target("a", "https://c.example/")),
        Some("duplicate Harpoon target a".to_owned())
    );
    assert_eq!(
        fault(&mut harpoon, target("A!", "https://c.example/")),
        Some("invalid Harpoon target label".to_owned())
    );
    assert_eq!(
        fault(&mut harpoon, target("c", "http://c.example/")),
        Some("Harpoon target base URL must use https".to_owned())
    );
    assert_eq!(
        fault(&mut harpoon, target("c", "ftp://c.example/")),
        Some("Harpoon targets must use HTTP or HTTPS".to_owned())
    );
    assert_eq!(
        fault(&mut harpoon, target("c", "https://c.example/%252e%252e/")),
        Some("target URL contains invalid path segments".to_owned())
    );
    let mut other = target("c", "https://A.example/x");
    other.unix_socket = Some("/s".to_owned());
    assert_eq!(
        fault(&mut harpoon, other),
        Some("duplicate Harpoon target URL uses a different transport".to_owned())
    );
    let mut both = templated("u");
    both.url = "https://u.example".to_owned();
    assert_eq!(
        fault(&mut harpoon, both),
        Some("Harpoon target cannot combine a template with an exact URL or socket".to_owned())
    );
    assert_eq!(harpoon.target(" b ").map(|found| found.url.text.clone()), Ok("https://b.example/y".to_owned()));
    assert_eq!(harpoon.target("z").err(), Some("unknown target".to_owned()));
    assert_eq!(harpoon.destination("https://B.example/y"), Ok(1));
    assert_eq!(harpoon.destination("https://b.example/z").err(), Some("redirect blocked".to_owned()));
}

#[test]
fn labels_are_short() {
    let harpoon = harpoon();
    assert_eq!(harpoon.label("a"), Ok("a-1".to_owned()));
    assert_eq!(harpoon.label("new"), Ok("new".to_owned()));
    let long = "x".repeat(70);
    assert_eq!(label::make_candidate(&long, 0).len(), 64);
    assert_eq!(label::make_candidate(&long, 12), format!("{}-12", "x".repeat(61)));
    assert!(label::valid_label("a_b-1"));
    assert!(!label::valid_label("-a"));
    assert_eq!(
        label::url_key("HTTPS://u@Host/Path?Q"),
        Ok("https://u@host/Path?Q".to_owned())
    );
    assert_eq!(
        label::url_key("nothing").err(),
        Some("target URL must include scheme and host".to_owned())
    );
}

#[test]
fn hosts_are_private() {
    let mut config = settings::Harpoon::default();
    config.hosts_include_loopback = true;
    config.hosts_include_suffix = list(&[".corp.example"]);
    config.hosts_include_regex = list(&["^db[0-9]+$"]);
    let harpoon = Harpoon::new(config, vec![0; 32]).expect("targets");
    let private = |url: &str| harpoon.private(&otunnel::address::parse(url).expect("URL"));
    assert!(private("http://localhost/"));
    assert!(private("http://[::1]/"));
    assert!(private("http://x.corp.example/"));
    assert!(private("http://DB12/"));
    assert!(!private("http://8.8.8.8/"));
    assert!(!private("http://corp.example.org/"));
    let mut config = settings::Harpoon::default();
    config.hosts_include_regex = list(&["("]);
    assert_eq!(
        Harpoon::new(config, vec![0; 32]).err(),
        Some("invalid harpoon host regex \"(\"".to_owned())
    );
}

#[test]
fn calls_are_prepared() {
    let harpoon = harpoon();
    let outgoing = harpoon.prepare(&plain_call(" a "), None).expect("request");
    assert_eq!(outgoing.method, "POST");
    assert_eq!(outgoing.url.text, "https://a.example/x");
    assert_eq!(outgoing.body, b"body".to_vec());
    assert_eq!(outgoing.limit, 102400);
    assert!(!outgoing.headers.contains_key("host"));
    assert_eq!(outgoing.headers.get("x-a"), Some(&b"1".to_vec()));
    assert_eq!(outgoing.headers.get("user-agent"), Some(&b"otunnel/0.1.0".to_vec()));
    let fault = |change: fn(&mut Call)| {
        let mut given = plain_call("a");
        change(&mut given);
        harpoon.prepare(&given, None).err()
    };
    assert_eq!(fault(|given| given.label.clear()), Some("label is required".to_owned()));
    assert_eq!(fault(|given| given.label = "z".to_owned()), Some("unknown target".to_owned()));
    assert_eq!(fault(|given| given.method = "a b".to_owned()), Some("invalid HTTP method".to_owned()));
    assert_eq!(fault(|given| given.method = "DELETE".to_owned()), Some("invalid method".to_owned()));
    assert_eq!(
        fault(|given| given.max_response_bytes = Some(0)),
        Some("max_response_bytes must be positive".to_owned())
    );
    assert_eq!(
        fault(|given| given.max_response_bytes = Some(102401)),
        Some("max_response_bytes must be less than or equal to 102400".to_owned())
    );
    assert_eq!(
        fault(|given| given.max_redirects = Some(-1)),
        Some("max_redirects must be non-negative".to_owned())
    );
    assert_eq!(
        fault(|given| given.max_response_bytes = Some(3)),
        Some("request body exceeds size limit".to_owned())
    );
    assert_eq!(
        fault(|given| given.label = "t".to_owned()),
        Some("template target requires call_target_template".to_owned())
    );
    assert_eq!(call::timeout(None), Ok(30000));
    assert_eq!(call::timeout(Some(0)).err(), Some("timeout must be positive".to_owned()));
    assert_eq!(call::timeout(Some(99)).err(), Some("timeout must be at least 100ms".to_owned()));
    assert_eq!(call::timeout(Some(120001)).err(), Some("timeout must be at most 120000ms".to_owned()));
}

#[test]
fn templates_are_called() {
    let harpoon = harpoon();
    assert_eq!(call::template_arguments(10, "t"), Ok(()));
    assert_eq!(
        call::template_arguments(32769, "t").err(),
        Some("label unknown: invalid template arguments".to_owned())
    );
    let given = call::template_call("t".to_owned(), table(&[("X-Own", "o")]), None, None);
    let outgoing = harpoon.prepare(&given, Some(&table(&[("id", "ab")]))).expect("request");
    assert_eq!(outgoing.url.text, "https://t.example/ab");
    assert!(!outgoing.redirects(302, true));
    assert!(!outgoing.exact);
    let twice = call::template_call("t".to_owned(), table(&[("X-Own", "o"), ("x-own", "p")]), None, None);
    assert_eq!(
        harpoon.prepare(&twice, Some(&table(&[("id", "ab")]))).err(),
        Some("duplicate caller header name".to_owned())
    );
}

#[test]
fn redirects_stay_among_targets() {
    let harpoon = harpoon();
    let outgoing = || harpoon.prepare(&plain_call("a"), None).expect("request");
    assert!(outgoing().redirects(302, true));
    assert!(!outgoing().redirects(302, false));
    let next = outgoing().redirect(&harpoon, 302, &b"https://b.example/y".to_vec()).expect("request");
    assert_eq!(next.method, "GET");
    assert_eq!(next.target, 1);
    assert_eq!(next.hop, 1);
    assert!(next.body.is_empty());
    assert!(!next.headers.contains_key("authorization"));
    assert_eq!(next.headers.get("referer"), Some(&b"https://a.example/x".to_vec()));
    let mut secret = outgoing();
    secret.url = otunnel::address::parse("https://u:p@a.example/x").expect("URL");
    let next = secret.redirect(&harpoon, 302, &b"https://b.example/y".to_vec()).expect("request");
    assert_eq!(next.headers.get("referer"), Some(&b"https://a.example/x".to_vec()));
    let next = outgoing().redirect(&harpoon, 307, &b"/x".to_vec()).expect("request");
    assert_eq!(next.method, "POST");
    assert!(next.headers.contains_key("authorization"));
    assert_eq!(
        outgoing().redirect(&harpoon, 302, &b"/elsewhere".to_vec()).err(),
        Some("redirect blocked".to_owned())
    );
    assert_eq!(
        outgoing().redirect(&harpoon, 302, &vec![0xff]).err(),
        Some("redirect blocked: failed to convert header to a str".to_owned())
    );
    let mut none = plain_call("a");
    none.max_redirects = Some(0);
    let last = harpoon.prepare(&none, None).expect("request");
    assert_eq!(
        last.redirect(&harpoon, 302, &b"/x".to_vec()).err(),
        Some("redirect limit exceeded".to_owned())
    );
}

#[test]
fn answers_are_bounded() {
    let harpoon = harpoon();
    let outgoing = harpoon.prepare(&plain_call("a"), None).expect("request");
    assert_eq!(outgoing.take_part(102399, 1), Ok(102400));
    assert_eq!(
        outgoing.take_part(102400, 1).err(),
        Some("response exceeds size limit".to_owned())
    );
}

#[test]
fn answers_name_targets() {
    let harpoon = harpoon();
    let map = headers(&[("location", "<https://b.example/y> and https://c.example/"), ("x-b", "https://b.example/y")]);
    let body = br#"{"next":"https://b.example/y","other":"https://c.example/"}"#.to_vec();
    let answer = harpoon.answer(true, 200, &map, body).expect("answer");
    assert_eq!(answer.headers.get("Location"), Some(&list(&["<harpoon://b> and https://c.example/"])));
    assert_eq!(answer.headers.get("X-B"), Some(&list(&["https://b.example/y"])));
    assert_eq!(answer.body_size_bytes, 51);
    assert_eq!(
        answer.body_base64,
        "eyJuZXh0IjoiaGFycG9vbjovL2IiLCJvdGhlciI6Imh0dHBzOi8vYy5leGFtcGxlLyJ9"
    );
    let plain = harpoon.answer(false, 204, &headers(&[]), Vec::new()).expect("answer");
    assert_eq!(json::write(plain.short()), r#"{"body_size_bytes":0,"status_code":204}"#);
    assert_eq!(
        json::write(plain.full()),
        r#"{"body_base64":"","body_size_bytes":0,"headers":{},"status_code":204,"truncated":false}"#
    );
    for exact in [true, false] {
        assert_eq!(
            harpoon.answer(exact, 200, &headers(&[]), vec![b'x'; 102401]).err(),
            Some("response exceeds size limit".to_owned())
        );
        let whole = harpoon.answer(exact, 200, &headers(&[]), vec![b'x'; 102400]).expect("answer");
        assert_eq!(whole.body_size_bytes, 102400);
    }
    // The address of a target with a long label takes more room than its URL.
    let mut config = settings::Harpoon::default();
    config.max_response_bytes = Some(1024);
    let mut tight = Harpoon::new(config, vec![7; 32]).expect("targets");
    let label = "l".repeat(64);
    assert_eq!(tight.register(&target(&label, "https://z.example/"), &sources()), Ok(()));
    let many = |count: usize| format!("[{}]", vec!["\"https://z.example/\""; count].join(","));
    let grown = tight.answer(true, 200, &headers(&[]), many(10).into_bytes()).expect("answer");
    assert_eq!(grown.body_size_bytes, 10 * (2 + 10 + 64) + 9 + 2);
    assert!(many(40).len() <= 1024);
    assert_eq!(
        tight.answer(true, 200, &headers(&[]), many(40).into_bytes()).err(),
        Some("response exceeds size limit".to_owned())
    );
}

#[test]
fn values_without_targets_stay() {
    let harpoon = harpoon();
    let mut value = json::parse(r#"{"a":["https://none.example/",1]}"#).expect("document");
    assert!(!harpoon.rewrite(&mut value));
    assert_eq!(json::write(value), r#"{"a":["https://none.example/",1]}"#);
    assert_eq!(harpoon.rewrite_url("https://a.example/x", "issuer"), Some("harpoon://a".to_owned()));
}

#[test]
fn labels_are_bound_to_policies() {
    let harpoon = harpoon();
    let found = &harpoon.targets[2];
    let digest = found.template.as_ref().expect("template").digest.clone();
    let bound = policy::invocation_label(&vec![7; 32], "t", &digest, true);
    assert_eq!(bound.len(), 4 + 64 + 2);
    assert_eq!(policy::bound(&bound).map(|pair| pair.0), Some("t".to_owned()));
    assert_eq!(harpoon.template_target(&bound), Ok(2));
    assert_eq!(harpoon.template_target("t").err(), Some("unknown template target".to_owned()));
    let other = policy::invocation_label(&vec![8; 32], "t", &digest, true);
    assert!(harpoon.template_target(&other).is_err());
    assert_eq!(policy::invocation_label(&vec![7; 32], "t", &digest, false), "t");
    assert!(targets::contains_bound(r#"{"label":"hr1:x"}"#));
    assert!(!targets::contains_bound(r#"{"label":"x"}"#));
    assert!(targets::contains_bound(r#"{"label":"hr1:x","label":"y"}"#));
    assert!(targets::contains_bound(r#"{"label":"y","label":"hr1:x"}"#));
    assert!(!targets::contains_bound(r#"{"label":"y","inner":{"label":"hr1:x"}}"#));
    assert!(!targets::contains_bound(r#"{"label":"hr1:x""#));
}

#[test]
fn keys_come_from_the_service() {
    let mut control = settings::ControlPlane::default();
    control.api_key = String::new();
    assert_eq!(policy::key(&control, vec![1], &sources()), Ok(vec![1]));
    control.api_key = "env:KEY".to_owned();
    control.tunnel_id = "t".to_owned();
    let made = policy::key(&control, vec![1], &sources()).expect("key");
    assert_eq!(made.len(), 32);
    assert_ne!(made, vec![1; 32]);
    control.api_key = "env:NONE".to_owned();
    assert!(policy::key(&control, vec![1], &sources()).is_err());
}

#[test]
fn headers_are_canonical() {
    let once = rules::canonical("x-some-name");
    assert_eq!(once, "X-Some-Name");
    assert_eq!(rules::canonical(&once), once);
    assert!(rules::credential("X-Api-Key"));
    assert!(rules::credential("mytoken.auth_token"));
    assert!(!rules::credential("x-plain"));
    assert!(rules::blocked("cookie"));
    assert_eq!(
        rules::template_name("X-Forwarded-Proto-Own").err(),
        Some("routing and identity headers are forbidden for templates".to_owned())
    );
    assert_eq!(rules::template_value("\t").err(), Some("invalid template header value".to_owned()));
    let big = "x".repeat(8192);
    assert_eq!(
        rules::template_size(&headers(&[("a", &big)])).err(),
        Some("template headers exceed size limit".to_owned())
    );
    let passed = rules::outbound(&table(&[("Connection", "x-a"), ("X-A", "1"), ("X-B", "2")])).expect("headers");
    assert!(!passed.contains_key("x-a"));
    assert!(passed.contains_key("x-b"));
}

#[test]
fn targets_are_listed() {
    let harpoon = harpoon();
    let all = json::write(harpoon.list(&Filter { categories: list(&[" Config "]), sources: Vec::new(), tags: Vec::new() }));
    assert!(all.contains("\"label\":\"a\""));
    assert!(all.contains("\"template_version\":1"));
    let none = harpoon.list(&Filter { categories: Vec::new(), sources: Vec::new(), tags: list(&["x"]) });
    assert_eq!(json::write(none), r#"{"targets":[]}"#);
    assert!(json::write(harpoon.tools()).contains("call_target_template"));
    assert!(forward::size(&harpoon.targets[0], schema::template_call(1024)) > 0);
}

#[test]
fn audiences_are_token_endpoints() {
    let mut harpoon = harpoon();
    assert_eq!(
        harpoon.audience("a").err(),
        Some("label a: target is not an OAuth token endpoint".to_owned())
    );
    assert_eq!(harpoon.audience(" ").err(), Some("label unknown: label is required".to_owned()));
    assert_eq!(harpoon.audience("z").err(), Some("label z: unknown target".to_owned()));
    harpoon.targets[0].info.category = "oauth".to_owned();
    harpoon.targets[0].info.tags = list(&["auth-server-metadata", "token-endpoint"]);
    assert_eq!(
        harpoon.audience("a").map(json::write),
        Ok(r#"{"audience":"https://a.example/x"}"#.to_owned())
    );
}

#[test]
fn requests_are_forwarded() {
    let harpoon = harpoon();
    let versions = list(&["2025-06-18", "2025-11-25"]);
    let message = |given: &str, version: Option<&str>| {
        match harpoon.forward(&request(given), None, version, &versions) {
            Ok(Step::Answer(reply)) => reply.message.unwrap_or(reply.kind),
            Ok(Step::Tool { name, arguments }) => format!("{name} {arguments}"),
            Err(reason) => reason,
        }
    };
    assert_eq!(message(r#"{"method":"x"}"#, None), "notify_ack");
    assert!(message(r#"{"id":1,"method":"initialize","params":{"protocolVersion":"2025-06-18"}}"#, None)
        .contains(r#""protocolVersion":"2025-06-18""#));
    assert!(message(r#"{"id":1,"method":"initialize"}"#, None).contains(r#""protocolVersion":"2025-11-25""#));
    assert_eq!(message(r#"{"id":1,"method":"ping"}"#, None), r#"{"id":1,"jsonrpc":"2.0","result":{}}"#);
    assert!(message(r#"{"id":1,"method":"ping"}"#, Some("2026-07-28")).contains("Method not found"));
    assert!(message(r#"{"id":1,"method":"tools/list"}"#, Some("2026-07-28")).contains(r#""resultType":"complete""#));
    assert!(message(r#"{"id":1,"method":"server/discover"}"#, None).contains("supportedVersions"));
    assert_eq!(
        message(r#"{"id":1,"method":"tools/call","params":{"name":"n","arguments":{"a":1}}}"#, None),
        r#"n {"a":1}"#
    );
    assert_eq!(message(r#"{"id":1,"method":"tools/call"}"#, None), "tools/call has no parameters");
    assert_eq!(
        message(r#"{"id":1,"method":"tools/call","params":{}}"#, None),
        "tool name is missing"
    );
    match harpoon.forward(&request(r#"{"id":1,"method":"m"}"#), Some("bad"), None, &versions) {
        Ok(Step::Answer(reply)) => assert!(reply.message.expect("message").contains("-32602")),
        _ => panic!("no answer"),
    }
    assert!(forward::modern(Some("2026-07-28")));
    assert!(!forward::modern(Some("2025-11-25")));
}

#[test]
fn tools_are_selected() {
    assert!(forward::select("list_targets") == Ok(Tool::ListTargets));
    assert!(forward::select("get_oauth_target_audience") == Ok(Tool::Audience));
    assert!(forward::select("call_target") == Ok(Tool::CallTarget));
    assert!(forward::select("call_target_template") == Ok(Tool::CallTemplate));
    assert_eq!(forward::select("x").err(), Some("unknown Harpoon tool x".to_owned()));
    assert_eq!(
        json::write(forward::outcome("call_target", Err("no".to_owned()))),
        r#"{"content":[{"text":"no","type":"text"}],"isError":true}"#
    );
    let value = Json::object().with("truncated", Json::Bool(false)).with("headers", Json::object());
    assert_eq!(
        json::write(forward::outcome("call_target", Ok(value))),
        r#"{"content":[{"text":"{}","type":"text"}],"structuredContent":{"headers":{},"truncated":false}}"#
    );
}

#[test]
fn calls_are_measured() {
    let mut seen = measured::Call::new();
    let shown = seen.record(Metrics::new(), 1).render();
    assert!(shown.contains(
        "harpoon_call_total{label=\"__unknown__\",outcome=\"invalid_input\",status_class=\"none\","
    ));
    seen.label = "a".to_owned();
    seen.outcome = "ok".to_owned();
    seen.status = 404;
    let shown = seen.record(Metrics::new(), 1).render();
    assert!(shown.contains("harpoon_call_total{label=\"a\",outcome=\"ok\",status_class=\"4xx\","));
    seen.status = 200;
    seen.bytes = 12;
    let shown = seen.record(Metrics::new(), 2_500_000).render();
    assert!(shown.contains("harpoon_call_total{label=\"a\",outcome=\"ok\",status_class=\"2xx\","));
    assert!(shown.contains("harpoon_call_latency_milliseconds_sum{"));
    assert!(shown.contains("} 2.5\n"));
    assert!(shown.contains("} 12\n"));
}
