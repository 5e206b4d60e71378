use otunnel::address;
use otunnel::cloudflare::{self, Level, Watch};
use otunnel::config::reference::Sources;
use otunnel::harpoon::registry::Harpoon;
use otunnel::config::settings;
use otunnel::header::Headers;
use otunnel::host;
use otunnel::json::{self, Json};
use otunnel::net::error::{self, ErrorInfo};
use otunnel::net::{self, Hop, Options, Way};
use otunnel::oauth;
use otunnel::oauth::search::{self, Document, Fetched, Progress, Search, ServerProgress, ServerSearch};
use otunnel::proxy::{proxy_for, Exclusion, Proxy};
use otunnel::table::Table;

fn list(items: &[&str]) -> Vec<String> {
    items.iter().map(|item| item.to_string()).collect()
}

fn table(entries: &[(&str, &str)]) -> Table<String> {
    let mut table = Table::new();
    for (key, value) in entries {
        table = table.insert(key.to_string(), value.to_string());
    }
    table
}

fn headers(entries: &[(&'static str, &str)]) -> Headers {
    let mut map: Headers = http::HeaderMap::default();
    for (name, value) in entries {
        map.append(*name, value.as_bytes().to_vec());
    }
    map
}

fn url(value: &str) -> address::Address {
    address::parse(value).expect("URL")
}

fn fetched(status: u16, kind: &str, body: &str) -> Fetched {
    Fetched {
        status,
        headers: headers(&[("content-type", kind)]),
        body: body.as_bytes().to_vec(),
        too_large: false,
    }
}

#[test]
fn identities_are_whole() {
    let mut options = Options {
        proxy: None,
        socket: None,
        ca_bundle: None,
        client_cert: Some("/c"),
        client_key: None,
    };
    assert_eq!(
        options.identity().err(),
        Some("client_cert and client_key must be configured together".to_owned())
    );
    options.client_key = Some("/k");
    assert_eq!(options.identity(), Ok(Some(("/c", "/k"))));
    assert_eq!(net::combined(b"a".to_vec(), b"b".to_vec()), b"a\nb".to_vec());
}

#[test]
fn identities_are_for_the_own_origin() {
    let own = url("https://a.example/");
    assert!(net::way(true, &own, &url("https://a.example/x")) == Way::Local);
    assert!(net::way(false, &own, &url("https://a.example/x")) == Way::Own);
    assert!(net::way(true, &own, &url("https://b.example/x")) == Way::Public);
}

#[test]
fn requests_are_signed_once() {
    let mut map = headers(&[]);
    net::sign(&mut map);
    assert_eq!(map.get("user-agent"), Some(&b"otunnel/0.1.0".to_vec()));
    let mut map = headers(&[("user-agent", "mine")]);
    net::sign(&mut map);
    assert_eq!(map.get("user-agent"), Some(&b"mine".to_vec()));
}

#[test]
fn headers_stay_with_their_origin() {
    let hop = |method: &str| Hop {
        method: method.to_owned(),
        url: url("https://a.example/x"),
        headers: headers(&[("authorization", "s"), ("content-type", "t")]),
        body: b"body".to_vec(),
    };
    let next = hop("POST").follow(302, &b"/y".to_vec()).expect("hop");
    assert_eq!(next.method, "GET");
    assert_eq!(next.url.text, "https://a.example/y");
    assert!(next.body.is_empty());
    assert!(next.headers.contains_key("authorization"));
    assert!(!next.headers.contains_key("content-type"));
    let next = hop("PUT").follow(307, &b"https://b.example/".to_vec()).expect("hop");
    assert_eq!(next.method, "PUT");
    assert_eq!(next.body, b"body".to_vec());
    assert!(next.headers.is_empty());
    assert_eq!(
        hop("GET").follow(301, &vec![0xff]).err(),
        Some("failed to convert header to a str".to_owned())
    );
    assert!(net::led(302, &Some(vec![]), 0, 1));
    assert!(!net::led(302, &Some(vec![]), 1, 1));
    assert!(!net::led(200, &Some(vec![]), 0, 1));
}

#[test]
fn proxies_are_selected() {
    let target = url("https://a.example/");
    let variables = table(&[("HTTPS_PROXY", "http://proxy:3128"), ("NO_PROXY", "b.example")]);
    assert_eq!(
        proxy_for(None, &variables, &target),
        Ok(Some("http://proxy:3128/".to_owned()))
    );
    assert_eq!(proxy_for(None, &variables, &url("https://x.b.example/")), Ok(None));
    let proxy = Proxy::new(None, &variables).expect("proxy");
    assert_eq!(net::proxied(true, &target, &proxy, &target), Ok(false));
    assert_eq!(net::proxied(false, &target, &proxy, &target), Ok(true));
    assert_eq!(proxy_for(None, &variables, &url("https://127.0.0.1/")), Ok(None));
}

#[test]
fn exclusions_hold_networks() {
    let exclusion = Exclusion::parse("10.0.0.0/8").expect("exclusion");
    let inside = host::Ip::V4(0x0a010203);
    assert!(exclusion.matches("10.1.2.3", Some(inside), Some(443)));
    assert!(!exclusion.matches("11.1.2.3", Some(host::Ip::V4(0x0b010203)), Some(443)));
}

#[test]
fn errors_of_the_service_are_read() {
    let info = ErrorInfo::parse(br#"{"error":{"code":"c","message":"m"}}"#);
    assert_eq!(info.code, "c");
    assert_eq!(info.message, "m");
    assert!(info.detail().contains("m"));
    assert_eq!(error::mitigation("none such"), "");
    let info = ErrorInfo::parse(&[0x61, 0xff]);
    assert_eq!(info.body, "a\u{fffd}");
    let info = ErrorInfo::parse(br#"{"error":{"code":"c","code":"d","message":"m"}}"#);
    assert_eq!(info.code, "");
    assert_eq!(info.body, r#"{"error":{"code":"c","code":"d","message":"m"}}"#);
}

#[test]
fn companions_have_tokens() {
    let sources = Sources { variables: table(&[("T", "tok")]), files: Table::new() };
    assert_eq!(
        cloudflare::token(&Some("env:T".to_owned()), false, &None, &sources),
        Ok("tok".to_owned())
    );
    assert_eq!(
        cloudflare::token(&None, false, &None, &sources).err(),
        Some("Cloudflare token is missing".to_owned())
    );
    assert_eq!(
        cloudflare::token(&None, true, &Some(Json::object()), &sources).err(),
        Some("Cloudflare runtime response has no token".to_owned())
    );
    assert_eq!(
        cloudflare::token(
            &None,
            true,
            &Some(Json::object().with("runtime_token", Json::text(""))),
            &sources
        )
        .err(),
        Some("Cloudflare token is empty".to_owned())
    );
    assert!(cloudflare::payload(&b"{}".to_vec()).is_err());
    assert_eq!(
        cloudflare::payload(&b"x".to_vec()).err(),
        Some("decode managed Cloudflare runtime response".to_owned())
    );
    assert!(cloudflare::hidden("tunnel_token", "x", "y"));
    assert!(cloudflare::hidden("A", "y", "y"));
    assert!(!cloudflare::hidden("A", "x", "y"));
    assert_eq!(cloudflare::arguments().len(), 7);
}

#[test]
fn tokens_are_not_told_on() {
    let token = "secret-token";
    let line = cloudflare::read(
        r#"{"level":"error","message":"Starting metrics server on 127.0.0.1:99/metrics secret-token"}"#,
        token,
    );
    assert!(line.level == Level::Error);
    assert!(!line.message.contains(token));
    assert!(line.message.contains("[REDACTED]"));
    assert_eq!(line.ready_url, None);
    let line = cloudflare::read("Starting metrics server on 127.0.0.1:99/metrics", token);
    assert_eq!(line.ready_url, Some("http://127.0.0.1:99/ready".to_owned()));
    assert!(line.level == Level::Info);
    let line = cloudflare::read("secret-tokensecret-token", token);
    assert_eq!(line.message, "[REDACTED][REDACTED]");
}

#[test]
fn companions_are_watched() {
    let mut watch = Watch { ever_ready: false };
    assert!(watch.expired().is_err());
    assert!(!watch.observe(false));
    assert!(watch.observe(true));
    assert!(!watch.observe(true));
    assert_eq!(watch.expired(), Ok(()));
    assert_eq!(cloudflare::interval(watch.ever_ready), 1000);
}

#[test]
fn challenges_name_descriptions() {
    assert_eq!(
        oauth::resource_metadata("Basic realm=\"a,b\", Bearer error=\"x\", resource_metadata=\"https://r\""),
        Some("https://r".to_owned())
    );
    assert_eq!(
        oauth::resource_metadata("Bearer resource_metadata=https://r, x=1"),
        Some("https://r".to_owned())
    );
    assert_eq!(oauth::resource_metadata("Basic resource_metadata=https://r"), None);
    let map = headers(&[("www-authenticate", "Bearer resource_metadata=\"https://r.example/m\"")]);
    assert_eq!(
        oauth::advertised(401, &map).map(|url| url.text),
        Some("https://r.example/m".to_owned())
    );
    assert!(oauth::advertised(403, &map).is_none());
}

#[test]
fn descriptions_are_searched_at_known_places() {
    assert_eq!(
        oauth::candidates(&url("https://u:p@a.example/mcp/?q=1"), &None),
        list(&[
            "https://a.example/.well-known/oauth-protected-resource/mcp",
            "https://a.example/.well-known/oauth-protected-resource",
        ])
    );
    assert_eq!(
        oauth::candidates(&url("https://a.example/"), &Some("https://r/".to_owned())),
        list(&["https://r/", "https://a.example/.well-known/oauth-protected-resource"])
    );
    assert_eq!(
        oauth::authorization_candidates(&url("https://i.example/t")),
        Ok(list(&[
            "https://i.example/t/.well-known/oauth-authorization-server",
            "https://i.example/.well-known/oauth-authorization-server/t",
            "https://i.example/t/.well-known/openid-configuration",
            "https://i.example/.well-known/openid-configuration/t",
        ]))
    );
}

#[test]
fn a_search_ends() {
    let mut requests = 0;
    let mut progress = Search::start(list(&["https://a/1", "https://a/2"]), false);
    let failure = loop {
        match progress {
            Progress::Ask(search) => {
                requests += 1;
                progress = search.failed(true, "timed out");
            }
            Progress::Failed(error) => break error,
            Progress::Found(_) => panic!("nothing to find"),
        }
    };
    assert_eq!(requests, 4);
    assert!(failure.retry);
    assert!(!failure.optional);
    assert_eq!(failure.error, "OAuth discovery GET https://a/2: timed out");
}

#[test]
fn a_search_finds_a_description() {
    let search = match Search::start(list(&["https://a/1", "https://a/2"]), false) {
        Progress::Ask(search) => search,
        _ => panic!("nothing is asked"),
    };
    assert_eq!(search.url(), "https://a/1");
    let search = match search.answered(fetched(404, "application/json", "{}")) {
        Progress::Ask(search) => search,
        _ => panic!("nothing is asked"),
    };
    match search.answered(fetched(200, "application/json", r#"{"resource":"https://a"}"#)) {
        Progress::Found(document) => assert_eq!(document.url, "https://a/2"),
        _ => panic!("nothing is found"),
    }
}

#[test]
fn a_search_tells_why_it_failed() {
    let fault = |answer: Fetched| {
        let search = match Search::start(list(&["https://a/1"]), false) {
            Progress::Ask(search) => search,
            _ => panic!("nothing is asked"),
        };
        match search.answered(answer) {
            Progress::Failed(error) => (error.optional, error.error),
            _ => panic!("no failure"),
        }
    };
    assert_eq!(
        fault(fetched(404, "", "")),
        (true, "OAuth discovery empty body from https://a/1 (status 404)".to_owned())
    );
    assert_eq!(
        fault(fetched(200, "", "no")),
        (false, "OAuth discovery invalid metadata".to_owned())
    );
    assert_eq!(
        fault(fetched(200, "", "{}")),
        (false, "protected resource metadata is missing resource".to_owned())
    );
    assert_eq!(
        fault(fetched(200, "", r#"{"resource":"r","authorization_servers":["a b"]}"#)),
        (false, "protected resource metadata has an invalid authorization server".to_owned())
    );
    let mut large = fetched(200, "", "x");
    large.too_large = true;
    assert_eq!(
        fault(large),
        (false, "OAuth discovery response body from https://a/1 exceeds 1048576 bytes".to_owned())
    );
    assert!(matches!(Search::start(Vec::new(), false), Progress::Failed(error) if error.error == search::NOTHING));
}

#[test]
fn servers_are_searched() {
    let start = || match ServerSearch::start("https://i/", list(&["https://i/1", "https://i/2"])) {
        ServerProgress::Ask(search) => search,
        _ => panic!("nothing is asked"),
    };
    let search = match start().answered(fetched(200, "application/json; charset=utf-8", r#"{"issuer":"https://other"}"#)) {
        ServerProgress::Ask(search) => search,
        _ => panic!("nothing is asked"),
    };
    match search.answered(fetched(200, "application/json", r#"{"issuer":"https://i/"}"#)) {
        ServerProgress::Found(document) => assert_eq!(document.url, "https://i/2"),
        _ => panic!("nothing is found"),
    }
    let search = match start().answered(fetched(200, "text/html", "{}")) {
        ServerProgress::Ask(search) => search,
        _ => panic!("nothing is asked"),
    };
    assert_eq!(
        search.failure,
        Some("OAuth authorization metadata has bad content type \"text/html\"".to_owned())
    );
    match search.failed(false, "refused") {
        ServerProgress::Failed(reason) => {
            assert_eq!(reason, "OAuth authorization metadata GET https://i/2: refused")
        }
        _ => panic!("no failure"),
    }
}

#[test]
fn requests_are_patient_the_second_time() {
    assert_eq!(search::attempts(false), 1);
    assert_eq!(search::patience(true, 2), Some(8));
    assert_eq!(search::patience(false, 0), None);
    assert!(search::again(true, 1, true));
    assert!(!search::again(true, 2, true));
    assert_eq!(search::kept(search::METADATA_LIMIT, 10), 1);
    assert!(search::too_large(search::METADATA_LIMIT + 1));
}

fn document(place: &str, value: &str) -> Document {
    Document {
        url: place.to_owned(),
        value: json::parse(value).expect("document"),
        headers: headers(&[("cache-control", "no-store")]),
        status: 200,
    }
}

#[test]
fn addresses_are_learned_near_the_server() {
    let resource = document(
        "https://a.example/.well-known/oauth-protected-resource",
        r#"{"resource":"https://a.example/mcp","authorization_servers":["https://i.example"]}"#,
    );
    let server = document("https://i.example/m", r#"{"issuer":"https://i.example","token_endpoint":"https://a.example/t"}"#);
    let records = oauth::records(&resource, &Some(server));
    assert_eq!(records.len(), 6);
    assert_eq!(records[5].role, "token-endpoint");
    let own = url("https://a.example/mcp");
    assert!(oauth::trusted(&records, &own));
    let harpoon = Harpoon::new(settings::Harpoon::default(), vec![0; 32]).expect("targets");
    let learned = harpoon.learned(&records[5], &own, true, &None).expect("target").expect("target");
    assert_eq!(learned.info.label, "oauth-token-endpoint-0");
    assert_eq!(learned.info.tags.len(), 3);
    assert!(matches!(harpoon.learned(&records[1], &own, true, &None), Ok(None)));
    assert!(matches!(harpoon.learned(&records[5], &own, false, &None), Ok(None)));
    let reply = oauth::reply(resource);
    assert_eq!(reply.kind, "oauth_discovery_response");
    assert_eq!(oauth::role_tags("issuer"), list(&["auth-server-metadata", "issuer"]));
    assert!(oauth::auth_group("https://x").starts_with("auth-server:"));
}
