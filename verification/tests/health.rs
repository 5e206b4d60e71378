use otunnel::address;
use otunnel::config::settings::{Config, Server};
use otunnel::control::observation::Upload;
use otunnel::diagnostic::{Check as Diagnosis, Probe, Report};
use otunnel::health::{exposition, moment};
use otunnel::health::report::{self, Asked};
use otunnel::health::snapshot::{self, Certificate, Monitor};
use otunnel::health::{self, Target};
use otunnel::json::{self, Json};
use otunnel::listener;
use otunnel::metrics::{self, Metrics};
use otunnel::proxy_health::check::{self, Connected};
use otunnel::proxy_health::{self, Check, Route, RouteState};
use otunnel::runtime::Snapshot;
use otunnel::table::Table;

const SECOND: u64 = 1_000_000_000;

fn table(entries: &[(&str, &str)]) -> Table<String> {
    let mut table = Table::new();
    for (key, value) in entries {
        table = table.insert(key.to_string(), value.to_string());
    }
    table
}

fn pairs(entries: &[(&str, &str)]) -> Vec<(String, String)> {
    entries.iter().map(|(key, value)| (key.to_string(), value.to_string())).collect()
}

fn config() -> Config {
    let mut config = Config::default();
    config.control_plane.base_url = Some("https://api.example".to_owned());
    let mut server = Server::default();
    server.channel = "main".to_owned();
    server.url = "https://mcp.example/mcp".to_owned();
    config.mcp.server_urls = vec![server];
    config
}

fn unseen() -> proxy_health::Snapshot {
    proxy_health::Snapshot { routes: Vec::new(), observed_at: 0 }
}

fn monitor() -> Monitor {
    Monitor {
        config: config(),
        snapshot: Snapshot::new(&config(), unseen(), 1),
        upload: Upload::new(),
        targets: 0,
        instance: "me".to_owned(),
        address: "127.0.0.1:1".to_owned(),
        trust: Json::object(),
        metadata: None,
    }
}

fn routes() -> Vec<Route> {
    proxy_health::routes(&config(), &Table::new(), &table(&[("HTTPS_PROXY", "http://u:p@proxy:3128")]))
        .expect("routes")
}

#[test]
fn health_urls_are_read() {
    let target = Target::new(" http://h:1/healthz ").expect("target");
    assert_eq!(target.base, "http://h:1");
    assert_eq!(target.route("/readyz"), Ok("http://h:1/readyz".to_owned()));
    let made = listener::socket_url("/run/h.sock");
    let target = Target::new(&made).expect("target");
    assert_eq!(target.socket, Some("/run/h.sock".to_owned()));
    assert_eq!(target.url, "http://localhost");
    assert_eq!(Target::new(" / ").err(), Some("health URL is empty".to_owned()));
    assert_eq!(
        Target::new(&format!("{}*", listener::socket_url("x"))).err(),
        Some("invalid health unix socket path".to_owned())
    );
}

#[test]
fn health_requests_are_redirected() {
    let target = Target::new("http://h").expect("target");
    let to = b"/y".to_vec();
    assert_eq!(target.next("http://h/x", 0, 302, Some(&to)), Ok(Some("http://h/y".to_owned())));
    assert_eq!(target.next("http://h/x", 0, 200, Some(&to)), Ok(None));
    assert_eq!(target.next("http://h/x", 0, 302, None), Ok(None));
    assert_eq!(
        target.next("http://h/x", 10, 302, Some(&to)).err(),
        Some("health request exceeded 10 redirects".to_owned())
    );
    let still = Target::new("http://h").expect("target").follow_redirects(false);
    assert_eq!(still.next("http://h/x", 0, 302, Some(&to)), Ok(None));
}

#[test]
fn parts_stay_within_the_limit() {
    assert_eq!(health::read_part(None, 5, 9), 9);
    assert_eq!(health::read_part(Some(10), 5, 9), 5);
    assert_eq!(health::read_part(Some(10), 5, 4), 4);
    assert_eq!(health::read_part(Some(10), 12, 4), 0);
}

#[test]
fn gauges_are_written() {
    assert_eq!(
        health::gauge("g", "gauge", "s", 3),
        "# TYPE g gauge\ng{otel_scope_name=\"s\",otel_scope_schema_url=\"\",otel_scope_version=\"\"} 3\n"
    );
    assert_eq!(health::errors(&Vec::new()), "");
    assert!(health::errors(&vec![("timeout".to_owned(), 2)])
        .contains("commands_poll_errors_total{error_kind=\"timeout\","));
}

#[test]
fn listeners_are_reached() {
    assert_eq!(listener::url("0.0.0.0:0", 99), Ok("http://localhost:99".to_owned()));
    assert_eq!(listener::url("127.0.0.1:0", 99), Ok("http://127.0.0.1:99".to_owned()));
    assert_eq!(listener::url("[::1]:0", 99).err(), Some("invalid health address".to_owned()));
    assert_eq!(listener::listen(":80"), "0.0.0.0:80");
    assert!(listener::loopback_address("localhost:1"));
    assert!(listener::loopback_address("[::1]:1"));
    assert!(!listener::loopback_address("10.0.0.1:1"));
    assert!(listener::may_see("local"));
    assert!(!listener::may_see("10.0.0.1:1"));
}

#[test]
fn measures_are_rendered() {
    let made = Metrics::new()
        .increment("s", "c", &pairs(&[("b", "2"), ("a", "x\"y")]))
        .increment("s", "c", &pairs(&[("a", "x\"y"), ("b", "2")]))
        .observe("s", "h", &Vec::new(), 7_500_000);
    let shown = made.render();
    assert!(shown.starts_with(
        "# TYPE c counter\nc{a=\"x\\\"y\",b=\"2\",otel_scope_name=\"s\",otel_scope_schema_url=\"\",otel_scope_version=\"\"} 2\n# TYPE h histogram\n"
    ));
    assert!(shown.contains("le=\"5\"} 0\n"));
    assert!(shown.contains("le=\"10\"} 1\n"));
    assert!(shown.contains("h_sum{otel_scope_name=\"s\",otel_scope_schema_url=\"\",otel_scope_version=\"\"} 7.5\n"));
    assert_eq!(metrics::count(u64::MAX, 1), u64::MAX);
}

#[test]
fn proxies_are_asked_for_a_way() {
    let proxy = address::parse("http://u%40:p@proxy/").expect("URL");
    assert_eq!(
        check::connect(&proxy, "h:443"),
        "CONNECT h:443 HTTP/1.1\r\nHost: h:443\r\nProxy-Authorization: Basic dUA6cA==\r\n\r\n"
    );
}

#[test]
fn checks_tell_where_they_failed() {
    let made = Check::out_of_reach(1, 2, true);
    assert_eq!((made.error_phase.as_str(), made.error_reason.as_str()), ("tcp", "timeout"));
    let made = Check::reached(1, 2, 3, &Connected::Answered("HTTP/1.1 200 OK".to_owned()), false);
    assert!(made.success);
    assert_eq!(made.http_status_category, "2xx");
    let made = Check::reached(1, 2, 3, &Connected::Answered("HTTP/1.1 407 No".to_owned()), true);
    assert_eq!(made.error_reason, "bad_status");
    assert!(made.tls_failure);
    assert_eq!(Check::reached(1, 2, 3, &Connected::TimedOut, false).error_reason, "timeout");
    assert_eq!(Check::reached(1, 2, 3, &Connected::Failed, false).error_reason, "connect_error");
    let shown = check::measure(Metrics::new(), "id", &made).render();
    assert!(shown.contains("proxy_check_failures_total{phase=\"connect\",proxy_id=\"id\",reason=\"bad_status\""));
    assert!(shown.contains("} 0.003\n"));
}

#[test]
fn histories_are_short() {
    let mut all = routes();
    assert_eq!(all.len(), 2);
    let route = &mut all[0];
    assert!(route.state == RouteState::Pending);
    for moment in 1..100 {
        route.check(Check::out_of_reach(moment, 0, false));
    }
    assert_eq!(route.failure, "tcp_failed");
    assert!(route.history.len() < 99);
    assert_eq!(route.history.last().map(|made| made.timestamp), Some(99));
    route.check(Check::reached(100, 0, 0, &Connected::Answered("a 204".to_owned()), false));
    assert!(route.state == RouteState::Healthy);
    assert_eq!(route.last_success, 100);
}

#[test]
fn routes_hide_passwords() {
    let all = routes();
    let shown = json::write(all[0].summary());
    assert!(shown.contains("\"route_mode\":\"proxy\""));
    assert!(!shown.contains("u:p"));
    assert_eq!(check::identities(&all).len(), 1);
    assert_eq!(check::summaries(&all).len(), 2);
    assert!(check::gauges(&all).contains("proxy"));
    let direct = proxy_health::routes(&config(), &Table::new(), &Table::new()).expect("routes");
    assert!(json::write(snapshot::proxy(&direct, 0)).contains("\"disabled\""));
    assert!(json::write(snapshot::proxy(&all, 0)).contains("\"pending\""));
}

#[test]
fn times_are_written() {
    assert_eq!(moment::timestamp(0), None);
    assert_eq!(moment::timestamp(SECOND), Some("1970-01-01T00:00:01Z".to_owned()));
    assert_eq!(json::write(moment::seconds(1_500_000_000)), "1.5");
    assert_eq!(json::write(moment::seconds(2 * SECOND)), "2.0");
    assert_eq!(json::write(moment::ratio(1, 2)), "0.5");
    assert_eq!(json::write(moment::ratio(1, 0)), "1.0");
    let given = json::parse(r#"{"a":[{"last_error":0,"timestamp":1000000000,"n":1}]}"#).expect("document");
    assert_eq!(
        json::write(moment::dates(&given)),
        r#"{"a":[{"n":1,"timestamp":"1970-01-01T00:00:01Z"}]}"#
    );
}

#[test]
fn health_is_asked_for() {
    assert!(matches!(report::asked("/health", None, true), Some(Asked::Runtime { details: true })));
    assert!(matches!(report::asked("/health/a%20b", None, true), Some(Asked::Part(name)) if name == "a b"));
    assert!(matches!(
        report::asked("/health/a%fF%2+%C3%a9%", None, true),
        Some(Asked::Part(name)) if name == "a\u{fffd}%2+\u{e9}%"
    ));
    assert!(report::asked("/health/a", Some("x"), true).is_none());
    assert!(report::asked("/health", Some("nothing=1"), true).is_none());
}

#[test]
fn health_is_answered() {
    let monitor = monitor();
    let answer = monitor.health(true, "/health", None, 5 * SECOND);
    assert_eq!(answer.status, 200);
    let answer = monitor.health(true, "/health/none", None, 5 * SECOND);
    assert_eq!(answer.status, 404);
    assert!(json::write(answer.body).contains("unknown_component"));
    let answer = monitor.health(true, "/health", Some("x=1"), 5 * SECOND);
    assert_eq!(answer.status, 400);
    let answer = monitor.health(false, "/health", None, 5 * SECOND);
    assert_eq!(answer.status, 405);
    assert!(answer.allow);
    let answer = monitor.health(true, "/health/mcp", None, 5 * SECOND);
    assert_eq!(answer.status, 200);
    assert!(json::write(answer.body).contains("\"component\":\"mcp\""));
}

#[test]
fn the_status_is_told() {
    let monitor = monitor();
    let status = json::write(monitor.status(5 * SECOND));
    assert!(status.contains("\"uptime_seconds\":4"));
    assert!(status.contains("\"mcp_server_url\":\"https://mcp.example/mcp\""));
    assert!(status.contains("\"client_instance_id\":\"me\""));
    assert!(json::write(monitor.system()).contains("\"main_channel_probe_status\":\"pending\""));
}

#[test]
fn certificates_are_told() {
    let bundle = Some((
        "/ca.pem".to_owned(),
        vec![
            Certificate { bytes: b"abc".to_vec(), error: None },
            Certificate { bytes: Vec::new(), error: Some("bad".to_owned()) },
        ],
    ));
    let told = json::write(snapshot::trust(true, &bundle));
    assert!(told.contains("\"cert_count\":1"));
    assert!(told.contains("ba7816bf8f01cfea414140de5dae2223b00361a396177a9cb410ff61f20015ad"));
    assert!(told.contains("\"parse_status\":\"bad\""));
    assert!(!json::write(snapshot::trust(false, &None)).contains("extra_bundle"));
}

#[test]
fn reports_list_failures() {
    let report = Report::new(
        vec![Diagnosis::pass("a", "x"), Diagnosis::fail("b", "y"), Diagnosis::skip("c", "z")],
        Table::new(),
        "next".to_owned(),
    );
    assert!(!report.passed());
    assert_eq!(report.failed_checks, vec!["b".to_owned()]);
    assert_eq!(report.next, "");
    assert!(json::write(report.document()).contains("\"result\":\"fail\""));
    let probe = Probe { status: 200, authentication_required: false, tools: Some(2) };
    let channels = Table::new().insert("main".to_owned(), probe);
    let report = Report::new(vec![Diagnosis::pass("a", "x")], channels, "next".to_owned());
    assert_eq!(report.channels.get("main"), Some(&probe));
    assert!(report.passed());
    assert_eq!(
        json::write(report.document()),
        r#"{"checks":[{"id":"a","status":"PASS","summary":"x"}],"next":"next","result":"ok"}"#
    );
}

#[test]
fn figures_are_told() {
    let mut seen = Snapshot::new(&config(), unseen(), 1);
    seen.ready = true;
    seen.control.last_success = 5 * SECOND + 1;
    seen.control.timeouts = 2;
    let text = exposition::metrics(&seen, &config(), &Metrics::new());
    assert!(text.starts_with("# TYPE liveness gauge\nliveness{otel_scope_name=\"health\","));
    assert!(text.contains("readiness{otel_scope_name=\"health\",otel_scope_schema_url=\"\",otel_scope_version=\"\"} 1\n"));
    assert!(text.contains("commands_poll_last_successful_timestamp_seconds{otel_scope_name=\"controlplane\",otel_scope_schema_url=\"\",otel_scope_version=\"\"} 5\n"));
    assert!(text.contains("error_kind=\"timeout\""));
    assert!(!text.contains("error_kind=\"other\""));
}
