use otunnel::config::duration::Span;
use otunnel::config::reference::Sources;
use otunnel::config::settings::Config;
use otunnel::control::client::{self, Channel, Control};
use otunnel::control::delivery::{self, Asked, Attempted, Correlation, Delivery, Next};
use otunnel::control::error::{self, StatusError};
use otunnel::control::measure::{self, Created};
use otunnel::control::observation::{self, Delivered, Failure, Upload};
use otunnel::control::poll::{self, Ask, Ending, Observation, Outcome, Refused, Step, Wait};
use otunnel::control::routing::{Attempt, Correction, State};
use otunnel::header::Headers;
use otunnel::json::Json;
use otunnel::metrics::Metrics;
use otunnel::protocol::{self, Command, Reply, Request};
use otunnel::table::Table;

const SECOND: u64 = 1_000_000_000;

fn list(items: &[&str]) -> Vec<String> {
    items.iter().map(|item| item.to_string()).collect()
}

fn headers(entries: &[(&'static str, &str)]) -> Headers {
    let mut map: Headers = http::HeaderMap::default();
    for (name, value) in entries {
        map.append(*name, value.as_bytes().to_vec());
    }
    map
}

fn sources() -> Sources {
    Sources {
        variables: Table::new().insert("KEY".to_owned(), "secret".to_owned()),
        files: Table::new(),
    }
}

fn config() -> Config {
    let mut config = Config::default();
    config.control_plane.base_url = Some("https://api.example/".to_owned());
    config.control_plane.url_path = Some("/pre".to_owned());
    config.control_plane.tunnel_id = "tunnel_1".to_owned();
    config.control_plane.api_key = "env:KEY".to_owned();
    config.control_plane.poll_channels = Some(list(&["main", "side"]));
    config
}

fn control() -> Control {
    let config = config();
    let url = client::locate(&config).expect("URL");
    Control::new(&config, url, "me", &sources()).expect("control")
}

fn observation() -> Observation {
    Observation::new(Span(0), Span(0))
}

fn command(kind: &str) -> Command {
    Command {
        request_id: "r".to_owned(),
        shard_token: "tok".to_owned(),
        command_type: kind.to_owned(),
        channel: "main".to_owned(),
        headers: Table::new().insert("X-Request-Id".to_owned(), list(&["c"])),
        response_timeout: Json::Null,
        jsonrpc: Some(r#"{"jsonrpc":"2.0","id":1,"method":"tools/list"}"#.to_owned()),
    }
}

fn correction(revision: u64, token: &str) -> Correction {
    Correction { revision, token: token.as_bytes().to_vec() }
}

#[test]
fn the_service_has_an_address() {
    assert_eq!(
        client::locate(&config()),
        Ok("https://api.example/pre/v1/tunnels/tunnel_1".to_owned())
    );
    let control = control();
    assert_eq!(
        control.endpoint("commands/a"),
        Ok("https://api.example/pre/v1/tunnels/tunnel_1/commands/a".to_owned())
    );
    assert_eq!(
        control.poll_url(100, Span(30 * SECOND)),
        Ok("https://api.example/pre/v1/tunnels/tunnel_1/poll?channel=main&channel=side&limit=25&timeout_ms=30000".to_owned())
    );
    assert_eq!(
        control.poll_url(3, Span(1)),
        Ok("https://api.example/pre/v1/tunnels/tunnel_1/poll?channel=main&channel=side&limit=3&timeout_ms=1".to_owned())
    );
    let mut none = config();
    none.control_plane.base_url = Some("file:///x".to_owned());
    assert_eq!(
        client::locate(&none).err(),
        Some("control-plane.base-url must include scheme and host".to_owned())
    );
}

#[test]
fn requests_carry_the_client() {
    let mut config = config();
    config.control_plane.organization_id = Some(" org ".to_owned());
    config.control_plane.extra_headers = Table::new()
        .insert("User-Agent".to_owned(), "other".to_owned())
        .insert("X-Mine".to_owned(), "1".to_owned());
    let control =
        Control::new(&config, "https://x/".to_owned(), "me", &sources()).expect("control");
    let map = control.headers(&Some("{}".to_owned()), &Some(b"tok".to_vec()));
    assert_eq!(map.get("authorization"), Some(&b"Bearer secret".to_vec()));
    assert_eq!(map.get("user-agent"), Some(&b"otunnel/0.1.0".to_vec()));
    assert_eq!(map.get("x-mine"), Some(&b"1".to_vec()));
    assert_eq!(map.get("openai-organization"), Some(&b"org".to_vec()));
    assert_eq!(map.get("x-tunnel-client-instance-id"), Some(&b"me".to_vec()));
    assert_eq!(map.get("x-tunnel-mcp-server-info"), Some(&b"{}".to_vec()));
    assert_eq!(map.get("x-tunnel-shard-token"), Some(&b"tok".to_vec()));
    assert!(Control::new(&config, String::new(), "a\nb", &sources()).is_err());
}

#[test]
fn channels_are_declared() {
    let channel = |name: &str, stateless: bool| Channel {
        name: name.to_owned(),
        stateless,
        proc_affinity: !stateless,
    };
    assert_eq!(
        client::set_channels(&vec![channel("side", false), channel("main", true)]),
        Ok(r#"{"version":2,"channels":[{"name":"main","stateless":true},{"name":"side","proc_affinity":true}]}"#.to_owned())
    );
    assert_eq!(
        client::set_channels(&vec![channel("a", false), channel("a", false)]).err(),
        Some("duplicate tunnel channel: a".to_owned())
    );
    assert_eq!(
        client::set_channels(&vec![channel("A", false)]).err(),
        Some("invalid tunnel channel name: A".to_owned())
    );
    let many = (0..33).map(|index| channel(&format!("c{index}"), false)).collect();
    assert_eq!(
        client::set_channels(&many).err(),
        Some("tunnel protocol permits at most 32 channels".to_owned())
    );
}

#[test]
fn errors_tell_the_operation() {
    let error = StatusError::read(401, "poll", &br#"{"error":{"code":"x","message":"m"}}"#.to_vec());
    assert_eq!(error.code(), "x");
    assert_eq!(error.message(), "m");
    assert!(error.text().starts_with("tunnel poll returned HTTP 401: "));
    assert_eq!(StatusError::new(500, "poll").text(), "tunnel poll returned HTTP 500");
    assert_eq!(StatusError::broken(500, "poll", "cut").message(), "read error body: cut");
    let mut body = vec![0; error::MAX_BODY - 1];
    error::gather(&mut body, &vec![1, 2, 3]);
    assert_eq!(body.len(), error::MAX_BODY);
}

#[test]
fn answers_are_tried_three_times_at_most() {
    for attempt in 0..3 {
        let expected = if attempt < 2 { Next::Retry } else { Next::GiveUp };
        assert_eq!(delivery::next(attempt, true, Attempted::Status(503)), expected);
        assert_eq!(delivery::next(attempt, true, Attempted::TimedOut), expected);
        assert_eq!(delivery::next(attempt, false, Attempted::Status(429)), expected);
    }
    assert_eq!(delivery::next(0, false, Attempted::Status(503)), Next::GiveUp);
    assert_eq!(delivery::next(0, false, Attempted::TimedOut), Next::GiveUp);
    assert_eq!(delivery::next(0, false, Attempted::Failed { connecting: true }), Next::Retry);
    assert_eq!(delivery::next(0, false, Attempted::Failed { connecting: false }), Next::GiveUp);
    assert_eq!(delivery::next(2, true, Attempted::Status(404)), Next::Done(404));
    assert_eq!(delivery::next(0, true, Attempted::Status(202)), Next::GiveUp);
}

#[test]
fn one_last_answer_is_sent() {
    let mut delivery = Delivery::new();
    assert_eq!(delivery.send(false), Ok(true));
    delivery.sent(false, 0, false);
    assert_eq!(delivery.send(false), Ok(false));
    assert!(!delivery.terminal_started());
    assert_eq!(delivery.send(true), Ok(true));
    assert!(delivery.terminal_started());
    assert_eq!(delivery.delivered_status(), 0);
    delivery.sent(true, 200, true);
    assert_eq!(delivery.delivered_status(), 200);
    assert_eq!(delivery.send(true).err(), Some("request already has a terminal response".to_owned()));
    assert!(delivery.terminal_started());
}

#[test]
fn answers_carry_their_command() {
    let correlation = Correlation::new(&command("jsonrpc"));
    assert_eq!(correlation.client_request_id, Some("c".to_owned()));
    assert_eq!(correlation.request_method, Some("tools/list".to_owned()));
    let mut map = headers(&[("content-type", "text/plain")]);
    assert_eq!(delivery::answer(&mut map, &correlation), Ok(()));
    assert_eq!(map.get("x-tunnel-shard-token"), Some(&b"tok".to_vec()));
    assert_eq!(map.get("content-type"), Some(&b"text/plain".to_vec()));
    assert_eq!(map.get("x-client-request-id"), Some(&b"c".to_vec()));
    assert!(delivery::latency(&correlation, "t", 0, "queue").is_none());
    let labels = delivery::latency(&correlation, "t", 200, "queue").expect("labels");
    assert_eq!(labels[2], ("tunnel_service_status".to_owned(), "200".to_owned()));
    assert_eq!(labels.last(), Some(&("latency_type".to_owned(), "queue".to_owned())));
}

#[test]
fn companions_are_asked_for_three_times() {
    assert_eq!(delivery::asked(0, Some(204)), Asked::Read);
    assert_eq!(delivery::asked(1, Some(500)), Asked::Retry);
    assert_eq!(delivery::asked(2, Some(500)), Asked::GiveUp);
    assert_eq!(delivery::asked(0, Some(403)), Asked::GiveUp);
    assert_eq!(delivery::asked(0, None), Asked::Retry);
    assert_eq!(delivery::asked(2, None), Asked::GiveUp);
}

#[test]
fn deliveries_are_counted() {
    let mut upload = Upload::new();
    assert_eq!(upload.disposition, "not_observed");
    upload.begin();
    upload.attempt(false);
    upload.attempt(true);
    upload.finish(Delivered::Status(200), 5);
    assert_eq!((upload.in_progress, upload.attempts, upload.retries), (0, 2, 1));
    assert_eq!((upload.completed, upload.accepted, upload.last_accepted), (1, 1, 5));
    upload.begin();
    upload.finish(Delivered::Status(404), 6);
    assert_eq!(upload.disposition, "already_fulfilled_or_unknown");
    assert_eq!((upload.completed, upload.accepted), (2, 1));
    upload.begin();
    upload.finish(Delivered::Failed(Failure::Status(500)), 7);
    assert_eq!((upload.terminal_failures, upload.http_status), (1, 500));
    upload.begin();
    upload.finish(Delivered::Canceled, 8);
    assert_eq!(upload.disposition, "canceled");
    upload.failure(Failure::Timeout, 9);
    assert_eq!(upload.failure_category, "timeout");
    assert_eq!(observation::category(Failure::Other), "request_error");
    assert_eq!(observation::category(Failure::Network), "network_error");
}

#[test]
fn polls_grow_shorter() {
    let mut control = control();
    control.poll_timeout = Span(30 * SECOND);
    control.initial_poll_timeout = Span(SECOND);
    control.guard = Span(5 * SECOND);
    assert_eq!(
        control.wait(0, true),
        Wait { requested: Span(SECOND), duration: Span(30 * SECOND) }
    );
    let wait = control.wait(0, false);
    let learned = control.learn(0, wait, 20 * SECOND);
    assert_eq!(learned, 15_000);
    assert_eq!(control.wait(learned, false).duration, Span(15 * SECOND));
    assert_eq!(control.learn(learned, wait, 29 * SECOND), learned);
    assert_eq!(control.learn(0, wait, 5 * SECOND), 0);
    assert_eq!(control.learn(0, wait, 6 * SECOND), 5_000);
    assert_eq!(control.learn(0, wait, 35 * SECOND), 0);
}

#[test]
fn refusals_hide_routes() {
    let map = headers(&[("x-tunnel-shard-token", "abc")]);
    let body = br#"{"error":{"code":"wrong_cluster","message":"to abc","policy_revision":7}}"#.to_vec();
    let refusal = poll::refuse(409, &map, &Refused::Read(body));
    assert_eq!(refusal.correction.as_ref().map(|found| found.revision), Some(7));
    assert_eq!(refusal.error.code(), "wrong_cluster");
    assert_eq!(refusal.error.message(), "polling placement rejected; retrying after backoff");
    assert!(!refusal.failed_destination);
    let refusal = poll::refuse(409, &map, &Refused::Read(b"{".to_vec()));
    assert_eq!(refusal.error.message(), "invalid polling routing correction");
    assert!(refusal.correction.is_none());
    let refusal = poll::refuse(503, &headers(&[]), &Refused::TooLong);
    assert_eq!(refusal.error.message(), "invalid polling error response");
    assert!(refusal.failed_destination);
    assert!(poll::refuse(403, &headers(&[]), &Refused::Broken(Failure::Timeout)).failed_destination);
}

#[test]
fn corrections_are_read() {
    let map = headers(&[("x-tunnel-shard-token", "abc")]);
    let read = |body: &str| Correction::parse(&map, &body.as_bytes().to_vec()).map(|found| found.is_some());
    assert_eq!(read(r#"{"error":{"code":"other"}}"#), Ok(false));
    assert_eq!(read("{}"), Ok(false));
    assert_eq!(read(r#"{"error":{"code":"wrong_cluster","policy_revision":1,"shard_token":"abc"}}"#), Ok(true));
    assert_eq!(read(r#"{"error":{"code":"wrong_cluster","policy_revision":1,"shard_token":"x"}}"#), Err(()));
    assert_eq!(read(r#"{"error":{"code":"wrong_cluster"}}"#), Err(()));
    assert_eq!(read(r#"{"error":{"code":"wrong_cluster","policy_revision":9007199254740992}}"#), Err(()));
    assert_eq!(read("[]"), Ok(false));
    assert_eq!(read(r#"[["wrong_cluster",1,"abc"]]"#), Ok(true));
    assert_eq!(read(r#"[["wrong_cluster"]]"#), Err(()));
    assert_eq!(read("[{},1]"), Err(()));
    assert_eq!(read("7"), Err(()));
    assert_eq!(
        read(r#"{"error":{"code":"wrong_cluster","code":"other","policy_revision":1,"shard_token":"abc"}}"#),
        Err(())
    );
    assert_eq!(
        read(r#"{"error":{"code":"wrong_cluster","policy_revision":1,"policy_revision":1,"shard_token":"abc"}}"#),
        Err(())
    );
}

#[test]
fn routes_follow_revisions() {
    let mut state = State::default();
    let first = state.snapshot();
    assert_eq!(first.token, None);
    state.complete(&first, Some(correction(2, "a")), false, false);
    assert_eq!(state.snapshot().token, Some(b"a".to_vec()));
    state.complete(&first, Some(correction(3, "b")), false, false);
    assert_eq!(state.snapshot().token, Some(b"a".to_vec()));
    let now = state.snapshot();
    state.complete(&now, Some(correction(1, "b")), false, false);
    assert_eq!(state.snapshot().token, Some(b"a".to_vec()));
    let now = state.snapshot();
    state.complete(&now, Some(correction(3, "c")), false, false);
    assert_eq!(state.snapshot().token, None);
}

#[test]
fn failures_drop_the_route() {
    let mut state = State::default();
    let first = state.snapshot();
    state.complete(&first, Some(correction(2, "a")), false, false);
    for _ in 0..2 {
        let now = state.snapshot();
        state.complete(&now, None, false, true);
        assert!(state.snapshot().token.is_some());
    }
    let now = state.snapshot();
    state.complete(&now, None, false, true);
    assert!(state.snapshot().token.is_none());
    let same = state.snapshot().generation;
    state.complete(&Attempt { generation: same, token: None }, None, false, false);
    assert_eq!(state.snapshot().generation, same);
}

#[test]
fn polls_are_settled() {
    let mut control = control();
    control.poll_timeout = Span(30 * SECOND);
    control.guard = Span(5 * SECOND);
    let wait = control.wait(0, false);
    let mut routing = State::default();
    let mut seen = observation();
    let mut learned = 0;
    let mut settle = |outcome: Outcome, ending: Ending| {
        let attempt = routing.snapshot();
        seen.poll(wait, control.guard, 1);
        let step = control.settle(&mut routing, &mut seen, &mut learned, &attempt, wait, &outcome, &ending, 9);
        matches!(step, Step::Deliver)
    };
    let ending = |closed: bool| Ending { answered: false, proxied: true, closed, elapsed: 20 * SECOND };
    assert!(settle(Outcome::Commands(3, 200), ending(false)));
    assert!(!settle(Outcome::Failed(Failure::Timeout), ending(false)));
    assert!(!settle(Outcome::Failed(Failure::Network), ending(true)));
    assert!(!settle(Outcome::Refused(poll::refuse(500, &headers(&[]), &Refused::TooLong)), ending(false)));
    assert_eq!(learned, 15_000);
    assert_eq!((seen.cycles, seen.errors, seen.timeouts, seen.others), (4, 3, 1, 2));
    assert_eq!((seen.commands, seen.consecutive_failures, seen.http_status), (3, 3, 500));
    assert_eq!(seen.deadline, 35 * SECOND as u128);
    assert!(!seen.connected);
}

#[test]
fn pauses_are_bounded() {
    let now = 784_111_777 * SECOND;
    let delay = |value: &str| poll::retry_delay(2 * SECOND, &headers(&[("retry-after", value)]), now).0;
    assert_eq!(delay("7"), 7 * SECOND);
    assert_eq!(delay("1"), 2 * SECOND);
    assert_eq!(delay("99999999999999999999999"), 60 * SECOND);
    assert_eq!(delay("Sun, 06 Nov 1994 08:49:40 GMT"), 3 * SECOND);
    assert_eq!(delay("Sun, 06 Nov 1994 08:49:00 GMT"), 2 * SECOND);
    assert_eq!(delay("soon"), 2 * SECOND);
    assert_eq!(poll::retry_delay(5, &headers(&[]), now), Span(5));
}

#[test]
fn messages_are_viewed() {
    let found = protocol::view(r#"{"id":1,"method":"m","result":null}"#).expect("envelope");
    assert_eq!(found.id, Some("1".to_owned()));
    assert_eq!(found.method, Some("m".to_owned()));
    assert_eq!(found.result, None);
    assert!(protocol::view(r#"{"method":1}"#).is_err());
    assert!(protocol::view("[]").is_err());
    assert_eq!(protocol::field(r#"{"a": {"b":  1}}"#, "a"), Some(r#"{"b":  1}"#.to_owned()));
}

#[test]
fn messages_are_changed() {
    assert_eq!(
        protocol::replace(r#"{"b":1,"a":{}}"#, &list(&["a", "x"]), "2"),
        Ok(r#"{"a":{"x":2},"b":1}"#.to_owned())
    );
    assert!(protocol::replace("3", &list(&["a"]), "2").is_err());
}

#[test]
fn replies_answer_requests() {
    let request = Request { message: r#"{"id": "a", "method":"m"}"#.to_owned(), headers: headers(&[]) };
    let reply = protocol::result(&request, r#"{"x": 1}"#).expect("reply");
    assert_eq!(reply.message, Some(r#"{"id":"a","jsonrpc":"2.0","result":{"x":1}}"#.to_owned()));
    assert!(reply.terminal());
    let reply = Reply::error(&request, 502, -32603, "no").expect("reply");
    assert_eq!(
        reply.message,
        Some(r#"{"error":{"code":-32603,"message":"no"},"id":"a","jsonrpc":"2.0"}"#.to_owned())
    );
    assert_eq!(reply.status, 502);
    let notice = Request { message: r#"{"method":"m"}"#.to_owned(), headers: headers(&[]) };
    let reply = Reply::error(&notice, 502, 1, "no").expect("reply");
    assert_eq!(reply.kind, "notify_ack");
    assert_eq!(
        protocol::respond(&notice, Json::Null).err(),
        Some("request has no response ID".to_owned())
    );
    assert!(!Reply::ack(200, "jsonrpc_notify").terminal());
    assert!(protocol::same_id("1", " 1"));
    assert!(!protocol::same_id("1", "\"1\""));
    assert!(protocol::same_id("{", "["));
    assert!(!protocol::same_id("{", "1"));
    assert!(protocol::same_id("0.0", "-0.0"));
    assert!(protocol::same_id(r#"{"a":1,"b":2}"#, r#"{"b":2, "a":1}"#));
}

#[test]
fn sessions_scope_requests() {
    let mut request = Request {
        message: r#"{"params":{"_meta":{"openai/session":"s"}}}"#.to_owned(),
        headers: headers(&[]),
    };
    assert_eq!(request.scope(), "\"s\"");
    request.headers = headers(&[("mcp-session-id", "mine")]);
    assert_eq!(request.scope(), "mine");
    assert!(protocol::initialize().message.contains("2026-07-28"));
}

#[test]
fn timeouts_are_read() {
    let read = |value: &str| protocol::timeout(&Json::text(value));
    assert_eq!(read("20ms"), Some(Span(20_000_000)));
    assert_eq!(read("2h"), Some(Span(7200 * SECOND)));
    assert_eq!(read("2"), None);
    assert_eq!(read("s"), None);
    assert_eq!(read("9999999999999h"), None);
    assert_eq!(protocol::timeout(&Json::number(3)), None);
}

#[test]
fn headers_of_a_hop_stay_there() {
    let map = headers(&[("connection", "x-a, close"), ("x-a", "1"), ("x-b", "2"), ("content-type", "t")]);
    let all = protocol::wire_headers(&map, false);
    assert!(all.get("x-a").is_none());
    assert!(all.get("connection").is_none());
    assert_eq!(all.get("x-b"), Some(&list(&["2"])));
    let few = protocol::wire_headers(&map, true);
    assert_eq!(few.len(), 1);
    assert_eq!(few.get("content-type"), Some(&list(&["t"])));
    let table = Table::new().insert("bad name".to_owned(), list(&["1"]));
    assert_eq!(protocol::header_map(&table).err(), Some("invalid HTTP header name".to_owned()));
    let table = Table::new().insert("a".to_owned(), list(&["\n"]));
    assert_eq!(protocol::header_map(&table).err(), Some("failed to parse header value".to_owned()));
}

#[test]
fn answers_are_framed() {
    let correlation = Correlation::new(&command("jsonrpc"));
    let reply = Reply::json(r#"{"id":1,"result":{}}"#.to_owned());
    assert_eq!(
        delivery::payload(&correlation, &reply),
        r#"{"request_id":"r","channel":"main","resp_json":{"id":1,"result":{}},"resp_headers":{"Content-Type":["application/json"]},"resp_code":200,"resp_type":"jsonrpc_response"}"#
    );
    assert_eq!(
        delivery::payload(&correlation, &Reply::ack(202, "notify_ack")),
        r#"{"request_id":"r","channel":"main","resp_code":202,"resp_type":"notify_ack"}"#
    );
}

#[test]
fn nothing_is_asked_for_without_room() {
    assert_eq!(poll::ask(0), Ask::Nothing);
    assert_eq!(poll::ask(1), Ask::Poll(1));
    assert_eq!(poll::ask(25), Ask::Poll(25));
    assert_eq!(poll::ask(usize::MAX), Ask::Poll(25));
    let control = control();
    assert!(control.poll(0, 0, true).expect("poll").is_none());
    let made = control.poll(100, 0, false).expect("poll").expect("request");
    assert_eq!(Ok(made.url), control.poll_url(25, made.wait.requested));
}

#[test]
fn an_outcome_counts_once() {
    let mut state = State::default();
    let attempt = state.snapshot();
    state.complete(&attempt, Some(correction(4, "t")), false, false);
    let after = state.snapshot();
    assert_eq!(after.token, Some(b"t".to_vec()));
    state.complete(&attempt, Some(correction(5, "u")), true, true);
    assert_eq!(state.snapshot().token, after.token);
    assert_eq!(state.snapshot().generation, after.generation);
    state.complete(&after, None, false, false);
    assert_eq!(state.snapshot().generation, after.generation);
}

#[test]
fn polls_and_requests_are_measured() {
    let taken = |year: i32, seconds: i64| Some(Created { year, seconds, nanos: 500_000_000 });
    let created = vec![taken(2001, 1_000_000_000), None, taken(1, 0), taken(2001, 1_000_000_003)];
    let polled =
        measure::measure_poll(Metrics::new(), &created, 1_000_000_002_000_000_000, true, 2_500_000_000);
    let shown = polled.render();
    assert!(shown.contains(
        "commands_age_seconds_sum{otel_scope_name=\"controlplane\",otel_scope_schema_url=\"\",otel_scope_version=\"\"} 1.5\n"
    ));
    assert!(shown.contains("commands_poll_latency_seconds_sum{error=\"false\","));
    assert!(shown.contains("otel_scope_version=\"\"} 2.5\n"));
    let failed = measure::measure_poll(Metrics::new(), &Vec::new(), 0, false, 7).render();
    assert!(failed.contains("commands_poll_latency_seconds_count{error=\"true\","));
    assert!(!failed.contains("commands_age_seconds"));
    let correlation = Correlation::new(&command("jsonrpc"));
    let none = measure::record_latency(Metrics::new(), &correlation, "t", 0, None, 0, 9);
    assert_eq!(none.render(), Metrics::new().render());
    let some = measure::record_latency(
        Metrics::new(),
        &correlation,
        "t",
        200,
        taken(2001, 1_000_000_000),
        1_000_000_002_000_400_000,
        3_900_000,
    )
    .render();
    assert!(some.contains("latency_type=\"enqueue_to_response\""));
    assert!(some.contains("} 1500\n"));
    assert!(some.contains("latency_type=\"poll_to_response\""));
    assert!(some.contains("} 3\n"));
}

#[test]
fn messages_name_their_fields_once() {
    let found = protocol::view(r#"{"x":1,"x":2,"id":7,"method":"m","result":null}"#).expect("view");
    assert_eq!(found.id.as_deref(), Some("7"));
    assert_eq!(found.method.as_deref(), Some("m"));
    assert_eq!(found.result, None);
    let fault = |message: &str| protocol::view(message).err();
    assert_eq!(fault(r#"{"id":1,"id":2}"#), Some("duplicate field `id`".to_owned()));
    assert_eq!(fault(r#"{"method":"a","\u006dethod":"b"}"#), Some("duplicate field `method`".to_owned()));
    assert_eq!(
        fault(r#"{"method":"\u006d"}"#),
        Some("invalid type for method, expected a borrowed string".to_owned())
    );
    assert_eq!(
        fault(r#"{"method":1}"#),
        Some("invalid type for method, expected a borrowed string".to_owned())
    );
    let found = protocol::view(r#"[1,"m",null,{"code":2}]"#).expect("view");
    assert_eq!(found.id.as_deref(), Some("1"));
    assert_eq!(found.method.as_deref(), Some("m"));
    assert_eq!(found.result, None);
    assert_eq!(found.error.as_deref(), Some(r#"{"code":2}"#));
    assert_eq!(fault(r#"[1,"m"]"#), Some("invalid length 2".to_owned()));
    assert!(fault("3").is_some());
}

#[test]
fn the_service_tells_of_the_tunnel() {
    let told = |status: u16, body: &str| client::metadata(status, &body.as_bytes().to_vec());
    assert!(matches!(told(200, r#"{"name":"t"}"#), Ok(Json::Object(_))));
    assert!(matches!(told(203, "7 "), Ok(Json::Number(_))));
    assert_eq!(told(204, "").err(), Some("decode tunnel metadata response".to_owned()));
    assert_eq!(told(200, "{").err(), Some("decode tunnel metadata response".to_owned()));
    let refused = told(500, r#"{"error":{"code":"x","message":"m"}}"#).err().expect("refused");
    let body = br#"{"error":{"code":"x","message":"m"}}"#.to_vec();
    assert_eq!(refused, StatusError::read(500, "metadata", &body).text());
    assert!(refused.contains("500"));
    assert!(refused.contains("metadata"));
}
