use otunnel::config::duration::Span;
use otunnel::config::settings::{Config, Server};
use otunnel::json::Json;
use otunnel::protocol::Command;
use otunnel::proxy_health;
use otunnel::runtime::command::{self, Binding, Plan};
use otunnel::runtime::diagnosis::{self, Ask, Found, Reached};
use otunnel::runtime::startup::{self, Attempt, Discovered, Next, Probed};
use otunnel::runtime::dispatch::Dispatch;
use otunnel::runtime::{self, Activity, Ended, Load, Move, Phase, Snapshot, Startup};
use otunnel::table::Table;

const SECOND: u64 = 1_000_000_000;

fn list(items: &[&str]) -> Vec<String> {
    items.iter().map(|item| item.to_string()).collect()
}

fn snapshot() -> Snapshot {
    Snapshot::new(&Config::default(), unseen(), 0)
}

fn unseen() -> proxy_health::Snapshot {
    proxy_health::Snapshot { routes: Vec::new(), observed_at: 0 }
}

fn binding(name: &str, available: bool) -> Binding {
    Binding { name: name.to_owned(), available, stateless: false, affinity: false }
}

fn command(kind: &str, channel: &str) -> Command {
    Command {
        request_id: "r".to_owned(),
        shard_token: "t".to_owned(),
        command_type: kind.to_owned(),
        channel: channel.to_owned(),
        headers: Table::new(),
        response_timeout: Json::Null,
        jsonrpc: Some(r#"{"id":4,"method":"m"}"#.to_owned()),
    }
}

#[test]
fn a_runtime_is_ready_when_nothing_is_open() {
    let mut seen = snapshot();
    assert_eq!(seen.readiness(), (true, "ready".to_owned()));
    seen.mcp_probe = Startup::pending();
    assert_eq!(seen.readiness(), (false, "mcp startup probe pending".to_owned()));
    seen.mcp_probe = Startup::settled(Phase::Timeout, Some("t".to_owned()), 1);
    assert_eq!(seen.readiness(), (true, "ready (mcp startup probe timed out: t)".to_owned()));
    seen.mcp_probe = Startup::settled(Phase::AuthRequired, Some("a".to_owned()), 1);
    assert_eq!(
        seen.readiness(),
        (true, "ready (mcp initialize requires auth: a)".to_owned())
    );
    seen.mcp_probe = Startup::settled(Phase::StartupTimeout, Some("w".to_owned()), 1);
    assert_eq!(seen.readiness(), (false, "mcp startup wait failed: w".to_owned()));
    seen.mcp_probe = Startup::settled(Phase::Failed, Some("f".to_owned()), 1);
    assert_eq!(seen.readiness(), (false, "mcp probe failed: f".to_owned()));
    seen.oauth = Startup::pending();
    assert_eq!(seen.readiness(), (false, "oauth discovery pending".to_owned()));
    seen.oauth = Startup::settled(Phase::Failed, Some("o".to_owned()), 1);
    assert_eq!(seen.readiness(), (false, "oauth discovery failed: o".to_owned()));
    seen.cloudflare_ready = Some(false);
    assert_eq!(seen.readiness(), (false, "cloudflared not ready".to_owned()));
    seen.drain(Some("over".to_owned()));
    assert_eq!(seen.readiness(), (false, "runtime is draining".to_owned()));
    assert_eq!(seen.last_error, Some("over".to_owned()));
}

#[test]
fn companions_decide_on_readiness() {
    let mut seen = snapshot();
    seen.run();
    assert!(seen.ready);
    assert!(seen.companion(false, 5));
    assert!(!seen.ready);
    assert!(!seen.companion(false, 6));
    assert!(seen.companion(true, 7));
    assert!(seen.ready);
    seen.companion_gone(8);
    assert!(!seen.ready);
    seen.refresh_readiness();
    assert!(!seen.ready);
    assert_eq!(seen.cloudflare_observed_at, 8);
}

#[test]
fn work_is_counted() {
    let seen = snapshot();
    let activity = Activity::new().enqueue(2, 2, 10).start("a", 1, 11).start("b", 0, 12);
    assert_eq!((activity.enqueued, activity.dequeued), (2, 2));
    assert_eq!(activity.oldest_age(20), 9);
    let seen = Snapshot { activity, in_flight: 2, ..seen };
    let seen = seen.finish("a", Ended::Completed, 1, 21);
    assert_eq!((seen.completed, seen.in_flight), (1, 1));
    assert!(!seen.activity.last_failed);
    let seen = seen.finish("b", Ended::Expired, 0, 22);
    assert_eq!((seen.expired, seen.activity.active.len()), (1, 0));
    let seen = seen.finish("c", Ended::Failed, 0, 23);
    assert!(seen.activity.last_failed);
    assert_eq!(seen.failed, 1);
    assert_eq!(seen.activity.stop().queued, 0);
}

#[test]
fn pressure_is_summed() {
    let activity = Activity::new().press(true, 10).press(true, 12).press(false, 15);
    assert_eq!((activity.pressure, activity.pressure_started), (5, 0));
    assert_eq!(runtime::elapsed(9, 3), 0);
}

#[test]
fn work_stays_within_its_bounds() {
    let load = |working, queued, polling| Load { working, queued, capacity: 3, concurrency: 2, polling };
    assert!(load(1, 1, false).next() == Move::Start);
    assert!(load(2, 1, false).next() == Move::Poll(2));
    assert!(load(2, 3, false).next() == Move::Wait);
    assert!(load(2, 1, true).next() == Move::Wait);
    assert!(load(2, 3, true).pressed());
    assert!(!load(2, 2, true).pressed());
}

#[test]
fn what_is_told_of_work_is_true() {
    let mut dispatch = Dispatch::new(3, 2);
    let seen = snapshot();
    assert!(dispatch.next() == Move::Poll(3));
    dispatch.poll();
    assert!(dispatch.next() == Move::Wait);
    let seen = dispatch.receive(seen, 3, 1);
    assert_eq!((seen.in_flight, seen.activity.queued, seen.activity.enqueued), (3, 3, 3));
    assert!(dispatch.next() == Move::Start);
    let seen = dispatch.start(seen, "a", 2);
    assert!(dispatch.next() == Move::Start);
    let seen = dispatch.start(seen, "a", 3);
    assert_eq!((seen.in_flight, seen.activity.queued, seen.activity.active.len()), (3, 1, 1));
    assert!(dispatch.next() == Move::Poll(2));
    let seen = dispatch.finish(seen, "a", Ended::Completed, 4);
    assert_eq!((seen.in_flight, seen.completed, seen.activity.active.len()), (2, 1, 0));
    assert_eq!(dispatch.load().working, 1);
    let seen = dispatch.start(seen, "b", 5);
    assert_eq!((seen.in_flight, seen.activity.active.len()), (2, 1));
    let seen = dispatch.finish(seen, "c", Ended::Failed, 6);
    assert_eq!((seen.in_flight, seen.failed), (2, 1));
    let seen = dispatch.stop(seen);
    assert_eq!((seen.in_flight, seen.activity.queued, seen.activity.active.len()), (0, 0, 0));
    assert_eq!(dispatch.load().working, 0);
}

#[test]
fn channels_are_bound_once() {
    assert_eq!(command::bind(&list(&["main"]), " Side "), Ok("side".to_owned()));
    assert_eq!(command::bind(&Vec::new(), ""), Ok("main".to_owned()));
    assert_eq!(command::bind(&list(&["main"]), "MAIN").err(), Some("duplicate channel main".to_owned()));
    assert!(command::bind(&Vec::new(), "a b").is_err());
}

#[test]
fn commands_come_too_late() {
    assert_eq!(runtime::deadline(5, Some(Span(7))), Some(12));
    assert_eq!(runtime::deadline(5, Some(Span(u64::MAX))), None);
    assert!(runtime::late(5, Some(Span(7)), 12));
    assert!(!runtime::late(5, Some(Span(7)), 11));
    assert!(!runtime::late(5, None, u64::MAX));
}

#[test]
fn channels_are_bound() {
    let bindings = vec![binding("main", true), binding("side", false)];
    let names: Vec<String> = command::channels(&bindings).into_iter().map(|channel| channel.name).collect();
    assert_eq!(names, list(&["main"]));
    assert_eq!(command::check_bindings(&bindings, &None), Ok(()));
    assert_eq!(command::check_bindings(&bindings, &Some(list(&["main"]))), Ok(()));
    assert!(command::check_bindings(&bindings, &Some(list(&["other"]))).is_err());
    assert_eq!(
        command::check_bindings(&vec![binding("side", true)], &None).err(),
        Some("main channel is required; set --mcp.server-url or --mcp.command".to_owned())
    );
    assert_eq!(
        command::check_bindings(&vec![binding("main", false)], &None).err(),
        Some("no MCP channels configured".to_owned())
    );
}

#[test]
fn commands_are_planned() {
    assert!(matches!(command::plan(&command("other", "main"), true), Ok(Plan::Ignore)));
    assert!(matches!(command::plan(&command("session_termination", "main"), true), Ok(Plan::Terminate(_))));
    assert!(matches!(command::plan(&command("oauth_discovery", "main"), true), Ok(Plan::Discover)));
    match command::plan(&command("jsonrpc", "main"), true) {
        Ok(Plan::Forward { message, .. }) => assert_eq!(message, r#"{"id":4,"method":"m"}"#),
        _ => panic!("not forwarded"),
    }
    match command::plan(&command("oauth_discovery", "side"), true) {
        Ok(Plan::Refuse { reply, message }) => {
            assert_eq!(message, "unsupported channel \"side\"");
            assert_eq!(reply.status, 400);
            assert_eq!(reply.kind, "oauth_discovery_response");
        }
        _ => panic!("not refused"),
    }
    match command::plan(&command("jsonrpc", "no"), false) {
        Ok(Plan::Refuse { reply, .. }) => {
            assert!(reply.message.expect("message").contains("unsupported channel"))
        }
        _ => panic!("not refused"),
    }
    let mut empty = command("jsonrpc", "main");
    empty.jsonrpc = None;
    assert_eq!(
        command::plan(&empty, true).err(),
        Some("JSON-RPC command has no payload".to_owned())
    );
    let reply = command::failed("session_termination", "no");
    assert_eq!(reply.message, Some(r#"{"error":"no"}"#.to_owned()));
    assert_eq!((reply.status, reply.kind.as_str()), (502, "session_termination_response"));
}

#[test]
fn servers_are_waited_for() {
    assert!(startup::next(Attempt::Refused, Some(100), 40, 50) == Next::Retry(50));
    assert!(startup::next(Attempt::Refused, Some(100), 80, 50) == Next::Retry(20));
    assert!(startup::next(Attempt::Refused, Some(100), 100, 50) == Next::GiveUp);
    assert!(startup::next(Attempt::TimedOut, Some(100), 40, 50) == Next::Settle);
    assert!(startup::next(Attempt::Refused, None, 40, 50) == Next::Settle);
    assert_eq!(startup::longer(50, 120), 100);
    assert_eq!(startup::longer(100, 120), 120);
    assert_eq!(startup::attempt_end(0, None), 2 * SECOND);
    assert_eq!(startup::attempt_end(0, Some(SECOND)), SECOND);
    assert_eq!(startup::waited(90 * SECOND), "MCP startup wait exceeded 1m 30s");
}

#[test]
fn startup_is_settled() {
    let found = startup::probed(Probed::Reached { authentication_required: true, status: 401 }, 3);
    assert!(found.state == Phase::AuthRequired);
    assert_eq!(found.error, Some("MCP discovery returned HTTP 401".to_owned()));
    assert_eq!(found.observed_at, Some(3));
    assert!(startup::probed(Probed::Waited(String::new()), 3).state == Phase::StartupTimeout);
    assert!(startup::probed(Probed::TimedOut(String::new()), 3).state == Phase::Timeout);
    assert!(startup::probed(Probed::Failed(String::new()), 3).state == Phase::Failed);
    assert!(startup::discovered(Discovered::Again, 3).is_none());
    let found = startup::discovered(Discovered::Status(404), 3).expect("outcome");
    assert_eq!(found.error, Some("OAuth discovery returned HTTP 404".to_owned()));
    let found = startup::discovered(Discovered::Status(200), 3).expect("outcome");
    assert!(found.state == Phase::Complete);
    let found = startup::discovered(Discovered::Optional("n".to_owned()), 3).expect("outcome");
    assert_eq!(found.state.text(), "not_advertised");
}

#[test]
fn servers_are_diagnosed() {
    let mut config = Config::default();
    let mut server = Server::default();
    server.channel = "side".to_owned();
    server.url = "https://s".to_owned();
    config.mcp.server_urls = vec![server];
    let checks = diagnosis::reach_checks(
        &config,
        "side",
        &Reached::Answered { authentication_required: false, tools: Some(2) },
    );
    let found: Vec<(&str, &str)> =
        checks.iter().map(|check| (check.id.as_str(), check.summary.as_str())).collect();
    assert_eq!(
        found,
        vec![
            ("mcp_target.side", "https://s"),
            ("mcp_server_reachable.side", "MCP initialization completed"),
            ("mcp_tools.side", "2 tools discovered"),
        ]
    );
    let checks = diagnosis::reach_checks(&config, "main", &Reached::Failed("no".to_owned()));
    assert_eq!(checks[0].summary, "main");
    assert_eq!(checks[1].status.text(), "FAIL");
    assert_eq!(diagnosis::oauth_check("main", &Found::Optional).status.text(), "SKIP");
    assert_eq!(
        diagnosis::oauth_check("main", &Found::Reply { status: 200, message: true }).status.text(),
        "PASS"
    );
    assert_eq!(
        diagnosis::oauth_check("main", &Found::Reply { status: 404, message: false }).status.text(),
        "SKIP"
    );
    assert_eq!(
        diagnosis::oauth_check("main", &Found::Reply { status: 500, message: true }).status.text(),
        "FAIL"
    );
    assert_eq!(diagnosis::oauth_check("a", &Found::Failed("x".to_owned())).id, "oauth_metadata.a");
    assert_eq!(diagnosis::control_check(None).summary, "tunnel metadata received");
    assert_eq!(diagnosis::control_check(Some("no")).status.text(), "FAIL");
}

#[test]
fn runtimes_start_unready() {
    let mut config = Config::default();
    let seen = Snapshot::new(&config, unseen(), 7);
    assert!(seen.mcp_probe.state == Phase::Disabled);
    assert_eq!(seen.cloudflare_ready, None);
    assert_eq!(seen.control.poll_state, "starting");
    assert_eq!(seen.started_at, 7);
    let mut server = Server::default();
    server.channel = "main".to_owned();
    config.mcp.server_urls = vec![server];
    config.cloudflared.managed = true;
    let seen = Snapshot::new(&config, unseen(), 7);
    assert!(seen.mcp_probe.state == Phase::Pending);
    assert!(seen.oauth.state == Phase::Pending);
    assert_eq!(seen.cloudflare_ready, Some(false));
    config.control_plane.poll_channels = Some(list(&["side"]));
    assert!(Snapshot::new(&config, unseen(), 7).mcp_probe.state == Phase::Disabled);
}

#[test]
fn runtimes_start_with_their_ways() {
    let config = Config::default();
    let routes = proxy_health::routes(&config, &Table::new(), &Table::new()).expect("routes");
    let count = routes.len();
    assert!(count > 0);
    let seen = Snapshot::new(&config, proxy_health::Snapshot { routes, observed_at: 3 }, 7);
    assert_eq!(seen.proxy.routes.len(), count);
    assert_eq!(seen.proxy.observed_at, 3);
}

#[test]
fn diagnoses_end_by_closing() {
    let (checks, ask) = diagnosis::after_validation(&Err("bad".to_owned()));
    assert_eq!(ask, Ask::Close);
    assert_eq!(checks.len(), 1);
    assert_eq!(checks[0].id, "config_validation");
    assert_eq!(checks[0].evidence, list(&["bad"]));
    let (checks, ask) = diagnosis::after_validation(&Ok(()));
    assert_eq!(ask, Ask::Prepare);
    assert!(checks.is_empty());
    let (checks, ask) = diagnosis::after_preparation(&Err("down".to_owned()));
    assert_eq!(ask, Ask::Service);
    assert_eq!(checks[0].id, "mcp_target");
    assert_eq!(checks[0].evidence, list(&["down"]));
    let (checks, ask) = diagnosis::after_preparation(&Ok(()));
    assert_eq!(ask, Ask::Channels);
    assert!(checks.is_empty());
    assert_eq!(diagnosis::after(Ask::Channels), Some(Ask::Service));
    assert_eq!(diagnosis::after(Ask::Service), Some(Ask::Close));
    assert_eq!(diagnosis::after(Ask::Close), None);
    assert!(diagnosis::close_check(&Ok(())).is_none());
    let check = diagnosis::close_check(&Err("stuck".to_owned())).expect("check");
    assert_eq!(check.id, "shutdown");
    assert_eq!(check.evidence, list(&["stuck"]));
}
