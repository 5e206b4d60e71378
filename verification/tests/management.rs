use otunnel::admin::{self, Client, RequestError, Tunnel, TunnelList};
use otunnel::json::{self, Json};
use otunnel::management::files;
use otunnel::management::identity::{self, Ending, Identity};
use otunnel::management::inspect::{self, Endpoint, File, Live, Probe, Seen, State};
use otunnel::management::profiles::{first, Manager};
use otunnel::management::records::{AdminProfile, Alias, Process};
use otunnel::management::runtimes::connection::{self, Kind};
use otunnel::management::runtimes::removal::{self, Class, Place, Stop};
use otunnel::management::runtimes::report;
use otunnel::management::runtimes::{self, Connect, Create, Found, Remote, Scope};
use otunnel::management::session::{self, Before, Launch};
use otunnel::management::state::{self, Root};
use otunnel::table::Table;

const TUNNEL: &str = "tunnel_0123456789abcdef0123456789abcdef";

fn list(items: &[&str]) -> Vec<String> {
    items.iter().map(|item| item.to_string()).collect()
}

fn table(entries: &[(&str, &str)]) -> Table<String> {
    let mut table = Table::new();
    for (key, value) in entries {
        table = table.insert(key.to_string(), value.to_string());
    }
    table
}

fn root() -> Root {
    Root { path: "/state".to_owned() }
}

fn manager() -> Manager {
    Manager { root: root() }
}

fn file(path: &str, exists: bool) -> File {
    File { path: path.to_owned(), exists, size_bytes: 0 }
}

fn seen() -> Seen {
    Seen {
        health: file("/state/health/a.url", false),
        raw_url: String::new(),
        probe: Probe::none(),
        live: None,
        replacement: Probe::none(),
        profile: file("/p/a.yaml", true),
        log: file("/state/logs/a.log", false),
        tail: String::new(),
        tmux: false,
        running: false,
    }
}

fn create() -> Create {
    Create {
        alias: "My Tunnel".to_owned(),
        name: String::new(),
        description: String::new(),
        remote: Remote {
            profile: String::new(),
            key: String::new(),
            base_url: String::new(),
            url_path: String::new(),
        },
        scope: Scope { organizations: list(&["org"]), workspaces: Vec::new(), tenant: String::new() },
    }
}

fn connect() -> Connect {
    Connect {
        create: create(),
        tunnel_id: String::new(),
        profile: String::new(),
        profile_dir: "/p".to_owned(),
        server_url: " https://mcp.example/mcp ".to_owned(),
        command: String::new(),
        key: String::new(),
        binary: String::new(),
    }
}

#[test]
fn aliases_are_plain() {
    let once = state::alias(" My Tunnel! ").expect("alias");
    assert_eq!(once, "my-tunnel");
    assert_eq!(state::alias(&once), Ok(once.clone()));
    assert_eq!(
        state::alias("!!").err(),
        Some("alias must contain at least one ASCII letter or number".to_owned())
    );
}

#[test]
fn credentials_are_references() {
    assert_eq!(state::reference("env:KEY"), Ok(()));
    assert_eq!(
        state::reference("sk-1").err(),
        Some("credential must be an env:NAME or file:/path reference".to_owned())
    );
}

#[test]
fn targets_hold_no_secrets() {
    assert_eq!(state::target("python server.py"), Ok(()));
    assert!(state::target("https://u:p@host/").is_err());
    assert!(state::target("run --api-key abc").is_err());
}

#[test]
fn history_is_written_in_lines() {
    assert_eq!(
        state::history("now", "rm", "a", " ", " x\ny "),
        "- now action=rm alias=a tunnel_id=- detail=x y\n"
    );
}

#[test]
fn records_are_read_from_files() {
    let aliases = root()
        .aliases(Some(r#"{"a":{"alias":"a","tunnel_id":"t","organization_ids":["o"]}}"#))
        .expect("aliases");
    assert_eq!(aliases.get("a").map(|alias| alias.tunnel_id.as_str()), Some("t"));
    assert_eq!(root().aliases(None).map(|table| table.len()), Ok(0));
    assert!(root().aliases(Some("[]")).is_err());
    let processes = root()
        .processes(Some(r#"{"a":{"alias":"a","mode":"process","pid":7}}"#))
        .expect("processes");
    assert_eq!(processes.get("a").and_then(|process| process.pid), Some(7));
}

#[test]
fn profiles_are_set_and_put_into_use() {
    let file = root().profiles(None).expect("profiles");
    let (file, told) = manager()
        .set_profile("Work", "https://api.example", "", "env:KEY", false, file, &table(&[]), "now")
        .expect("profile");
    assert_eq!(file.active_profile, "work");
    assert_eq!(
        told.get("profile").and_then(|profile| profile.get_text("admin_key")),
        Some("env:KEY".to_owned())
    );
    let (file, _) = manager().activate_profile("work", file).expect("active");
    assert!(manager().activate_profile("none", file).is_err());
}

#[test]
fn a_remote_profile_is_kept() {
    let requested = create().remote;
    let file = root().profiles(None).expect("profiles");
    let (profile, after) =
        manager().remote(&requested, "", file, &table(&[]), "now").expect("profile");
    assert_eq!(profile.name, "default");
    assert_eq!(profile.control_plane_base_url, "https://api.openai.com");
    assert_eq!(profile.admin_key, "env:OPENAI_ADMIN_KEY");
    let (again, after) = manager()
        .remote(&requested, "", after.expect("changed"), &table(&[]), "later")
        .expect("profile");
    assert_eq!(again.updated_at, "now");
    assert!(after.is_none());
    assert_eq!(first(" ", " x "), "x");
}

#[test]
fn scopes_are_of_one_kind() {
    let mut scope = create().scope;
    assert_eq!(scope.validate(true), Ok(()));
    assert!(scope.present());
    scope.organizations.push("two".to_owned());
    assert_eq!(scope.validate(false), Ok(()));
    assert_eq!(scope.validate(true).err().as_deref(), Some(runtimes::ORGANIZATIONS));
    scope.tenant = "t".to_owned();
    assert_eq!(scope.validate(false).err().as_deref(), Some(runtimes::FAMILIES));
    let scope = Scope {
        organizations: Vec::new(),
        workspaces: list(&["a", "b"]),
        tenant: String::new(),
    };
    assert_eq!(scope.validate(true).err().as_deref(), Some(runtimes::WORKSPACES));
}

#[test]
fn tunnels_are_looked_up() {
    assert!(runtimes::looked_up(None) == Found::There);
    assert!(runtimes::looked_up(Some("HTTP 404")) == Found::Forget);
    assert!(runtimes::looked_up(Some("HTTP 500")) == Found::Fail);
    let mut tunnel = Tunnel::default();
    tunnel.name = "my-tunnel".to_owned();
    tunnel.id = TUNNEL.to_owned();
    assert_eq!(
        create().find("my-tunnel", &vec![tunnel]).map(|tunnel| tunnel.id),
        Some(TUNNEL.to_owned())
    );
    assert_eq!(
        create().body("my-tunnel").map(json::write),
        Ok(r#"{"description":"MCP tunnel for my-tunnel","name":"my-tunnel","organization_ids":["org"]}"#.to_owned())
    );
    let mut unowned = create();
    unowned.scope.organizations.clear();
    assert_eq!(
        unowned.body("a").err(),
        Some("creating a tunnel requires --organization-id or --workspace-id".to_owned())
    );
    assert_eq!(create().begin(), Ok("my-tunnel".to_owned()));
}

#[test]
fn tunnels_are_noted() {
    let mut tunnel = Tunnel::default();
    tunnel.id = TUNNEL.to_owned();
    tunnel.name = "n".to_owned();
    let (aliases, line, told) = manager().create("a", &tunnel, "default", Table::new(), "now");
    assert_eq!(aliases.get("a").map(|alias| alias.name.as_str()), Some("n"));
    assert_eq!(
        line,
        format!("- now action=create alias=a tunnel_id={TUNNEL} detail=name=n admin_profile=default\n")
    );
    assert_eq!(told.get_text("admin_profile_path"), Some("/state/admin_profiles.yaml".to_owned()));
}

#[test]
fn connections_are_planned() {
    let plan = connect().plan("a", &table(&[]), None).expect("plan");
    assert_eq!(plan.target, "https://mcp.example/mcp");
    assert!(plan.kind == Kind::ServerUrl);
    assert_eq!(plan.key, "env:CONTROL_PLANE_API_KEY");
    let mut profile = AdminProfile::default();
    profile.control_plane_base_url = "https://api.example".to_owned();
    assert_eq!(
        json::write(plan.configuration(&root(), &profile, TUNNEL)),
        format!(
            r#"{{"admin_ui":{{"open_browser":false}},"config_version":1,"control_plane":{{"api_key":"env:CONTROL_PLANE_API_KEY","base_url":"https://api.example","tunnel_id":"{TUNNEL}"}},"health":{{"listen_addr":"127.0.0.1:0","url_file":"/state/health/a.url"}},"log":{{"file":"/state/logs/a.log","format":"json","level":"info"}},"mcp":{{"server_urls":[{{"channel":"main","url":"https://mcp.example/mcp"}}]}}}}"#
        )
    );
    let mut tunnel = Tunnel::default();
    tunnel.id = TUNNEL.to_owned();
    let record = plan.record(&root(), &tunnel, "default", "now");
    assert_eq!(record.profile_path, "/p/a.yaml");
    assert_eq!(record.config_path, record.profile_path);
    let launch = Launch::new(&root(), "/bin/otunnel", &record);
    assert_eq!(launch.command, "/bin/otunnel run --profile-dir /p --profile a");
    let process = plan.process(&record, TUNNEL, "default", &launch, "now");
    assert_eq!(process.target_kind, "server_url");
    assert_eq!(process.log_path, "/state/logs/a.log");
}

#[test]
fn connections_are_checked() {
    let fault = |change: fn(&mut Connect)| {
        let mut given = connect();
        change(&mut given);
        given.plan("a", &table(&[]), None).err()
    };
    assert_eq!(
        fault(|given| given.server_url = "ftp://x".to_owned()),
        Some("--mcp-server-url must be an http or https URL".to_owned())
    );
    assert_eq!(
        fault(|given| given.server_url.clear()),
        Some("connect requires --mcp-server-url or --mcp-command".to_owned())
    );
    assert_eq!(
        fault(|given| given.key = "plain".to_owned()),
        Some("credential must be an env:NAME or file:/path reference".to_owned())
    );
    assert!(fault(|given| given.profile = "a/b".to_owned()).is_some());
    let mut given = connect();
    given.tunnel_id = "tunnel_x".to_owned();
    assert_eq!(
        given.named().err(),
        Some("tunnel ID must match tunnel_<32 lowercase letters or digits>".to_owned())
    );
    given.tunnel_id = format!(" {TUNNEL} ");
    assert_eq!(given.named(), Ok(Some(TUNNEL.to_owned())));
}

#[test]
fn tunnels_are_remembered() {
    let mut record = Alias::default();
    record.tunnel_id = TUNNEL.to_owned();
    record.name = "n".to_owned();
    let found = connection::remembered(&record, "a", true, "Not Found").expect("tunnel");
    assert_eq!(found.description, "MCP tunnel for a");
    assert!(connection::remembered(&record, "a", false, "Not Found").is_none());
    assert!(connection::replaces(&record, "other"));
    assert!(!connection::replaces(&record, TUNNEL));
    assert_eq!(create().unread(TUNNEL, "a").organization_ids, list(&["org"]));
}

#[test]
fn a_connection_is_told() {
    let mut record = Alias::default();
    record.alias = "a".to_owned();
    record.profile_name = "a".to_owned();
    let mut launch = Launch::new(&root(), "/bin/otunnel", &record);
    launch.pid = Some(9);
    let process = Process::default();
    let outcome = manager().connect(
        "a",
        &record,
        &process,
        &AdminProfile::default(),
        &seen(),
        &Tunnel::default(),
        "gone",
        &launch,
    );
    assert_eq!(outcome.code, 2);
    assert!(outcome.payload.get("tunnel_id").is_none());
    assert_eq!(outcome.payload.get_text("remote_error"), Some("gone".to_owned()));
    assert_eq!(
        outcome.payload.get("launch_diagnostics").and_then(|value| value.get_text("log_path")),
        Some("/state/logs/a.log".to_owned())
    );
    assert!(connection::connected("a", TUNNEL, &launch, "now")
        .contains("detail=mode=process session=- pid=9 started=false healthy=false ready=false"));
}

#[test]
fn the_state_of_a_runtime_is_seen() {
    let mut found = seen();
    assert!(found.state() == State::Stopped);
    found.running = true;
    assert!(found.state() == State::Starting);
    found.probe.healthz.ok = true;
    assert!(found.state() == State::Healthy);
    found.probe.readyz.ok = true;
    assert!(found.state() == State::Ready);
}

#[test]
fn issues_are_noted() {
    let mut process = Process::default();
    process.alias = "a".to_owned();
    process.mode = "process".to_owned();
    process.pid = Some(3);
    let mut found = seen();
    found.probe.healthz = Endpoint::answered("http://h/healthz".to_owned(), 503, "");
    assert_eq!(
        found.issues(&process),
        list(&[
            "recorded process pid is not running",
            "recorded process identity is missing; refusing to reuse or signal a bare PID",
            "health endpoint is not healthy at http://h/healthz (HTTP 503)",
        ])
    );
}

#[test]
fn something_always_helps() {
    let record = Alias::default();
    let mut process = Process::default();
    process.alias = "a".to_owned();
    let mut found = seen();
    found.running = true;
    let actions = found.actions("a", &record, &process, "");
    assert_eq!(actions.len(), 1);
    assert_eq!(actions[0].id, "inspect");
    assert_eq!(actions[0].command, "otunnel runtimes status a --json");
    let steps = inspect::next_steps(&actions, &list(&["x", "otunnel runtimes status a --json", "x"]));
    assert_eq!(steps, list(&["otunnel runtimes status a --json", "x"]));
}

#[test]
fn lines_of_shells_are_quoted() {
    let mut record = Alias::default();
    record.profile_name = "my profile".to_owned();
    let process = Process::default();
    assert_eq!(
        inspect::doctor(&record, &process),
        "otunnel doctor --profile 'my profile' --explain"
    );
    assert_eq!(
        inspect::repair("a", &record, &process),
        "otunnel runtimes connect --alias a --profile 'my profile' '<add --mcp-server-url or --mcp-command>'"
    );
}

#[test]
fn the_way_of_polls_is_told() {
    let live = Some(Live {
        base_url: "http://h".to_owned(),
        source: "/f".to_owned(),
        status: Json::object(),
        system: json::parse(
            r#"{"proxy_health":[{"route":{"kind":"mcp"}},{"route":{"kind":"control_plane"},"health_state":"failing"}]}"#,
        )
        .expect("document"),
    });
    assert_eq!(inspect::poll_health(&live).get_text("state"), Some("failing".to_owned()));
    assert_eq!(
        inspect::poll_health(&None).get_text("reason"),
        Some("no live admin UI system snapshot".to_owned())
    );
}

#[test]
fn details_are_asked_on_this_host_only() {
    assert!(inspect::may_detail("http://127.0.0.1:8080"));
    assert!(inspect::may_detail("http://[::1]:8080"));
    assert!(!inspect::may_detail("http://example.com"));
    assert!(!inspect::may_detail("http://u@localhost"));
    let body = br#"{"schema_version":1,"component":"mcp"}"#.to_vec();
    assert!(inspect::details(200, &body));
    assert!(!inspect::details(200, &b"{}".to_vec()));
    assert_eq!(inspect::ui(""), "");
    assert_eq!(inspect::ui("http://h"), "http://h/ui");
}

#[test]
fn sessions_have_names() {
    assert_eq!(session::executable(" ", false), Ok(()));
    assert_eq!(session::executable("/bin/other", true), Ok(()));
    assert_eq!(
        session::executable("/bin/other", false).err(),
        Some("--tunnel-client-bin only accepts the current executable".to_owned())
    );
    let name = session::session_name(&root(), "a");
    assert!(name.starts_with("tunnel-mcp__a__"));
    assert_eq!(name.len(), "tunnel-mcp__a__".len() + 8);
    let mut process = Process::default();
    process.session_name = "other".to_owned();
    assert_eq!(
        session::owned_session(&root(), "a", &process).err(),
        Some(format!("recorded tmux session does not match {name}"))
    );
    assert_eq!(session::sockets(&process, Some("/tmp/s,1,2")), list(&["/tmp/s", ""]));
    assert_eq!(
        session::tmux_arguments("", "has-session", "x"),
        Ok(list(&["-L", "default", "has-session", "-t", "=x"]))
    );
    assert!(session::tmux_arguments("rel", "has-session", "x").is_err());
    assert_eq!(session::has_session(Some(0), "", ""), Ok(true));
    assert_eq!(session::has_session(Some(1), "", "Can't find session: x"), Ok(false));
    assert_eq!(
        session::has_session(Some(2), "boom", "").err(),
        Some("tmux has-session failed: boom".to_owned())
    );
    assert!(session::absent(&process).is_err());
    assert_eq!(
        session::ended(false, " no \n").err(),
        Some("tmux kill-session failed: no".to_owned())
    );
}

#[test]
fn runtimes_are_started_over() {
    let mut process = Process::default();
    process.pid = Some(1);
    assert!(session::before(&process, false, false, true) == Before::Keep);
    assert!(session::before(&process, true, false, true) == Before::EndProcess);
    assert!(session::before(&process, true, false, false) == Before::Nothing);
    process.mode = "tmux".to_owned();
    assert!(session::before(&process, false, true, false) == Before::EndSession);
}

#[test]
fn runtimes_are_stopped_once() {
    let mut process = Process::default();
    process.alias = "a".to_owned();
    process.mode = "process".to_owned();
    process.pid = Some(5);
    assert!(removal::stop(&process) == Stop::Process(5));
    let (after, ended) = removal::note_stop(process, "", Table::new(), "a");
    assert!(removal::stop(&ended) == Stop::Nothing);
    assert_eq!(after.and_then(|table| table.get("a").map(|found| found.mode.clone())), Some("stopped".to_owned()));
    assert_eq!(
        removal::stop_line("a", "t", "process", false, "no", "now"),
        "- now action=stop alias=a tunnel_id=t detail=previous_mode=process already_stopped=false error=no\n"
    );
}

#[test]
fn files_are_removed_once() {
    let mut record = Alias::default();
    record.config_path = "/p/a.yaml".to_owned();
    record.profile_path = "/p/a.yaml".to_owned();
    record.health_url_file = "/state/health/a.url".to_owned();
    let mut process = Process::default();
    process.log_path = "/state/logs/a.log".to_owned();
    let (paths, places) = removal::removals(&record, &process);
    assert_eq!(paths, list(&["/p/a.yaml", "/state/health/a.url", "/state/logs/a.log"]));
    assert!(places == vec![Place::Elsewhere, Place::Health, Place::Logs]);
    let aliases = Table::new().insert("a".to_owned(), record.copy());
    let (names, _, line, told) =
        manager().remove("a", &record, &process, aliases, Table::new(), "now");
    assert_eq!(names.len(), 0);
    assert!(line.ends_with("detail=removed_paths=3\n"));
    assert_eq!(told.get_text("alias"), Some("a".to_owned()));
    assert_eq!(
        manager().removable("b", &Table::new(), &Table::new()).err(),
        Some("alias b is not known".to_owned())
    );
}

#[test]
fn only_stale_names_are_forgotten() {
    let aliases = Table::new().insert("b".to_owned(), Alias::default());
    let processes = Table::new().insert("a".to_owned(), Process::default());
    let names = removal::names(&aliases, &processes);
    assert_eq!(names, list(&["a", "b"]));
    let mut gone = seen();
    gone.profile = file("", false);
    assert!(gone.class(&Alias::default(), &Process::default()) == Class::StaleAlias);
    assert!(seen().class(&Alias::default(), &Process::default()) == Class::ValidProfile);
    let found =
        manager().review(&names, &vec![seen(), gone], &aliases, &processes, true, "now");
    assert_eq!(found.removed, list(&["b"]));
    let (left, _) = removal::forget(&found.removed, aliases, processes);
    assert_eq!(left.len(), 0);
    let told = manager().cleanup(true, found);
    assert!(json::write(told).contains("\"removed\":[\"b\"]"));
}

#[test]
fn keys_for_a_status_are_found() {
    let contents = vec![
        Some(r#"{"control_plane":{"api_key":"env:MINE"}}"#.to_owned()),
        None,
        Some("no json".to_owned()),
    ];
    let items = report::references(&contents, "file:/k");
    assert_eq!(items.len(), 4);
    assert_eq!(items[0].value, "env:MINE");
    assert!(!items[3].runtime);
    let (place, reason) = report::chosen(&items, &table(&[]), &vec![None, None, None, Some(3)]);
    assert_eq!(place, Some(3));
    assert_eq!(reason, "");
    let (place, reason) = report::chosen(&items, &table(&[]), &vec![None, None, None, Some(0)]);
    assert_eq!(place, None);
    assert_eq!(reason, "secret file /k is empty");
    assert_eq!(
        report::missing("env:X", &table(&[]), None),
        Some("environment variable X is not set".to_owned())
    );
}

#[test]
fn a_status_is_told() {
    let mut record = Alias::default();
    record.tunnel_id = TUNNEL.to_owned();
    let answered = Some((
        report::Reference { value: "env:K".to_owned(), runtime: true },
        report::Answered::Failed("404".to_owned(), "get: 404".to_owned()),
    ));
    let outcome = manager().status(
        "a",
        &record,
        &Process::default(),
        &AdminProfile::default(),
        &seen(),
        &answered,
        "",
    );
    assert_eq!(outcome.code, 2);
    assert_eq!(outcome.payload.get_text("error"), Some("get: 404".to_owned()));
    let outcome = manager().stop(
        "a",
        &record,
        &Process::default(),
        &AdminProfile::default(),
        &seen(),
        true,
        "",
    );
    assert_eq!(outcome.code, 0);
    assert_eq!(
        outcome.payload.get_text("remote_skipped_reason"),
        Some("stop is a local-only operation".to_owned())
    );
}

#[test]
fn tunnels_of_the_service_have_local_names() {
    let mut record = Alias::default();
    record.alias = "a".to_owned();
    record.tunnel_id = TUNNEL.to_owned();
    let aliases = Table::new().insert("a".to_owned(), record);
    let mut tunnel = Tunnel::default();
    tunnel.id = TUNNEL.to_owned();
    let told = json::write(manager().list("default", &aliases, &Some(vec![tunnel])));
    assert!(told.contains("\"local_alias\":\"a\""));
}

#[test]
fn processes_are_told_apart() {
    let stat = "7 (a b) S 1 2 3 4 5 6 7 8 9 10 11 12 13 14 15 16 17 18 555 20";
    let found = Identity::capture(7, stat, "/bin/x (deleted)", stat).expect("identity");
    assert_eq!(found.start, "555");
    let other = Identity { start: "556".to_owned(), executable: found.executable.clone() };
    let again = Identity { start: "555".to_owned(), executable: found.executable.clone() };
    assert_eq!(found.matches(7, true, Ok(again), true, false), Ok(true));
    assert_eq!(found.matches(7, true, Ok(other), true, false), Ok(false));
    assert!(Identity::capture(7, "bad", "/bin/x", "bad").is_err());
    assert!(identity::ending(7, false, true) == Ok(Ending::Over));
    assert!(identity::ending(7, true, false) == Ok(Ending::Wait));
    assert_eq!(
        identity::ending(7, true, true).err(),
        Some("process 7 did not exit after termination".to_owned())
    );
}

#[test]
fn logs_are_cut() {
    assert_eq!(files::health_url(Some(" http://h \n")), "http://h");
    assert_eq!(files::health_url(None), "");
    assert!(files::log_tail(Some("a\r\nb\n")).contains("b"));
    let fault = |directory: &str, direct: bool, link: bool, regular: bool| {
        files::check_kept(&root(), directory, direct, link, regular).err()
    };
    assert_eq!(fault("logs", true, false, true), None);
    assert_eq!(fault("health", true, true, true), None);
    assert_eq!(fault("other", true, false, true), Some("unknown managed directory other".to_owned()));
    assert_eq!(
        fault("logs", false, false, true),
        Some(format!("managed file must be directly within {}", root().file("logs")))
    );
    assert_eq!(fault("logs", true, true, true), Some("log file must not be a symlink".to_owned()));
    assert_eq!(fault("health", true, true, false), Some("managed file must be regular".to_owned()));
}

#[test]
fn the_service_is_asked() {
    let client = Client::new("https://api.example", "/pre", "key", "me").expect("client");
    assert_eq!(
        client.url(Some("tunnel_1"), &vec![]),
        Ok("https://api.example/pre/v1/tunnels/tunnel_1".to_owned())
    );
    assert_eq!(
        client.url(None, &admin::scope("o", "", "")),
        Ok("https://api.example/pre/v1/tunnels?organization_id=o".to_owned())
    );
    let (headers, body) = client.body(Some(Json::object()));
    assert_eq!(body, b"{}".to_vec());
    assert_eq!(headers.get("authorization"), Some(&b"Bearer key".to_vec()));
}

#[test]
fn answers_of_the_service_are_read() {
    let tunnel = admin::tunnel(&br#"{"id":"t","name":"n","tenant_ids":null}"#.to_vec(), "r").expect("tunnel");
    assert_eq!(tunnel.name, "n");
    assert_eq!(tunnel.request_id, "r");
    assert!(admin::tunnel(&b"[]".to_vec(), "").is_err());
    let list = admin::tunnels(&br#"{"tunnels":[{"id":"t"}]}"#.to_vec(), "").expect("tunnels");
    assert_eq!(list.tunnels.map(|items| items.len()), Some(1));
    assert!(TunnelList::read(&json::parse("{\"tunnels\":3}").expect("document")).is_none());
    let error = RequestError::read("GET", "/v1", 404, &br#"{"error":{"message":"no"}}"#.to_vec(), "r");
    assert_eq!(error.message, "no");
    assert!(error.text().contains("404"));
    assert!(json::write(error.payload()).contains("404"));
}
