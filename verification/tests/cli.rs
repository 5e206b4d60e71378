use otunnel::cli::admin;
use otunnel::cli::arguments::{boolean, setting, spelling, Kind};
use otunnel::cli::doctor;
use otunnel::cli::editor;
use otunnel::cli::management::{shown, Action};
use otunnel::cli::mapping::mapping;
use otunnel::cli::merge::{self, Given};
use otunnel::cli::preflight::{follow, interpreter, need, Need, DEPTH};
use otunnel::cli::probe;
use otunnel::cli::samples;
use otunnel::cli::source;
use otunnel::config::reference::Sources;
use otunnel::config::settings::Config;
use otunnel::diagnostic::{Check, Status};
use otunnel::json;
use otunnel::management::inspect::Endpoint;
use otunnel::table::Table;

fn list(items: &[&str]) -> Vec<String> {
    items.iter().map(|item| item.to_string()).collect()
}

fn table(entries: &[(&str, &str)]) -> Table<String> {
    let mut table = Table::new();
    for (key, value) in entries {
        table = table.insert(key.to_string(), value.to_string());
    }
    table
}

fn told(name: &str, kind: Kind, environment: bool, given: &[&str]) -> Result<String, String> {
    setting(name, kind, environment, list(given)).map(json::write)
}

#[test]
fn words_have_truth_values() {
    assert_eq!(boolean("True"), Ok(true));
    assert_eq!(boolean("F"), Ok(false));
    assert_eq!(boolean("yes"), Err("invalid boolean \"yes\"".to_owned()));
}

#[test]
fn settings_are_read() {
    assert_eq!(told("log.level", Kind::Text, false, &["info"]), Ok("\"info\"".to_owned()));
    assert_eq!(told("n", Kind::Number, false, &["12"]), Ok("12".to_owned()));
    assert_eq!(
        told("n", Kind::Number, false, &["-1"]),
        Err("--n requires an unsigned integer".to_owned())
    );
    assert_eq!(told("b", Kind::Boolean, false, &["t"]), Ok("true".to_owned()));
    assert_eq!(told("l", Kind::List, false, &[" a ", "", "b"]), Ok(r#"["a","b"]"#.to_owned()));
    assert_eq!(told("l", Kind::List, false, &[r#" ["a;b","c"]"#]), Ok(r#"["a;b","c"]"#.to_owned()));
    assert_eq!(told("l", Kind::List, false, &["[1]"]), Err("parse --l".to_owned()));
}

#[test]
fn variables_hold_several_values() {
    assert_eq!(told("l", Kind::List, true, &["a; b"]), Ok(r#"["a","b"]"#.to_owned()));
    assert_eq!(
        told("control-plane.poll-channel", Kind::List, true, &["a, b;c"]),
        Ok(r#"["a","b;c"]"#.to_owned())
    );
    assert_eq!(
        told("h", Kind::Headers, true, &["A: 1, B: 2"]),
        Ok(r#"{"A":"1","B":"2"}"#.to_owned())
    );
    assert_eq!(
        told("h", Kind::Headers, true, &[r#"{"B":"x:y","A":"1"}"#]),
        Ok(r#"{"A":"1","B":"x:y"}"#.to_owned())
    );
    assert_eq!(
        told("s", Kind::Servers, true, &["http://a\n\n http://b \n"]),
        Ok(r#"[{"url":"http://a"},{"url":"http://b"}]"#.to_owned())
    );
}

#[test]
fn headers_of_the_command_line_are_checked() {
    assert_eq!(
        told("h", Kind::Headers, false, &["nothing"]),
        Err("HTTP headers use Name: Value".to_owned())
    );
    assert_eq!(
        told("h", Kind::Headers, false, &["a b: c"]),
        Err("invalid HTTP header name".to_owned())
    );
    let fault = told("h", Kind::Headers, true, &[r#"{"A":1}"#]).expect_err("no string");
    assert!(fault.starts_with("invalid type: integer `1`, expected a string"));
    let fault = told("h", Kind::Headers, true, &[r#"{"A""#]).expect_err("cut short");
    assert!(fault.starts_with("EOF while parsing an object"));
}

#[test]
fn the_first_other_spelling_counts() {
    assert_eq!(spelling(true, &vec![true]), None);
    assert_eq!(spelling(false, &vec![false, true, true]), Some(1));
    assert_eq!(spelling(false, &vec![false]), None);
}

#[test]
fn commands_are_bound_to_channels() {
    let shown = |value: &str| mapping(value, Kind::Commands).map(json::write);
    assert_eq!(
        shown("python s.py"),
        Ok(r#"{"channel":"main","command":"python s.py"}"#.to_owned())
    );
    assert_eq!(
        shown("channel=Side, command=run x"),
        Ok(r#"{"channel":"side","command":"run x"}"#.to_owned())
    );
    assert_eq!(
        shown("command=run a,channel=b,channel=side"),
        Ok(r#"{"channel":"side","command":"run a,channel=b"}"#.to_owned())
    );
    assert_eq!(shown("channel=a").err(), Some("command entry is missing command".to_owned()));
    assert_eq!(shown("url=x").err(), Some("command entry requires command=...".to_owned()));
    assert_eq!(
        shown("command=run,url=x").err(),
        Some("unsupported stdio field url".to_owned())
    );
}

#[test]
fn servers_and_targets_have_fields() {
    assert_eq!(
        mapping("channel=a,url=http://x,unix-socket=/s", Kind::Servers).map(json::write),
        Ok(r#"{"channel":"a","unix_socket":"/s","url":"http://x"}"#.to_owned())
    );
    assert_eq!(
        mapping("Label='l',url=\"http://x\",desc=d,other=1", Kind::Targets).map(json::write),
        Ok(r#"{"description":"d","label":"l","url":"http://x"}"#.to_owned())
    );
    assert_eq!(
        mapping("label=l", Kind::Targets).err(),
        Some("target URL is required".to_owned())
    );
    assert_eq!(
        mapping("url=http://x", Kind::Targets).err(),
        Some("target label is required".to_owned())
    );
    assert_eq!(
        mapping("url=x,channel", Kind::Servers).err(),
        Some("channel fields use name=value".to_owned())
    );
    assert_eq!(
        mapping("url=x,channel=", Kind::Servers).err(),
        Some("channel fields must not be empty".to_owned())
    );
}

fn needed(base: &str, arguments: &[&str]) -> Result<(u8, Vec<String>), String> {
    need(base, &list(arguments)).map(|need| match need {
        Need::Nothing => (0, Vec::new()),
        Need::Command(words) => (1, words),
        Need::Script(path) => (2, vec![path]),
    })
}

#[test]
fn scripts_are_found_in_commands() {
    assert_eq!(needed("python3", &["python3", "-u", "s.py"]), Ok((2, list(&["s.py"]))));
    assert_eq!(needed("python", &["python", "-m", "server"]), Ok((0, list(&[]))));
    assert_eq!(
        needed("Node", &["node", "--require", "x", "s.js"]),
        Ok((2, list(&["s.js"])))
    );
    assert_eq!(needed("uvx", &["uvx", "s"]), Ok((0, list(&[]))));
    assert_eq!(
        needed("bash", &["bash", "-c", "exec A=1 node s.js"]),
        Ok((1, list(&["node", "s.js"])))
    );
    assert_eq!(
        needed("sh", &["sh", "-c"]).err(),
        Some("shell -c requires a command string".to_owned())
    );
}

#[test]
fn commands_are_found_behind_env() {
    assert_eq!(
        needed("env", &["env", "-u", "X", "A=1", "node", "s.js"]),
        Ok((1, list(&["node", "s.js"])))
    );
    assert_eq!(needed("env", &["env", "-S", "node 'a b.js'"]), Ok((1, list(&["node", "a b.js"]))));
    assert_eq!(
        needed("env", &["env", "-S"]).err(),
        Some("env split-string requires a command".to_owned())
    );
    assert_eq!(
        needed("env", &["env", "-S", "'x"]).err(),
        Some("missing closing quote".to_owned())
    );
}

#[test]
fn interpreters_are_read() {
    assert_eq!(
        interpreter(&b"#!/usr/bin/env node\r\nrest".to_vec()),
        Ok(Some("/usr/bin/env".to_owned()))
    );
    assert_eq!(interpreter(&b"\x7fELF".to_vec()), Ok(None));
    assert_eq!(interpreter(&b"#!\n".to_vec()), Ok(None));
}

#[test]
fn one_source_is_chosen() {
    let given = |value: &str, command_line: bool| {
        Some(source::Given { value: value.to_owned(), command_line })
    };
    let mut sources = source::Sources { config: None, profile: None, profile_file: None };
    assert!(matches!(source::choice(&sources), Ok(None)));
    sources.config = given("c.yaml", false);
    sources.profile = given(" work ", true);
    match source::choice(&sources) {
        Ok(Some((choice, value))) => {
            assert!(choice == source::Choice::Profile);
            assert_eq!(value, "work");
        }
        _ => panic!("no choice"),
    }
    assert!(source::told(&sources) == Some(source::Choice::Profile));
    sources.profile = given("work", false);
    assert_eq!(
        source::choice(&sources).err(),
        Some("config, profile, and profile-file select alternative configuration sources".to_owned())
    );
    sources.config = None;
    sources.profile = given(" ", true);
    assert_eq!(source::choice(&sources).err(), Some("--profile requires a value".to_owned()));
}

#[test]
fn profile_files_have_names() {
    assert_eq!(source::file(Some("yaml"), Some("work")), Ok(()));
    assert_eq!(
        source::file(Some("yml"), Some("work")).err(),
        Some("profile file must end with .yaml".to_owned())
    );
    assert_eq!(
        source::file(Some("yaml"), None).err(),
        Some("invalid profile filename".to_owned())
    );
    assert_eq!(
        source::directory(Some(" ")).err(),
        Some("profile directory is required when --profile-dir is set".to_owned())
    );
}

#[test]
fn logs_go_somewhere() {
    assert!(source::logging(None, "") == Ok((source::Output::Errors, false)));
    assert!(source::logging(None, "json") == Ok((source::Output::Standard, true)));
    assert!(source::logging(Some("/l"), "") == Ok((source::Output::File, false)));
    assert!(source::logging(None, "xml") == Err("unknown log format xml".to_owned()));
}

#[test]
fn samples_are_generated() {
    let values = samples::Values::example("sample_mcp_stdio_local");
    let written = samples::generate("sample_mcp_stdio_local", &values).expect("profile");
    assert!(written.starts_with("config_version: 1\n"));
    assert!(written.contains("command: python /path/to/server.py"));
    assert!(!written.contains("server_urls"));
    let values = samples::Values::example("sample_mcp_enterprise_proxy");
    let written = samples::generate("sample_mcp_enterprise_proxy", &values).expect("profile");
    assert!(written.contains("http_proxy:"));
    assert_eq!(samples::samples().len(), 4);
}

#[test]
fn samples_are_checked() {
    let mut values = samples::Values::default();
    let fault = |values: &samples::Values, name: &str| samples::generate(name, values).err();
    assert_eq!(
        fault(&values, "x"),
        Some("unknown sample \"x\"; run `otunnel profiles samples list`".to_owned())
    );
    assert_eq!(
        fault(&values, "sample_mcp_with_dcr"),
        Some("tunnel ID must match tunnel_<32 lowercase letters or digits>".to_owned())
    );
    values = samples::Values::blank();
    values.command = "run".to_owned();
    assert_eq!(
        fault(&values, "sample_mcp_with_dcr"),
        Some(
            "sample_mcp_with_dcr requires exactly one of --mcp-server-url or --mcp-command"
                .to_owned()
        )
    );
    values.key = "sk-1".to_owned();
    assert_eq!(
        fault(&values, "sample_mcp_with_dcr"),
        Some("use env:VARNAME or file:/path/to/key".to_owned())
    );
    values.browser = true;
    assert_eq!(
        fault(&values, "sample_mcp_with_dcr"),
        Some("admin_ui.open_browser must retain its default in otunnel".to_owned())
    );
}

#[test]
fn profiles_are_listed() {
    let files = vec![
        ("b.yaml".to_owned(), "/p/b.yaml".to_owned()),
        ("a.yaml".to_owned(), "/p/a.yaml".to_owned()),
        ("c.yml".to_owned(), "/p/c.yml".to_owned()),
        (".yaml".to_owned(), "/p/.yaml".to_owned()),
    ];
    assert_eq!(
        json::write(samples::profile_list(&samples::profiles(&files))),
        r#"[{"name":"a","path":"/p/a.yaml"},{"name":"b","path":"/p/b.yaml"}]"#
    );
    assert_eq!(samples::origin("", "").err().as_deref(), Some("set exactly one of --from-file or --sample"));
    assert_eq!(samples::editor(Some(" "), Some("vi -n")), Ok(list(&["vi", "-n"])));
    assert!(samples::editor(None, None).is_err());
    let sources = Sources { variables: Table::new(), files: Table::new() };
    assert_eq!(samples::check_templates(&Config::default(), &sources), Ok(()));
}

#[test]
fn editors_are_known() {
    assert_eq!(editor::split("code  --wait \"a b\""), Ok(list(&["code", "--wait", "a b"])));
    assert_eq!(editor::split("'' x").err(), Some("editor executable is required".to_owned()));
    assert_eq!(editor::split("vi '").err(), Some("unterminated quoted string".to_owned()));
    assert_eq!(editor::split("vi \\").err(), Some("unterminated escape sequence".to_owned()));
    assert_eq!(
        editor::split("vi\nx").err(),
        Some("editor command must not contain control characters".to_owned())
    );
    assert_eq!(editor::check("vim", &list(&["-n"])), Ok(()));
    assert_eq!(
        editor::check("vim", &list(&["-c"])).err(),
        Some("unsupported option \"-c\" for profile editor \"vim\"; shell commands and editor evaluation options are not allowed".to_owned())
    );
    assert!(editor::check("ed", &list(&[])).is_err());
}

#[test]
fn reports_are_told_in_words() {
    let checks = vec![
        Check::pass("config_source", "flags/environment only"),
        Check::pass("control_plane_api_key", "configured"),
        Check::fail("mcp_target.main", "no answer"),
    ];
    let report = doctor::report(checks, Table::new(), "otunnel run".to_owned());
    assert_eq!(report.checks.len(), 7);
    assert_eq!(report.checks[2].id, "tunnels_management_url");
    assert!(report.checks[2].status == Status::Pass);
    assert_eq!(report.failed_checks, list(&["mcp_target.main"]));
    let written = doctor::output(&report, true);
    assert!(written.starts_with("CHECK config_source            PASS flags/environment only\n"));
    assert!(written.contains("\nRESULT fail\nFAILED_CHECKS mcp_target.main\nEXIT_CODE 2\n"));
    assert!(written.contains("\nCHECK mcp_target.main   FAIL\nWhy this matters:\n  The configured MCP transport"));
    assert!(written.ends_with("  1. Check the reported MCP command, URL, socket, proxy or certificate.\n"));
}

#[test]
fn errors_concern_checks() {
    assert_eq!(doctor::concern("bad tunnel_id"), "tunnel_id");
    assert_eq!(doctor::concern("no API key"), "control_plane_api_key");
    assert_eq!(doctor::concern("control-plane.base-url"), "control_plane_base_url");
    assert_eq!(doctor::concern("else"), "config_validation");
    assert_eq!(
        doctor::next(Some(source::Choice::ProfileFile), "", Some("/p.yaml")),
        "otunnel run --profile-file /p.yaml"
    );
    assert_eq!(doctor::described(None, "", None), "flags/environment only");
    assert_eq!(doctor::bound(&None, "127.0.0.1:0", "http://u"), "ephemeral bind ok on http://u");
}

#[test]
fn runtimes_are_probed() {
    let mut question = probe::Question {
        url: String::new(),
        file: String::new(),
        port: 8080,
        pid: 0,
        pid_file: String::new(),
    };
    let locator = question.locator().expect("locator");
    assert_eq!(locator.text(), "port=8080");
    question.pid = -1;
    assert_eq!(question.locator().err(), Some("--pid must be positive".to_owned()));
    question.port = -1;
    assert_eq!(question.locator().err(), Some("--port must be positive".to_owned()));
    question.url = "x".to_owned();
    assert_eq!(
        question.locator().err(),
        Some("choose exactly one of --url, --url-file, or --port".to_owned())
    );
    question.port = 0;
    question.pid = 1;
    question.pid_file = "/pid".to_owned();
    assert_eq!(
        question.locator().err(),
        Some("choose at most one of --pid or --pid-file".to_owned())
    );
}

#[test]
fn findings_are_told() {
    let findings = probe::Findings {
        locator: probe::Locator::Port(8080),
        base: probe::base(Ok(probe::port_url(8080))),
        healthz: Endpoint::answered("http://127.0.0.1:8080/healthz".to_owned(), 200, " ok\n"),
        readyz: Endpoint::failed("http://127.0.0.1:8080/readyz".to_owned(), "refused".to_owned()),
        poll: None,
        process: Some(probe::Running {
            pid_file: "/pid".to_owned(),
            pid: Some(7),
            running: true,
            error: String::new(),
        }),
    };
    assert!(!findings.passed());
    assert_eq!(
        findings.text(),
        "Locator: port=8080\nBase URL: http://127.0.0.1:8080\n\
         Healthz: PASS | http://127.0.0.1:8080/healthz | HTTP 200 | ok\n\
         Readyz: FAIL | http://127.0.0.1:8080/readyz | refused\n\
         Process: PASS | pid=7 | pid_file=/pid\nResult: FAIL\n"
    );
    assert_eq!(
        json::write(findings.document()),
        r#"{"base_url":"http://127.0.0.1:8080","healthz":{"body":"ok","ok":true,"status":200,"url":"http://127.0.0.1:8080/healthz"},"locator":{"kind":"port","port":8080,"resolved_base_url":"http://127.0.0.1:8080"},"process":{"pid":7,"pid_file":"/pid","running":true},"readyz":{"error":"refused","ok":false,"url":"http://127.0.0.1:8080/readyz"},"result":"fail"}"#
    );
}

#[test]
fn polls_are_found_in_metrics() {
    let body = "# TYPE x gauge\ncommands_poll_last_successful_timestamp_seconds{a=\"b\"} 17\nother 3\n\
                commands_poll_last_successful_timestamp_seconds 18 \n";
    assert_eq!(probe::polls(body), (list(&["17", "18"]), false));
    let long = format!("{}\n{}", "x".repeat(1048577), body);
    assert_eq!(probe::polls(&long), (list(&[]), true));
}

#[test]
fn processes_have_numbers() {
    assert_eq!(probe::pid("/f", " 17\n"), Ok(17));
    assert_eq!(probe::pid("/f", "-3").err(), Some("PID must be positive".to_owned()));
    assert_eq!(probe::pid("/f", "0").err(), Some("PID must be positive".to_owned()));
    assert_eq!(probe::pid("/f", "x").err(), Some("parse /f as pid: \"x\"".to_owned()));
}

#[test]
fn values_of_arguments_come_once() {
    assert_eq!(
        admin::strings("organization-id", &list(&["\"b,c\", a", "", "d"])),
        Ok(list(&["b,c", "a", "d"]))
    );
    assert_eq!(
        admin::strings("organization-id", &list(&["a,b", "a"])).err(),
        Some("duplicate organization-id values: a".to_owned())
    );
}

#[test]
fn administration_is_checked() {
    assert_eq!(
        admin::check(admin::Command::Delete, false, "", "").err(),
        Some("refusing to delete without --confirm".to_owned())
    );
    assert_eq!(
        admin::check(admin::Command::Create, false, "", "d").err(),
        Some("name is required (set --name)".to_owned())
    );
    assert_eq!(
        admin::check(admin::Command::Create, false, "n", " ").err(),
        Some("description is required (set --description)".to_owned())
    );
    assert_eq!(admin::check(admin::Command::Get, false, "", ""), Ok(()));
    assert_eq!(
        admin::create("n", "d", &list(&["o"]), &list(&[])).map(json::write),
        Ok(r#"{"description":"d","name":"n","organization_ids":["o"]}"#.to_owned())
    );
    assert!(admin::create("n", "d", &list(&[]), &list(&[])).is_err());
    assert!(admin::query(&list(&["o"]), &list(&["w"]), "").is_err());
    assert_eq!(
        admin::query(&list(&["o"]), &list(&[]), ""),
        Ok(vec![("organization_id".to_owned(), "o".to_owned())])
    );
    let changes = admin::Changes {
        name: Some(" n ".to_owned()),
        description: None,
        organizations: None,
        workspaces: Some(list(&[])),
    };
    assert_eq!(
        changes.document().map(json::write),
        Ok(r#"{"name":"n","workspace_ids":[]}"#.to_owned())
    );
}

#[test]
fn keys_are_chosen() {
    let sources = |entries: &[(&str, &str)]| Sources {
        variables: table(entries),
        files: Table::new(),
    };
    let runtime = sources(&[("CONTROL_PLANE_API_KEY", " r ")]);
    assert_eq!(admin::key("", &runtime, true), Ok("r".to_owned()));
    assert_eq!(
        admin::key("", &runtime, false).err(),
        Some("admin key is required; set --admin-key or OPENAI_ADMIN_KEY".to_owned())
    );
    assert_eq!(
        admin::key("sk-1", &runtime, false).err(),
        Some("admin-key must use env: or file: prefixes".to_owned())
    );
    assert_eq!(
        admin::key("", &sources(&[("OPENAI_ADMIN_KEY", "a")]), true),
        Ok("a".to_owned())
    );
    assert_eq!(admin::key("", &sources(&[]), true).err().as_deref(), Some(admin::NO_KEY));
}

#[test]
fn settings_are_put_in_their_places() {
    let base = || json::parse(r#"{"a":{"b":1,"c":2},"d":3}"#).expect("document");
    let given = |name: &str, place: &[&str], value: Option<&str>| Given {
        name: name.to_owned(),
        place: list(place),
        kind: Kind::Text,
        environment: false,
        values: value.map(|value| list(&[value])),
    };
    let (made, first) = merge::merge(
        base(),
        &vec![
            given("x", &["a", "b"], Some("one")),
            given("y", &["d"], None),
            given(merge::FIRST_POLL, &["none"], Some("5s")),
        ],
    )
    .expect("configuration");
    assert_eq!(json::write(made), r#"{"a":{"b":"one","c":2},"d":3}"#);
    assert_eq!(first.map(json::write), Some("\"5s\"".to_owned()));
    assert_eq!(
        merge::merge(base(), &vec![given("x", &["a", "z"], Some("one"))]).err(),
        Some("configuration field is missing".to_owned())
    );
    let mut config = Config::default();
    let variables = Table::new().insert("OPENAI_API_KEY".to_owned(), "key".to_owned());
    config.control_plane.api_key.clear();
    merge::complete(&mut config, &variables);
    assert_eq!(config.control_plane.api_key, "key");
    config.control_plane.api_key = "own".to_owned();
    merge::complete(&mut config, &variables);
    assert_eq!(config.control_plane.api_key, "own");
}

#[test]
fn profiles_are_told() {
    let told = json::parse(
        r#"{"path":"/p","profiles":[{"name":"a","control_plane_base_url":"https://u","active":true},{"name":"b"}],"profile":{"name":"a","control_plane_base_url":"https://u"}}"#,
    )
    .expect("document");
    assert_eq!(
        shown(Action::List, &told, ""),
        Ok("a\thttps://u\t(active)\nb\t\n".to_owned())
    );
    assert_eq!(
        shown(Action::Save, &told, ""),
        Ok("Saved admin profile a (https://u)\n".to_owned())
    );
    assert_eq!(shown(Action::Activate, &told, ""), Ok("Activated admin profile a\n".to_owned()));
    assert_eq!(shown(Action::Delete, &told, "x"), Ok("Deleted admin profile x\n".to_owned()));
    let empty = json::parse(r#"{"path":"/p","profiles":[]}"#).expect("document");
    assert_eq!(
        shown(Action::List, &empty, ""),
        Ok("No admin profiles found in /p\n".to_owned())
    );
    assert_eq!(
        shown(Action::List, &json::parse("{}").expect("document"), "").err(),
        Some("profile list is missing".to_owned())
    );
}

#[test]
fn commands_are_followed_not_too_deep() {
    let words = list(&["env", "python", "x.py"]);
    assert!(matches!(follow(0, "env", &words), Ok(Need::Command(rest)) if rest == list(&["python", "x.py"])));
    assert!(matches!(follow(DEPTH, "env", &words), Ok(Need::Nothing)));
}
