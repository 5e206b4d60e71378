use otunnel::config::duration::Span;
use otunnel::config::reference::{self, Sources};
use otunnel::config::settings::{Command, Config, Server};
use otunnel::config::validation;
use otunnel::config::values;
use otunnel::config::yaml;
use otunnel::json;
use otunnel::table::Table;

fn table(entries: &[(&str, &str)]) -> Table<String> {
    let mut table = Table::new();
    for (key, value) in entries {
        table = table.insert(key.to_string(), value.to_string());
    }
    table
}

fn sources(entries: &[(&str, &str)]) -> Sources {
    Sources { variables: table(entries), files: Table::new() }
}

fn configured() -> Config {
    let mut config = Config::default();
    config.control_plane.tunnel_id = "tunnel_0123456789abcdef0123456789abcdef".to_owned();
    config.control_plane.api_key = "sk-runtime".to_owned();
    let mut server = Server::default();
    server.url = "https://mcp.example/mcp".to_owned();
    config.mcp.server_urls.push(server);
    config
}

#[test]
fn spans_are_written_in_words() {
    assert_eq!(Span(0).text(), "0s");
    assert_eq!(Span(17).text(), "17ns");
    assert_eq!(Span(1_500).text(), "1.5\u{b5}s");
    assert_eq!(Span(2_000_000).text(), "2ms");
    assert_eq!(Span(90_000_000_000).text(), "1m30s");
    assert_eq!(Span(3_661_500_000_000).text(), "1h1m1.5s");
}

#[test]
fn spans_are_read() {
    assert_eq!(Span::parse("1h2m3s", &vec![]).map(|span| span.0), Ok(3_723_000_000_000));
    assert_eq!(Span::parse("250ms", &vec![]).map(|span| span.0), Ok(250_000_000));
    assert_eq!(
        Span::parse("5x", &vec![]).err(),
        Some("invalid duration unit in \"5x\"".to_owned())
    );
    assert_eq!(Span::parse("9999999999h", &vec![]).err(), Some("duration overflow".to_owned()));
}

#[test]
fn the_text_of_a_span_reads_back() {
    for nanos in [0u64, 1, 999, 1_000, 1_000_000, 60_000_000_000, 7_200_000_000_000] {
        let written = Span(nanos).text();
        assert_eq!(Span::parse(&written, &vec![]).map(|span| span.0), Ok(nanos));
    }
}

#[test]
fn references_are_resolved() {
    let sources = sources(&[("KEY", "secret"), ("EMPTY", "")]);
    assert_eq!(reference::resolve("env:KEY", &sources), Ok("secret".to_owned()));
    assert_eq!(reference::resolve(" plain ", &sources), Ok("plain".to_owned()));
    assert_eq!(
        reference::resolve("", &sources).err(),
        Some("configuration value cannot be empty".to_owned())
    );
    assert!(reference::resolve("env:MISSING", &sources).is_err());
}

#[test]
fn files_are_resolved() {
    let sources = Sources {
        variables: Table::new(),
        files: Table::new().insert("/run/key".to_owned(), b"top\n".to_vec()),
    };
    assert_eq!(reference::file("file:/run/key"), Some("/run/key".to_owned()));
    assert_eq!(
        reference::resolve("file:/run/key", &sources).map(|value| value.trim().to_owned()),
        Ok("top".to_owned())
    );
    assert!(reference::resolve("file:/run/none", &sources).is_err());
}

#[test]
fn channels_have_names() {
    assert_eq!(values::channel(" Main "), Ok("main".to_owned()));
    assert_eq!(values::channel(""), Ok("main".to_owned()));
    let once = values::channel("Side-1").expect("channel");
    assert_eq!(values::channel(&once), Ok(once));
    assert_eq!(values::channel("a b").err(), Some("invalid channel name a b".to_owned()));
}

#[test]
fn profiles_have_names_and_paths() {
    assert_eq!(values::profile_name(" work-1.a "), Ok("work-1.a".to_owned()));
    assert_eq!(
        values::profile_name("../x").err(),
        Some("invalid profile name \"../x\": use letters, numbers, '.', '_' or '-'".to_owned())
    );
    let home = table(&[("HOME", "/home/u")]);
    assert_eq!(
        values::profile_path("work", None, &home, None),
        Ok("/home/u/.config/tunnel-client/work.yaml".to_owned())
    );
    assert_eq!(
        values::profile_path("work", Some("~/p"), &home, None),
        Ok("/home/u/p/work.yaml".to_owned())
    );
    assert_eq!(
        values::profile_dir(None, &table(&[]), None).err(),
        Some("profile directory is unavailable; use --profile-dir".to_owned())
    );
}

#[test]
fn commands_have_words() {
    assert_eq!(
        values::command_args("python 'a b'.py --x=\"y z\""),
        Ok(vec!["python".to_owned(), "a b.py".to_owned(), "--x=y z".to_owned()])
    );
    assert_eq!(
        values::command_args("a 'b").err(),
        Some("unterminated quoted string".to_owned())
    );
    assert_eq!(
        values::command_args("a \\").err(),
        Some("unterminated escape sequence".to_owned())
    );
}

#[test]
fn endpoints_are_put_together() {
    assert_eq!(
        values::endpoint("https://api.example/", "/proxy/", "v1/tunnels"),
        Ok("https://api.example/proxy/v1/tunnels".to_owned())
    );
}

#[test]
fn tunnels_have_identities() {
    assert!(validation::tunnel_id("tunnel_0123456789abcdef0123456789abcdef"));
    assert!(!validation::tunnel_id("tunnel_0123456789ABCDEF0123456789abcdef"));
    assert!(!validation::tunnel_id("tunnel_1"));
}

#[test]
fn a_whole_configuration_is_valid() {
    assert_eq!(configured().validate(&sources(&[])), Ok(()));
}

#[test]
fn a_configuration_needs_a_tunnel() {
    let mut config = configured();
    config.control_plane.tunnel_id = "nope".to_owned();
    assert!(config.validate(&sources(&[])).is_err());
}

#[test]
fn a_configuration_needs_a_service() {
    let mut config = configured();
    config.mcp.server_urls.clear();
    assert!(config.validate(&sources(&[])).is_err());
}

#[test]
fn channels_are_not_bound_twice() {
    let mut config = configured();
    config.mcp.commands.push(Command {
        channel: "main".to_owned(),
        command: "python s.py".to_owned(),
    });
    assert!(config.validate(&sources(&[])).is_err());
}

#[test]
fn configurations_are_normalized() {
    let mut config = configured();
    assert_eq!(config.normalize(), Ok(()));
    assert_eq!(config.mcp.server_urls[0].channel, "main");
    assert!(config.enabled("main"));
    assert_eq!(config.control_plane.base_url(), "https://api.openai.com");
}

#[test]
fn normalizing_again_changes_nothing() {
    let mut config = configured();
    config.mcp.server_urls[0].channel = " MAIN ".to_owned();
    config.ca_bundle = Some("  ".to_owned());
    config.http_proxy = Some(" http://proxy.example:3128 ".to_owned());
    assert_eq!(config.normalize(), Ok(()));
    assert_eq!(config.mcp.server_urls[0].channel, "main");
    assert_eq!(config.ca_bundle, None);
    assert_eq!(config.http_proxy.as_deref(), Some("http://proxy.example:3128"));
    assert_eq!(config.normalize(), Ok(()));
    assert_eq!(config.mcp.server_urls[0].channel, "main");
    assert_eq!(config.ca_bundle, None);
    assert_eq!(config.http_proxy.as_deref(), Some("http://proxy.example:3128"));
}

#[test]
fn versions_are_checked() {
    let mut config = configured();
    config.config_version = Some(3);
    assert_eq!(config.check_parsed().err(), Some("unsupported config_version".to_owned()));
    config.config_version = Some(2);
    assert_eq!(config.check_parsed(), Ok(()));
}

#[test]
fn headers_are_read_for_requests() {
    let given = table(&[("X-One", "1"), ("x-two", "env:TWO")]);
    let map = otunnel::config::headers(&given, &sources(&[("TWO", "2")])).expect("headers");
    assert_eq!(map.get("x-one"), Some(&b"1".to_vec()));
    assert_eq!(map.get("x-two"), Some(&b"2".to_vec()));
    assert!(otunnel::config::headers(&table(&[("bad name", "1")]), &sources(&[])).is_err());
}

#[test]
fn hand_written_profiles_are_brought_into_shape() {
    let value = json::parse(
        r#"{"origin":null,"method":"GET","query":{"v":1,"t":true},"follow_redirects":"off",
            "parameters":{"id":{"required":"yes","examples":[1,"b"],"min_length":2}},
            "body_policy":{"required":null,"validation":{"json":"On","enum":[3]}}}"#,
    )
    .expect("document");
    assert_eq!(
        json::write(yaml::coerce(value)),
        r#"{"body_policy":{"required":null,"validation":{"enum":["3"],"json":true}},"follow_redirects":false,"method":"GET","origin":"","parameters":{"id":{"examples":["1","b"],"min_length":2,"required":true}},"query":{"t":"true","v":"1"}}"#
    );
}

#[test]
fn the_environment_of_a_process_is_resolved() {
    let found = otunnel::process::environment(
        &table(&[("A", "env:HOMEY"), ("B", "b")]),
        &sources(&[("HOMEY", "h")]),
    )
    .expect("environment");
    assert_eq!(found.get("A").map(String::as_str), Some("h"));
    assert_eq!(found.get("B").map(String::as_str), Some("b"));
    assert!(otunnel::process::environment(&table(&[("A", "env:NONE")]), &sources(&[])).is_err());
}

#[test]
fn settings_of_what_is_lacking_stay() {
    let fault = |change: fn(&mut Config)| {
        let mut config = configured();
        change(&mut config);
        config.validate(&sources(&[])).err()
    };
    assert_eq!(fault(|_| {}), None);
    assert_eq!(
        fault(|config| config.admin_ui.allow_remote = true),
        Some("admin_ui.allow_remote must retain its default in otunnel".to_owned())
    );
    assert_eq!(
        fault(|config| config.admin_ui.log_buffer_events = 1),
        Some("admin_ui.log_buffer_events must retain its default in otunnel".to_owned())
    );
    assert_eq!(
        fault(|config| config.harpoon.capture_payloads = true),
        Some("harpoon.capture_payloads must retain its default in otunnel".to_owned())
    );
}

#[test]
fn profiles_are_checked_against_their_text() {
    let config = configured();
    let none = sources(&[]);
    assert_eq!(config.validate_profile("control_plane:\n  url_path: /x\n", &none), Ok(()));
    assert_eq!(config.validate_profile("---\n---\na: 1\n---\nb: 2\n", &none), Ok(()));
    assert_eq!(config.validate_profile("", &none).err(), Some("configuration is empty".to_owned()));
    assert_eq!(config.validate_profile("# none\n", &none).err(), Some("configuration is empty".to_owned()));
    assert!(config.validate_profile("a: [", &none).is_err());
    let fault = config.validate_profile("control_plane:\n  base_url: 'env:'\n", &none).err();
    assert!(fault.is_some_and(|reason| reason.contains("control_plane.base_url")));
    let mut other = configured();
    other.admin_ui.allow_remote = true;
    assert_eq!(
        other.validate_profile("", &none).err(),
        Some("admin_ui.allow_remote must retain its default in otunnel".to_owned())
    );
    other.config_version = Some(3);
    assert_eq!(other.validate_profile("", &none).err(), Some("unsupported config_version".to_owned()));
}

#[test]
fn configurations_are_loaded() {
    let given = sources(&[("KEY", "sk-read")]);
    let mut config = configured();
    config.control_plane.api_key = "env:KEY".to_owned();
    let loaded = config.load("a: 1\n", &given).expect("configuration");
    assert_eq!(loaded.control_plane.api_key, "sk-read");
    let mut config = configured();
    config.control_plane.api_key = "env:KEY".to_owned();
    assert!(config.load("a: 1\n", &sources(&[])).is_err());
    assert_eq!(configured().load("", &given).err(), Some("configuration is empty".to_owned()));
    let mut old = configured();
    old.config_version = Some(3);
    assert_eq!(
        old.load_over(configured(), "a: 1\n", &given).err(),
        Some("unsupported config_version".to_owned())
    );
    assert_eq!(old.load("a: 1\n", &given).err(), Some("unsupported config_version".to_owned()));
    let mut over = configured();
    over.control_plane.api_key = "sk-other".to_owned();
    let loaded = configured().load_over(over, "a: 1\n", &given).expect("configuration");
    assert_eq!(loaded.control_plane.api_key, "sk-other");
}
