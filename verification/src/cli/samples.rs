//! Profiles that are written from samples.

use vstd::prelude::*;
use crate::address::{self, parsed_url};
use crate::checks::{either, unless};
use crate::config::reference::Sources;
use crate::config::settings::Config;
use crate::config::validation::{is_tunnel_id, tunnel_id};
use crate::config::values::{is_profile_name, profile_name};
use crate::json::{self, Doc, Json};
use crate::table::Table;
use crate::template::request::is_masked;
use crate::text;
use crate::words::{words, words_of, Break};

verus! {

/// A sample: its name, and what it is for.
pub struct Sample {
    pub name: &'static str,
    pub summary: &'static str,
}

/// What a sample is for.
pub open spec fn summary_of(name: Seq<char>) -> Option<Seq<char>> {
    if name == "sample_mcp_enterprise_proxy"@ {
        Some("HTTP or stdio MCP target for outbound proxies or private PKI environments"@)
    } else if name == "sample_mcp_remote_no_auth"@ {
        Some("Remote HTTP MCP server that does not advertise OAuth/PRMD metadata"@)
    } else if name == "sample_mcp_stdio_local"@ {
        Some("Local stdio MCP server with the shortest first-use tunnel-client path"@)
    } else if name == "sample_mcp_with_dcr"@ {
        Some("HTTP or stdio MCP target with DCR-friendly tunnel-client defaults"@)
    } else {
        None
    }
}

/// The names of the samples, in order.
pub open spec fn sample_names() -> Seq<Seq<char>> {
    seq![
        "sample_mcp_enterprise_proxy"@,
        "sample_mcp_remote_no_auth"@,
        "sample_mcp_stdio_local"@,
        "sample_mcp_with_dcr"@,
    ]
}

/// The names of the samples, in order.
pub fn samples() -> (result: Vec<&'static str>)
    ensures
        result@.map_values(|name: &'static str| name@) == sample_names(),
{
    let mut result: Vec<&'static str> = Vec::new();
    result.push("sample_mcp_enterprise_proxy");
    result.push("sample_mcp_remote_no_auth");
    result.push("sample_mcp_stdio_local");
    result.push("sample_mcp_with_dcr");
    assert(result@.map_values(|name: &'static str| name@) =~= sample_names());
    result
}

/// The sample of a name, or why there is none.
pub fn sample(name: &str) -> (result: Result<Sample, String>)
    ensures
        match result {
            Ok(sample) => sample.name@ == name@ && summary_of(name@) == Some(sample.summary@),
            Err(reason) => summary_of(name@) is None && reason@ == "unknown sample "@
                + text::debug_text(name@) + "; run `otunnel profiles samples list`"@,
        },
{
    if text::same(name, "sample_mcp_enterprise_proxy") {
        return Ok(
            Sample {
                name: "sample_mcp_enterprise_proxy",
                summary: "HTTP or stdio MCP target for outbound proxies or private PKI environments",
            },
        );
    }
    if text::same(name, "sample_mcp_remote_no_auth") {
        return Ok(
            Sample {
                name: "sample_mcp_remote_no_auth",
                summary: "Remote HTTP MCP server that does not advertise OAuth/PRMD metadata",
            },
        );
    }
    if text::same(name, "sample_mcp_stdio_local") {
        return Ok(
            Sample {
                name: "sample_mcp_stdio_local",
                summary: "Local stdio MCP server with the shortest first-use tunnel-client path",
            },
        );
    }
    if text::same(name, "sample_mcp_with_dcr") {
        return Ok(
            Sample {
                name: "sample_mcp_with_dcr",
                summary: "HTTP or stdio MCP target with DCR-friendly tunnel-client defaults",
            },
        );
    }
    Err(
        text::cat3(
            "unknown sample ",
            &text::quoted(name),
            "; run `otunnel profiles samples list`",
        ),
    )
}

/// What is filled into a sample.
pub struct Values {
    pub tunnel: String,
    pub base: String,
    pub prefix: String,
    pub key: String,
    pub health: String,
    pub browser: bool,
    pub url: String,
    pub command: String,
}

impl Default for Values {
    fn default() -> (result: Values)
        ensures
            result.is_usual(),
    {
        Values {
            tunnel: String::new(),
            base: "https://api.openai.com".to_owned(),
            prefix: String::new(),
            key: "env:CONTROL_PLANE_API_KEY".to_owned(),
            health: "127.0.0.1:8080".to_owned(),
            browser: false,
            url: String::new(),
            command: String::new(),
        }
    }
}

impl Values {
    /// Whether these are the usual values.
    pub open spec fn is_usual(self) -> bool {
        &&& self.tunnel@.len() == 0
        &&& self.base@ == "https://api.openai.com"@
        &&& self.prefix@.len() == 0
        &&& self.key@ == "env:CONTROL_PLANE_API_KEY"@
        &&& self.health@ == "127.0.0.1:8080"@
        &&& !self.browser
        &&& self.url@.len() == 0
        &&& self.command@.len() == 0
    }

    /// The values with which a sample is shown.
    pub fn example(name: &str) -> (result: Values)
        ensures
            result.tunnel@ == "tunnel_0123456789abcdef0123456789abcdef"@,
            result.command@ == (if name@ == "sample_mcp_stdio_local"@ {
                "python /path/to/server.py"@
            } else {
                Seq::empty()
            }),
            result.url@ == (if name@ == "sample_mcp_stdio_local"@ {
                Seq::empty()
            } else if name@ == "sample_mcp_remote_no_auth"@ {
                "https://mcp.example.com/mcp"@
            } else if name@ == "sample_mcp_enterprise_proxy"@ {
                "https://mcp.internal.example.com/mcp"@
            } else {
                "http://127.0.0.1:3001/mcp"@
            }),
            result.base@ == "https://api.openai.com"@,
            result.prefix@.len() == 0,
            result.key@ == "env:CONTROL_PLANE_API_KEY"@,
            result.health@ == "127.0.0.1:8080"@,
            !result.browser,
    {
        let mut values = Values::default();
        values.tunnel = "tunnel_0123456789abcdef0123456789abcdef".to_owned();
        assert(values.command@ =~= Seq::<char>::empty());
        assert(values.url@ =~= Seq::<char>::empty());
        if text::same(name, "sample_mcp_stdio_local") {
            values.command = "python /path/to/server.py".to_owned();
        } else if text::same(name, "sample_mcp_remote_no_auth") {
            values.url = "https://mcp.example.com/mcp".to_owned();
        } else if text::same(name, "sample_mcp_enterprise_proxy") {
            values.url = "https://mcp.internal.example.com/mcp".to_owned();
        } else {
            values.url = "http://127.0.0.1:3001/mcp".to_owned();
        }
        values
    }

    /// The values with which a new profile is edited.
    pub fn blank() -> (result: Values)
        ensures
            result.tunnel@ == "tunnel_00000000000000000000000000000000"@,
            result.url@ == "http://127.0.0.1:3001/mcp"@,
            result.base@ == "https://api.openai.com"@,
            result.prefix@.len() == 0,
            result.key@ == "env:CONTROL_PLANE_API_KEY"@,
            result.health@ == "127.0.0.1:8080"@,
            !result.browser,
            result.command@.len() == 0,
    {
        let mut values = Values::default();
        values.tunnel = "tunnel_00000000000000000000000000000000".to_owned();
        values.url = "http://127.0.0.1:3001/mcp".to_owned();
        values
    }

    /// The value that is given, or the usual one.
    pub fn or_usual(given: &str, usual: String) -> (result: String)
        ensures
            result@ == (if text::trim_of(given@).len() > 0 {
                text::trim_of(given@)
            } else {
                usual@
            }),
    {
        let own = text::trim(given);
        if own.is_empty() {
            usual
        } else {
            own
        }
    }

    /// What is wrong with the key.
    pub open spec fn is_key(value: Seq<char>) -> bool {
        match text::split_once_of(value, ':') {
            Some((kind, rest)) => (kind == "env"@ || kind == "file"@) && rest.len() > 0,
            None => false,
        }
    }

    /// What is wrong with the values that all samples have.
    pub open spec fn common_fault(self) -> Option<Seq<char>> {
        either(
            unless(
                !self.browser,
                "admin_ui.open_browser must retain its default in otunnel"@,
            ),
            either(
                unless(
                    is_tunnel_id(self.tunnel@),
                    "tunnel ID must match tunnel_<32 lowercase letters or digits>"@,
                ),
                either(
                    url_fault(self.base@),
                    unless(
                        Values::is_key(self.key@),
                        "use env:VARNAME or file:/path/to/key"@,
                    ),
                ),
            ),
        )
    }

    /// What is wrong with what a sample leads to.
    pub open spec fn target_fault(self, name: Seq<char>) -> Option<Seq<char>> {
        if name == "sample_mcp_stdio_local"@ {
            unless(self.command@.len() > 0, "sample_mcp_stdio_local requires --mcp-command"@)
        } else if name == "sample_mcp_remote_no_auth"@ {
            unless(
                self.url@.len() > 0,
                "sample_mcp_remote_no_auth requires --mcp-server-url"@,
            )
        } else {
            unless(
                (self.url@.len() == 0) != (self.command@.len() == 0),
                name + " requires exactly one of --mcp-server-url or --mcp-command"@,
            )
        }
    }

    /// The command of a sample.
    pub open spec fn command_of(self, name: Seq<char>) -> Seq<char> {
        if name == "sample_mcp_remote_no_auth"@ {
            Seq::empty()
        } else {
            self.command@
        }
    }

    /// What is wrong with a profile from a sample.
    pub open spec fn fault(self, name: Seq<char>) -> Option<Seq<char>> {
        either(
            self.common_fault(),
            either(
                self.target_fault(name),
                if self.command_of(name).len() > 0 {
                    None
                } else {
                    url_fault(self.url@)
                },
            ),
        )
    }
}

/// Why a text is no URL.
pub open spec fn url_fault(value: Seq<char>) -> Option<Seq<char>> {
    match parsed_url(value) {
        Ok(_) => None,
        Err(reason) => Some(reason),
    }
}

fn url(value: &str) -> (result: Option<String>)
    ensures
        text::view_of(result) == url_fault(value@),
{
    match address::parse(value) {
        Ok(_) => None,
        Err(reason) => Some(reason),
    }
}

impl Values {
    /// The profile from a sample, but for its version.
    pub open spec fn profile_doc(self, name: Seq<char>) -> Doc {
        let command = self.command_of(name);
        let main = Doc::object().with("channel"@, Doc::Text("main"@));
        let control = Doc::object().with("base_url"@, Doc::Text(self.base@)).with(
            "tunnel_id"@,
            Doc::Text(self.tunnel@),
        ).with("api_key"@, Doc::Text(self.key@)).with_if(
            self.prefix@.len() > 0,
            "url_path"@,
            Doc::Text(self.prefix@),
        );
        let mcp = if command.len() > 0 {
            Doc::object().with(
                "commands"@,
                Doc::List(seq![main.with("command"@, Doc::Text(command))]),
            )
        } else {
            Doc::object().with(
                "server_urls"@,
                Doc::List(seq![main.with("url"@, Doc::Text(self.url@))]),
            )
        };
        let proxied = name == "sample_mcp_enterprise_proxy"@;
        Doc::object().with("control_plane"@, control).with(
            "health"@,
            Doc::object().with("listen_addr"@, Doc::Text(self.health@)),
        ).with("admin_ui"@, Doc::object().with("open_browser"@, Doc::Bool(self.browser))).with(
            "log"@,
            Doc::object().with("level"@, Doc::Text("info"@)).with("format"@, Doc::Text("json"@)),
        ).with("mcp"@, mcp).with_if(
            proxied,
            "ca_bundle"@,
            Doc::Text("env:ENTERPRISE_CA_BUNDLE"@),
        ).with_if(proxied, "http_proxy"@, Doc::Text("env:HTTPS_PROXY"@))
    }

    fn common(&self) -> (result: Option<String>)
        ensures
            text::view_of(result) == self.common_fault(),
    {
        if self.browser {
            return Some("admin_ui.open_browser must retain its default in otunnel".to_owned());
        }
        if !tunnel_id(&self.tunnel) {
            return Some(
                "tunnel ID must match tunnel_<32 lowercase letters or digits>".to_owned(),
            );
        }
        if let Some(reason) = url(&self.base) {
            return Some(reason);
        }
        let keyed = match text::split_once(&self.key, ':') {
            Some((kind, rest)) => (text::same(&kind, "env") || text::same(&kind, "file"))
                && !rest.is_empty(),
            None => false,
        };
        if !keyed {
            return Some("use env:VARNAME or file:/path/to/key".to_owned());
        }
        None
    }

    fn target(&self, name: &str) -> (result: Option<String>)
        ensures
            text::view_of(result) == self.target_fault(name@),
    {
        if text::same(name, "sample_mcp_stdio_local") {
            if self.command.is_empty() {
                return Some("sample_mcp_stdio_local requires --mcp-command".to_owned());
            }
        } else if text::same(name, "sample_mcp_remote_no_auth") {
            if self.url.is_empty() {
                return Some("sample_mcp_remote_no_auth requires --mcp-server-url".to_owned());
            }
        } else if self.url.is_empty() == self.command.is_empty() {
            return Some(
                text::cat(name, " requires exactly one of --mcp-server-url or --mcp-command"),
            );
        }
        None
    }

    fn profile(&self, name: &str, command: &str) -> (result: Json)
        requires
            command@ == self.command_of(name@),
        ensures
            result.doc() == self.profile_doc(name@),
    {
        let main = Json::object().with("channel", Json::text("main"));
        let control = Json::object().with("base_url", Json::text(&self.base)).with(
            "tunnel_id",
            Json::text(&self.tunnel),
        ).with("api_key", Json::text(&self.key)).with_if(
            !self.prefix.is_empty(),
            "url_path",
            Json::text(&self.prefix),
        );
        let mcp = if !command.is_empty() {
            Json::object().with("commands", one(main.with("command", Json::text(command))))
        } else {
            Json::object().with("server_urls", one(main.with("url", Json::text(&self.url))))
        };
        let proxied = text::same(name, "sample_mcp_enterprise_proxy");
        Json::object().with("control_plane", control).with(
            "health",
            Json::object().with("listen_addr", Json::text(&self.health)),
        ).with("admin_ui", Json::object().with("open_browser", Json::Bool(self.browser))).with(
            "log",
            Json::object().with("level", Json::text("info")).with("format", Json::text("json")),
        ).with("mcp", mcp).with_if(proxied, "ca_bundle", Json::text("env:ENTERPRISE_CA_BUNDLE")).with_if(
            proxied,
            "http_proxy",
            Json::text("env:HTTPS_PROXY"),
        )
    }
}

fn one(item: Json) -> (result: Json)
    ensures
        result.doc() == Doc::List(seq![item.doc()]),
{
    let list: Vec<Json> = Vec::new();
    let result = Json::List(list).pushed(item);
    assert(result.doc()->List_0 =~= seq![item.doc()]);
    result
}

/// The text of the profile from a sample, or why there is none.
pub fn generate(name: &str, values: &Values) -> (result: Result<String, String>)
    ensures
        match result {
            Ok(contents) => summary_of(name@) is Some && values.fault(name@) is None && match json::yaml_text(
                values.profile_doc(name@),
            ) {
                Ok(body) => contents@ == "config_version: 1\n"@ + body,
                Err(_) => false,
            },
            Err(reason) => if summary_of(name@) is None {
                reason@ == "unknown sample "@ + text::debug_text(name@)
                    + "; run `otunnel profiles samples list`"@
            } else {
                match values.fault(name@) {
                    Some(fault) => reason@ == fault,
                    None => json::yaml_text(values.profile_doc(name@)) == Err::<
                        Seq<char>,
                        Seq<char>,
                    >(reason@),
                }
            },
        },
{
    match sample(name) {
        Ok(_) => {},
        Err(reason) => {
            return Err(reason);
        },
    }
    if let Some(reason) = values.common() {
        return Err(reason);
    }
    if let Some(reason) = values.target(name) {
        return Err(reason);
    }
    let command = if text::same(name, "sample_mcp_remote_no_auth") {
        let empty = String::new();
        assert(empty@ =~= Seq::<char>::empty());
        empty
    } else {
        values.command.clone()
    };
    if command.is_empty() {
        if let Some(reason) = url(&values.url) {
            return Err(reason);
        }
    }
    match json::write_yaml(values.profile(name, &command)) {
        Ok(body) => Ok(text::cat("config_version: 1\n", &body)),
        Err(reason) => Err(reason),
    }
}

/// The sample of a new profile: the given one, or the one for what it leads to.
pub fn chosen(given: &str, values: &Values) -> (result: String)
    ensures
        result@ == (if text::trim_of(given@).len() > 0 {
            text::trim_of(given@)
        } else if values.command@.len() > 0 && values.url@.len() == 0 {
            "sample_mcp_stdio_local"@
        } else {
            "sample_mcp_with_dcr"@
        }),
{
    let own = text::trim(given);
    if !own.is_empty() {
        own
    } else if !values.command.is_empty() && values.url.is_empty() {
        "sample_mcp_stdio_local".to_owned()
    } else {
        "sample_mcp_with_dcr".to_owned()
    }
}

/// What is told of a new profile.
pub fn created(name: &str, path: &str, sample: &str) -> (result: String)
    ensures
        result@ == "Created profile "@ + name@ + " at "@ + path@ + "\nSample: "@ + sample@
            + "\nNext:\n  otunnel doctor --profile "@ + name@ + "\n  otunnel run --profile "@ + name@,
{
    let front = text::cat5("Created profile ", name, " at ", path, "\nSample: ");
    let rest = text::cat5(
        &front,
        sample,
        "\nNext:\n  otunnel doctor --profile ",
        name,
        "\n  otunnel run --profile ",
    );
    text::cat(&rest, name)
}

/// Checks that a new profile has one origin: a file or a sample.
pub fn origin(file: &str, sample: &str) -> (result: Result<(), String>)
    ensures
        match result {
            Ok(()) => (file@.len() == 0) != (sample@.len() == 0),
            Err(reason) => (file@.len() == 0) == (sample@.len() == 0) && reason@
                == "set exactly one of --from-file or --sample"@,
        },
{
    if file.is_empty() == sample.is_empty() {
        Err("set exactly one of --from-file or --sample".to_owned())
    } else {
        Ok(())
    }
}

/// The words of the editor: of the first variable that is more than white space, or else of the second.
pub open spec fn editor_of(visual: Option<Seq<char>>, editor: Option<Seq<char>>) -> Seq<Seq<char>> {
    match visual {
        Some(value) if text::trim_of(value).len() > 0 => words_of(value, Break::Space),
        _ => match editor {
            Some(value) => words_of(value, Break::Space),
            None => Seq::empty(),
        },
    }
}

/// The words of the editor, or why there is none.
pub fn editor(visual: Option<&str>, other: Option<&str>) -> (result: Result<Vec<String>, String>)
    ensures
        ({
            let expected = editor_of(text::str_view(visual), text::str_view(other));
            match result {
                Ok(found) => expected.len() > 0 && text::views(found@) == expected,
                Err(reason) => expected.len() == 0 && reason@
                    == "set VISUAL or EDITOR to edit profiles"@,
            }
        }),
{
    let mut found: Vec<String> = Vec::new();
    assert(text::views(found@) =~= Seq::<Seq<char>>::empty());
    let mut used = false;
    if let Some(value) = visual {
        if !text::trim(value).is_empty() {
            found = words(value, Break::Space);
            used = true;
        }
    }
    if !used {
        if let Some(value) = other {
            found = words(value, Break::Space);
        }
    }
    assert(text::views(found@).len() == found@.len());
    if found.len() == 0 {
        Err("set VISUAL or EDITOR to edit profiles".to_owned())
    } else {
        Ok(found)
    }
}

/// Whether a file of a directory is a profile.
pub open spec fn is_profile_file(file: Seq<char>) -> bool {
    match text::before_suffix(file, ".yaml"@) {
        Some(name) => is_profile_name(text::trim_of(name)),
        None => false,
    }
}

/// The profiles among the first files of a directory, with the path of each.
pub open spec fn profiles_of(files: Seq<(String, String)>, count: int) -> Map<Seq<char>, Seq<char>>
    decreases count,
{
    if count <= 0 {
        Map::empty()
    } else {
        let before = profiles_of(files, count - 1);
        let (file, path) = files[count - 1];
        if is_profile_file(file@) {
            before.insert(text::before_suffix(file@, ".yaml"@)->Some_0, path@)
        } else {
            before
        }
    }
}

/// The profiles among the files of a directory, with the path of each, in the order of their names.
pub fn profiles(files: &Vec<(String, String)>) -> (result: Table<String>)
    ensures
        crate::table::strings_of(result@) == profiles_of(files@, files@.len() as int),
{
    let mut result: Table<String> = Table::new();
    let mut index: usize = 0;
    assert(crate::table::strings_of(result@) =~= profiles_of(files@, 0));
    while index < files.len()
        invariant
            index <= files.len(),
            crate::table::strings_of(result@) == profiles_of(files@, index as int),
        decreases files.len() - index,
    {
        if let Some(name) = text::strip_suffix(&files[index].0, ".yaml") {
            if profile_name(&name).is_ok() {
                let path = files[index].1.clone();
                let ghost before = crate::table::strings_of(result@);
                result = result.insert(name, path);
                assert(crate::table::strings_of(result@) =~= before.insert(name@, path@));
            }
        }
        index = index + 1;
    }
    result
}

/// What is told of the profiles, in the order of their names.
pub open spec fn profile_docs(table: Table<String>, count: int) -> Seq<Doc>
    decreases count,
{
    if count <= 0 {
        Seq::empty()
    } else {
        profile_docs(table, count - 1).push(
            Doc::object().with("name"@, Doc::Text(table.keys()[count - 1])).with(
                "path"@,
                Doc::Text(table.values()[count - 1]@),
            ),
        )
    }
}

/// What is told of the profiles, in the order of their names.
pub fn profile_list(table: &Table<String>) -> (result: Json)
    ensures
        result.doc() == Doc::List(profile_docs(*table, table.keys().len() as int)),
{
    let count: usize = table.len();
    let mut items: Vec<Json> = Vec::new();
    let mut index: usize = 0;
    while index < count
        invariant
            index <= count,
            count == table.keys().len(),
            json::docs(items@) == profile_docs(*table, index as int),
        decreases count - index,
    {
        let shown = Json::object().with("name", Json::text(table.key(index))).with(
            "path",
            Json::text(table.value(index)),
        );
        proof {
            json::lemma_docs_push(items@, shown);
        }
        items.push(shown);
        index = index + 1;
    }
    Json::List(items)
}

/// Whether the templates of a configuration can be used: in its second version, and where each is valid.
pub open spec fn templates_hold(config: Config, sources: Sources) -> bool {
    forall|i: int|
        0 <= i < config.harpoon.targets@.len() ==> ((#[trigger] config.harpoon.targets@[i]).template matches Some(
            definition,
        ) ==> config.config_version == Some(2u8) && definition.is_valid(sources))
}

/// Whether the configuration has a template.
pub open spec fn has_template(config: Config) -> bool {
    exists|i: int|
        0 <= i < config.harpoon.targets@.len() && (#[trigger] config.harpoon.targets@[i]).template is Some
}

/// Whether the template of a target is the first that is not valid, and that is the reason.
pub open spec fn is_refused(config: Config, sources: Sources, at: int, reason: Seq<char>) -> bool {
    let targets = config.harpoon.targets@;
    &&& 0 <= at < targets.len()
    &&& targets[at].template matches Some(definition) && !definition.is_valid(sources) && exists|
        given: Table<String>,
    | #[trigger]
        is_masked(given, definition.headers) && definition.refused(given, sources, reason)
    &&& forall|i: int|
        0 <= i < at ==> ((#[trigger] targets[i]).template matches Some(definition)
            ==> definition.is_valid(sources))
}

/// Checks the templates of a configuration.
pub fn check_templates(config: &Config, sources: &Sources) -> (result: Result<(), String>)
    ensures
        result is Ok <==> templates_hold(*config, *sources),
        result matches Err(reason) ==> if config.config_version != Some(2u8) {
            has_template(*config) && reason@ == "Harpoon templates require config_version: 2"@
        } else {
            exists|i: int| #[trigger] is_refused(*config, *sources, i, reason@)
        },
{
    let mut index: usize = 0;
    while index < config.harpoon.targets.len()
        invariant
            index <= config.harpoon.targets@.len(),
            forall|i: int|
                0 <= i < index ==> ((#[trigger] config.harpoon.targets@[i]).template matches Some(
                    definition,
                ) ==> config.config_version == Some(2u8) && definition.is_valid(*sources)),
        decreases config.harpoon.targets.len() - index,
    {
        if let Some(definition) = &config.harpoon.targets[index].template {
            let second = match config.config_version {
                Some(version) => version == 2,
                None => false,
            };
            if !second {
                return Err("Harpoon templates require config_version: 2".to_owned());
            }
            match definition.validate(sources) {
                Ok(()) => {},
                Err(reason) => {
                    assert(is_refused(*config, *sources, index as int, reason@));
                    return Err(reason);
                },
            }
        }
        index = index + 1;
    }
    Ok(())
}

/// Each sample that is listed has a summary, and no other name does.
pub proof fn lemma_samples_listed(name: Seq<char>)
    ensures
        sample_names().contains(name) <==> summary_of(name) is Some,
        sample_names().len() == 4,
        sample_names()[0] == "sample_mcp_enterprise_proxy"@,
        sample_names()[1] == "sample_mcp_remote_no_auth"@,
        sample_names()[2] == "sample_mcp_stdio_local"@,
        sample_names()[3] == "sample_mcp_with_dcr"@,
{
    reveal_strlit("sample_mcp_enterprise_proxy");
    reveal_strlit("sample_mcp_remote_no_auth");
    reveal_strlit("sample_mcp_stdio_local");
    reveal_strlit("sample_mcp_with_dcr");
    assert("sample_mcp_enterprise_proxy"@.len() == 27);
    assert("sample_mcp_remote_no_auth"@.len() == 25);
    assert("sample_mcp_stdio_local"@.len() == 22);
    assert("sample_mcp_with_dcr"@.len() == 19);
    if summary_of(name) is Some {
        assert(sample_names()[0] == name || sample_names()[1] == name || sample_names()[2] == name
            || sample_names()[3] == name);
    }
}

/// A key is a reference to a variable or to a file.
pub proof fn lemma_sample_keys(kind: Seq<char>, rest: Seq<char>, value: Seq<char>)
    ensures
        text::split_once_of(value, ':') == Some((kind, rest)) ==> (Values::is_key(value) <==> rest.len() > 0 && (
        kind == "env"@ || kind == "file"@)),
        text::split_once_of(value, ':') is None ==> !Values::is_key(value),
{
}

/// The values that a sample accepts: the tunnel, the service and the key as they must be, no browser, and the target
/// that the sample asks for.
pub proof fn lemma_sample_accepted(values: Values, name: Seq<char>)
    requires
        values.fault(name) is None,
    ensures
        !values.browser,
        is_tunnel_id(values.tunnel@),
        parsed_url(values.base@) is Ok,
        Values::is_key(values.key@),
        name == "sample_mcp_stdio_local"@ ==> values.command@.len() > 0,
        name == "sample_mcp_remote_no_auth"@ ==> values.url@.len() > 0 && parsed_url(values.url@) is Ok,
        name == "sample_mcp_with_dcr"@ || name == "sample_mcp_enterprise_proxy"@ ==> (values.url@.len() == 0)
            != (values.command@.len() == 0),
        (name == "sample_mcp_with_dcr"@ || name == "sample_mcp_enterprise_proxy"@) && values.command@.len() == 0
            ==> parsed_url(values.url@) is Ok,
{
    reveal_strlit("sample_mcp_enterprise_proxy");
    reveal_strlit("sample_mcp_remote_no_auth");
    reveal_strlit("sample_mcp_stdio_local");
    reveal_strlit("sample_mcp_with_dcr");
    assert("sample_mcp_enterprise_proxy"@.len() == 27);
    assert("sample_mcp_remote_no_auth"@.len() == 25);
    assert("sample_mcp_stdio_local"@.len() == 22);
    assert("sample_mcp_with_dcr"@.len() == 19);
}

/// The profile that a sample writes.
pub proof fn lemma_sample_written(values: Values, name: Seq<char>)
    ensures
        ({
            let doc = values.profile_doc(name);
            &&& doc.at("control_plane"@).at("base_url"@) == Doc::Text(values.base@)
            &&& doc.at("control_plane"@).at("tunnel_id"@) == Doc::Text(values.tunnel@)
            &&& doc.at("control_plane"@).at("api_key"@) == Doc::Text(values.key@)
            &&& values.prefix@.len() > 0 ==> doc.at("control_plane"@).at("url_path"@) == Doc::Text(
                values.prefix@,
            )
            &&& values.prefix@.len() == 0 ==> doc.at("control_plane"@).at("url_path"@) == Doc::Null
            &&& doc.at("health"@).at("listen_addr"@) == Doc::Text(values.health@)
            &&& doc.at("admin_ui"@).at("open_browser"@) == Doc::Bool(values.browser)
            &&& doc.at("log"@).at("level"@) == Doc::Text("info"@)
            &&& doc.at("log"@).at("format"@) == Doc::Text("json"@)
            &&& name == "sample_mcp_enterprise_proxy"@ ==> doc.at("ca_bundle"@) == Doc::Text(
                "env:ENTERPRISE_CA_BUNDLE"@,
            ) && doc.at("http_proxy"@) == Doc::Text("env:HTTPS_PROXY"@)
            &&& name != "sample_mcp_enterprise_proxy"@ ==> doc.at("ca_bundle"@) == Doc::Null && doc.at(
                "http_proxy"@,
            ) == Doc::Null
            &&& name == "sample_mcp_remote_no_auth"@ || values.command@.len() == 0 ==> (doc.at("mcp"@).at(
                "server_urls"@,
            ) matches Doc::List(items) && items.len() == 1 && items[0].at("channel"@) == Doc::Text("main"@)
                && items[0].at("url"@) == Doc::Text(values.url@))
            &&& name != "sample_mcp_remote_no_auth"@ && values.command@.len() > 0 ==> (doc.at("mcp"@).at(
                "commands"@,
            ) matches Doc::List(items) && items.len() == 1 && items[0].at("channel"@) == Doc::Text("main"@)
                && items[0].at("command"@) == Doc::Text(values.command@))
        }),
{
    reveal_strlit("control_plane");
    reveal_strlit("health");
    reveal_strlit("admin_ui");
    reveal_strlit("log");
    reveal_strlit("mcp");
    reveal_strlit("ca_bundle");
    reveal_strlit("http_proxy");
    assert("control_plane"@.len() == 13);
    assert("health"@.len() == 6);
    assert("admin_ui"@.len() == 8);
    assert("log"@.len() == 3 && "log"@[0] == 'l');
    assert("mcp"@.len() == 3 && "mcp"@[0] == 'm');
    assert("ca_bundle"@.len() == 9);
    assert("http_proxy"@.len() == 10);
    reveal_strlit("base_url");
    reveal_strlit("tunnel_id");
    reveal_strlit("api_key");
    reveal_strlit("url_path");
    reveal_strlit("listen_addr");
    reveal_strlit("open_browser");
    reveal_strlit("level");
    reveal_strlit("format");
    reveal_strlit("server_urls");
    reveal_strlit("commands");
    reveal_strlit("channel");
    reveal_strlit("url");
    reveal_strlit("command");
    assert("base_url"@.len() == 8 && "base_url"@[0] == 'b');
    assert("tunnel_id"@.len() == 9);
    assert("api_key"@.len() == 7 && "api_key"@[0] == 'a');
    assert("url_path"@.len() == 8 && "url_path"@[0] == 'u');
    assert("listen_addr"@.len() == 11 && "listen_addr"@[0] == 'l');
    assert("open_browser"@.len() == 12);
    assert("level"@.len() == 5);
    assert("format"@.len() == 6);
    assert("server_urls"@.len() == 11 && "server_urls"@[0] == 's');
    assert("commands"@.len() == 8 && "commands"@[0] == 'c');
    assert("channel"@.len() == 7 && "channel"@[0] == 'c' && "channel"@[1] == 'h');
    assert("url"@.len() == 3);
    assert("command"@.len() == 7 && "command"@[0] == 'c' && "command"@[1] == 'o');
}

/// The editor is the visual one, or else the plain one.
pub proof fn lemma_editor_chosen(visual: Seq<char>, editor: Seq<char>)
    ensures
        text::trim_of(visual).len() > 0 ==> editor_of(Some(visual), Some(editor)) == words_of(visual, Break::Space)
            && editor_of(Some(visual), None) == words_of(visual, Break::Space),
        text::trim_of(visual).len() == 0 ==> editor_of(Some(visual), Some(editor)) == words_of(
            editor,
            Break::Space,
        ),
        editor_of(None, Some(editor)) == words_of(editor, Break::Space),
        editor_of(None, None).len() == 0,
{
}

/// The profiles are the files of that ending with a name in front of it.
pub proof fn lemma_profiles_found(files: Seq<(String, String)>, count: int, at: int)
    requires
        0 <= at < count <= files.len(),
        is_profile_file(files[at].0@),
    ensures
        profiles_of(files, count).dom().contains(text::before_suffix(files[at].0@, ".yaml"@)->Some_0),
    decreases count,
{
    if at < count - 1 {
        lemma_profiles_found(files, count - 1, at);
    }
}

/// A profile is told with its name and its path, in order.
pub proof fn lemma_profiles_told(table: Table<String>, count: int, at: int)
    requires
        0 <= count <= table.keys().len(),
    ensures
        profile_docs(table, count).len() == count,
        0 <= at < count ==> profile_docs(table, count)[at].at("name"@) == Doc::Text(table.keys()[at])
            && profile_docs(table, count)[at].at("path"@) == Doc::Text(table.values()[at]@),
    decreases count,
{
    reveal_strlit("name");
    reveal_strlit("path");
    assert("name"@.len() == 4 && "name"@[0] == 'n');
    assert("path"@.len() == 4 && "path"@[0] == 'p');
    assert("name"@ != "path"@);
    if count > 0 {
        lemma_profiles_told(table, count - 1, at);
    }
}

/// Templates hold where each is of a configuration of the second version and valid.
pub proof fn lemma_templates_held(config: Config, sources: Sources, at: int)
    requires
        0 <= at < config.harpoon.targets@.len(),
        config.harpoon.targets@[at].template is Some,
    ensures
        templates_hold(config, sources) ==> config.config_version == Some(2u8)
            && config.harpoon.targets@[at].template->0.is_valid(sources),
        has_template(config),
{
}

/// The usual values of a sample.
pub proof fn lemma_usual_values(values: Values)
    requires
        values.is_usual(),
    ensures
        values.base@ == "https://api.openai.com"@,
        values.key@ == "env:CONTROL_PLANE_API_KEY"@,
        values.health@ == "127.0.0.1:8080"@,
        !values.browser,
        values.tunnel@.len() == 0 && values.prefix@.len() == 0 && values.url@.len() == 0 && values.command@.len()
            == 0,
{
}

} // verus!
