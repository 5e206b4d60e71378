//! The checks of a configuration as it was written, and the values that it refers to.

use vstd::prelude::*;
use crate::checks::{either, fault_from, first_fault, tells, unless};
use crate::config::reference::{self, path_of, resolved_of, syntax_fault, Sources};
use crate::config::settings::{
    command_views,
    server_views,
    target_views,
    Command,
    CommandView,
    Config,
    ConfigView,
    ControlPlaneView,
    HealthView,
    McpView,
    Server,
    ServerView,
    Target,
    TargetView,
};
use crate::json::{self, yaml_first, Doc, Json};
use crate::text;

verus! {

/// What an entry of a target says in front of a reason.
pub open spec fn target_entry(label: Seq<char>, rest: Seq<char>) -> Seq<char> {
    "harpoon.targets entry "@ + text::debug_text(label) + rest
}

fn entry(label: &str, rest: &str) -> (result: String)
    ensures
        result@ == target_entry(label@, rest@),
{
    text::cat3("harpoon.targets entry ", &text::quoted(label), rest)
}

impl TargetView {
    /// Why a target as it was read is refused, if so.
    pub open spec fn parsed_fault(self) -> Option<Seq<char>> {
        either(
            unless(text::trim_of(self.label).len() > 0, "harpoon.targets entry requires label"@),
            match self.template {
                Some(template) => either(
                    unless(
                        !template.both_rules(),
                        "header_rules and allowed_headers cannot be combined"@,
                    ),
                    either(
                        unless(
                            self.url.len() == 0 && self.unix_socket is None,
                            target_entry(
                                self.label,
                                ": template cannot be combined with url or unix_socket"@,
                            ),
                        ),
                        unless(
                            template.version == 1,
                            target_entry(self.label, ": template version must be 1"@),
                        ),
                    ),
                ),
                None => unless(
                    text::trim_of(self.url).len() > 0,
                    target_entry(self.label, " requires url or template"@),
                ),
            },
        )
    }

    /// Why the references of a target are refused, if so.
    pub open spec fn profile_fault(self) -> Option<Seq<char>> {
        either(
            unless(text::trim_of(self.label).len() > 0, "harpoon.targets entry requires label"@),
            match self.template {
                Some(_) => either(
                    unless(
                        self.url.len() == 0 && self.unix_socket is None,
                        target_entry(
                            self.label,
                            ": template cannot be combined with url or unix_socket"@,
                        ),
                    ),
                    self.template_headers_fault(),
                ),
                None => either(
                    unless(
                        text::trim_of(self.url).len() > 0,
                        target_entry(self.label, " requires url or template"@),
                    ),
                    either(
                        syntax_fault("harpoon.targets.url"@, self.url),
                        optional_fault("harpoon.targets.unix_socket"@, self.unix_socket),
                    ),
                ),
            },
        )
    }
}

/// Why a setting that is there or not is refused, if so.
pub open spec fn optional_fault(name: Seq<char>, value: Option<Seq<char>>) -> Option<Seq<char>> {
    match value {
        Some(inner) => syntax_fault(name, inner),
        None => None,
    }
}

fn check_optional(name: &str, value: &Option<String>) -> (result: Result<(), String>)
    ensures
        tells(result, optional_fault(name@, text::view_of(*value))),
{
    match value {
        Some(inner) => reference::syntax(name, inner),
        None => Ok(()),
    }
}

impl Target {
    fn check_parsed(&self) -> (result: Result<(), String>)
        ensures
            tells(result, self@.parsed_fault()),
    {
        if text::trim(&self.label).is_empty() {
            return Err("harpoon.targets entry requires label".to_owned());
        }
        match &self.template {
            Some(template) => {
                match template.rules() {
                    Ok(_) => {},
                    Err(reason) => {
                        return Err(reason);
                    },
                }
                if !self.url.is_empty() || self.unix_socket.is_some() {
                    return Err(
                        entry(
                            &self.label,
                            ": template cannot be combined with url or unix_socket",
                        ),
                    );
                }
                if template.version != 1 {
                    return Err(entry(&self.label, ": template version must be 1"));
                }
                Ok(())
            },
            None => if text::trim(&self.url).is_empty() {
                Err(entry(&self.label, " requires url or template"))
            } else {
                Ok(())
            },
        }
    }

    fn check_profile(&self) -> (result: Result<(), String>)
        ensures
            tells(result, self@.profile_fault()),
    {
        if text::trim(&self.label).is_empty() {
            return Err("harpoon.targets entry requires label".to_owned());
        }
        if self.template.is_some() {
            if !self.url.is_empty() || self.unix_socket.is_some() {
                return Err(
                    entry(&self.label, ": template cannot be combined with url or unix_socket"),
                );
            }
            return self.check_template_headers();
        }
        if text::trim(&self.url).is_empty() {
            return Err(entry(&self.label, " requires url or template"));
        }
        match reference::syntax("harpoon.targets.url", &self.url) {
            Ok(()) => check_optional("harpoon.targets.unix_socket", &self.unix_socket),
            Err(reason) => Err(reason),
        }
    }
}

impl ConfigView {
    /// Whether some target has a template.
    pub open spec fn has_template(self) -> bool {
        exists|i: int|
            0 <= i < self.harpoon.targets.len() && (
            #[trigger] self.harpoon.targets[i]).template is Some
    }

    /// Why a configuration as it was read is refused, if so.
    pub open spec fn parsed_fault(self) -> Option<Seq<char>> {
        let targets = self.harpoon.targets;
        either(
            unless(
                self.config_version is None || self.config_version == Some(1u8)
                    || self.config_version == Some(2u8),
                "unsupported config_version"@,
            ),
            either(
                unless(
                    self.config_version == Some(2u8) || !self.has_template(),
                    "Harpoon templates require config_version: 2"@,
                ),
                first_fault(targets.len() as int, |i: int| targets[i].parsed_fault()),
            ),
        )
    }
}

impl Config {
    fn templated(&self) -> (result: bool)
        ensures
            result == self@.has_template(),
    {
        let items = &self.harpoon.targets;
        let ghost targets = self@.harpoon.targets;
        let mut index: usize = 0;
        while index < items.len()
            invariant
                index <= items.len(),
                *items == self.harpoon.targets,
                targets == self@.harpoon.targets,
                targets == target_views(items@),
                forall|i: int| 0 <= i < index ==> (#[trigger] targets[i]).template is None,
            decreases items.len() - index,
        {
            assert(targets[index as int] == items@[index as int]@);
            if items[index].template.is_some() {
                assert(self@.harpoon.targets[index as int].template is Some);
                return true;
            }
            index = index + 1;
        }
        false
    }

    /// Checks a configuration as it was read.
    pub fn check_parsed(&self) -> (result: Result<(), String>)
        ensures
            tells(result, self@.parsed_fault()),
    {
        if let Some(version) = self.config_version {
            if version != 1 && version != 2 {
                return Err("unsupported config_version".to_owned());
            }
        }
        let second = match self.config_version {
            Some(version) => version == 2,
            None => false,
        };
        if !second && self.templated() {
            return Err("Harpoon templates require config_version: 2".to_owned());
        }
        self.check_parsed_targets()
    }

    fn check_parsed_targets(&self) -> (result: Result<(), String>)
        ensures
            tells(
                result,
                ({
                    let targets = self@.harpoon.targets;
                    first_fault(targets.len() as int, |i: int| targets[i].parsed_fault())
                }),
            ),
    {
        let items = &self.harpoon.targets;
        let ghost targets = self@.harpoon.targets;
        let ghost fault = |i: int| targets[i].parsed_fault();
        let mut index: usize = 0;
        while index < items.len()
            invariant
                index <= items.len(),
                targets == target_views(items@),
                targets == self@.harpoon.targets,
                fault == (|i: int| targets[i].parsed_fault()),
                first_fault(targets.len() as int, fault) == fault_from(
                    index as int,
                    targets.len() as int,
                    fault,
                ),
            decreases items.len() - index,
        {
            assert(targets[index as int] == items@[index as int]@);
            assert(fault(index as int) == items@[index as int]@.parsed_fault());
            match items[index].check_parsed() {
                Ok(()) => {},
                Err(reason) => {
                    return Err(reason);
                },
            }
            index = index + 1;
        }
        Ok(())
    }
}

/// Why a setting of the written document is refused, if so.
pub open spec fn written_fault(raw: Doc, group: Seq<char>, key: Seq<char>) -> Option<Seq<char>> {
    optional_fault(group + "."@ + key, raw.at(group).at(key).text())
}

fn check_written(raw: &Json, group: &str, key: &str) -> (result: Result<(), String>)
    ensures
        tells(result, written_fault(raw.doc(), group@, key@)),
{
    let value = match raw.get(group) {
        Some(inner) => inner.get_text(key),
        None => None,
    };
    check_optional(&text::cat3(group, ".", key), &value)
}

/// Why the settings of the written document are refused, if so.
pub open spec fn document_fault(raw: Doc) -> Option<Seq<char>> {
    either(
        written_fault(raw, "control_plane"@, "base_url"@),
        either(
            written_fault(raw, "control_plane"@, "url_path"@),
            either(
                written_fault(raw, "control_plane"@, "api_key"@),
                either(
                    written_fault(raw, "control_plane"@, "client_cert"@),
                    either(
                        written_fault(raw, "control_plane"@, "client_key"@),
                        either(
                            written_fault(raw, "health"@, "listen_addr"@),
                            written_fault(raw, "health"@, "unix_socket"@),
                        ),
                    ),
                ),
            ),
        ),
    )
}

fn check_document(raw: &Json) -> (result: Result<(), String>)
    ensures
        tells(result, document_fault(raw.doc())),
{
    match check_written(raw, "control_plane", "base_url") {
        Ok(()) => {},
        Err(reason) => {
            return Err(reason);
        },
    }
    match check_written(raw, "control_plane", "url_path") {
        Ok(()) => {},
        Err(reason) => {
            return Err(reason);
        },
    }
    match check_written(raw, "control_plane", "api_key") {
        Ok(()) => {},
        Err(reason) => {
            return Err(reason);
        },
    }
    match check_written(raw, "control_plane", "client_cert") {
        Ok(()) => {},
        Err(reason) => {
            return Err(reason);
        },
    }
    match check_written(raw, "control_plane", "client_key") {
        Ok(()) => {},
        Err(reason) => {
            return Err(reason);
        },
    }
    match check_written(raw, "health", "listen_addr") {
        Ok(()) => {},
        Err(reason) => {
            return Err(reason);
        },
    }
    check_written(raw, "health", "unix_socket")
}

impl ServerView {
    /// Why the references of a server are refused, if so.
    pub open spec fn syntax_fault(self) -> Option<Seq<char>> {
        either(
            syntax_fault("mcp.server_urls.url"@, self.url),
            optional_fault("mcp.server_urls.unix_socket"@, self.unix_socket),
        )
    }
}

impl ConfigView {
    pub open spec fn servers_syntax(self) -> Option<Seq<char>> {
        let servers = self.mcp.server_urls;
        first_fault(servers.len() as int, |i: int| servers[i].syntax_fault())
    }

    pub open spec fn commands_syntax(self) -> Option<Seq<char>> {
        let commands = self.mcp.commands;
        first_fault(
            commands.len() as int,
            |i: int| syntax_fault("mcp.commands.command"@, commands[i].command),
        )
    }

    pub open spec fn targets_syntax(self) -> Option<Seq<char>> {
        let targets = self.harpoon.targets;
        first_fault(targets.len() as int, |i: int| targets[i].profile_fault())
    }

    /// Why the references of a written configuration are refused, if so.
    pub open spec fn profile_fault(self, raw: Doc) -> Option<Seq<char>> {
        either(
            document_fault(raw),
            either(
                self.all_headers_fault(false),
                either(
                    self.servers_syntax(),
                    either(self.commands_syntax(), self.targets_syntax()),
                ),
            ),
        )
    }

    /// Why a written configuration is refused before its templates are looked at, if so.
    pub open spec fn source_fault(self, raw: Doc) -> Option<Seq<char>> {
        either(self.scope_fault(), either(self.profile_fault(raw), self.mcp.origins_fault()))
    }

    /// Why the template of a target is refused, if so.
    pub open spec fn template_fault(self, sources: Sources, at: int) -> Option<Seq<char>> {
        match self.harpoon.targets[at].template {
            Some(definition) => unless(
                definition.is_valid(sources),
                "harpoon target "@ + text::debug_text(self.harpoon.targets[at].label)
                    + " template"@,
            ),
            None => None,
        }
    }

    /// Why a configuration is refused that was read from a text, if so.
    pub open spec fn text_fault(self, text: Seq<char>, sources: Sources) -> Option<Seq<char>> {
        either(
            self.scope_fault(),
            match yaml_first(text) {
                Ok(Some(raw)) => self.written_fault(raw, sources),
                Ok(None) => Some("configuration is empty"@),
                Err(reason) => Some(reason),
            },
        )
    }

    /// Why a written configuration is refused, if so.
    pub open spec fn written_fault(self, raw: Doc, sources: Sources) -> Option<Seq<char>> {
        either(
            self.source_fault(raw),
            first_fault(
                self.harpoon.targets.len() as int,
                |i: int| self.template_fault(sources, i),
            ),
        )
    }
}

impl Config {
    fn check_servers(&self) -> (result: Result<(), String>)
        ensures
            tells(result, self@.servers_syntax()),
    {
        let items = &self.mcp.server_urls;
        let ghost servers = self@.mcp.server_urls;
        let ghost fault = |i: int| servers[i].syntax_fault();
        let mut index: usize = 0;
        while index < items.len()
            invariant
                index <= items.len(),
                servers == server_views(items@),
                servers == self@.mcp.server_urls,
                fault == (|i: int| servers[i].syntax_fault()),
                first_fault(servers.len() as int, fault) == fault_from(
                    index as int,
                    servers.len() as int,
                    fault,
                ),
            decreases items.len() - index,
        {
            assert(servers[index as int] == items@[index as int]@);
            assert(fault(index as int) == items@[index as int]@.syntax_fault());
            match reference::syntax("mcp.server_urls.url", &items[index].url) {
                Ok(()) => {},
                Err(reason) => {
                    return Err(reason);
                },
            }
            match check_optional("mcp.server_urls.unix_socket", &items[index].unix_socket) {
                Ok(()) => {},
                Err(reason) => {
                    return Err(reason);
                },
            }
            index = index + 1;
        }
        Ok(())
    }

    fn check_commands(&self) -> (result: Result<(), String>)
        ensures
            tells(result, self@.commands_syntax()),
    {
        let items = &self.mcp.commands;
        let ghost commands = self@.mcp.commands;
        let ghost fault = |i: int| syntax_fault("mcp.commands.command"@, commands[i].command);
        let mut index: usize = 0;
        while index < items.len()
            invariant
                index <= items.len(),
                commands == command_views(items@),
                commands == self@.mcp.commands,
                fault == (|i: int| syntax_fault("mcp.commands.command"@, commands[i].command)),
                first_fault(commands.len() as int, fault) == fault_from(
                    index as int,
                    commands.len() as int,
                    fault,
                ),
            decreases items.len() - index,
        {
            assert(commands[index as int] == items@[index as int]@);
            assert(fault(index as int) == syntax_fault(
                "mcp.commands.command"@,
                items@[index as int].command@,
            ));
            match reference::syntax("mcp.commands.command", &items[index].command) {
                Ok(()) => {},
                Err(reason) => {
                    return Err(reason);
                },
            }
            index = index + 1;
        }
        Ok(())
    }

    fn check_targets(&self) -> (result: Result<(), String>)
        ensures
            tells(result, self@.targets_syntax()),
    {
        let items = &self.harpoon.targets;
        let ghost targets = self@.harpoon.targets;
        let ghost fault = |i: int| targets[i].profile_fault();
        let mut index: usize = 0;
        while index < items.len()
            invariant
                index <= items.len(),
                targets == target_views(items@),
                targets == self@.harpoon.targets,
                fault == (|i: int| targets[i].profile_fault()),
                first_fault(targets.len() as int, fault) == fault_from(
                    index as int,
                    targets.len() as int,
                    fault,
                ),
            decreases items.len() - index,
        {
            assert(targets[index as int] == items@[index as int]@);
            assert(fault(index as int) == items@[index as int]@.profile_fault());
            match items[index].check_profile() {
                Ok(()) => {},
                Err(reason) => {
                    return Err(reason);
                },
            }
            index = index + 1;
        }
        Ok(())
    }

    fn check_references(&self, raw: &Json) -> (result: Result<(), String>)
        ensures
            tells(result, self@.profile_fault(raw.doc())),
    {
        match check_document(raw) {
            Ok(()) => {},
            Err(reason) => {
                return Err(reason);
            },
        }
        match self.validate_headers(false) {
            Ok(()) => {},
            Err(reason) => {
                return Err(reason);
            },
        }
        match self.check_servers() {
            Ok(()) => {},
            Err(reason) => {
                return Err(reason);
            },
        }
        match self.check_commands() {
            Ok(()) => {},
            Err(reason) => {
                return Err(reason);
            },
        }
        self.check_targets()
    }

    fn check_templates(&self, sources: &Sources) -> (result: Result<(), String>)
        ensures
            tells(
                result,
                first_fault(
                    self@.harpoon.targets.len() as int,
                    |i: int| self@.template_fault(*sources, i),
                ),
            ),
    {
        let items = &self.harpoon.targets;
        let ghost fault = |i: int| self@.template_fault(*sources, i);
        let mut index: usize = 0;
        while index < items.len()
            invariant
                index <= items.len(),
                *items == self.harpoon.targets,
                self@.harpoon.targets == target_views(items@),
                fault == (|i: int| self@.template_fault(*sources, i)),
                first_fault(items@.len() as int, fault) == fault_from(
                    index as int,
                    items@.len() as int,
                    fault,
                ),
            decreases items.len() - index,
        {
            assert(self@.harpoon.targets[index as int] == items@[index as int]@);
            assert(fault(index as int) == self@.template_fault(*sources, index as int));
            if let Some(definition) = &items[index].template {
                if definition.validate(sources).is_err() {
                    return Err(
                        text::cat3(
                            "harpoon target ",
                            &text::quoted(&items[index].label),
                            " template",
                        ),
                    );
                }
            }
            index = index + 1;
        }
        Ok(())
    }

    /// Checks a configuration that was read from a text, without reading what it refers to.
    pub fn validate_profile(&self, text: &str, sources: &Sources) -> (result: Result<(), String>)
        ensures
            tells(result, either(self@.parsed_fault(), self@.text_fault(text@, *sources))),
    {
        match self.check_parsed() {
            Ok(()) => self.validate_text(text, sources),
            Err(reason) => Err(reason),
        }
    }

    fn validate_text(&self, text: &str, sources: &Sources) -> (result: Result<(), String>)
        ensures
            tells(result, self@.text_fault(text@, *sources)),
    {
        match self.scope() {
            Ok(()) => {},
            Err(reason) => {
                return Err(reason);
            },
        }
        match json::parse_yaml(text) {
            Ok(Some(raw)) => self.validate_source(&raw, sources),
            Ok(None) => Err("configuration is empty".to_owned()),
            Err(reason) => Err(reason),
        }
    }

    /// Checks a configuration against the document that it was read from, without reading what it
    /// refers to.
    pub fn validate_source(&self, raw: &Json, sources: &Sources) -> (result: Result<(), String>)
        ensures
            tells(result, self@.written_fault(raw.doc(), *sources)),
    {
        match self.scope() {
            Ok(()) => {},
            Err(reason) => {
                return Err(reason);
            },
        }
        match self.check_references(raw) {
            Ok(()) => {},
            Err(reason) => {
                return Err(reason);
            },
        }
        match self.mcp.oauth_origins() {
            Ok(_) => {},
            Err(reason) => {
                return Err(reason);
            },
        }
        self.check_templates(sources)
    }
}

/// Why a value refers to nothing, if so.
pub open spec fn unresolved(name: Seq<char>, value: Seq<char>, sources: Sources) -> Option<Seq<char>> {
    match resolved_of(name, value, sources) {
        Err(reason) => Some(reason),
        Ok(_) => None,
    }
}

/// Why a value that is there or not refers to nothing, if so.
pub open spec fn unresolved_optional(
    name: Seq<char>,
    value: Option<Seq<char>>,
    sources: Sources,
) -> Option<Seq<char>> {
    match value {
        Some(inner) => unresolved(name, inner, sources),
        None => None,
    }
}

/// What a value that is there or not refers to.
pub open spec fn resolved_optional(
    name: Seq<char>,
    value: Option<Seq<char>>,
    sources: Sources,
) -> Option<Seq<char>> {
    match value {
        Some(inner) => Some(resolved_of(name, inner, sources)->Ok_0),
        None => None,
    }
}

fn resolve_optional(name: &str, value: &Option<String>, sources: &Sources) -> (result: Result<
    Option<String>,
    String,
>)
    ensures
        match result {
            Ok(found) => unresolved_optional(name@, text::view_of(*value), *sources) is None
                && text::view_of(found) == resolved_optional(
                name@,
                text::view_of(*value),
                *sources,
            ),
            Err(reason) => unresolved_optional(name@, text::view_of(*value), *sources) == Some(
                reason@,
            ),
        },
{
    match value {
        Some(inner) => match reference::resolve_named(name, inner, sources) {
            Ok(found) => Ok(Some(found)),
            Err(reason) => Err(reason),
        },
        None => Ok(None),
    }
}

impl ServerView {
    /// Why a server refers to nothing, if so.
    pub open spec fn unresolved(self, sources: Sources) -> Option<Seq<char>> {
        either(
            unresolved("mcp.server_urls.url"@, self.url, sources),
            match self.unix_socket {
                Some(socket) => match path_of(socket, sources) {
                    Err(reason) => Some(reason),
                    Ok(_) => None,
                },
                None => None,
            },
        )
    }

    /// The server with what it refers to.
    pub open spec fn resolved(self, sources: Sources) -> ServerView {
        ServerView {
            url: resolved_of("mcp.server_urls.url"@, self.url, sources)->Ok_0,
            unix_socket: match self.unix_socket {
                Some(socket) => Some(path_of(socket, sources)->Ok_0),
                None => None,
            },
            ..self
        }
    }
}

impl CommandView {
    /// The command with what it refers to.
    pub open spec fn resolved(self, sources: Sources) -> CommandView {
        CommandView {
            command: resolved_of("mcp.commands.command"@, self.command, sources)->Ok_0,
            ..self
        }
    }
}

impl ConfigView {
    pub open spec fn servers_unresolved(self, sources: Sources) -> Option<Seq<char>> {
        let servers = self.mcp.server_urls;
        first_fault(servers.len() as int, |i: int| servers[i].unresolved(sources))
    }

    pub open spec fn commands_unresolved(self, sources: Sources) -> Option<Seq<char>> {
        let commands = self.mcp.commands;
        first_fault(
            commands.len() as int,
            |i: int| unresolved("mcp.commands.command"@, commands[i].command, sources),
        )
    }

    /// Why the configuration refers to nothing, if so.
    pub open spec fn unresolved(self, sources: Sources) -> Option<Seq<char>> {
        let control = self.control_plane;
        either(
            unresolved_optional("control_plane.base_url"@, control.base_url, sources),
            either(
                unresolved_optional("control_plane.url_path"@, control.url_path, sources),
                either(
                    if control.api_key.len() > 0 {
                        unresolved("control_plane.api_key"@, control.api_key, sources)
                    } else {
                        None
                    },
                    either(
                        unresolved("health.listen_addr"@, self.health.listen_addr, sources),
                        either(
                            unresolved_optional(
                                "health.unix_socket"@,
                                self.health.unix_socket,
                                sources,
                            ),
                            either(
                                self.servers_unresolved(sources),
                                self.commands_unresolved(sources),
                            ),
                        ),
                    ),
                ),
            ),
        )
    }

    /// The configuration with what it refers to.
    pub open spec fn resolved(self, sources: Sources) -> ConfigView {
        let control = self.control_plane;
        ConfigView {
            control_plane: ControlPlaneView {
                base_url: resolved_optional("control_plane.base_url"@, control.base_url, sources),
                url_path: resolved_optional("control_plane.url_path"@, control.url_path, sources),
                api_key: if control.api_key.len() > 0 {
                    resolved_of("control_plane.api_key"@, control.api_key, sources)->Ok_0
                } else {
                    control.api_key
                },
                ..control
            },
            health: HealthView {
                listen_addr: resolved_of(
                    "health.listen_addr"@,
                    self.health.listen_addr,
                    sources,
                )->Ok_0,
                unix_socket: resolved_optional(
                    "health.unix_socket"@,
                    self.health.unix_socket,
                    sources,
                ),
                ..self.health
            },
            mcp: McpView {
                server_urls: self.mcp.server_urls.map_values(
                    |item: ServerView| item.resolved(sources),
                ),
                commands: self.mcp.commands.map_values(|item: CommandView| item.resolved(sources)),
                ..self.mcp
            },
            ..self
        }
    }

    /// Why what the configuration refers to cannot be put in, if so.
    pub open spec fn reading_fault(self, sources: Sources) -> Option<Seq<char>> {
        either(self.unresolved(sources), self.resolved(sources).normal_fault())
    }

    /// Why the configuration cannot be loaded from a text, if so.
    pub open spec fn load_fault(self, text: Seq<char>, sources: Sources) -> Option<Seq<char>> {
        either(self.text_fault(text, sources), self.reading_fault(sources))
    }
}

fn resolve_servers(items: &mut Vec<Server>, sources: &Sources) -> (result: Result<(), String>)
    ensures
        tells(
            result,
            ({
                let servers = server_views(old(items)@);
                first_fault(servers.len() as int, |i: int| servers[i].unresolved(*sources))
            }),
        ),
        result is Ok ==> server_views(final(items)@) == server_views(old(items)@).map_values(
            |item: ServerView| item.resolved(*sources),
        ),
{
    let ghost all = server_views(items@);
    let ghost fault = |i: int| all[i].unresolved(*sources);
    let mut index: usize = 0;
    while index < items.len()
        invariant
            index <= items.len(),
            items@.len() == all.len(),
            all == server_views(old(items)@),
            fault == (|i: int| all[i].unresolved(*sources)),
            first_fault(all.len() as int, fault) == fault_from(index as int, all.len() as int, fault),
            forall|i: int| index <= i < all.len() ==> (#[trigger] items@[i])@ == all[i],
            forall|i: int| 0 <= i < index ==> (#[trigger] items@[i])@ == all[i].resolved(*sources),
        decreases items.len() - index,
    {
        assert(items@[index as int]@ == all[index as int]);
        assert(fault(index as int) == all[index as int].unresolved(*sources));
        match reference::resolve_named("mcp.server_urls.url", &items[index].url, sources) {
            Ok(url) => {
                let socket = match &items[index].unix_socket {
                    Some(value) => match reference::path(value, sources) {
                        Ok(found) => Some(found),
                        Err(reason) => {
                            return Err(reason);
                        },
                    },
                    None => None,
                };
                items[index].url = url;
                items[index].unix_socket = socket;
            },
            Err(reason) => {
                return Err(reason);
            },
        }
        index = index + 1;
    }
    assert(server_views(items@) =~= all.map_values(|item: ServerView| item.resolved(*sources)));
    Ok(())
}

fn resolve_commands(items: &mut Vec<Command>, sources: &Sources) -> (result: Result<(), String>)
    ensures
        tells(
            result,
            ({
                let commands = command_views(old(items)@);
                first_fault(
                    commands.len() as int,
                    |i: int| unresolved("mcp.commands.command"@, commands[i].command, *sources),
                )
            }),
        ),
        result is Ok ==> command_views(final(items)@) == command_views(old(items)@).map_values(
            |item: CommandView| item.resolved(*sources),
        ),
{
    let ghost all = command_views(items@);
    let ghost fault = |i: int| unresolved("mcp.commands.command"@, all[i].command, *sources);
    let mut index: usize = 0;
    while index < items.len()
        invariant
            index <= items.len(),
            items@.len() == all.len(),
            all == command_views(old(items)@),
            fault == (|i: int| unresolved("mcp.commands.command"@, all[i].command, *sources)),
            first_fault(all.len() as int, fault) == fault_from(index as int, all.len() as int, fault),
            forall|i: int| index <= i < all.len() ==> (#[trigger] items@[i])@ == all[i],
            forall|i: int| 0 <= i < index ==> (#[trigger] items@[i])@ == all[i].resolved(*sources),
        decreases items.len() - index,
    {
        assert(items@[index as int]@ == all[index as int]);
        assert(fault(index as int) == unresolved(
            "mcp.commands.command"@,
            all[index as int].command,
            *sources,
        ));
        match reference::resolve_named("mcp.commands.command", &items[index].command, sources) {
            Ok(command) => {
                items[index].command = command;
            },
            Err(reason) => {
                return Err(reason);
            },
        }
        index = index + 1;
    }
    assert(command_views(items@) =~= all.map_values(|item: CommandView| item.resolved(*sources)));
    Ok(())
}

impl Config {
    /// Loads a configuration that was read from a text: checks it against the text, puts in what it
    /// refers to, and brings it into its canonical form.
    pub fn load(self, text: &str, sources: &Sources) -> (result: Result<Config, String>)
        ensures
            match result {
                Ok(config) => either(self@.parsed_fault(), self@.load_fault(text@, *sources)) is None
                    && config@ == self@.resolved(*sources).normal(),
                Err(reason) => either(self@.parsed_fault(), self@.load_fault(text@, *sources))
                    == Some(reason@),
            },
    {
        match self.validate_profile(text, sources) {
            Ok(()) => self.with_references(sources),
            Err(reason) => Err(reason),
        }
    }

    /// Loads a configuration that was read from a text and then overridden: what was read is checked
    /// by itself, and what is to be used against the text.
    pub fn load_over(&self, configured: Config, text: &str, sources: &Sources) -> (result: Result<
        Config,
        String,
    >)
        ensures
            match result {
                Ok(config) => either(
                    self@.parsed_fault(),
                    configured@.load_fault(text@, *sources),
                ) is None && config@ == configured@.resolved(*sources).normal(),
                Err(reason) => either(
                    self@.parsed_fault(),
                    configured@.load_fault(text@, *sources),
                ) == Some(reason@),
            },
    {
        match self.check_parsed() {
            Ok(()) => {},
            Err(reason) => {
                return Err(reason);
            },
        }
        match configured.validate_text(text, sources) {
            Ok(()) => configured.with_references(sources),
            Err(reason) => Err(reason),
        }
    }

    /// Puts in what the configuration refers to, and brings it into its canonical form.
    pub fn with_references(self, sources: &Sources) -> (result: Result<Config, String>)
        ensures
            match result {
                Ok(config) => self@.reading_fault(*sources) is None && config@ == self@.resolved(
                    *sources,
                ).normal(),
                Err(reason) => self@.reading_fault(*sources) == Some(reason@),
            },
    {
        let ghost before = self@;
        let mut config = self;
        match resolve_optional("control_plane.base_url", &config.control_plane.base_url, sources) {
            Ok(found) => {
                config.control_plane.base_url = found;
            },
            Err(reason) => {
                return Err(reason);
            },
        }
        match resolve_optional("control_plane.url_path", &config.control_plane.url_path, sources) {
            Ok(found) => {
                config.control_plane.url_path = found;
            },
            Err(reason) => {
                return Err(reason);
            },
        }
        if !config.control_plane.api_key.is_empty() {
            match reference::resolve_named(
                "control_plane.api_key",
                &config.control_plane.api_key,
                sources,
            ) {
                Ok(found) => {
                    config.control_plane.api_key = found;
                },
                Err(reason) => {
                    return Err(reason);
                },
            }
        }
        match reference::resolve_named("health.listen_addr", &config.health.listen_addr, sources) {
            Ok(found) => {
                config.health.listen_addr = found;
            },
            Err(reason) => {
                return Err(reason);
            },
        }
        match resolve_optional("health.unix_socket", &config.health.unix_socket, sources) {
            Ok(found) => {
                config.health.unix_socket = found;
            },
            Err(reason) => {
                return Err(reason);
            },
        }
        match resolve_servers(&mut config.mcp.server_urls, sources) {
            Ok(()) => {},
            Err(reason) => {
                return Err(reason);
            },
        }
        match resolve_commands(&mut config.mcp.commands, sources) {
            Ok(()) => {},
            Err(reason) => {
                return Err(reason);
            },
        }
        assert(config@ =~= before.resolved(*sources));
        match config.normalize() {
            Ok(()) => Ok(config),
            Err(reason) => Err(reason),
        }
    }
}

/// An accepted file gives every target a label, and either a URL or a template of the known version in a file that
/// allows templates.
pub proof fn lemma_targets_parsed(config: ConfigView, at: int)
    requires
        config.parsed_fault() is None,
    ensures
        config.config_version is None || config.config_version == Some(1u8) || config.config_version == Some(
            2u8,
        ),
        0 <= at < config.harpoon.targets.len() ==> {
            let target = config.harpoon.targets[at];
            &&& text::trim_of(target.label).len() > 0
            &&& target.template is None ==> text::trim_of(target.url).len() > 0
            &&& target.template matches Some(template) ==> config.config_version == Some(2u8)
                && target.url.len() == 0 && target.unix_socket is None && template.version == 1
                && !(template.allowed_headers is Some && template.header_rules is Some)
        },
{
    let targets = config.harpoon.targets;
    let faults = |i: int| targets[i].parsed_fault();
    crate::checks::lemma_first_fault(0, targets.len() as int, faults);
    if 0 <= at < targets.len() {
        assert(faults(at) is None);
        if targets[at].template is Some {
            assert(config.has_template());
        }
    }
}

/// A file that is read has every reference resolved: the key, the service, where it listens, the servers and the
/// commands; nothing else of it is changed.
pub proof fn lemma_references_read(config: ConfigView, sources: Sources, at: int)
    requires
        config.unresolved(sources) is None,
    ensures
        ({
            let read = config.resolved(sources);
            &&& config.control_plane.api_key.len() > 0 ==> resolved_of(
                "control_plane.api_key"@,
                config.control_plane.api_key,
                sources,
            ) == Ok::<Seq<char>, Seq<char>>(read.control_plane.api_key)
            &&& config.control_plane.base_url matches Some(url) ==> (read.control_plane.base_url matches Some(
                found,
            ) && resolved_of("control_plane.base_url"@, url, sources) == Ok::<Seq<char>, Seq<char>>(found))
            &&& config.control_plane.base_url is None ==> read.control_plane.base_url is None
            &&& resolved_of("health.listen_addr"@, config.health.listen_addr, sources) == Ok::<
                Seq<char>,
                Seq<char>,
            >(read.health.listen_addr)
            &&& 0 <= at < config.mcp.server_urls.len() ==> resolved_of(
                "mcp.server_urls.url"@,
                config.mcp.server_urls[at].url,
                sources,
            ) == Ok::<Seq<char>, Seq<char>>(read.mcp.server_urls[at].url)
            &&& 0 <= at < config.mcp.commands.len() ==> resolved_of(
                "mcp.commands.command"@,
                config.mcp.commands[at].command,
                sources,
            ) == Ok::<Seq<char>, Seq<char>>(read.mcp.commands[at].command)
            &&& read.harpoon == config.harpoon
            &&& read.log == config.log
            &&& read.control_plane.tunnel_id == config.control_plane.tunnel_id
        }),
{
    let servers = config.mcp.server_urls;
    let commands = config.mcp.commands;
    let first = |i: int| servers[i].unresolved(sources);
    let second = |i: int| unresolved("mcp.commands.command"@, commands[i].command, sources);
    crate::checks::lemma_first_fault(0, servers.len() as int, first);
    crate::checks::lemma_first_fault(0, commands.len() as int, second);
    assert(config.servers_unresolved(sources) is None);
    assert(config.commands_unresolved(sources) is None);
    if 0 <= at < servers.len() {
        assert(first(at) is None);
    }
    if 0 <= at < commands.len() {
        assert(second(at) is None);
    }
}

/// A file is read only where it is not empty, every one of its texts is written as it has to be, and each of its
/// templates is valid.
pub proof fn lemma_file_checked(config: ConfigView, written: Seq<char>, sources: Sources, at: int)
    requires
        config.load_fault(written, sources) is None,
    ensures
        yaml_first(written) matches Ok(Some(raw)),
        config.scope_fault() is None,
        config.unresolved(sources) is None,
        config.resolved(sources).normal_fault() is None,
        config.all_headers_fault(false) is None,
        0 <= at < config.harpoon.targets.len() ==> (config.harpoon.targets[at].template matches Some(
            definition,
        ) ==> definition.is_valid(sources)),
        0 <= at < config.mcp.server_urls.len() ==> syntax_fault(
            "mcp.server_urls.url"@,
            config.mcp.server_urls[at].url,
        ) is None,
        0 <= at < config.mcp.commands.len() ==> syntax_fault(
            "mcp.commands.command"@,
            config.mcp.commands[at].command,
        ) is None,
{
    let raw = yaml_first(written)->Ok_0->0;
    assert(config.written_fault(raw, sources) is None);
    let count = config.harpoon.targets.len() as int;
    let faults = |i: int| config.template_fault(sources, i);
    crate::checks::lemma_first_fault(0, count, faults);
    if 0 <= at < count {
        assert(faults(at) is None);
    }
    let servers = config.mcp.server_urls;
    let commands = config.mcp.commands;
    let first = |i: int| servers[i].syntax_fault();
    let second = |i: int| syntax_fault("mcp.commands.command"@, commands[i].command);
    crate::checks::lemma_first_fault(0, servers.len() as int, first);
    crate::checks::lemma_first_fault(0, commands.len() as int, second);
    assert(config.servers_syntax() is None);
    assert(config.commands_syntax() is None);
    if 0 <= at < servers.len() {
        assert(first(at) is None);
    }
    if 0 <= at < commands.len() {
        assert(second(at) is None);
    }
}

/// What is read is resolved, each setting under its own name; the others stay.
pub proof fn lemma_settings_resolved(config: ConfigView, sources: Sources, at: int)
    ensures
        ({
            let read = config.resolved(sources);
            &&& config.health.unix_socket is None ==> read.health.unix_socket is None
            &&& config.control_plane.base_url is None ==> read.control_plane.base_url is None
            &&& config.control_plane.api_key.len() == 0 ==> read.control_plane.api_key.len() == 0
            &&& config.control_plane.tunnel_id == read.control_plane.tunnel_id
            &&& config.harpoon == read.harpoon && config.log == read.log
            &&& read.mcp.server_urls.len() == config.mcp.server_urls.len()
            &&& read.mcp.commands.len() == config.mcp.commands.len()
            &&& 0 <= at < config.mcp.commands.len() ==> read.mcp.commands[at].channel
                == config.mcp.commands[at].channel
            &&& 0 <= at < config.mcp.server_urls.len() ==> read.mcp.server_urls[at].channel
                == config.mcp.server_urls[at].channel
        }),
        config.unresolved(sources) is None ==> {
            let read = config.resolved(sources);
            &&& resolved_of("health.listen_addr"@, config.health.listen_addr, sources) == Ok::<
                Seq<char>,
                Seq<char>,
            >(read.health.listen_addr)
            &&& config.control_plane.api_key.len() > 0 ==> resolved_of(
                "control_plane.api_key"@,
                config.control_plane.api_key,
                sources,
            ) == Ok::<Seq<char>, Seq<char>>(read.control_plane.api_key)
            &&& config.control_plane.base_url matches Some(value) ==> (read.control_plane.base_url matches Some(
                found,
            ) && resolved_of("control_plane.base_url"@, value, sources) == Ok::<Seq<char>, Seq<char>>(found))
            &&& config.control_plane.url_path matches Some(value) ==> (read.control_plane.url_path matches Some(
                found,
            ) && resolved_of("control_plane.url_path"@, value, sources) == Ok::<Seq<char>, Seq<char>>(found))
            &&& 0 <= at < config.mcp.commands.len() ==> resolved_of(
                "mcp.commands.command"@,
                config.mcp.commands[at].command,
                sources,
            ) == Ok::<Seq<char>, Seq<char>>(read.mcp.commands[at].command)
            &&& 0 <= at < config.mcp.server_urls.len() ==> resolved_of(
                "mcp.server_urls.url"@,
                config.mcp.server_urls[at].url,
                sources,
            ) == Ok::<Seq<char>, Seq<char>>(read.mcp.server_urls[at].url)
        },
{
    let servers = config.mcp.server_urls;
    let commands = config.mcp.commands;
    let first = |i: int| servers[i].unresolved(sources);
    let second = |i: int| unresolved("mcp.commands.command"@, commands[i].command, sources);
    crate::checks::lemma_first_fault(0, servers.len() as int, first);
    crate::checks::lemma_first_fault(0, commands.len() as int, second);
    if config.unresolved(sources) is None {
        if 0 <= at < servers.len() {
            assert(first(at) is None);
        }
        if 0 <= at < commands.len() {
            assert(second(at) is None);
        }
    }
}

} // verus!
