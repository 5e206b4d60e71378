//! The connection of a managed tunnel.

use vstd::prelude::*;
use crate::address::{self, parsed_url};
use crate::admin::{Tunnel, TunnelView};
use crate::checks::{either, unless};
use crate::config::validation::{is_tunnel_id, tunnel_id};
use crate::config::values::{
    below, path_below, profile_dir, profile_dir_of, profile_name, profile_name_of,
};
use crate::json::{Doc, Json};
use crate::management::inspect::{
    self, actions_doc, doctor_words, process_doc, tunnel_doc, Seen,
};
use crate::management::profiles::{first, first_of, Manager};
use crate::management::records::{AdminProfile, AdminProfileView, Alias, AliasView, Process, ProcessView};
use crate::management::runtimes::{tells_not_found, Connect, Create, Outcome};
use crate::management::session::{managed, managed_of, shell_joined, Launch};
use crate::management::state::{self, is_reference, target_fault, Root};
use crate::table::Table;
use crate::text;

verus! {

/// What a runtime leads to.
#[derive(Clone, Copy, PartialEq, Eq, Structural)]
pub enum Kind {
    ServerUrl,
    Command,
}

impl Kind {
    /// The kind in words.
    pub open spec fn word(self) -> Seq<char> {
        match self {
            Kind::ServerUrl => "server_url"@,
            Kind::Command => "command"@,
        }
    }

    /// The kind in words.
    pub fn text(self) -> (result: &'static str)
        ensures
            result@ == self.word(),
    {
        match self {
            Kind::ServerUrl => "server_url",
            Kind::Command => "command",
        }
    }
}

/// A connection that can be made.
pub struct Plan {
    pub alias: String,
    pub profile_name: String,
    pub profile_dir: String,
    pub kind: Kind,
    pub target: String,
    pub key: String,
}

impl Connect {
    /// The kind of what the runtime leads to.
    pub open spec fn kind_of(self) -> Kind {
        if text::trim_of(self.server_url@).len() > 0 {
            Kind::ServerUrl
        } else {
            Kind::Command
        }
    }

    /// What the runtime leads to.
    pub open spec fn target_of(self) -> Seq<char> {
        match self.kind_of() {
            Kind::ServerUrl => text::trim_of(self.server_url@),
            Kind::Command => self.command@,
        }
    }

    /// What is wrong with the shape of what the runtime leads to.
    pub open spec fn shape_fault(self) -> Option<Seq<char>> {
        match self.kind_of() {
            Kind::ServerUrl => match parsed_url(text::trim_of(self.server_url@)) {
                Err(reason) => Some(reason),
                Ok(url) => unless(
                    (url.scheme == "http"@ || url.scheme == "https"@) && url.host is Some,
                    "--mcp-server-url must be an http or https URL"@,
                ),
            },
            Kind::Command => unless(
                text::trim_of(self.command@).len() > 0,
                "connect requires --mcp-server-url or --mcp-command"@,
            ),
        }
    }

    /// The directory of the profile: the given one as it is, or the usual one.
    pub open spec fn directory_of(
        self,
        variables: Map<Seq<char>, String>,
        platform: Option<Seq<char>>,
    ) -> Result<Seq<char>, Seq<char>> {
        if text::trim_of(self.profile_dir@).len() == 0 {
            profile_dir_of(None, variables, platform)
        } else {
            Ok(text::trim_of(self.profile_dir@))
        }
    }

    /// The reference to the key of the runtime.
    pub open spec fn key_of(self) -> Seq<char> {
        first_of(self.key@, "env:CONTROL_PLANE_API_KEY"@)
    }

    /// What is wrong with a connection.
    pub open spec fn fault(
        self,
        alias: Seq<char>,
        variables: Map<Seq<char>, String>,
        platform: Option<Seq<char>>,
    ) -> Option<Seq<char>> {
        let name = match profile_name_of(first_of(self.profile@, alias)) {
            Ok(_) => None,
            Err(reason) => Some(reason),
        };
        let directory = match self.directory_of(variables, platform) {
            Ok(_) => None,
            Err(reason) => Some(reason),
        };
        either(
            name,
            either(
                directory,
                either(
                    self.shape_fault(),
                    either(
                        target_fault(self.target_of()),
                        unless(
                            is_reference(self.key_of()),
                            "credential must be an env:NAME or file:/path reference"@,
                        ),
                    ),
                ),
            ),
        )
    }

    fn shape(&self) -> (result: Result<(Kind, String), String>)
        ensures
            match result {
                Ok((kind, target)) => self.shape_fault() is None && kind == self.kind_of()
                    && target@ == self.target_of(),
                Err(reason) => self.shape_fault() == Some(reason@),
            },
    {
        let url = text::trim(&self.server_url);
        if url.is_empty() {
            if text::trim(&self.command).is_empty() {
                return Err("connect requires --mcp-server-url or --mcp-command".to_owned());
            }
            return Ok((Kind::Command, self.command.clone()));
        }
        match address::parse(&url) {
            Err(reason) => Err(reason),
            Ok(parsed) => if (text::same(&parsed.scheme, "http") || text::same(
                &parsed.scheme,
                "https",
            )) && parsed.host.is_some() {
                Ok((Kind::ServerUrl, url))
            } else {
                Err("--mcp-server-url must be an http or https URL".to_owned())
            },
        }
    }

    /// The connection to be made, or why there is none.
    pub fn plan(&self, alias: &str, variables: &Table<String>, platform: Option<&str>) -> (result: Result<
        Plan,
        String,
    >)
        ensures
            match result {
                Ok(plan) => {
                    &&& self.fault(alias@, variables@, text::str_view(platform)) is None
                    &&& plan.alias@ == alias@
                    &&& plan.profile_name@ == first_of(self.profile@, alias@)
                    &&& self.directory_of(variables@, text::str_view(platform)) == Ok::<
                        Seq<char>,
                        Seq<char>,
                    >(plan.profile_dir@)
                    &&& plan.kind == self.kind_of()
                    &&& plan.target@ == self.target_of()
                    &&& plan.key@ == self.key_of()
                },
                Err(reason) => self.fault(alias@, variables@, text::str_view(platform)) == Some(
                    reason@,
                ),
            },
    {
        let name = first(&self.profile, alias);
        match profile_name(&name) {
            Ok(_) => {},
            Err(reason) => {
                return Err(reason);
            },
        }
        let given = text::trim(&self.profile_dir);
        let directory = if given.is_empty() {
            match profile_dir(None, variables, platform) {
                Ok(directory) => directory,
                Err(reason) => {
                    return Err(reason);
                },
            }
        } else {
            given
        };
        let (kind, target) = match self.shape() {
            Ok(found) => found,
            Err(reason) => {
                return Err(reason);
            },
        };
        match state::target(&target) {
            Ok(()) => {},
            Err(reason) => {
                return Err(reason);
            },
        }
        let key = first(&self.key, "env:CONTROL_PLANE_API_KEY");
        match state::reference(&key) {
            Ok(()) => {},
            Err(reason) => {
                return Err(reason);
            },
        }
        Ok(
            Plan {
                alias: alias.to_owned(),
                profile_name: name,
                profile_dir: directory,
                kind,
                target,
                key,
            },
        )
    }

    /// The tunnel that is named, or why it is none; nothing where none is named.
    pub fn named(&self) -> (result: Result<Option<String>, String>)
        ensures
            ({
                let id = text::trim_of(self.tunnel_id@);
                match result {
                    Ok(None) => id.len() == 0,
                    Ok(Some(name)) => id.len() > 0 && is_tunnel_id(id) && name@ == id,
                    Err(reason) => id.len() > 0 && !is_tunnel_id(id) && reason@
                        == "tunnel ID must match tunnel_<32 lowercase letters or digits>"@,
                }
            }),
    {
        let id = text::trim(&self.tunnel_id);
        if id.is_empty() {
            return Ok(None);
        }
        if tunnel_id(&id) {
            Ok(Some(id))
        } else {
            Err("tunnel ID must match tunnel_<32 lowercase letters or digits>".to_owned())
        }
    }
}

impl Create {
    /// What is taken of a tunnel that is named and of which the service tells nothing.
    pub open spec fn unread_of(self, id: Seq<char>, alias: Seq<char>) -> TunnelView {
        TunnelView {
            id,
            name: self.name_of(alias),
            description: self.description_of(alias),
            organization_ids: text::views(self.scope.organizations@),
            workspace_ids: text::views(self.scope.workspaces@),
            ..TunnelView::bare()
        }
    }

    /// What is taken of a tunnel that is named and of which the service tells nothing.
    pub fn unread(&self, id: &str, alias: &str) -> (result: Tunnel)
        ensures
            result@ == self.unread_of(id@, alias@),
    {
        let result = Tunnel {
            id: id.to_owned(),
            name: first(&self.name, alias),
            description: first(&self.description, &text::cat("MCP tunnel for ", alias)),
            creator: String::new(),
            tenant_ids: Vec::new(),
            workspace_ids: text::copies(&self.scope.workspaces),
            organization_ids: text::copies(&self.scope.organizations),
            request_id: String::new(),
        };
        assert(result@ =~= self.unread_of(id@, alias@));
        result
    }
}

/// What is taken of a tunnel that was known and is not found.
pub open spec fn remembered_of(record: AliasView, alias: Seq<char>) -> TunnelView {
    TunnelView {
        id: record.tunnel_id,
        name: first_of(record.name, alias),
        description: first_of(record.description, "MCP tunnel for "@ + alias),
        organization_ids: record.organization_ids,
        workspace_ids: record.workspace_ids,
        tenant_ids: record.tenant_ids,
        ..TunnelView::bare()
    }
}

/// What is taken of a tunnel that was known, where the service answers that there is none.
pub fn remembered(record: &Alias, alias: &str, answered: bool, message: &str) -> (result: Option<Tunnel>)
    ensures
        match result {
            Some(tunnel) => record.tunnel_id@.len() > 0 && answered && tells_not_found(message@)
                && tunnel@ == remembered_of(record@, alias@),
            None => record.tunnel_id@.len() == 0 || !answered || !tells_not_found(message@),
        },
{
    if record.tunnel_id.is_empty() || !answered || !super::not_found(message) {
        return None;
    }
    let result = Tunnel {
        id: record.tunnel_id.clone(),
        name: first(&record.name, alias),
        description: first(&record.description, &text::cat("MCP tunnel for ", alias)),
        creator: String::new(),
        tenant_ids: text::copies(&record.tenant_ids),
        workspace_ids: text::copies(&record.workspace_ids),
        organization_ids: text::copies(&record.organization_ids),
        request_id: String::new(),
    };
    assert(result@ =~= remembered_of(record@, alias@));
    Some(result)
}

/// The connection of the runtime to what it leads to.
pub open spec fn channel_doc(kind: Kind, target: Seq<char>) -> Doc {
    let main = Doc::object().with("channel"@, Doc::Text("main"@));
    match kind {
        Kind::ServerUrl => Doc::object().with(
            "server_urls"@,
            Doc::List(seq![main.with("url"@, Doc::Text(target))]),
        ),
        Kind::Command => Doc::object().with(
            "commands"@,
            Doc::List(seq![main.with("command"@, Doc::Text(target))]),
        ),
    }
}

fn one(item: Json) -> (result: Json)
    ensures
        result.doc() == Doc::List(seq![item.doc()]),
{
    let list: Vec<Json> = Vec::new();
    let result = Json::List(list).pushed(item);
    assert(result.doc()->List_0 =~= seq![item.doc()]);
    result
}

fn channel_json(kind: Kind, target: &str) -> (result: Json)
    ensures
        result.doc() == channel_doc(kind, target@),
{
    let main = Json::object().with("channel", Json::text("main"));
    match kind {
        Kind::ServerUrl => Json::object().with(
            "server_urls",
            one(main.with("url", Json::text(target))),
        ),
        Kind::Command => Json::object().with(
            "commands",
            one(main.with("command", Json::text(target))),
        ),
    }
}

impl Plan {
    /// The configuration of the runtime.
    pub open spec fn configuration_doc(
        self,
        root: Seq<char>,
        profile: AdminProfileView,
        tunnel: Seq<char>,
    ) -> Doc {
        let control = Doc::object().with(
            "base_url"@,
            Doc::Text(profile.control_plane_base_url),
        ).with("tunnel_id"@, Doc::Text(tunnel)).with("api_key"@, Doc::Text(self.key@)).with_if(
            profile.control_plane_url_path.len() > 0,
            "url_path"@,
            Doc::Text(profile.control_plane_url_path),
        );
        let health = Doc::object().with("listen_addr"@, Doc::Text("127.0.0.1:0"@)).with(
            "url_file"@,
            Doc::Text(managed_of(root, "health"@, self.alias@, ".url"@)),
        );
        let log = Doc::object().with("level"@, Doc::Text("info"@)).with(
            "format"@,
            Doc::Text("json"@),
        ).with("file"@, Doc::Text(managed_of(root, "logs"@, self.alias@, ".log"@)));
        Doc::object().with("config_version"@, Doc::number(1)).with("control_plane"@, control).with(
            "health"@,
            health,
        ).with("admin_ui"@, Doc::object().with("open_browser"@, Doc::Bool(false))).with(
            "log"@,
            log,
        ).with("mcp"@, channel_doc(self.kind, self.target@))
    }

    /// The configuration of the runtime.
    pub fn configuration(&self, root: &Root, profile: &AdminProfile, tunnel: &str) -> (result: Json)
        ensures
            result.doc() == self.configuration_doc(root.path@, profile@, tunnel@),
    {
        let control = Json::object().with(
            "base_url",
            Json::text(&profile.control_plane_base_url),
        ).with("tunnel_id", Json::text(tunnel)).with("api_key", Json::text(&self.key)).with_if(
            !profile.control_plane_url_path.is_empty(),
            "url_path",
            Json::text(&profile.control_plane_url_path),
        );
        let health = Json::object().with("listen_addr", Json::text("127.0.0.1:0")).with(
            "url_file",
            Json::text(&managed(root, "health", &self.alias, ".url")),
        );
        let log = Json::object().with("level", Json::text("info")).with(
            "format",
            Json::text("json"),
        ).with("file", Json::text(&managed(root, "logs", &self.alias, ".log")));
        Json::object().with("config_version", Json::number(1)).with("control_plane", control).with(
            "health",
            health,
        ).with("admin_ui", Json::object().with("open_browser", Json::Bool(false))).with(
            "log",
            log,
        ).with("mcp", channel_json(self.kind, &self.target))
    }

    /// The path of the profile.
    pub open spec fn path_of(self) -> Seq<char> {
        path_below(self.profile_dir@, self.profile_name@ + ".yaml"@)
    }

    /// What is known of the tunnel from now on.
    pub open spec fn record_of(
        self,
        root: Seq<char>,
        tunnel: TunnelView,
        profile: Seq<char>,
        now: Seq<char>,
    ) -> AliasView {
        AliasView {
            profile_name: self.profile_name@,
            profile_dir: self.profile_dir@,
            profile_path: self.path_of(),
            config_path: self.path_of(),
            health_url_file: managed_of(root, "health"@, self.alias@, ".url"@),
            ..super::record_of(self.alias@, tunnel, profile, now)
        }
    }

    /// What is known of the tunnel from now on.
    pub fn record(&self, root: &Root, tunnel: &Tunnel, profile: &str, now: &str) -> (result: Alias)
        ensures
            result@ == self.record_of(root.path@, tunnel@, profile@, now@),
    {
        let mut result = super::record(&self.alias, tunnel, profile, now);
        let path = below(&self.profile_dir, &text::cat(&self.profile_name, ".yaml"));
        result.profile_name = self.profile_name.clone();
        result.profile_dir = self.profile_dir.clone();
        result.config_path = path.clone();
        result.profile_path = path;
        result.health_url_file = managed(root, "health", &self.alias, ".url");
        assert(result@ =~= self.record_of(root.path@, tunnel@, profile@, now@));
        result
    }

    /// What is known of the runtime from now on.
    pub open spec fn process_of(
        self,
        record: AliasView,
        tunnel: Seq<char>,
        profile: Seq<char>,
        launch: Launch,
        now: Seq<char>,
    ) -> ProcessView {
        ProcessView {
            alias: self.alias@,
            tunnel_id: tunnel,
            admin_profile: profile,
            config_path: record.config_path,
            profile_name: record.profile_name,
            profile_dir: record.profile_dir,
            profile_path: record.profile_path,
            health_url_file: record.health_url_file,
            target_kind: self.kind.word(),
            target_value: self.target@,
            command: launch.command@,
            started_at: now,
            mode: launch.mode@,
            session_name: launch.session_name@,
            pid: launch.pid,
            pid_start_time: launch.identity.start@,
            pid_executable: launch.identity.executable@,
            log_path: launch.log_path@,
            ..ProcessView::bare()
        }
    }

    /// What is known of the runtime from now on.
    pub fn process(
        &self,
        record: &Alias,
        tunnel: &str,
        profile: &str,
        launch: &Launch,
        now: &str,
    ) -> (result: Process)
        ensures
            result@ == self.process_of(record@, tunnel@, profile@, *launch, now@),
    {
        let mut result = Process::default();
        result.alias = self.alias.clone();
        result.tunnel_id = tunnel.to_owned();
        result.admin_profile = profile.to_owned();
        result.config_path = record.config_path.clone();
        result.profile_name = record.profile_name.clone();
        result.profile_dir = record.profile_dir.clone();
        result.profile_path = record.profile_path.clone();
        result.health_url_file = record.health_url_file.clone();
        result.target_kind = self.kind.text().to_owned();
        result.target_value = self.target.clone();
        result.command = launch.command.clone();
        result.started_at = now.to_owned();
        result.mode = launch.mode.clone();
        result.session_name = launch.session_name.clone();
        result.pid = launch.pid;
        result.pid_start_time = launch.identity.start.clone();
        result.pid_executable = launch.identity.executable.clone();
        result.log_path = launch.log_path.clone();
        assert(result@ =~= self.process_of(record@, tunnel@, profile@, *launch, now@));
        result
    }
}

/// Whether a runtime is to be replaced: it was one for another tunnel.
pub fn replaces(previous: &Alias, tunnel: &str) -> (result: bool)
    ensures
        result == (previous.tunnel_id@.len() > 0 && previous.tunnel_id@ != tunnel@),
{
    !previous.tunnel_id.is_empty() && !text::same(&previous.tunnel_id, tunnel)
}

/// The line of the history about a runtime that is replaced, where there is one.
pub fn replaced(replace: bool, alias: &str, existing: &Process, tunnel: &str, now: &str) -> (result: Option<
    String,
>)
    ensures
        text::view_of(result) == (if replace && existing.alias@.len() > 0 {
            Some(
                state::history_of(
                    now@,
                    "stale-process"@,
                    alias@,
                    existing.tunnel_id@,
                    "replacing with tunnel_id="@ + tunnel@,
                ),
            )
        } else {
            None
        }),
{
    if replace && !existing.alias.is_empty() {
        Some(
            state::history(
                now,
                "stale-process",
                alias,
                &existing.tunnel_id,
                &text::cat("replacing with tunnel_id=", tunnel),
            ),
        )
    } else {
        None
    }
}

/// A truth value in words.
pub open spec fn truth_of(value: bool) -> Seq<char> {
    if value {
        "true"@
    } else {
        "false"@
    }
}

fn truth(value: bool) -> (result: &'static str)
    ensures
        result@ == truth_of(value),
{
    if value {
        "true"
    } else {
        "false"
    }
}

/// The detail of the history about a connection.
pub open spec fn connected_of(launch: Launch) -> Seq<char> {
    "mode="@ + launch.mode@ + " session=- pid="@ + text::decimal_of(
        match launch.pid {
            Some(pid) => pid as nat,
            None => 0,
        },
    ) + " started="@ + truth_of(launch.started) + " healthy="@ + truth_of(launch.healthy)
        + " ready="@ + truth_of(launch.ready)
}

/// The line of the history about a connection.
pub fn connected(alias: &str, tunnel: &str, launch: &Launch, now: &str) -> (result: String)
    ensures
        result@ == state::history_of(now@, "connect"@, alias@, tunnel@, connected_of(*launch)),
{
    let pid: u64 = match launch.pid {
        Some(pid) => pid as u64,
        None => 0,
    };
    let front = text::cat5(
        "mode=",
        &launch.mode,
        " session=- pid=",
        &text::decimal(pid),
        " started=",
    );
    let rest = text::cat5(
        &front,
        truth(launch.started),
        " healthy=",
        truth(launch.healthy),
        " ready=",
    );
    let detail = text::cat(&rest, truth(launch.ready));
    assert(detail@ == connected_of(*launch));
    state::history(now, "connect", alias, tunnel, &detail)
}

/// What is told of a runtime without what a connection does not ask for.
pub open spec fn unasked_doc(doc: Doc) -> Doc {
    doc.without("tunnel_id"@).without("remote"@).without("stale"@).without("error"@).without(
        "repair_command"@,
    ).without("control_plane_poll_health"@).without("remote_lookup_attempted"@).without(
        "remote_lookup_auth_kind"@,
    ).without("remote_lookup_auth_ref"@).without("remote_skipped_reason"@)
}

fn unasked(value: Json) -> (result: Json)
    ensures
        result.doc() == unasked_doc(value.doc()),
{
    value.without("tunnel_id").without("remote").without("stale").without("error").without(
        "repair_command",
    ).without("control_plane_poll_health").without("remote_lookup_attempted").without(
        "remote_lookup_auth_kind",
    ).without("remote_lookup_auth_ref").without("remote_skipped_reason")
}

impl Manager {
    /// What is told of a connection.
    pub open spec fn connect_doc(
        self,
        alias: Seq<char>,
        record: AliasView,
        process: ProcessView,
        profile: AdminProfileView,
        seen: Seen,
        tunnel: TunnelView,
        remote_error: Seq<char>,
        launch: Launch,
    ) -> Doc {
        launch.told_doc(
            unasked_doc(self.status_doc(alias, record, process, profile, seen)).with(
                "tunnel"@,
                tunnel_doc(tunnel),
            ).with("remote_error"@, Doc::Text(remote_error)).with(
                "repair_actions"@,
                actions_doc(seen.actions_of(alias, record, process, remote_error)),
            ).with(
                "next_steps"@,
                Doc::List(seq![Doc::Text(shell_joined(doctor_words(record, process)))]),
            ).with("process"@, process_doc(process)),
        ).with("launch_diagnostics"@, launch.diagnostics_doc())
    }

    /// What is told of a connection, and the code to leave with.
    pub fn connect(
        &self,
        alias: &str,
        record: &Alias,
        process: &Process,
        profile: &AdminProfile,
        seen: &Seen,
        tunnel: &Tunnel,
        remote_error: &str,
        launch: &Launch,
    ) -> (result: Outcome)
        ensures
            result.payload.doc() == self.connect_doc(
                alias@,
                record@,
                process@,
                profile@,
                *seen,
                tunnel@,
                remote_error@,
                *launch,
            ),
            result.code == (if launch.healthy {
                0u8
            } else {
                2u8
            }),
    {
        let base = unasked(self.status_payload(alias, record, process, profile, seen));
        let actions = seen.actions(alias, record, process, remote_error);
        let steps = one(Json::text(&inspect::doctor(record, process)));
        let told = base.with("tunnel", inspect::tunnel(tunnel)).with(
            "remote_error",
            Json::text(remote_error),
        ).with("repair_actions", inspect::actions_json(&actions)).with("next_steps", steps).with(
            "process",
            inspect::process(process),
        );
        let payload = launch.told(told).with("launch_diagnostics", launch.diagnostics());
        Outcome {
            payload,
            code: if launch.healthy {
                0
            } else {
                2
            },
        }
    }
}

/// A runtime leads to the server that is named, or else to the command.
pub proof fn lemma_target_chosen(connect: Connect)
    ensures
        text::trim_of(connect.server_url@).len() > 0 ==> connect.kind_of() == Kind::ServerUrl
            && connect.target_of() == text::trim_of(connect.server_url@),
        text::trim_of(connect.server_url@).len() == 0 ==> connect.kind_of() == Kind::Command
            && connect.target_of() == connect.command@,
        text::trim_of(connect.key@).len() > 0 ==> connect.key_of() == text::trim_of(connect.key@),
        text::trim_of(connect.key@).len() == 0 ==> connect.key_of() == text::trim_of(
            "env:CONTROL_PLANE_API_KEY"@,
        ),
        Kind::ServerUrl.word() == "server_url"@ && Kind::Command.word() == "command"@,
{
}

/// What is accepted to connect with: a target of its kind without credentials in it, a profile with a name, and a key by
/// reference.
pub proof fn lemma_connect_accepted(
    connect: Connect,
    alias: Seq<char>,
    variables: Map<Seq<char>, String>,
    platform: Option<Seq<char>>,
)
    requires
        connect.fault(alias, variables, platform) is None,
    ensures
        is_reference(connect.key_of()),
        target_fault(connect.target_of()) is None,
        connect.kind_of() == Kind::Command ==> text::trim_of(connect.command@).len() > 0,
        connect.kind_of() == Kind::ServerUrl ==> (parsed_url(text::trim_of(connect.server_url@)) matches Ok(url)
            && (url.scheme == "http"@ || url.scheme == "https"@) && url.host is Some),
        text::trim_of(connect.profile@).len() > 0 ==> profile_name_of(text::trim_of(connect.profile@)) is Ok,
        connect.directory_of(variables, platform) is Ok,
        text::trim_of(connect.profile_dir@).len() > 0 ==> connect.directory_of(variables, platform) == Ok::<
            Seq<char>,
            Seq<char>,
        >(text::trim_of(connect.profile_dir@)),
{
}

/// A tunnel that cannot be asked for is told from what is remembered of it.
pub proof fn lemma_tunnel_remembered(record: AliasView, alias: Seq<char>)
    ensures
        ({
            let tunnel = remembered_of(record, alias);
            &&& tunnel.id == record.tunnel_id
            &&& tunnel.organization_ids == record.organization_ids
            &&& tunnel.workspace_ids == record.workspace_ids
            &&& tunnel.tenant_ids == record.tenant_ids
            &&& text::trim_of(record.name).len() > 0 ==> tunnel.name == text::trim_of(record.name)
            &&& text::trim_of(record.name).len() == 0 ==> tunnel.name == text::trim_of(alias)
            &&& text::trim_of(record.description).len() > 0 ==> tunnel.description == text::trim_of(
                record.description,
            )
        }),
{
}

/// A tunnel that was made and not read back is told from what it was made with.
pub proof fn lemma_tunnel_unread(create: Create, id: Seq<char>, alias: Seq<char>)
    ensures
        ({
            let tunnel = create.unread_of(id, alias);
            &&& tunnel.id == id
            &&& tunnel.name == create.name_of(alias)
            &&& tunnel.description == create.description_of(alias)
            &&& tunnel.organization_ids == text::views(create.scope.organizations@)
            &&& tunnel.workspace_ids == text::views(create.scope.workspaces@)
            &&& tunnel.tenant_ids.len() == 0
        }),
{
}

/// The configuration that a connection writes.
pub proof fn lemma_configuration_written(plan: Plan, root: Seq<char>, profile: AdminProfileView, tunnel: Seq<char>)
    ensures
        ({
            let doc = plan.configuration_doc(root, profile, tunnel);
            &&& doc.at("config_version"@) == Doc::number(1)
            &&& doc.at("control_plane"@).at("base_url"@) == Doc::Text(profile.control_plane_base_url)
            &&& doc.at("control_plane"@).at("tunnel_id"@) == Doc::Text(tunnel)
            &&& doc.at("control_plane"@).at("api_key"@) == Doc::Text(plan.key@)
            &&& profile.control_plane_url_path.len() > 0 ==> doc.at("control_plane"@).at("url_path"@)
                == Doc::Text(profile.control_plane_url_path)
            &&& profile.control_plane_url_path.len() == 0 ==> doc.at("control_plane"@).at("url_path"@)
                == Doc::Null
            &&& doc.at("health"@).at("listen_addr"@) == Doc::Text("127.0.0.1:0"@)
            &&& doc.at("health"@).at("url_file"@) == Doc::Text(
                path_below(path_below(root, "health"@), plan.alias@ + ".url"@),
            )
            &&& doc.at("log"@).at("file"@) == Doc::Text(
                path_below(path_below(root, "logs"@), plan.alias@ + ".log"@),
            )
            &&& doc.at("log"@).at("level"@) == Doc::Text("info"@)
            &&& doc.at("log"@).at("format"@) == Doc::Text("json"@)
            &&& doc.at("admin_ui"@).at("open_browser"@) == Doc::Bool(false)
            &&& plan.kind == Kind::ServerUrl ==> (doc.at("mcp"@).at("server_urls"@) matches Doc::List(items)
                && items.len() == 1 && items[0].at("channel"@) == Doc::Text("main"@) && items[0].at("url"@)
                == Doc::Text(plan.target@))
            &&& plan.kind == Kind::Command ==> (doc.at("mcp"@).at("commands"@) matches Doc::List(items)
                && items.len() == 1 && items[0].at("channel"@) == Doc::Text("main"@) && items[0].at("command"@)
                == Doc::Text(plan.target@))
        }),
{
    reveal_strlit("config_version");
    reveal_strlit("control_plane");
    reveal_strlit("health");
    reveal_strlit("admin_ui");
    reveal_strlit("log");
    reveal_strlit("mcp");
    assert("config_version"@.len() == 14);
    assert("control_plane"@.len() == 13);
    assert("health"@.len() == 6);
    assert("admin_ui"@.len() == 8);
    assert("log"@.len() == 3 && "log"@[0] == 'l');
    assert("mcp"@.len() == 3 && "mcp"@[0] == 'm');
    reveal_strlit("base_url");
    reveal_strlit("tunnel_id");
    reveal_strlit("api_key");
    reveal_strlit("url_path");
    reveal_strlit("listen_addr");
    reveal_strlit("url_file");
    reveal_strlit("level");
    reveal_strlit("format");
    reveal_strlit("file");
    reveal_strlit("channel");
    reveal_strlit("url");
    reveal_strlit("command");
    reveal_strlit("server_urls");
    reveal_strlit("commands");
    assert("base_url"@.len() == 8 && "base_url"@[0] == 'b');
    assert("tunnel_id"@.len() == 9);
    assert("api_key"@.len() == 7 && "api_key"@[0] == 'a');
    assert("url_path"@.len() == 8 && "url_path"@[0] == 'u' && "url_path"@[4] == 'p');
    assert("listen_addr"@.len() == 11 && "listen_addr"@[0] == 'l');
    assert("url_file"@.len() == 8 && "url_file"@[0] == 'u' && "url_file"@[4] == 'f');
    assert("level"@.len() == 5);
    assert("format"@.len() == 6);
    assert("file"@.len() == 4);
    assert("channel"@.len() == 7 && "channel"@[0] == 'c' && "channel"@[1] == 'h');
    assert("url"@.len() == 3);
    assert("command"@.len() == 7 && "command"@[0] == 'c' && "command"@[1] == 'o');
    assert("server_urls"@.len() == 11 && "server_urls"@[0] == 's');
    assert("commands"@.len() == 8 && "commands"@[0] == 'c');
}

/// What is recorded of a connection: of the alias where its files are, of the process how it runs.
pub proof fn lemma_connection_recorded(
    plan: Plan,
    root: Seq<char>,
    tunnel: TunnelView,
    profile: Seq<char>,
    launch: Launch,
    now: Seq<char>,
)
    ensures
        ({
            let record = plan.record_of(root, tunnel, profile, now);
            &&& record.alias == plan.alias@
            &&& record.tunnel_id == tunnel.id
            &&& record.admin_profile == profile
            &&& record.updated_at == now
            &&& record.profile_name == plan.profile_name@
            &&& record.profile_dir == plan.profile_dir@
            &&& record.profile_path == path_below(plan.profile_dir@, plan.profile_name@ + ".yaml"@)
            &&& record.config_path == record.profile_path
            &&& record.health_url_file == path_below(path_below(root, "health"@), plan.alias@ + ".url"@)
        }),
        ({
            let record = plan.record_of(root, tunnel, profile, now);
            let process = plan.process_of(record, tunnel.id, profile, launch, now);
            &&& process.alias == plan.alias@
            &&& process.tunnel_id == tunnel.id
            &&& process.admin_profile == profile
            &&& process.target_kind == plan.kind.word()
            &&& process.target_value == plan.target@
            &&& process.started_at == now
            &&& process.mode == launch.mode@
            &&& process.session_name == launch.session_name@
            &&& process.command == launch.command@
            &&& process.pid == launch.pid
            &&& process.pid_start_time == launch.identity.start@
            &&& process.pid_executable == launch.identity.executable@
            &&& process.log_path == launch.log_path@
            &&& process.profile_path == record.profile_path
            &&& process.health_url_file == record.health_url_file
        }),
{
}

/// What the history tells of a connection.
pub proof fn lemma_connection_line(launch: Launch, pid: u32)
    ensures
        launch.pid == Some(pid) ==> connected_of(launch) == "mode="@ + launch.mode@ + " session=- pid="@
            + text::decimal_of(pid as nat) + " started="@ + truth_of(launch.started) + " healthy="@ + truth_of(
            launch.healthy,
        ) + " ready="@ + truth_of(launch.ready),
        launch.pid is None ==> connected_of(launch) == "mode="@ + launch.mode@ + " session=- pid="@
            + text::decimal_of(0) + " started="@ + truth_of(launch.started) + " healthy="@ + truth_of(
            launch.healthy,
        ) + " ready="@ + truth_of(launch.ready),
        truth_of(true) == "true"@ && truth_of(false) == "false"@,
{
}

} // verus!
