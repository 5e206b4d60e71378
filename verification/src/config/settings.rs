//! The settings of a configuration and their defaults.

use vstd::prelude::*;
use crate::config::duration::Span;
use crate::config::main_channel;
use crate::table::Table;
use crate::template::Definition;
use crate::text;

verus! {

/// An MCP server behind a URL.
pub struct Server {
    pub channel: String,
    pub url: String,
    pub unix_socket: Option<String>,
    pub http_proxy: Option<String>,
    pub client_cert: Option<String>,
    pub client_key: Option<String>,
}

/// The contents of [`Server`].
#[verifier::ext_equal]
pub struct ServerView {
    pub channel: Seq<char>,
    pub url: Seq<char>,
    pub unix_socket: Option<Seq<char>>,
    pub http_proxy: Option<Seq<char>>,
    pub client_cert: Option<Seq<char>>,
    pub client_key: Option<Seq<char>>,
}

impl View for Server {
    type V = ServerView;

    open spec fn view(&self) -> ServerView {
        ServerView {
            channel: self.channel@,
            url: self.url@,
            unix_socket: text::view_of(self.unix_socket),
            http_proxy: text::view_of(self.http_proxy),
            client_cert: text::view_of(self.client_cert),
            client_key: text::view_of(self.client_key),
        }
    }
}

/// The contents of a list.
pub open spec fn server_views(items: Seq<Server>) -> Seq<ServerView> {
    items.map_values(|item: Server| item@)
}

impl Server {
    /// Whether nothing was set.
    pub open spec fn is_default(result: Server) -> bool {
        &&& result.channel@ == "main"@
        &&& result.url@.len() == 0
        &&& result.unix_socket is None
        &&& result.http_proxy is None
        &&& result.client_cert is None
        &&& result.client_key is None
    }
}

impl Default for Server {
    fn default() -> (result: Server)
        ensures
            Server::is_default(result),
    {
        Server {
            channel: main_channel(),
            url: String::new(),
            unix_socket: None,
            http_proxy: None,
            client_cert: None,
            client_key: None,
        }
    }
}

/// An MCP server behind a command.
pub struct Command {
    pub channel: String,
    pub command: String,
}

/// The contents of [`Command`].
#[verifier::ext_equal]
pub struct CommandView {
    pub channel: Seq<char>,
    pub command: Seq<char>,
}

impl View for Command {
    type V = CommandView;

    open spec fn view(&self) -> CommandView {
        CommandView {
            channel: self.channel@,
            command: self.command@,
        }
    }
}

/// The contents of a list.
pub open spec fn command_views(items: Seq<Command>) -> Seq<CommandView> {
    items.map_values(|item: Command| item@)
}

impl Command {
    /// Whether nothing was set.
    pub open spec fn is_default(result: Command) -> bool {
        &&& result.channel@ == "main"@
        &&& result.command@.len() == 0
    }
}

impl Default for Command {
    fn default() -> (result: Command)
        ensures
            Command::is_default(result),
    {
        Command {
            channel: main_channel(),
            command: String::new(),
        }
    }
}

/// A target of calls from the other side.
pub struct Target {
    pub label: String,
    pub url: String,
    pub description: String,
    pub unix_socket: Option<String>,
    pub template: Option<Definition>,
}

/// The contents of [`Target`].
#[verifier::ext_equal]
pub struct TargetView {
    pub label: Seq<char>,
    pub url: Seq<char>,
    pub description: Seq<char>,
    pub unix_socket: Option<Seq<char>>,
    pub template: Option<Definition>,
}

impl View for Target {
    type V = TargetView;

    open spec fn view(&self) -> TargetView {
        TargetView {
            label: self.label@,
            url: self.url@,
            description: self.description@,
            unix_socket: text::view_of(self.unix_socket),
            template: self.template,
        }
    }
}

/// The contents of a list.
pub open spec fn target_views(items: Seq<Target>) -> Seq<TargetView> {
    items.map_values(|item: Target| item@)
}

impl Target {
    /// Whether nothing was set.
    pub open spec fn is_default(result: Target) -> bool {
        &&& result.label@.len() == 0
        &&& result.url@.len() == 0
        &&& result.description@.len() == 0
        &&& result.unix_socket is None
        &&& result.template is None
    }
}

impl Default for Target {
    fn default() -> (result: Target)
        ensures
            Target::is_default(result),
    {
        Target {
            label: String::new(),
            url: String::new(),
            description: String::new(),
            unix_socket: None,
            template: None,
        }
    }
}

/// The service that requests come from.
pub struct ControlPlane {
    pub base_url: Option<String>,
    pub url_path: Option<String>,
    pub tunnel_id: String,
    pub api_key: String,
    pub organization_id: Option<String>,
    pub max_inflight_requests: usize,
    pub poll_timeout: Span,
    pub initial_poll_timeout: Span,
    pub poll_deadline_guardrail: Span,
    pub poll_channels: Option<Vec<String>>,
    pub extra_headers: Table<String>,
    pub http_proxy: Option<String>,
    pub client_cert: Option<String>,
    pub client_key: Option<String>,
}

/// The contents of [`ControlPlane`].
#[verifier::ext_equal]
pub struct ControlPlaneView {
    pub base_url: Option<Seq<char>>,
    pub url_path: Option<Seq<char>>,
    pub tunnel_id: Seq<char>,
    pub api_key: Seq<char>,
    pub organization_id: Option<Seq<char>>,
    pub max_inflight_requests: usize,
    pub poll_timeout: Span,
    pub initial_poll_timeout: Span,
    pub poll_deadline_guardrail: Span,
    pub poll_channels: Option<Seq<Seq<char>>>,
    pub extra_headers: Table<String>,
    pub http_proxy: Option<Seq<char>>,
    pub client_cert: Option<Seq<char>>,
    pub client_key: Option<Seq<char>>,
}

impl View for ControlPlane {
    type V = ControlPlaneView;

    open spec fn view(&self) -> ControlPlaneView {
        ControlPlaneView {
            base_url: text::view_of(self.base_url),
            url_path: text::view_of(self.url_path),
            tunnel_id: self.tunnel_id@,
            api_key: self.api_key@,
            organization_id: text::view_of(self.organization_id),
            max_inflight_requests: self.max_inflight_requests,
            poll_timeout: self.poll_timeout,
            initial_poll_timeout: self.initial_poll_timeout,
            poll_deadline_guardrail: self.poll_deadline_guardrail,
            poll_channels: match self.poll_channels {
                Some(items) => Some(text::views(items@)),
                None => None,
            },
            extra_headers: self.extra_headers,
            http_proxy: text::view_of(self.http_proxy),
            client_cert: text::view_of(self.client_cert),
            client_key: text::view_of(self.client_key),
        }
    }
}

impl ControlPlane {
    /// Whether nothing was set.
    pub open spec fn is_default(result: ControlPlane) -> bool {
        &&& result.base_url is None
        &&& result.url_path is None
        &&& result.tunnel_id@.len() == 0
        &&& result.api_key@.len() == 0
        &&& result.organization_id is None
        &&& result.max_inflight_requests == 20
        &&& result.poll_timeout == Span(30_000_000_000)
        &&& result.initial_poll_timeout == Span(30_000_000_000)
        &&& result.poll_deadline_guardrail == Span(5_000_000_000)
        &&& result.poll_channels is None
        &&& result.extra_headers.keys().len() == 0
        &&& result.http_proxy is None
        &&& result.client_cert is None
        &&& result.client_key is None
    }
}

impl Default for ControlPlane {
    fn default() -> (result: ControlPlane)
        ensures
            ControlPlane::is_default(result),
    {
        ControlPlane {
            base_url: None,
            url_path: None,
            tunnel_id: String::new(),
            api_key: String::new(),
            organization_id: None,
            max_inflight_requests: 20,
            poll_timeout: Span(30_000_000_000),
            initial_poll_timeout: Span(30_000_000_000),
            poll_deadline_guardrail: Span(5_000_000_000),
            poll_channels: None,
            extra_headers: Table::new(),
            http_proxy: None,
            client_cert: None,
            client_key: None,
        }
    }
}

/// The MCP servers that requests go to.
pub struct Mcp {
    pub server_urls: Vec<Server>,
    pub commands: Vec<Command>,
    pub extra_headers: Table<String>,
    pub discovery_extra_headers: Table<String>,
    pub oauth_trusted_origins: Vec<String>,
    pub startup_wait_timeout: Span,
    pub stdio_send_initialized_notification: bool,
    pub connection_max_ttl: Option<Span>,
    pub max_concurrent_requests: usize,
    pub http_proxy: Option<String>,
    pub client_cert: Option<String>,
    pub client_key: Option<String>,
}

/// The contents of [`Mcp`].
#[verifier::ext_equal]
pub struct McpView {
    pub server_urls: Seq<ServerView>,
    pub commands: Seq<CommandView>,
    pub extra_headers: Table<String>,
    pub discovery_extra_headers: Table<String>,
    pub oauth_trusted_origins: Seq<Seq<char>>,
    pub startup_wait_timeout: Span,
    pub stdio_send_initialized_notification: bool,
    pub connection_max_ttl: Option<Span>,
    pub max_concurrent_requests: usize,
    pub http_proxy: Option<Seq<char>>,
    pub client_cert: Option<Seq<char>>,
    pub client_key: Option<Seq<char>>,
}

impl View for Mcp {
    type V = McpView;

    open spec fn view(&self) -> McpView {
        McpView {
            server_urls: server_views(self.server_urls@),
            commands: command_views(self.commands@),
            extra_headers: self.extra_headers,
            discovery_extra_headers: self.discovery_extra_headers,
            oauth_trusted_origins: text::views(self.oauth_trusted_origins@),
            startup_wait_timeout: self.startup_wait_timeout,
            stdio_send_initialized_notification: self.stdio_send_initialized_notification,
            connection_max_ttl: self.connection_max_ttl,
            max_concurrent_requests: self.max_concurrent_requests,
            http_proxy: text::view_of(self.http_proxy),
            client_cert: text::view_of(self.client_cert),
            client_key: text::view_of(self.client_key),
        }
    }
}

impl Mcp {
    /// Whether nothing was set.
    pub open spec fn is_default(result: Mcp) -> bool {
        &&& result.server_urls@.len() == 0
        &&& result.commands@.len() == 0
        &&& result.extra_headers.keys().len() == 0
        &&& result.discovery_extra_headers.keys().len() == 0
        &&& result.oauth_trusted_origins@.len() == 0
        &&& result.startup_wait_timeout == Span(0)
        &&& result.stdio_send_initialized_notification == false
        &&& result.connection_max_ttl == Some(Span(600_000_000_000))
        &&& result.max_concurrent_requests == 10
        &&& result.http_proxy is None
        &&& result.client_cert is None
        &&& result.client_key is None
    }
}

impl Default for Mcp {
    fn default() -> (result: Mcp)
        ensures
            Mcp::is_default(result),
    {
        Mcp {
            server_urls: Vec::new(),
            commands: Vec::new(),
            extra_headers: Table::new(),
            discovery_extra_headers: Table::new(),
            oauth_trusted_origins: Vec::new(),
            startup_wait_timeout: Span(0),
            stdio_send_initialized_notification: false,
            connection_max_ttl: Some(Span(600_000_000_000)),
            max_concurrent_requests: 10,
            http_proxy: None,
            client_cert: None,
            client_key: None,
        }
    }
}

/// Calls from the other side to targets here.
pub struct Harpoon {
    pub targets: Vec<Target>,
    pub http_proxy: Option<String>,
    pub max_response_bytes: Option<usize>,
    pub max_redirects: usize,
    pub allow_plaintext_http: bool,
    pub additional_transports: Vec<String>,
    pub capture_payloads: bool,
    pub hosts_include_loopback: bool,
    pub hosts_include_private: bool,
    pub hosts_include_suffix: Vec<String>,
    pub hosts_include_regex: Vec<String>,
}

/// The contents of [`Harpoon`].
#[verifier::ext_equal]
pub struct HarpoonView {
    pub targets: Seq<TargetView>,
    pub http_proxy: Option<Seq<char>>,
    pub max_response_bytes: Option<usize>,
    pub max_redirects: usize,
    pub allow_plaintext_http: bool,
    pub additional_transports: Seq<Seq<char>>,
    pub capture_payloads: bool,
    pub hosts_include_loopback: bool,
    pub hosts_include_private: bool,
    pub hosts_include_suffix: Seq<Seq<char>>,
    pub hosts_include_regex: Seq<Seq<char>>,
}

impl View for Harpoon {
    type V = HarpoonView;

    open spec fn view(&self) -> HarpoonView {
        HarpoonView {
            targets: target_views(self.targets@),
            http_proxy: text::view_of(self.http_proxy),
            max_response_bytes: self.max_response_bytes,
            max_redirects: self.max_redirects,
            allow_plaintext_http: self.allow_plaintext_http,
            additional_transports: text::views(self.additional_transports@),
            capture_payloads: self.capture_payloads,
            hosts_include_loopback: self.hosts_include_loopback,
            hosts_include_private: self.hosts_include_private,
            hosts_include_suffix: text::views(self.hosts_include_suffix@),
            hosts_include_regex: text::views(self.hosts_include_regex@),
        }
    }
}

impl Harpoon {
    /// Whether nothing was set.
    pub open spec fn is_default(result: Harpoon) -> bool {
        &&& result.targets@.len() == 0
        &&& result.http_proxy is None
        &&& result.max_response_bytes == Some(102400usize)
        &&& result.max_redirects == 5
        &&& result.allow_plaintext_http == false
        &&& result.additional_transports@.len() == 0
        &&& result.capture_payloads == false
        &&& result.hosts_include_loopback == true
        &&& result.hosts_include_private == true
        &&& result.hosts_include_suffix@.len() == 0
        &&& result.hosts_include_regex@.len() == 0
    }
}

impl Default for Harpoon {
    fn default() -> (result: Harpoon)
        ensures
            Harpoon::is_default(result),
    {
        Harpoon {
            targets: Vec::new(),
            http_proxy: None,
            max_response_bytes: Some(102400usize),
            max_redirects: 5,
            allow_plaintext_http: false,
            additional_transports: Vec::new(),
            capture_payloads: false,
            hosts_include_loopback: true,
            hosts_include_private: true,
            hosts_include_suffix: Vec::new(),
            hosts_include_regex: Vec::new(),
        }
    }
}

/// Where the state of the client is served.
pub struct Health {
    pub listen_addr: String,
    pub unix_socket: Option<String>,
    pub url_file: Option<String>,
    pub show_details: bool,
}

/// The contents of [`Health`].
#[verifier::ext_equal]
pub struct HealthView {
    pub listen_addr: Seq<char>,
    pub unix_socket: Option<Seq<char>>,
    pub url_file: Option<Seq<char>>,
    pub show_details: bool,
}

impl View for Health {
    type V = HealthView;

    open spec fn view(&self) -> HealthView {
        HealthView {
            listen_addr: self.listen_addr@,
            unix_socket: text::view_of(self.unix_socket),
            url_file: text::view_of(self.url_file),
            show_details: self.show_details,
        }
    }
}

impl Health {
    /// Whether nothing was set.
    pub open spec fn is_default(result: Health) -> bool {
        &&& result.listen_addr@ == "127.0.0.1:8080"@
        &&& result.unix_socket is None
        &&& result.url_file is None
        &&& result.show_details == false
    }
}

impl Default for Health {
    fn default() -> (result: Health)
        ensures
            Health::is_default(result),
    {
        Health {
            listen_addr: "127.0.0.1:8080".to_owned(),
            unix_socket: None,
            url_file: None,
            show_details: false,
        }
    }
}

/// Settings of a user interface that this client lacks.
pub struct AdminUi {
    pub allow_remote: bool,
    pub open_browser: bool,
    pub log_buffer_events: usize,
}

/// The contents of [`AdminUi`].
#[verifier::ext_equal]
pub struct AdminUiView {
    pub allow_remote: bool,
    pub open_browser: bool,
    pub log_buffer_events: usize,
}

impl View for AdminUi {
    type V = AdminUiView;

    open spec fn view(&self) -> AdminUiView {
        AdminUiView {
            allow_remote: self.allow_remote,
            open_browser: self.open_browser,
            log_buffer_events: self.log_buffer_events,
        }
    }
}

impl AdminUi {
    /// Whether nothing was set.
    pub open spec fn is_default(result: AdminUi) -> bool {
        &&& result.allow_remote == false
        &&& result.open_browser == false
        &&& result.log_buffer_events == 2000
    }
}

impl Default for AdminUi {
    fn default() -> (result: AdminUi)
        ensures
            AdminUi::is_default(result),
    {
        AdminUi {
            allow_remote: false,
            open_browser: false,
            log_buffer_events: 2000,
        }
    }
}

/// What is logged, and where.
pub struct Log {
    pub level: String,
    pub format: String,
    pub file: Option<String>,
    pub http_raw_unsafe: bool,
}

/// The contents of [`Log`].
#[verifier::ext_equal]
pub struct LogView {
    pub level: Seq<char>,
    pub format: Seq<char>,
    pub file: Option<Seq<char>>,
    pub http_raw_unsafe: bool,
}

impl View for Log {
    type V = LogView;

    open spec fn view(&self) -> LogView {
        LogView {
            level: self.level@,
            format: self.format@,
            file: text::view_of(self.file),
            http_raw_unsafe: self.http_raw_unsafe,
        }
    }
}

impl Log {
    /// Whether nothing was set.
    pub open spec fn is_default(result: Log) -> bool {
        &&& result.level@ == "info"@
        &&& result.format@.len() == 0
        &&& result.file is None
        &&& result.http_raw_unsafe == false
    }
}

impl Default for Log {
    fn default() -> (result: Log)
        ensures
            Log::is_default(result),
    {
        Log {
            level: "info".to_owned(),
            format: String::new(),
            file: None,
            http_raw_unsafe: false,
        }
    }
}

/// The process of the client.
pub struct Process {
    pub pid_file: Option<String>,
}

/// The contents of [`Process`].
#[verifier::ext_equal]
pub struct ProcessView {
    pub pid_file: Option<Seq<char>>,
}

impl View for Process {
    type V = ProcessView;

    open spec fn view(&self) -> ProcessView {
        ProcessView {
            pid_file: text::view_of(self.pid_file),
        }
    }
}

impl Process {
    /// Whether nothing was set.
    pub open spec fn is_default(result: Process) -> bool {
        &&& result.pid_file is None
    }
}

impl Default for Process {
    fn default() -> (result: Process)
        ensures
            Process::is_default(result),
    {
        Process {
            pid_file: None,
        }
    }
}

/// The connector that may be managed.
pub struct Cloudflared {
    pub managed: bool,
    pub token: Option<String>,
    pub path: String,
    pub ready_timeout: Span,
}

/// The contents of [`Cloudflared`].
#[verifier::ext_equal]
pub struct CloudflaredView {
    pub managed: bool,
    pub token: Option<Seq<char>>,
    pub path: Seq<char>,
    pub ready_timeout: Span,
}

impl View for Cloudflared {
    type V = CloudflaredView;

    open spec fn view(&self) -> CloudflaredView {
        CloudflaredView {
            managed: self.managed,
            token: text::view_of(self.token),
            path: self.path@,
            ready_timeout: self.ready_timeout,
        }
    }
}

impl Cloudflared {
    /// Whether nothing was set.
    pub open spec fn is_default(result: Cloudflared) -> bool {
        &&& result.managed == false
        &&& result.token is None
        &&& result.path@ == "cloudflared"@
        &&& result.ready_timeout == Span(30_000_000_000)
    }
}

impl Default for Cloudflared {
    fn default() -> (result: Cloudflared)
        ensures
            Cloudflared::is_default(result),
    {
        Cloudflared {
            managed: false,
            token: None,
            path: "cloudflared".to_owned(),
            ready_timeout: Span(30_000_000_000),
        }
    }
}

/// The checks of proxies.
pub struct Proxy {
    pub check_interval: Span,
}

/// The contents of [`Proxy`].
#[verifier::ext_equal]
pub struct ProxyView {
    pub check_interval: Span,
}

impl View for Proxy {
    type V = ProxyView;

    open spec fn view(&self) -> ProxyView {
        ProxyView {
            check_interval: self.check_interval,
        }
    }
}

impl Proxy {
    /// Whether nothing was set.
    pub open spec fn is_default(result: Proxy) -> bool {
        &&& result.check_interval == Span(60_000_000_000)
    }
}

impl Default for Proxy {
    fn default() -> (result: Proxy)
        ensures
            Proxy::is_default(result),
    {
        Proxy {
            check_interval: Span(60_000_000_000),
        }
    }
}

/// The configuration of the client.
pub struct Config {
    pub config_version: Option<u8>,
    pub control_plane: ControlPlane,
    pub mcp: Mcp,
    pub harpoon: Harpoon,
    pub health: Health,
    pub admin_ui: AdminUi,
    pub log: Log,
    pub process: Process,
    pub cloudflared: Cloudflared,
    pub proxy: Proxy,
    pub ca_bundle: Option<String>,
    pub http_proxy: Option<String>,
}

/// The contents of [`Config`].
#[verifier::ext_equal]
pub struct ConfigView {
    pub config_version: Option<u8>,
    pub control_plane: ControlPlaneView,
    pub mcp: McpView,
    pub harpoon: HarpoonView,
    pub health: HealthView,
    pub admin_ui: AdminUiView,
    pub log: LogView,
    pub process: ProcessView,
    pub cloudflared: CloudflaredView,
    pub proxy: ProxyView,
    pub ca_bundle: Option<Seq<char>>,
    pub http_proxy: Option<Seq<char>>,
}

impl View for Config {
    type V = ConfigView;

    open spec fn view(&self) -> ConfigView {
        ConfigView {
            config_version: self.config_version,
            control_plane: self.control_plane@,
            mcp: self.mcp@,
            harpoon: self.harpoon@,
            health: self.health@,
            admin_ui: self.admin_ui@,
            log: self.log@,
            process: self.process@,
            cloudflared: self.cloudflared@,
            proxy: self.proxy@,
            ca_bundle: text::view_of(self.ca_bundle),
            http_proxy: text::view_of(self.http_proxy),
        }
    }
}

impl Config {
    /// Whether nothing was set.
    pub open spec fn is_default(result: Config) -> bool {
        &&& result.config_version is None
        &&& ControlPlane::is_default(result.control_plane)
        &&& Mcp::is_default(result.mcp)
        &&& Harpoon::is_default(result.harpoon)
        &&& Health::is_default(result.health)
        &&& AdminUi::is_default(result.admin_ui)
        &&& Log::is_default(result.log)
        &&& Process::is_default(result.process)
        &&& Cloudflared::is_default(result.cloudflared)
        &&& Proxy::is_default(result.proxy)
        &&& result.ca_bundle is None
        &&& result.http_proxy is None
    }
}

impl Default for Config {
    fn default() -> (result: Config)
        ensures
            Config::is_default(result),
    {
        Config {
            config_version: None,
            control_plane: ControlPlane::default(),
            mcp: Mcp::default(),
            harpoon: Harpoon::default(),
            health: Health::default(),
            admin_ui: AdminUi::default(),
            log: Log::default(),
            process: Process::default(),
            cloudflared: Cloudflared::default(),
            proxy: Proxy::default(),
            ca_bundle: None,
            http_proxy: None,
        }
    }
}

/// The settings of a configuration that says nothing.
pub proof fn lemma_defaults(config: Config)
    requires
        Config::is_default(config),
    ensures
        config.config_version is None && config.ca_bundle is None && config.http_proxy is None,
        config.control_plane.max_inflight_requests == 20,
        config.control_plane.poll_timeout == Span(30_000_000_000),
        config.control_plane.initial_poll_timeout == Span(30_000_000_000),
        config.control_plane.poll_deadline_guardrail == Span(5_000_000_000),
        config.control_plane.poll_channels is None && config.control_plane.base_url is None,
        config.control_plane.tunnel_id@.len() == 0 && config.control_plane.api_key@.len() == 0,
        config.mcp.server_urls@.len() == 0 && config.mcp.commands@.len() == 0,
        config.mcp.startup_wait_timeout == Span(0),
        !config.mcp.stdio_send_initialized_notification,
        config.mcp.connection_max_ttl == Some(Span(600_000_000_000)),
        config.mcp.max_concurrent_requests == 10,
        config.harpoon.targets@.len() == 0,
        config.harpoon.max_response_bytes == Some(102400usize),
        config.harpoon.max_redirects == 5,
        !config.harpoon.allow_plaintext_http && !config.harpoon.capture_payloads,
        config.harpoon.hosts_include_loopback && config.harpoon.hosts_include_private,
        config.health.listen_addr@ == "127.0.0.1:8080"@ && !config.health.show_details,
        config.health.unix_socket is None && config.health.url_file is None,
        !config.admin_ui.allow_remote && !config.admin_ui.open_browser && config.admin_ui.log_buffer_events == 2000,
        config.log.level@ == "info"@ && config.log.format@.len() == 0 && config.log.file is None
            && !config.log.http_raw_unsafe,
        config.process.pid_file is None,
        !config.cloudflared.managed && config.cloudflared.token is None && config.cloudflared.path@
            == "cloudflared"@ && config.cloudflared.ready_timeout == Span(30_000_000_000),
        config.proxy.check_interval == Span(60_000_000_000),
{
}

/// A server, a command and a target that say nothing: the first two are of the main channel.
pub proof fn lemma_entry_defaults(server: Server, command: Command, target: Target)
    ensures
        Server::is_default(server) ==> server.channel@ == "main"@ && server.url@.len() == 0 && server.unix_socket
            is None && server.http_proxy is None && server.client_cert is None && server.client_key is None,
        Command::is_default(command) ==> command.channel@ == "main"@ && command.command@.len() == 0,
        Target::is_default(target) ==> target.label@.len() == 0 && target.url@.len() == 0 && target.unix_socket
            is None && target.template is None,
{
}

} // verus!
