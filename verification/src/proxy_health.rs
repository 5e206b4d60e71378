//! The proxies of a runtime, and whether they are reached.

use vstd::prelude::*;
use crate::address::{self, parsed_url, Address, Parts};
use crate::config::settings::{Config, ConfigView};
use crate::proxy::{chosen_proxy, proxy_for};
use crate::table::Table;
use crate::{digest, text};

pub mod check;

verus! {

/// Where requests of one kind go.
pub struct Origin {
    pub kind: String,
    pub name: String,
    pub url: Option<String>,
    /// Where a proxy is configured, and which one.
    pub explicit: Option<(String, String)>,
    pub local: bool,
}

/// The contents of [`Origin`].
#[verifier::ext_equal]
pub struct OriginView {
    pub kind: Seq<char>,
    pub name: Seq<char>,
    pub url: Option<Seq<char>>,
    pub explicit: Option<(Seq<char>, Seq<char>)>,
    pub local: bool,
}

impl View for Origin {
    type V = OriginView;

    open spec fn view(&self) -> OriginView {
        OriginView {
            kind: self.kind@,
            name: self.name@,
            url: text::view_of(self.url),
            explicit: text::pair_of(self.explicit),
            local: self.local,
        }
    }
}

/// Where a proxy was configured: on the command line or in a file.
pub open spec fn source_of(sources: Map<Seq<char>, String>, name: Seq<char>) -> Seq<char> {
    if sources.dom().contains(name) {
        sources[name]@
    } else {
        name
    }
}

fn source(sources: &Table<String>, name: &str) -> (result: String)
    ensures
        result@ == source_of(sources@, name@),
{
    match sources.get(name) {
        Some(value) => value.clone(),
        None => name.to_owned(),
    }
}

/// The configured proxy, or a fallback.
pub open spec fn explicit_or(
    name: Seq<char>,
    value: Option<Seq<char>>,
    fallback: Option<(Seq<char>, Seq<char>)>,
) -> Option<(Seq<char>, Seq<char>)> {
    match value {
        Some(value) => Some((name, value)),
        None => fallback,
    }
}

fn explicit(name: String, value: &Option<String>, fallback: Option<(String, String)>) -> (result:
    Option<(String, String)>)
    ensures
        text::pair_of(result) == explicit_or(name@, text::view_of(*value), text::pair_of(fallback)),
{
    match value {
        Some(value) => Some((name, value.clone())),
        None => fallback,
    }
}

impl ConfigView {
    /// The proxy of all requests.
    pub open spec fn common_proxy(self, sources: Map<Seq<char>, String>) -> Option<
        (Seq<char>, Seq<char>),
    > {
        explicit_or(source_of(sources, "http-proxy"@), self.http_proxy, None)
    }

    /// How many kinds of requests there are.
    pub open spec fn origin_count(self) -> int {
        (1 + self.mcp.server_urls.len() + self.mcp.commands.len() + self.harpoon.targets.len()) as int
    }

    /// Where requests of one kind go: to the service, the servers, the commands, or the targets.
    pub open spec fn origin_at(self, sources: Map<Seq<char>, String>, at: int) -> OriginView {
        let common = self.common_proxy(sources);
        let servers = self.mcp.server_urls.len() as int;
        let commands = self.mcp.commands.len() as int;
        if at <= 0 {
            OriginView {
                kind: "control_plane"@,
                name: "control-plane"@,
                url: Some(self.control_plane.base()),
                explicit: explicit_or(
                    source_of(sources, "control-plane.http-proxy"@),
                    self.control_plane.http_proxy,
                    common,
                ),
                local: false,
            }
        } else if at <= servers {
            let server = self.mcp.server_urls[at - 1];
            OriginView {
                kind: "mcp_channel"@,
                name: server.channel,
                url: Some(server.url),
                explicit: explicit_or(
                    "mcp.server-url"@,
                    server.http_proxy,
                    explicit_or(
                        source_of(sources, "mcp.http-proxy"@),
                        self.mcp.http_proxy,
                        common,
                    ),
                ),
                local: server.unix_socket is Some,
            }
        } else if at <= servers + commands {
            OriginView {
                kind: "mcp_channel"@,
                name: self.mcp.commands[at - 1 - servers].channel,
                url: None,
                explicit: None,
                local: true,
            }
        } else {
            let target = self.harpoon.targets[at - 1 - servers - commands];
            OriginView {
                kind: "harpoon_target"@,
                name: target.label,
                url: if target.url.len() > 0 {
                    Some(target.url)
                } else {
                    match target.template {
                        Some(definition) => Some(definition.origin@),
                        None => None,
                    }
                },
                explicit: explicit_or(
                    source_of(sources, "harpoon.http-proxy"@),
                    self.harpoon.http_proxy,
                    common,
                ),
                local: target.unix_socket is Some,
            }
        }
    }
}

fn origin(config: &Config, sources: &Table<String>, at: usize) -> (result: Origin)
    requires
        at < config@.origin_count(),
    ensures
        result@ == config@.origin_at(sources@, at as int),
{
    let common = explicit(source(sources, "http-proxy"), &config.http_proxy, None);
    let servers: usize = config.mcp.server_urls.len();
    let commands: usize = config.mcp.commands.len();
    assert(config@.mcp.server_urls.len() == servers);
    assert(config@.mcp.commands.len() == commands);
    if at == 0 {
        return Origin {
            kind: "control_plane".to_owned(),
            name: "control-plane".to_owned(),
            url: Some(config.control_plane.base_url()),
            explicit: explicit(
                source(sources, "control-plane.http-proxy"),
                &config.control_plane.http_proxy,
                common,
            ),
            local: false,
        };
    }
    if at <= servers {
        let server = &config.mcp.server_urls[at - 1];
        assert(config@.mcp.server_urls[at - 1] == server@);
        return Origin {
            kind: "mcp_channel".to_owned(),
            name: server.channel.clone(),
            url: Some(server.url.clone()),
            explicit: explicit(
                "mcp.server-url".to_owned(),
                &server.http_proxy,
                explicit(source(sources, "mcp.http-proxy"), &config.mcp.http_proxy, common),
            ),
            local: server.unix_socket.is_some(),
        };
    }
    if at - 1 - servers < commands {
        let command = &config.mcp.commands[at - 1 - servers];
        assert(config@.mcp.commands[at - 1 - servers] == command@);
        return Origin {
            kind: "mcp_channel".to_owned(),
            name: command.channel.clone(),
            url: None,
            explicit: None,
            local: true,
        };
    }
    let target = &config.harpoon.targets[at - 1 - servers - commands];
    assert(config@.harpoon.targets[at - 1 - servers - commands] == target@);
    let url = if !target.url.is_empty() {
        Some(target.url.clone())
    } else {
        match &target.template {
            Some(definition) => Some(definition.origin.clone()),
            None => None,
        }
    };
    Origin {
        kind: "harpoon_target".to_owned(),
        name: target.label.clone(),
        url,
        explicit: explicit(
            source(sources, "harpoon.http-proxy"),
            &config.harpoon.http_proxy,
            common,
        ),
        local: target.unix_socket.is_some(),
    }
}

/// The host and the port of a URL.
pub open spec fn host_port_of(url: Parts) -> Seq<char> {
    let name = text::unbracketed(match url.host {
        Some(host) => host,
        None => Seq::empty(),
    });
    let host = if name.contains(':') {
        "["@ + name + "]"@
    } else {
        name
    };
    match url.known_port {
        Some(port) => host + ":"@ + text::decimal_of(port as nat),
        None => host,
    }
}

fn host_port(url: &Address) -> (result: String)
    ensures
        result@ == host_port_of(url.parts()),
{
    let given = match &url.host {
        Some(host) => host.clone(),
        None => {
            let empty = String::new();
            assert(empty@ =~= Seq::<char>::empty());
            empty
        },
    };
    let name = text::unbracket(&given);
    let host = if text::contains_char(&name, ':') {
        text::cat3("[", &name, "]")
    } else {
        name
    };
    match url.known_port {
        Some(port) => text::cat3(&host, ":", &text::decimal(port as u64)),
        None => host,
    }
}

/// A proxy, as it is told of.
#[derive(Clone)]
pub struct Through {
    /// Where it is configured.
    pub source: String,
    /// The URL without a user.
    pub url: String,
    pub id: String,
    /// The whole URL.
    pub address: String,
}

/// The contents of [`Through`].
#[verifier::ext_equal]
pub struct ThroughView {
    pub source: Seq<char>,
    pub url: Seq<char>,
    pub id: Seq<char>,
    pub address: Seq<char>,
}

impl View for Through {
    type V = ThroughView;

    open spec fn view(&self) -> ThroughView {
        ThroughView {
            source: self.source@,
            url: self.url@,
            id: self.id@,
            address: self.address@,
        }
    }
}

/// Whether a variable holds more than white space.
pub open spec fn is_given(variables: Map<Seq<char>, String>, name: Seq<char>) -> bool {
    variables.dom().contains(name) && text::trim_of(variables[name]@).len() > 0
}

fn given(variables: &Table<String>, name: &str) -> (result: bool)
    ensures
        result == is_given(variables@, name@),
{
    match variables.get(name) {
        Some(value) => !text::trim(value).is_empty(),
        None => false,
    }
}

/// Where the proxy of a request is configured.
pub open spec fn configured_at(
    explicit: Option<(Seq<char>, Seq<char>)>,
    scheme: Seq<char>,
    variables: Map<Seq<char>, String>,
) -> Seq<char> {
    match explicit {
        Some((name, value)) => match text::after_prefix(value, "env:"@) {
            Some(variable) => "env:"@ + text::trim_of(variable),
            None => name,
        },
        None => {
            let (upper, lower) = if scheme == "https"@ {
                ("HTTPS_PROXY"@, "https_proxy"@)
            } else {
                ("HTTP_PROXY"@, "http_proxy"@)
            };
            if is_given(variables, upper) {
                "env:"@ + upper
            } else if is_given(variables, lower) {
                "env:"@ + lower
            } else {
                "environment"@
            }
        },
    }
}

fn configured(explicit: &Option<(String, String)>, scheme: &str, variables: &Table<String>) -> (result:
    String)
    ensures
        result@ == configured_at(text::pair_of(*explicit), scheme@, variables@),
{
    match explicit {
        Some((name, value)) => match text::strip_prefix(value, "env:") {
            Some(variable) => text::cat("env:", &text::trim(&variable)),
            None => name.clone(),
        },
        None => {
            let (upper, lower) = if text::same(scheme, "https") {
                ("HTTPS_PROXY", "https_proxy")
            } else {
                ("HTTP_PROXY", "http_proxy")
            };
            if given(variables, upper) {
                text::cat("env:", upper)
            } else if given(variables, lower) {
                text::cat("env:", lower)
            } else {
                "environment".to_owned()
            }
        },
    }
}

/// The URL of a proxy without its user.
pub open spec fn shown_url(proxy: Parts) -> Seq<char> {
    let host = match proxy.host {
        Some(host) => host,
        None => Seq::empty(),
    };
    proxy.scheme + "://"@ + (match proxy.port {
        Some(port) => host + ":"@ + text::decimal_of(port as nat),
        None => host,
    })
}

/// What is told of a proxy.
pub open spec fn through_of(proxy: Parts, source: Seq<char>) -> ThroughView {
    let url = shown_url(proxy);
    ThroughView {
        source,
        url,
        id: digest::hex_of(digest::sha256_of(vstd::utf8::encode_utf8(url))),
        address: proxy.text,
    }
}

fn through(proxy: &Address, source: String) -> (result: Through)
    ensures
        result@ == through_of(proxy.parts(), source@),
{
    let host = match &proxy.host {
        Some(host) => host.clone(),
        None => {
            let empty = String::new();
            assert(empty@ =~= Seq::<char>::empty());
            empty
        },
    };
    let place = match proxy.port {
        Some(port) => text::cat3(&host, ":", &text::decimal(port as u64)),
        None => host,
    };
    let url = text::cat3(&proxy.scheme, "://", &place);
    let id = digest::hex(&digest::sha256(&text::bytes(&url)));
    Through { source, url, id, address: proxy.text.clone() }
}

/// How a way was found.
#[derive(Clone, Copy, PartialEq, Eq, Structural)]
pub enum RouteState {
    Pending,
    Direct,
    Healthy,
    Unhealthy,
}

impl RouteState {
    /// The state in words.
    pub open spec fn word(self) -> Seq<char> {
        match self {
            RouteState::Pending => "pending"@,
            RouteState::Direct => "direct"@,
            RouteState::Healthy => "healthy"@,
            RouteState::Unhealthy => "unhealthy"@,
        }
    }

    /// The state in words.
    pub fn text(self) -> (result: &'static str)
        ensures
            result@ == self.word(),
    {
        match self {
            RouteState::Pending => "pending",
            RouteState::Direct => "direct",
            RouteState::Healthy => "healthy",
            RouteState::Unhealthy => "unhealthy",
        }
    }
}

/// What a check of a proxy found. Times are nanoseconds of the clock.
#[derive(Clone)]
pub struct Check {
    pub timestamp: u64,
    pub success: bool,
    pub tcp_duration_ms: u64,
    pub connect_duration_ms: u64,
    pub error_phase: String,
    pub error_reason: String,
    pub http_status_category: String,
    pub tls_failure: bool,
}

/// What is known of the ways of requests.
#[derive(Clone)]
pub struct Snapshot {
    pub routes: Vec<Route>,
    /// When a way was checked last.
    pub observed_at: u64,
}

/// The way of requests.
#[derive(Clone)]
pub struct Route {
    pub kind: String,
    pub name: String,
    pub target: String,
    pub through: Option<Through>,
    pub history: Vec<Check>,
    pub state: RouteState,
    pub failure: String,
    pub last_check: u64,
    pub last_success: u64,
}

/// A way before it is checked.
#[verifier::ext_equal]
pub struct WayView {
    pub kind: Seq<char>,
    pub name: Seq<char>,
    pub target: Seq<char>,
    pub through: Option<ThroughView>,
}

impl Route {
    /// The way itself.
    pub open spec fn way(self) -> WayView {
        WayView {
            kind: self.kind@,
            name: self.name@,
            target: self.target@,
            through: match self.through {
                Some(through) => Some(through@),
                None => None,
            },
        }
    }

    /// Whether the way was not checked yet.
    pub open spec fn is_fresh(self) -> bool {
        &&& self.history@.len() == 0
        &&& self.state == (if self.through is Some {
            RouteState::Pending
        } else {
            RouteState::Direct
        })
        &&& self.failure@.len() == 0
        &&& self.last_check == 0
        &&& self.last_success == 0
    }
}

/// The way of requests of one kind, or why there is none.
pub open spec fn way_of(origin: OriginView, variables: Map<Seq<char>, String>) -> Result<
    WayView,
    Seq<char>,
> {
    match origin.url {
        None => Ok(
            WayView { kind: origin.kind, name: origin.name, target: Seq::empty(), through: None },
        ),
        Some(url) => match parsed_url(url) {
            Err(reason) => Err(reason),
            Ok(parts) => {
                let proxy = if origin.local {
                    Ok(None)
                } else {
                    chosen_proxy(
                        match origin.explicit {
                            Some((_, value)) => Some(value),
                            None => None,
                        },
                        variables,
                        parts,
                    )
                };
                let direct = WayView {
                    kind: origin.kind,
                    name: origin.name,
                    target: host_port_of(parts),
                    through: None,
                };
                match proxy {
                    Err(reason) => Err(reason),
                    Ok(None) => Ok(direct),
                    Ok(Some(found)) => match parsed_url(found) {
                        Err(reason) => Err(reason),
                        Ok(proxy) => Ok(
                            WayView {
                                through: Some(
                                    through_of(
                                        proxy,
                                        configured_at(origin.explicit, parts.scheme, variables),
                                    ),
                                ),
                                ..direct
                            },
                        ),
                    },
                }
            },
        },
    }
}

fn fresh(kind: String, name: String, target: String, through: Option<Through>) -> (result: Route)
    ensures
        result.is_fresh(),
        result.kind == kind,
        result.name == name,
        result.target == target,
        result.through == through,
{
    Route {
        kind,
        name,
        target,
        state: if through.is_some() {
            RouteState::Pending
        } else {
            RouteState::Direct
        },
        through,
        history: Vec::new(),
        failure: String::new(),
        last_check: 0,
        last_success: 0,
    }
}

fn route(origin: Origin, variables: &Table<String>) -> (result: Result<Route, String>)
    ensures
        match (result, way_of(origin@, variables@)) {
            (Ok(route), Ok(way)) => route.is_fresh() && route.way() == way,
            (Err(reason), Err(expected)) => reason@ == expected,
            _ => false,
        },
{
    let url = match &origin.url {
        None => {
            let empty = String::new();
            assert(empty@ =~= Seq::<char>::empty());
            return Ok(fresh(origin.kind, origin.name, empty, None));
        },
        Some(url) => url,
    };
    let target = match address::parse(url) {
        Ok(target) => target,
        Err(reason) => {
            return Err(reason);
        },
    };
    let value: Option<&str> = match &origin.explicit {
        Some((_, value)) => Some(value),
        None => None,
    };
    let proxy = if origin.local {
        None
    } else {
        match proxy_for(value, variables, &target) {
            Ok(proxy) => proxy,
            Err(reason) => {
                return Err(reason);
            },
        }
    };
    let shown = host_port(&target);
    match proxy {
        None => Ok(fresh(origin.kind, origin.name, shown, None)),
        Some(found) => match address::parse(&found) {
            Err(reason) => Err(reason),
            Ok(proxy) => {
                let told = through(&proxy, configured(&origin.explicit, &target.scheme, variables));
                Ok(fresh(origin.kind, origin.name, shown, Some(told)))
            },
        },
    }
}

/// Whether a way comes before another one: by its kind, then by its name.
pub open spec fn way_before(left: WayView, right: WayView) -> bool {
    text::precedes(left.kind, right.kind) || (left.kind == right.kind && text::precedes(
        left.name,
        right.name,
    ))
}

/// The ways in order with one more at its place, behind those that are equal to it.
pub open spec fn way_placed(items: Seq<WayView>, way: WayView) -> Seq<WayView>
    decreases items.len(),
{
    if items.len() == 0 || !way_before(way, items.last()) {
        items.push(way)
    } else {
        way_placed(items.drop_last(), way).push(items.last())
    }
}

/// The first ways in order, or why there is one too few.
pub open spec fn ways_of(
    config: ConfigView,
    sources: Map<Seq<char>, String>,
    variables: Map<Seq<char>, String>,
    count: int,
) -> Result<Seq<WayView>, Seq<char>>
    decreases count,
{
    if count <= 0 {
        Ok(Seq::empty())
    } else {
        match ways_of(config, sources, variables, count - 1) {
            Err(reason) => Err(reason),
            Ok(items) => match way_of(config.origin_at(sources, count - 1), variables) {
                Err(reason) => Err(reason),
                Ok(way) => Ok(way_placed(items, way)),
            },
        }
    }
}

proof fn lemma_ways_fail(
    config: ConfigView,
    sources: Map<Seq<char>, String>,
    variables: Map<Seq<char>, String>,
    at: int,
    count: int,
)
    requires
        0 <= at <= count,
    ensures
        ways_of(config, sources, variables, at) is Err ==> ways_of(
            config,
            sources,
            variables,
            count,
        ) == ways_of(config, sources, variables, at),
    decreases count - at,
{
    if at < count {
        lemma_ways_fail(config, sources, variables, at, count - 1);
    }
}

/// The ways of a list of routes.
pub open spec fn ways(routes: Seq<Route>) -> Seq<WayView> {
    routes.map_values(|route: Route| route.way())
}

/// Whether no way of a list was checked yet.
pub open spec fn all_fresh(routes: Seq<Route>) -> bool {
    forall|i: int| 0 <= i < routes.len() ==> (#[trigger] routes[i]).is_fresh()
}

fn place(routes: &mut Vec<Route>, route: Route)
    requires
        all_fresh(old(routes)@),
        route.is_fresh(),
    ensures
        ways(final(routes)@) == way_placed(ways(old(routes)@), route.way()),
        all_fresh(final(routes)@),
{
    let ghost given = routes@;
    let ghost all = ways(given);
    let ghost own = route.way();
    let mut at: usize = routes.len();
    assert(all.take(all.len() as int) == all);
    assert(all.skip(all.len() as int) =~= Seq::<WayView>::empty());
    assert(way_placed(all, own) =~= way_placed(all.take(all.len() as int), own) + all.skip(
        all.len() as int,
    ));
    while at > 0 && (text::before(&route.kind, &routes[at - 1].kind) || (text::same(
        &route.kind,
        &routes[at - 1].kind,
    ) && text::before(&route.name, &routes[at - 1].name)))
        invariant
            at <= routes.len(),
            routes@ == given,
            all == ways(given),
            own == route.way(),
            way_placed(all, own) == way_placed(all.take(at as int), own) + all.skip(at as int),
        decreases at,
    {
        proof {
            let front = all.take(at as int);
            assert(front.last() == all[at - 1]);
            assert(all[at - 1] == given[at - 1].way());
            assert(front.drop_last() == all.take(at - 1));
            assert(way_placed(front, own) == way_placed(all.take(at - 1), own).push(all[at - 1]));
            assert(way_placed(all.take(at - 1), own).push(all[at - 1]) + all.skip(at as int)
                =~= way_placed(all.take(at - 1), own) + all.skip(at - 1));
        }
        at = at - 1;
    }
    proof {
        let front = all.take(at as int);
        if at > 0 {
            assert(front.last() == all[at - 1]);
            assert(all[at - 1] == given[at - 1].way());
        }
        assert(way_placed(front, own) == front.push(own));
    }
    let ghost moved = route;
    routes.insert(at, route);
    proof {
        assert(routes@ == given.insert(at as int, moved));
        assert(ways(routes@) =~= all.take(at as int).push(own) + all.skip(at as int));
    }
}

/// The ways of all requests, in order.
pub fn routes(config: &Config, sources: &Table<String>, variables: &Table<String>) -> (result: Result<
    Vec<Route>,
    String,
>)
    requires
        config@.origin_count() <= usize::MAX,
    ensures
        match (result, ways_of(config@, sources@, variables@, config@.origin_count())) {
            (Ok(routes), Ok(expected)) => ways(routes@) == expected && all_fresh(routes@),
            (Err(reason), Err(expected)) => reason@ == expected,
            _ => false,
        },
{
    let total: usize = 1 + config.mcp.server_urls.len() + config.mcp.commands.len()
        + config.harpoon.targets.len();
    assert(total == config@.origin_count());
    let mut result: Vec<Route> = Vec::new();
    let mut index: usize = 0;
    assert(ways(result@) =~= Seq::<WayView>::empty());
    while index < total
        invariant
            index <= total,
            total == config@.origin_count(),
            ways_of(config@, sources@, variables@, index as int) == Ok::<Seq<WayView>, Seq<char>>(
                ways(result@),
            ),
            all_fresh(result@),
        decreases total - index,
    {
        proof {
            lemma_ways_fail(config@, sources@, variables@, index + 1, total as int);
        }
        match route(origin(config, sources, index), variables) {
            Ok(route) => {
                place(&mut result, route);
            },
            Err(reason) => {
                return Err(reason);
            },
        }
        index = index + 1;
    }
    Ok(result)
}

/// The service, the servers, the commands and the targets are told of in this order, each with the nearest proxy that
/// is configured for it: its own, that of its kind, or the common one.
pub proof fn lemma_nearest_proxy(config: ConfigView, sources: Map<Seq<char>, String>, at: int)
    requires
        0 <= at < config.origin_count(),
    ensures
        ({
            let origin = config.origin_at(sources, at);
            let servers = config.mcp.server_urls.len() as int;
            let commands = config.mcp.commands.len() as int;
            let value = match origin.explicit {
                Some((_, value)) => Some(value),
                None => None,
            };
            if at == 0 {
                &&& origin.kind == "control_plane"@
                &&& !origin.local
                &&& value == if config.control_plane.http_proxy is Some {
                    config.control_plane.http_proxy
                } else {
                    config.http_proxy
                }
            } else if at <= servers {
                let server = config.mcp.server_urls[at - 1];
                &&& origin.kind == "mcp_channel"@
                &&& origin.name == server.channel
                &&& origin.url == Some(server.url)
                &&& origin.local == server.unix_socket is Some
                &&& value == if server.http_proxy is Some {
                    server.http_proxy
                } else if config.mcp.http_proxy is Some {
                    config.mcp.http_proxy
                } else {
                    config.http_proxy
                }
            } else if at <= servers + commands {
                &&& origin.kind == "mcp_channel"@
                &&& origin.name == config.mcp.commands[at - 1 - servers].channel
                &&& origin.url is None
                &&& origin.local
                &&& value is None
            } else {
                let target = config.harpoon.targets[at - 1 - servers - commands];
                &&& origin.kind == "harpoon_target"@
                &&& origin.name == target.label
                &&& target.url.len() > 0 ==> origin.url == Some(target.url)
                &&& value == if config.harpoon.http_proxy is Some {
                    config.harpoon.http_proxy
                } else {
                    config.http_proxy
                }
            }
        }),
{
}

/// What is reached over a socket or by a command goes through no proxy; what is told of a proxy holds neither its user
/// nor its password.
pub proof fn lemma_way_shown(origin: OriginView, variables: Map<Seq<char>, String>, proxy: Parts, source: Seq<char>)
    ensures
        origin.local ==> (way_of(origin, variables) matches Ok(way) ==> way.through is None),
        origin.url is None ==> (way_of(origin, variables) matches Ok(way) && way.through is None
            && way.target.len() == 0),
        way_of(origin, variables) matches Ok(way) ==> way.kind == origin.kind && way.name == origin.name,
        through_of(proxy, source).source == source,
        proxy.host is Some && proxy.port is None ==> through_of(proxy, source).url == proxy.scheme + "://"@
            + proxy.host->0,
        proxy.host is Some && proxy.port is Some ==> through_of(proxy, source).url == proxy.scheme + "://"@
            + (proxy.host->0 + ":"@ + text::decimal_of(proxy.port->0 as nat)),
        through_of(proxy, source).id == digest::hex_of(
            digest::sha256_of(vstd::utf8::encode_utf8(through_of(proxy, source).url)),
        ),
{
}

/// A proxy is told of by where it was configured: by the name of its setting, or of its variable.
pub proof fn lemma_where_configured(name: Seq<char>, value: Seq<char>, scheme: Seq<char>, variables: Map<Seq<char>, String>)
    ensures
        !"env:"@.is_prefix_of(value) ==> configured_at(Some((name, value)), scheme, variables) == name,
        "env:"@.is_prefix_of(value) ==> configured_at(Some((name, value)), scheme, variables) == "env:"@
            + text::trim_of(value.subrange("env:"@.len() as int, value.len() as int)),
        is_given(variables, "HTTPS_PROXY"@) ==> configured_at(None, "https"@, variables) == "env:"@
            + "HTTPS_PROXY"@,
        !is_given(variables, "HTTPS_PROXY"@) && is_given(variables, "https_proxy"@) ==> configured_at(
            None,
            "https"@,
            variables,
        ) == "env:"@ + "https_proxy"@,
        is_given(variables, "HTTP_PROXY"@) && scheme != "https"@ ==> configured_at(None, scheme, variables)
            == "env:"@ + "HTTP_PROXY"@,
{
}

/// A route waits for its first check where it has a proxy, and is direct where it has none.
pub proof fn lemma_route_starts(route: Route)
    requires
        route.is_fresh(),
    ensures
        route.through is Some ==> route.state == RouteState::Pending,
        route.through is None ==> route.state == RouteState::Direct,
        route.history@.len() == 0 && route.last_check == 0 && route.last_success == 0,
        RouteState::Pending.word() == "pending"@ && RouteState::Direct.word() == "direct"@
            && RouteState::Healthy.word() == "healthy"@ && RouteState::Unhealthy.word() == "unhealthy"@,
{
}

/// The ways of a configuration: one to the service, one to each server, one to each command, which is local, and one to
/// each target.
pub proof fn lemma_origins_listed(config: ConfigView, sources: Map<Seq<char>, String>, at: int)
    ensures
        ({
            let servers = config.mcp.server_urls.len() as int;
            let commands = config.mcp.commands.len() as int;
            let targets = config.harpoon.targets.len() as int;
            &&& config.origin_count() == 1 + servers + commands + targets
            &&& config.origin_at(sources, 0).kind == "control_plane"@ && config.origin_at(sources, 0).url == Some(
                config.control_plane.base(),
            ) && !config.origin_at(sources, 0).local
            &&& 0 <= at < servers ==> {
                let origin = config.origin_at(sources, at + 1);
                &&& origin.kind == "mcp_channel"@ && origin.name == config.mcp.server_urls[at].channel
                &&& origin.url == Some(config.mcp.server_urls[at].url)
                &&& origin.local <==> config.mcp.server_urls[at].unix_socket is Some
            }
            &&& 0 <= at < commands ==> {
                let origin = config.origin_at(sources, at + 1 + servers);
                &&& origin.kind == "mcp_channel"@ && origin.name == config.mcp.commands[at].channel
                &&& origin.url is None && origin.local && origin.explicit is None
            }
            &&& 0 <= at < targets ==> {
                let origin = config.origin_at(sources, at + 1 + servers + commands);
                &&& origin.kind == "harpoon_target"@ && origin.name == config.harpoon.targets[at].label
                &&& config.harpoon.targets[at].url.len() > 0 ==> origin.url == Some(
                    config.harpoon.targets[at].url,
                )
                &&& origin.local <==> config.harpoon.targets[at].unix_socket is Some
            }
        }),
{
}

/// A host and its port, with brackets around an address of the newer kind.
pub proof fn lemma_host_port(url: Parts, host: Seq<char>, port: u16)
    requires
        url.host == Some(host),
    ensures
        !text::unbracketed(host).contains(':') && url.known_port == Some(port) ==> host_port_of(url)
            == text::unbracketed(host) + ":"@ + text::decimal_of(port as nat),
        text::unbracketed(host).contains(':') && url.known_port == Some(port) ==> host_port_of(url) == "["@
            + text::unbracketed(host) + "]"@ + ":"@ + text::decimal_of(port as nat),
        url.port == Some(port) ==> shown_url(url) == url.scheme + "://"@ + (host + ":"@ + text::decimal_of(
            port as nat,
        )),
        url.port is None ==> shown_url(url) == url.scheme + "://"@ + host,
{
}

/// The shown address of a proxy names neither its user nor its password.
pub proof fn lemma_proxy_shown(left: Parts, right: Parts)
    requires
        left.scheme == right.scheme,
        left.host == right.host,
        left.port == right.port,
    ensures
        shown_url(left) == shown_url(right),
        through_of(left, left.scheme).id == through_of(right, right.scheme).id,
{
}

/// The ways are kept in order, and each of them is kept.
pub proof fn lemma_ways_placed(items: Seq<WayView>, way: WayView)
    ensures
        way_placed(items, way).len() == items.len() + 1,
        way_placed(items, way).contains(way),
        forall|other: WayView| items.contains(other) ==> #[trigger] way_placed(items, way).contains(other),
    decreases items.len(),
{
    let all = way_placed(items, way);
    if items.len() == 0 || !way_before(way, items.last()) {
        assert(all[items.len() as int] == way);
        assert forall|other: WayView| items.contains(other) implies #[trigger] all.contains(other) by {
            let i = choose|i: int| 0 <= i < items.len() && items[i] == other;
            assert(all[i] == other);
        }
    } else {
        let front = items.drop_last();
        let rest = way_placed(front, way);
        lemma_ways_placed(front, way);
        let k = choose|k: int| 0 <= k < rest.len() && rest[k] == way;
        assert(all[k] == way);
        assert forall|other: WayView| items.contains(other) implies #[trigger] all.contains(other) by {
            let i = choose|i: int| 0 <= i < items.len() && items[i] == other;
            if i < front.len() {
                assert(front[i] == other);
                assert(rest.contains(other));
                let j = choose|j: int| 0 <= j < rest.len() && rest[j] == other;
                assert(all[j] == other);
            } else {
                assert(all[rest.len() as int] == other);
            }
        }
    }
}

} // verus!
