//! The checks of a configuration before the client runs.

use vstd::prelude::*;
use crate::address::{self, parsed_url, Address, Parts};
use crate::checks::{either, fault_from, first_fault, tells, unless};
use crate::config::duration::Span;
use crate::config::reference::{self, headers_fault, resolved_of, Sources};
use crate::config::settings::{Config, ConfigView, Mcp, McpView, Target, TargetView};
use crate::config::values::{channel, channel_of};
use crate::{pattern, text};

verus! {

impl ConfigView {
    /// Why a setting of a user interface is refused, if so: this client has none.
    pub open spec fn scope_fault(self) -> Option<Seq<char>> {
        either(
            unless(
                !self.admin_ui.allow_remote,
                "admin_ui.allow_remote must retain its default in otunnel"@,
            ),
            either(
                unless(
                    !self.admin_ui.open_browser,
                    "admin_ui.open_browser must retain its default in otunnel"@,
                ),
                either(
                    unless(
                        self.admin_ui.log_buffer_events == 2000,
                        "admin_ui.log_buffer_events must retain its default in otunnel"@,
                    ),
                    unless(
                        !self.harpoon.capture_payloads,
                        "harpoon.capture_payloads must retain its default in otunnel"@,
                    ),
                ),
            ),
        )
    }
}

impl Config {
    /// Checks the settings of a user interface.
    pub fn scope(&self) -> (result: Result<(), String>)
        ensures
            tells(result, self@.scope_fault()),
    {
        if self.admin_ui.allow_remote {
            return Err("admin_ui.allow_remote must retain its default in otunnel".to_owned());
        }
        if self.admin_ui.open_browser {
            return Err("admin_ui.open_browser must retain its default in otunnel".to_owned());
        }
        if self.admin_ui.log_buffer_events != 2000 {
            return Err("admin_ui.log_buffer_events must retain its default in otunnel".to_owned());
        }
        if self.harpoon.capture_payloads {
            return Err("harpoon.capture_payloads must retain its default in otunnel".to_owned());
        }
        Ok(())
    }
}

impl TargetView {
    /// Why a header of the template of the target is refused, if so.
    pub open spec fn template_headers_fault(self) -> Option<Seq<char>> {
        match self.template {
            Some(template) => headers_fault(
                "harpoon.targets.template.headers"@,
                template.headers.keys(),
                template.headers.values(),
                false,
            ),
            None => None,
        }
    }
}

impl Target {
    /// Checks the headers of the template of the target.
    pub fn check_template_headers(&self) -> (result: Result<(), String>)
        ensures
            tells(result, self@.template_headers_fault()),
    {
        match &self.template {
            Some(template) => reference::header_syntax(
                "harpoon.targets.template.headers",
                &template.headers,
                false,
            ),
            None => Ok(()),
        }
    }
}

impl ConfigView {
    /// Why a header of the targets is refused, if so.
    pub open spec fn target_headers_fault(self) -> Option<Seq<char>> {
        let targets = self.harpoon.targets;
        first_fault(targets.len() as int, |i: int| targets[i].template_headers_fault())
    }

    /// Why a configured header is refused, if so. At run time the settings go by the names of their
    /// flags.
    pub open spec fn all_headers_fault(self, runtime: bool) -> Option<Seq<char>> {
        either(
            headers_fault(
                if runtime {
                    "control-plane.extra-headers"@
                } else {
                    "control_plane.extra_headers"@
                },
                self.control_plane.extra_headers.keys(),
                self.control_plane.extra_headers.values(),
                true,
            ),
            either(
                headers_fault(
                    if runtime {
                        "mcp.extra-headers"@
                    } else {
                        "mcp.extra_headers"@
                    },
                    self.mcp.extra_headers.keys(),
                    self.mcp.extra_headers.values(),
                    false,
                ),
                either(
                    headers_fault(
                        if runtime {
                            "mcp.discovery-extra-headers"@
                        } else {
                            "mcp.discovery_extra_headers"@
                        },
                        self.mcp.discovery_extra_headers.keys(),
                        self.mcp.discovery_extra_headers.values(),
                        false,
                    ),
                    self.target_headers_fault(),
                ),
            ),
        )
    }
}

impl Config {
    fn check_target_headers(&self) -> (result: Result<(), String>)
        ensures
            tells(result, self@.target_headers_fault()),
    {
        let items = &self.harpoon.targets;
        let ghost targets = self@.harpoon.targets;
        let ghost fault = |i: int| targets[i].template_headers_fault();
        let mut index: usize = 0;
        while index < items.len()
            invariant
                index <= items.len(),
                *items == self.harpoon.targets,
                targets == self@.harpoon.targets,
                fault == (|i: int| targets[i].template_headers_fault()),
                first_fault(targets.len() as int, fault) == fault_from(
                    index as int,
                    targets.len() as int,
                    fault,
                ),
            decreases items.len() - index,
        {
            assert(targets[index as int] == items@[index as int]@);
            assert(fault(index as int) == items@[index as int]@.template_headers_fault());
            match items[index].check_template_headers() {
                Ok(()) => {},
                Err(reason) => {
                    return Err(reason);
                },
            }
            index = index + 1;
        }
        Ok(())
    }

    /// Checks the configured headers.
    pub fn validate_headers(&self, runtime: bool) -> (result: Result<(), String>)
        ensures
            tells(result, self@.all_headers_fault(runtime)),
    {
        let control = if runtime {
            "control-plane.extra-headers"
        } else {
            "control_plane.extra_headers"
        };
        let mcp = if runtime {
            "mcp.extra-headers"
        } else {
            "mcp.extra_headers"
        };
        let discovery = if runtime {
            "mcp.discovery-extra-headers"
        } else {
            "mcp.discovery_extra_headers"
        };
        match reference::header_syntax(control, &self.control_plane.extra_headers, true) {
            Ok(()) => {},
            Err(reason) => {
                return Err(reason);
            },
        }
        match reference::header_syntax(mcp, &self.mcp.extra_headers, false) {
            Ok(()) => {},
            Err(reason) => {
                return Err(reason);
            },
        }
        match reference::header_syntax(discovery, &self.mcp.discovery_extra_headers, false) {
            Ok(()) => {},
            Err(reason) => {
                return Err(reason);
            },
        }
        self.check_target_headers()
    }
}

/// A character that an origin cannot hold behind its scheme.
pub open spec fn is_origin_mark(ch: char) -> bool {
    ch == '@' || ch == '/' || ch == '?' || ch == '#' || ch == '\\' || ch == '%'
}

/// Whether the text behind the scheme is a host with an optional port.
pub open spec fn is_authority(value: Seq<char>) -> bool {
    match text::split_at_of(value, "://"@) {
        None => false,
        Some((_, rest)) => {
            let authority = text::trim_end_char_of(rest, '/');
            &&& authority.len() > 0
            &&& text::every(authority, |ch: char| !is_origin_mark(ch))
            &&& authority.last() != ':'
        },
    }
}

fn authority(value: &str) -> (result: bool)
    ensures
        result == is_authority(value@),
{
    let (front, rest) = match text::split_at(value, "://") {
        Some(pair) => pair,
        None => {
            return false;
        },
    };
    let trimmed = text::trim_end_char(&rest, '/');
    let all = text::chars(&trimmed);
    let ghost test = |ch: char| !is_origin_mark(ch);
    let mut index: usize = 0;
    while index < all.len()
        invariant
            index <= all.len(),
            all@ == trimmed@,
            test == (|ch: char| !is_origin_mark(ch)),
            forall|i: int| 0 <= i < index ==> test(#[trigger] trimmed@[i]),
            text::split_at_of(value@, "://"@) == Some((front@, rest@)),
            trimmed@ == text::trim_end_char_of(rest@, '/'),
        decreases all.len() - index,
    {
        let ch = all[index];
        if ch == '@' || ch == '/' || ch == '?' || ch == '#' || ch == '\\' || ch == '%' {
            assert(!test(trimmed@[index as int]));
            return false;
        }
        assert(test(trimmed@[index as int]));
        index = index + 1;
    }
    all.len() > 0 && all[all.len() - 1] != ':'
}

fn spaceless(value: &str) -> (result: bool)
    ensures
        result == text::every(value@, |ch: char| !text::is_space(ch)),
{
    let all = text::chars(value);
    let ghost test = |ch: char| !text::is_space(ch);
    let mut index: usize = 0;
    while index < all.len()
        invariant
            index <= all.len(),
            all@ == value@,
            test == (|ch: char| !text::is_space(ch)),
            forall|i: int| 0 <= i < index ==> test(#[trigger] value@[i]),
        decreases all.len() - index,
    {
        if text::space(all[index]) {
            assert(!test(value@[index as int]));
            return false;
        }
        assert(test(value@[index as int]));
        index = index + 1;
    }
    true
}

/// Whether the URL is an origin of the web: a scheme, a host and an optional port.
pub open spec fn is_origin(value: Seq<char>, parts: Parts) -> bool {
    &&& parts.scheme == "http"@ || parts.scheme == "https"@
    &&& parts.host is Some
    &&& parts.path == "/"@
    &&& parts.query is None
    &&& parts.fragment is None
    &&& is_authority(value)
    &&& text::every(value, |ch: char| !text::is_space(ch))
    &&& !"//"@.is_suffix_of(value)
    &&& parts.port != Some(0u16)
}

/// Why a trusted origin is refused, if so.
pub open spec fn trusted_fault(value: Seq<char>) -> Option<Seq<char>> {
    match parsed_url(value) {
        Err(_) => Some("invalid OAuth origin"@),
        Ok(parts) => unless(
            is_origin(value, parts),
            "mcp.oauth_trusted_origins: expected an HTTP(S) origin without credentials, path, query, or fragment"@,
        ),
    }
}

fn trusted(value: &str) -> (result: Result<Address, String>)
    ensures
        match result {
            Ok(address) => trusted_fault(value@) is None && parsed_url(value@) == Ok::<
                Parts,
                Seq<char>,
            >(address.parts()),
            Err(reason) => trusted_fault(value@) == Some(reason@),
        },
{
    let parts = match address::parse(value) {
        Ok(parts) => parts,
        Err(_) => {
            return Err("invalid OAuth origin".to_owned());
        },
    };
    let zero = match parts.port {
        Some(port) => port == 0,
        None => false,
    };
    if !(text::same(&parts.scheme, "http") || text::same(&parts.scheme, "https"))
        || parts.host.is_none() || !text::same(&parts.path, "/") || parts.query.is_some()
        || parts.fragment.is_some() || !authority(value) || !spaceless(value) || text::ends_with(
        value,
        "//",
    ) || zero {
        return Err(
            "mcp.oauth_trusted_origins: expected an HTTP(S) origin without credentials, path, query, or fragment".to_owned(),
        );
    }
    Ok(parts)
}

impl McpView {
    /// Why a trusted origin is refused, if so.
    pub open spec fn origins_fault(self) -> Option<Seq<char>> {
        let origins = self.oauth_trusted_origins;
        first_fault(origins.len() as int, |i: int| trusted_fault(origins[i]))
    }
}

impl Mcp {
    /// The trusted origins.
    pub fn oauth_origins(&self) -> (result: Result<Vec<Address>, String>)
        ensures
            match result {
                Ok(items) => self@.origins_fault() is None && items@.len()
                    == self.oauth_trusted_origins@.len() && forall|i: int|
                    0 <= i < items@.len() ==> parsed_url(self.oauth_trusted_origins@[i]@) == Ok::<
                        Parts,
                        Seq<char>,
                    >((#[trigger] items@[i]).parts()),
                Err(reason) => self@.origins_fault() == Some(reason@),
            },
    {
        let values = &self.oauth_trusted_origins;
        let ghost origins = self@.oauth_trusted_origins;
        let ghost fault = |i: int| trusted_fault(origins[i]);
        let mut items: Vec<Address> = Vec::new();
        let mut index: usize = 0;
        while index < values.len()
            invariant
                index <= values.len(),
                *values == self.oauth_trusted_origins,
                origins == self@.oauth_trusted_origins,
                fault == (|i: int| trusted_fault(origins[i])),
                first_fault(origins.len() as int, fault) == fault_from(
                    index as int,
                    origins.len() as int,
                    fault,
                ),
                items@.len() == index,
                forall|i: int|
                    0 <= i < index ==> parsed_url(values@[i]@) == Ok::<Parts, Seq<char>>(
                        (#[trigger] items@[i]).parts(),
                    ),
            decreases values.len() - index,
        {
            assert(origins[index as int] == values@[index as int]@);
            assert(fault(index as int) == trusted_fault(values@[index as int]@));
            match trusted(&values[index]) {
                Ok(address) => {
                    items.push(address);
                },
                Err(reason) => {
                    return Err(reason);
                },
            }
            index = index + 1;
        }
        Ok(items)
    }
}

/// Whether the text names a tunnel.
pub open spec fn is_tunnel_id(value: Seq<char>) -> bool {
    match text::after_prefix(value, "tunnel_"@) {
        Some(id) => id.len() == 32 && text::every(
            id,
            |ch: char| text::is_lower(ch) || text::is_digit(ch),
        ),
        None => false,
    }
}

/// Whether the text names a tunnel.
pub fn tunnel_id(value: &str) -> (result: bool)
    ensures
        result == is_tunnel_id(value@),
{
    let id = match text::strip_prefix(value, "tunnel_") {
        Some(id) => id,
        None => {
            return false;
        },
    };
    let all = text::chars(&id);
    if all.len() != 32 {
        return false;
    }
    let ghost test = |ch: char| text::is_lower(ch) || text::is_digit(ch);
    let mut index: usize = 0;
    while index < all.len()
        invariant
            index <= all.len(),
            all@ == id@,
            all@.len() == 32,
            text::after_prefix(value@, "tunnel_"@) == Some(id@),
            test == (|ch: char| text::is_lower(ch) || text::is_digit(ch)),
            forall|i: int| 0 <= i < index ==> test(#[trigger] id@[i]),
        decreases all.len() - index,
    {
        if !text::small(all[index]) && !text::digit(all[index]) {
            assert(!test(id@[index as int]));
            return false;
        }
        assert(test(id@[index as int]));
        index = index + 1;
    }
    true
}

/// A character of an API key.
pub open spec fn is_key_char(ch: char) -> bool {
    text::is_alnum(ch) || ch == '_' || ch == '-'
}

/// Whether the text is made of the characters of an API key.
pub fn key_text(value: &str) -> (result: bool)
    ensures
        result == text::every(value@, |ch: char| is_key_char(ch)),
{
    let all = text::chars(value);
    let ghost test = |ch: char| is_key_char(ch);
    let mut index: usize = 0;
    while index < all.len()
        invariant
            index <= all.len(),
            all@ == value@,
            test == (|ch: char| is_key_char(ch)),
            forall|i: int| 0 <= i < index ==> test(#[trigger] value@[i]),
        decreases all.len() - index,
    {
        let ch = all[index];
        if !(text::alnum(ch) || ch == '_' || ch == '-') {
            assert(!test(value@[index as int]));
            return false;
        }
        assert(test(value@[index as int]));
        index = index + 1;
    }
    true
}

impl ConfigView {
    /// Why the settings of the log are refused, if so.
    pub open spec fn log_fault(self) -> Option<Seq<char>> {
        let level = text::lowercase_of(text::trim_of(self.log.level));
        let format = text::lowercase_of(text::trim_of(self.log.format));
        either(
            unless(
                level == "debug"@ || level == "info"@ || level == "warn"@ || level == "error"@,
                "parse log level "@ + text::debug_text(self.log.level)
                    + ": expected debug, info, warn, or error"@,
            ),
            either(
                unless(
                    format.len() == 0 || format == "struct-text"@ || format == "json"@,
                    "unsupported log format "@ + text::debug_text(self.log.format)
                        + ": supported formats are \"struct-text\" or \"json\""@,
                ),
                unless(
                    level == "info"@ || format.len() > 0,
                    "log level requires 'struct-text' or 'json' log format"@,
                ),
            ),
        )
    }

    /// Why the identity of the client is refused, if so.
    pub open spec fn identity_fault(self, sources: Sources) -> Option<Seq<char>> {
        either(
            unless(
                self.config_version is None || self.config_version == Some(1u8)
                    || self.config_version == Some(2u8),
                "unsupported config_version"@,
            ),
            either(
                unless(
                    is_tunnel_id(self.control_plane.tunnel_id),
                    "invalid tunnel ID: expected tunnel_<32 lowercase letters or digits>"@,
                ),
                match resolved_of("control_plane.api_key"@, self.control_plane.api_key, sources) {
                    Err(reason) => Some(reason),
                    Ok(key) => unless(
                        text::every(key, |ch: char| is_key_char(ch)),
                        "control plane API key is malformed"@,
                    ),
                },
            ),
        )
    }

    /// Why the limits of the client are refused, if so.
    pub open spec fn limits_fault(self) -> Option<Seq<char>> {
        let control = self.control_plane;
        either(
            unless(
                control.max_inflight_requests > 0 && self.mcp.max_concurrent_requests > 0,
                "request concurrency must be positive"@,
            ),
            either(
                unless(
                    control.max_inflight_requests <= 10000,
                    "control-plane.max-inflight must be less than or equal to 10000"@,
                ),
                self.times_fault(),
            ),
        )
    }

    /// Why a span of time is refused, if so.
    pub open spec fn times_fault(self) -> Option<Seq<char>> {
        let control = self.control_plane;
        let guardrail = control.poll_deadline_guardrail.0 as int;
        either(
            unless(control.poll_timeout.0 > 0, "control-plane.poll-timeout must be positive"@),
            either(
                unless(
                    control.initial_poll_timeout.0 > 0,
                    "control-plane.initial-poll-timeout must be positive"@,
                ),
                either(
                    unless(
                        guardrail > 0,
                        "control-plane.poll-deadline-guardrail must be positive"@,
                    ),
                    either(
                        unless(
                            self.cloudflared.ready_timeout.0 > 0,
                            "cloudflared.ready-timeout must be positive"@,
                        ),
                        either(
                            unless(
                                match self.mcp.connection_max_ttl {
                                    Some(span) => span.0 > 0,
                                    None => false,
                                },
                                "mcp.connection-max-ttl must be positive"@,
                            ),
                            either(
                                unless(
                                    guardrail < 60_000_000_000,
                                    "control-plane.poll-deadline-guardrail must be less than 1m0s"@,
                                ),
                                either(
                                    unless(
                                        control.poll_timeout.0 + guardrail <= 600_000_000_000,
                                        "control-plane.poll-timeout plus control-plane.poll-deadline-guardrail must be less than or equal to 10m0s"@,
                                    ),
                                    unless(
                                        self.proxy.check_interval.0 > 0,
                                        "proxy.check-interval must be positive"@,
                                    ),
                                ),
                            ),
                        ),
                    ),
                ),
            ),
        )
    }
}

fn positive(span: Span) -> (result: bool)
    ensures
        result == (span.0 > 0),
{
    span.0 > 0
}

impl Config {
    fn check_log(&self) -> (result: Result<(), String>)
        ensures
            tells(result, self@.log_fault()),
    {
        let level = text::lowercase(&text::trim(&self.log.level));
        if !text::same(&level, "debug") && !text::same(&level, "info") && !text::same(
            &level,
            "warn",
        ) && !text::same(&level, "error") {
            return Err(
                text::cat3(
                    "parse log level ",
                    &text::quoted(&self.log.level),
                    ": expected debug, info, warn, or error",
                ),
            );
        }
        let format = text::lowercase(&text::trim(&self.log.format));
        if !format.is_empty() && !text::same(&format, "struct-text") && !text::same(
            &format,
            "json",
        ) {
            return Err(
                text::cat3(
                    "unsupported log format ",
                    &text::quoted(&self.log.format),
                    ": supported formats are \"struct-text\" or \"json\"",
                ),
            );
        }
        if !text::same(&level, "info") && format.is_empty() {
            return Err("log level requires 'struct-text' or 'json' log format".to_owned());
        }
        Ok(())
    }

    fn check_identity(&self, sources: &Sources) -> (result: Result<(), String>)
        ensures
            tells(result, self@.identity_fault(*sources)),
    {
        if let Some(version) = self.config_version {
            if version != 1 && version != 2 {
                return Err("unsupported config_version".to_owned());
            }
        }
        if !tunnel_id(&self.control_plane.tunnel_id) {
            return Err(
                "invalid tunnel ID: expected tunnel_<32 lowercase letters or digits>".to_owned(),
            );
        }
        match reference::resolve_named(
            "control_plane.api_key",
            &self.control_plane.api_key,
            sources,
        ) {
            Err(reason) => Err(reason),
            Ok(key) => if key_text(&key) {
                Ok(())
            } else {
                Err("control plane API key is malformed".to_owned())
            },
        }
    }

    fn check_times(&self) -> (result: Result<(), String>)
        ensures
            tells(result, self@.times_fault()),
    {
        let control = &self.control_plane;
        if !positive(control.poll_timeout) {
            return Err("control-plane.poll-timeout must be positive".to_owned());
        }
        if !positive(control.initial_poll_timeout) {
            return Err("control-plane.initial-poll-timeout must be positive".to_owned());
        }
        if !positive(control.poll_deadline_guardrail) {
            return Err("control-plane.poll-deadline-guardrail must be positive".to_owned());
        }
        if !positive(self.cloudflared.ready_timeout) {
            return Err("cloudflared.ready-timeout must be positive".to_owned());
        }
        let living = match self.mcp.connection_max_ttl {
            Some(span) => positive(span),
            None => false,
        };
        if !living {
            return Err("mcp.connection-max-ttl must be positive".to_owned());
        }
        let guardrail: u64 = control.poll_deadline_guardrail.0;
        if guardrail >= 60_000_000_000 {
            return Err("control-plane.poll-deadline-guardrail must be less than 1m0s".to_owned());
        }
        if control.poll_timeout.0 > 600_000_000_000 - guardrail {
            return Err(
                "control-plane.poll-timeout plus control-plane.poll-deadline-guardrail must be less than or equal to 10m0s".to_owned(),
            );
        }
        if !positive(self.proxy.check_interval) {
            return Err("proxy.check-interval must be positive".to_owned());
        }
        Ok(())
    }

    fn check_limits(&self) -> (result: Result<(), String>)
        ensures
            tells(result, self@.limits_fault()),
    {
        if self.control_plane.max_inflight_requests == 0 || self.mcp.max_concurrent_requests == 0 {
            return Err("request concurrency must be positive".to_owned());
        }
        if self.control_plane.max_inflight_requests > 10000 {
            return Err("control-plane.max-inflight must be less than or equal to 10000".to_owned());
        }
        self.check_times()
    }
}

/// Why an additional transport is refused, if so.
pub open spec fn transport_fault(value: Seq<char>) -> Option<Seq<char>> {
    unless(
        text::same_folded(text::trim_of(value), "http-streamable"@),
        "unsupported harpoon transport "@ + text::debug_text(text::trim_of(value)),
    )
}

/// The expression that a configured host pattern stands for.
pub open spec fn host_expression(value: Seq<char>) -> Seq<char> {
    "(?i:"@ + text::trim_of(value) + ")"@
}

/// Why a pattern of hosts is refused, if so.
pub open spec fn host_fault(value: Seq<char>) -> Option<Seq<char>> {
    unless(
        pattern::regex_valid(host_expression(value)),
        "invalid harpoon host regex "@ + text::debug_text(value),
    )
}

impl ConfigView {
    /// Why a setting of the targets is refused, if so.
    pub open spec fn harpoon_fault(self) -> Option<Seq<char>> {
        let limit = self.harpoon.max_response_bytes;
        let transports = self.harpoon.additional_transports;
        let hosts = self.harpoon.hosts_include_regex;
        either(
            unless(
                limit is Some ==> limit->0 > 0,
                "harpoon.max-response-bytes must be positive"@,
            ),
            either(
                unless(
                    limit is Some ==> limit->0 <= 102400,
                    "harpoon.max-response-bytes must be less than or equal to 102400"@,
                ),
                either(
                    unless(
                        self.harpoon.max_redirects <= 5,
                        "harpoon.max-redirects must be less than or equal to 5"@,
                    ),
                    either(
                        first_fault(
                            transports.len() as int,
                            |i: int| transport_fault(transports[i]),
                        ),
                        first_fault(hosts.len() as int, |i: int| host_fault(hosts[i])),
                    ),
                ),
            ),
        )
    }
}

impl Config {
    fn check_harpoon(&self) -> (result: Result<(), String>)
        ensures
            tells(result, self@.harpoon_fault()),
    {
        if let Some(limit) = self.harpoon.max_response_bytes {
            if limit == 0 {
                return Err("harpoon.max-response-bytes must be positive".to_owned());
            }
            if limit > 102400 {
                return Err(
                    "harpoon.max-response-bytes must be less than or equal to 102400".to_owned(),
                );
            }
        }
        if self.harpoon.max_redirects > 5 {
            return Err("harpoon.max-redirects must be less than or equal to 5".to_owned());
        }
        match check_transports(&self.harpoon.additional_transports) {
            Ok(()) => {},
            Err(reason) => {
                return Err(reason);
            },
        }
        check_hosts(&self.harpoon.hosts_include_regex)
    }
}

fn check_transports(values: &Vec<String>) -> (result: Result<(), String>)
    ensures
        tells(
            result,
            ({
                let items = text::views(values@);
                first_fault(items.len() as int, |i: int| transport_fault(items[i]))
            }),
        ),
{
    let ghost items = text::views(values@);
    let ghost fault = |i: int| transport_fault(items[i]);
    let mut index: usize = 0;
    while index < values.len()
        invariant
            index <= values.len(),
            items == text::views(values@),
            fault == (|i: int| transport_fault(items[i])),
            first_fault(items.len() as int, fault) == fault_from(
                index as int,
                items.len() as int,
                fault,
            ),
        decreases values.len() - index,
    {
        assert(fault(index as int) == transport_fault(values@[index as int]@));
        let trimmed = text::trim(&values[index]);
        if !text::same_ignoring_case(&trimmed, "http-streamable") {
            return Err(text::cat("unsupported harpoon transport ", &text::quoted(&trimmed)));
        }
        index = index + 1;
    }
    Ok(())
}

fn check_hosts(values: &Vec<String>) -> (result: Result<(), String>)
    ensures
        tells(
            result,
            ({
                let items = text::views(values@);
                first_fault(items.len() as int, |i: int| host_fault(items[i]))
            }),
        ),
{
    let ghost items = text::views(values@);
    let ghost fault = |i: int| host_fault(items[i]);
    let mut index: usize = 0;
    while index < values.len()
        invariant
            index <= values.len(),
            items == text::views(values@),
            fault == (|i: int| host_fault(items[i])),
            first_fault(items.len() as int, fault) == fault_from(
                index as int,
                items.len() as int,
                fault,
            ),
        decreases values.len() - index,
    {
        assert(fault(index as int) == host_fault(values@[index as int]@));
        if !pattern::compiles(&text::cat3("(?i:", &text::trim(&values[index]), ")")) {
            return Err(text::cat("invalid harpoon host regex ", &text::quoted(&values[index])));
        }
        index = index + 1;
    }
    Ok(())
}

impl ConfigView {
    /// The names of channels with a binding: the servers, the commands, and others.
    pub open spec fn bindings(self, additional: Seq<Seq<char>>) -> Seq<Seq<char>> {
        let servers = self.mcp.server_urls;
        let commands = self.mcp.commands;
        Seq::new(servers.len(), |i: int| servers[i].channel) + Seq::new(
            commands.len(),
            |i: int| commands[i].channel,
        ) + additional
    }
}

/// Why the binding of a channel is refused, if so.
pub open spec fn binding_fault(names: Seq<Seq<char>>, at: int) -> Option<Seq<char>> {
    match channel_of(names[at]) {
        Err(reason) => Some(reason),
        Ok(name) => unless(
            !(exists|j: int|
                0 <= j < at && channel_of(#[trigger] names[j]) == Ok::<Seq<char>, Seq<char>>(name)),
            "channel "@ + name + " has multiple bindings"@,
        ),
    }
}

/// Why the bindings of channels are refused, if so.
pub open spec fn bindings_fault(names: Seq<Seq<char>>) -> Option<Seq<char>> {
    first_fault(names.len() as int, |i: int| binding_fault(names, i))
}

/// Whether some binding is one of the channel.
pub open spec fn is_bound(names: Seq<Seq<char>>, name: Seq<char>) -> bool {
    exists|i: int|
        0 <= i < names.len() && channel_of(#[trigger] names[i]) == Ok::<Seq<char>, Seq<char>>(name)
}

impl ConfigView {
    /// Why a channel that is polled is refused, if so.
    pub open spec fn polled_fault(self, names: Seq<Seq<char>>, polled: Seq<Seq<char>>, at: int) -> Option<
        Seq<char>,
    > {
        let name = polled[at];
        if name == "harpoon"@ {
            unless(
                is_bound(names, "harpoon"@) || self.harpoon.targets.len() > 0 || polled.contains(
                    "main"@,
                ),
                "control-plane.poll-channel harpoon has no routable target"@,
            )
        } else {
            unless(
                is_bound(names, name),
                "control-plane.poll-channel "@ + text::debug_text(name)
                    + " has no local handler"@,
            )
        }
    }

    /// Why the channels that are polled are refused, if so.
    pub open spec fn routes_fault(self, names: Seq<Seq<char>>) -> Option<Seq<char>> {
        match self.control_plane.poll_channels {
            None => unless(
                is_bound(names, "main"@),
                if names.len() == 0 {
                    "main channel is required; set --mcp.server-url or --mcp.command, or MCP_SERVER_URL or MCP_COMMAND"@
                } else {
                    "main channel is required; add channel=main to one --mcp.server-url or --mcp.command entry"@
                },
            ),
            Some(polled) => first_fault(
                polled.len() as int,
                |i: int| self.polled_fault(names, polled, i),
            ),
        }
    }

    /// Why the configuration is refused, if so.
    pub open spec fn fault(self, additional: Seq<Seq<char>>, sources: Sources) -> Option<Seq<char>> {
        let names = self.bindings(additional);
        either(
            self.scope_fault(),
            either(
                self.all_headers_fault(true),
                either(
                    self.mcp.origins_fault(),
                    either(
                        unless(
                            self.control_plane.organization_id is Some ==> !(
                            self.control_plane.organization_id->0.contains('\r')
                                || self.control_plane.organization_id->0.contains('\n')),
                            "control-plane.organization-id cannot contain header line breaks"@,
                        ),
                        either(
                            self.log_fault(),
                            either(
                                self.identity_fault(sources),
                                either(
                                    self.limits_fault(),
                                    either(
                                        self.harpoon_fault(),
                                        either(bindings_fault(names), self.routes_fault(names)),
                                    ),
                                ),
                            ),
                        ),
                    ),
                ),
            ),
        )
    }
}

/// Whether the channels are those of the names.
pub open spec fn bound_list(channels: Seq<String>, names: Seq<Seq<char>>) -> bool {
    &&& channels.len() == names.len()
    &&& forall|i: int|
        0 <= i < names.len() ==> channel_of(#[trigger] names[i]) == Ok::<Seq<char>, Seq<char>>(
            channels[i]@,
        )
}

proof fn lemma_bound(channels: Seq<String>, names: Seq<Seq<char>>, name: Seq<char>)
    requires
        bound_list(channels, names),
    ensures
        text::views(channels).contains(name) == is_bound(names, name),
{
    let all = text::views(channels);
    if all.contains(name) {
        let i = choose|i: int| 0 <= i < all.len() && all[i] == name;
        assert(channels[i]@ == name);
        assert(channel_of(names[i]) == Ok::<Seq<char>, Seq<char>>(name));
    }
    if is_bound(names, name) {
        let i = choose|i: int|
            0 <= i < names.len() && channel_of(#[trigger] names[i]) == Ok::<Seq<char>, Seq<char>>(
                name,
            );
        assert(all[i] == name);
    }
}

fn bind(names: &Vec<String>) -> (result: Result<Vec<String>, String>)
    ensures
        match result {
            Ok(channels) => bindings_fault(text::views(names@)) is None && bound_list(
                channels@,
                text::views(names@),
            ),
            Err(reason) => bindings_fault(text::views(names@)) == Some(reason@),
        },
{
    let ghost all = text::views(names@);
    let ghost fault = |i: int| binding_fault(all, i);
    let mut channels: Vec<String> = Vec::new();
    let mut index: usize = 0;
    while index < names.len()
        invariant
            index <= names.len(),
            all == text::views(names@),
            fault == (|i: int| binding_fault(all, i)),
            first_fault(all.len() as int, fault) == fault_from(index as int, all.len() as int, fault),
            bound_list(channels@, all.take(index as int)),
        decreases names.len() - index,
    {
        assert(fault(index as int) == binding_fault(all, index as int));
        assert(all[index as int] == names@[index as int]@);
        let name = match channel(&names[index]) {
            Ok(name) => name,
            Err(reason) => {
                return Err(reason);
            },
        };
        let ghost front = all.take(index as int);
        proof {
            lemma_bound(channels@, front, name@);
            if is_bound(front, name@) {
                let j = choose|j: int|
                    0 <= j < front.len() && channel_of(#[trigger] front[j]) == Ok::<
                        Seq<char>,
                        Seq<char>,
                    >(name@);
                assert(channel_of(all[j]) == Ok::<Seq<char>, Seq<char>>(name@));
            } else if exists|j: int|
                0 <= j < index && channel_of(#[trigger] all[j]) == Ok::<Seq<char>, Seq<char>>(
                    name@,
                ) {
                let j = choose|j: int|
                    0 <= j < index && channel_of(#[trigger] all[j]) == Ok::<Seq<char>, Seq<char>>(
                        name@,
                    );
                assert(channel_of(front[j]) == Ok::<Seq<char>, Seq<char>>(name@));
            }
        }
        if text::contained(&channels, &name) {
            return Err(text::cat3("channel ", &name, " has multiple bindings"));
        }
        proof {
            let longer = all.take(index + 1);
            assert forall|i: int| 0 <= i < longer.len() implies channel_of(#[trigger] longer[i])
                == Ok::<Seq<char>, Seq<char>>(channels@.push(name)[i]@) by {
                if i < index {
                    assert(longer[i] == front[i]);
                }
            }
        }
        channels.push(name);
        index = index + 1;
    }
    assert(all.take(all.len() as int) == all);
    Ok(channels)
}

impl Config {
    fn binding_names(&self, additional: &Vec<String>) -> (result: Vec<String>)
        ensures
            text::views(result@) == self@.bindings(text::views(additional@)),
    {
        let ghost servers = self@.mcp.server_urls;
        let ghost commands = self@.mcp.commands;
        let ghost first = Seq::new(servers.len(), |i: int| servers[i].channel);
        let ghost second = Seq::new(commands.len(), |i: int| commands[i].channel);
        let ghost third = text::views(additional@);
        let mut result: Vec<String> = Vec::new();
        let mut index: usize = 0;
        while index < self.mcp.server_urls.len()
            invariant
                index <= self.mcp.server_urls.len(),
                servers == self@.mcp.server_urls,
                first == Seq::new(servers.len(), |i: int| servers[i].channel),
                text::views(result@) == first.take(index as int),
            decreases self.mcp.server_urls.len() - index,
        {
            let own = self.mcp.server_urls[index].channel.clone();
            proof {
                assert(servers[index as int] == self.mcp.server_urls@[index as int]@);
                assert(text::views(result@.push(own)) == text::views(result@).push(own@));
                assert(first.take(index + 1) == first.take(index as int).push(own@));
            }
            result.push(own);
            index = index + 1;
        }
        assert(first.take(first.len() as int) == first);
        assert(first + second.take(0) == first);
        index = 0;
        while index < self.mcp.commands.len()
            invariant
                index <= self.mcp.commands.len(),
                commands == self@.mcp.commands,
                second == Seq::new(commands.len(), |i: int| commands[i].channel),
                text::views(result@) == first + second.take(index as int),
            decreases self.mcp.commands.len() - index,
        {
            let own = self.mcp.commands[index].channel.clone();
            proof {
                assert(commands[index as int] == self.mcp.commands@[index as int]@);
                assert(text::views(result@.push(own)) == text::views(result@).push(own@));
                assert(first + second.take(index + 1) == (first + second.take(index as int)).push(
                    own@,
                ));
            }
            result.push(own);
            index = index + 1;
        }
        assert(second.take(second.len() as int) == second);
        assert(first + second + third.take(0) == first + second);
        index = 0;
        while index < additional.len()
            invariant
                index <= additional.len(),
                third == text::views(additional@),
                text::views(result@) == first + second + third.take(index as int),
            decreases additional.len() - index,
        {
            let own = additional[index].clone();
            proof {
                assert(text::views(result@.push(own)) == text::views(result@).push(own@));
                assert(first + second + third.take(index + 1) == (first + second + third.take(
                    index as int,
                )).push(own@));
            }
            result.push(own);
            index = index + 1;
        }
        assert(third.take(third.len() as int) == third);
        result
    }

    fn check_polled(&self, channels: &Vec<String>, polled: &Vec<String>, names: Ghost<Seq<Seq<char>>>) -> (result: Result<
        (),
        String,
    >)
        requires
            bound_list(channels@, names@),
        ensures
            tells(
                result,
                first_fault(
                    polled@.len() as int,
                    |i: int| self@.polled_fault(names@, text::views(polled@), i),
                ),
            ),
    {
        let ghost all = text::views(polled@);
        let ghost fault = |i: int| self@.polled_fault(names@, all, i);
        let mut index: usize = 0;
        while index < polled.len()
            invariant
                index <= polled.len(),
                bound_list(channels@, names@),
                all == text::views(polled@),
                fault == (|i: int| self@.polled_fault(names@, all, i)),
                first_fault(polled@.len() as int, fault) == fault_from(
                    index as int,
                    polled@.len() as int,
                    fault,
                ),
            decreases polled.len() - index,
        {
            let name = &polled[index];
            proof {
                assert(fault(index as int) == self@.polled_fault(names@, all, index as int));
                assert(all[index as int] == name@);
                lemma_bound(channels@, names@, name@);
                lemma_bound(channels@, names@, "harpoon"@);
            }
            if text::same(name, "harpoon") {
                if !text::contained(channels, "harpoon") && self.harpoon.targets.len() == 0
                    && !text::contained(polled, "main") {
                    return Err(
                        "control-plane.poll-channel harpoon has no routable target".to_owned(),
                    );
                }
            } else if !text::contained(channels, name) {
                return Err(
                    text::cat3(
                        "control-plane.poll-channel ",
                        &text::quoted(name),
                        " has no local handler",
                    ),
                );
            }
            index = index + 1;
        }
        Ok(())
    }

    /// Checks the configuration with the channels that have a handler besides the configured ones.
    pub fn validate_with_channels(&self, additional: &Vec<String>, sources: &Sources) -> (result: Result<
        (),
        String,
    >)
        ensures
            tells(result, self@.fault(text::views(additional@), *sources)),
    {
        match self.scope() {
            Ok(()) => {},
            Err(reason) => {
                return Err(reason);
            },
        }
        match self.validate_headers(true) {
            Ok(()) => {},
            Err(reason) => {
                return Err(reason);
            },
        }
        match self.mcp.oauth_origins() {
            Ok(_) => {},
            Err(reason) => {
                return Err(reason);
            },
        }
        if let Some(organization) = &self.control_plane.organization_id {
            if text::contains_char(organization, '\r') || text::contains_char(organization, '\n') {
                return Err(
                    "control-plane.organization-id cannot contain header line breaks".to_owned(),
                );
            }
        }
        match self.check_log() {
            Ok(()) => {},
            Err(reason) => {
                return Err(reason);
            },
        }
        match self.check_identity(sources) {
            Ok(()) => {},
            Err(reason) => {
                return Err(reason);
            },
        }
        match self.check_limits() {
            Ok(()) => {},
            Err(reason) => {
                return Err(reason);
            },
        }
        match self.check_harpoon() {
            Ok(()) => {},
            Err(reason) => {
                return Err(reason);
            },
        }
        let names = self.binding_names(additional);
        let ghost all = text::views(names@);
        assert(all.len() == names@.len());
        let channels = match bind(&names) {
            Ok(channels) => channels,
            Err(reason) => {
                return Err(reason);
            },
        };
        match &self.control_plane.poll_channels {
            None => {
                proof {
                    lemma_bound(channels@, all, "main"@);
                }
                if text::contained(&channels, "main") {
                    Ok(())
                } else if channels.len() == 0 {
                    Err(
                        "main channel is required; set --mcp.server-url or --mcp.command, or MCP_SERVER_URL or MCP_COMMAND".to_owned(),
                    )
                } else {
                    Err(
                        "main channel is required; add channel=main to one --mcp.server-url or --mcp.command entry".to_owned(),
                    )
                }
            },
            Some(polled) => self.check_polled(&channels, polled, Ghost(all)),
        }
    }

    /// Checks the configuration.
    pub fn validate(&self, sources: &Sources) -> (result: Result<(), String>)
        ensures
            tells(result, self@.fault(Seq::empty(), *sources)),
    {
        let none: Vec<String> = Vec::new();
        assert(text::views(none@) == Seq::<Seq<char>>::empty());
        self.validate_with_channels(&none, sources)
    }

    /// Whether the channel is polled.
    pub fn enabled(&self, channel: &str) -> (result: bool)
        ensures
            result == self@.polls(channel@),
    {
        match &self.control_plane.poll_channels {
            None => true,
            Some(polled) => text::contained(polled, channel),
        }
    }
}

impl ConfigView {
    /// Whether the channel is polled: every channel is, unless some are named.
    pub open spec fn polls(self, channel: Seq<char>) -> bool {
        match self.control_plane.poll_channels {
            None => true,
            Some(polled) => polled.contains(channel),
        }
    }
}

/// A configuration that passes the checks leaves the settings of what this client lacks at their defaults.
pub proof fn lemma_scope_kept(config: ConfigView, additional: Seq<Seq<char>>, sources: Sources)
    requires
        config.fault(additional, sources) is None,
    ensures
        !config.admin_ui.allow_remote && !config.admin_ui.open_browser,
        config.admin_ui.log_buffer_events == 2000,
        !config.harpoon.capture_payloads,
{
}

/// An accepted configuration names a tunnel by thirty-two small letters and digits, has a proper key, and logs at a
/// known level in a known format.
pub proof fn lemma_accepted_identity(config: ConfigView, additional: Seq<Seq<char>>, sources: Sources, at: int)
    requires
        config.fault(additional, sources) is None,
    ensures
        config.config_version is None || config.config_version == Some(1u8) || config.config_version == Some(
            2u8,
        ),
        "tunnel_"@.is_prefix_of(config.control_plane.tunnel_id),
        config.control_plane.tunnel_id.len() == "tunnel_"@.len() + 32,
        "tunnel_"@.len() <= at < config.control_plane.tunnel_id.len() ==> 'a'
            <= config.control_plane.tunnel_id[at] <= 'z' || '0' <= config.control_plane.tunnel_id[at] <= '9',
        resolved_of("control_plane.api_key"@, config.control_plane.api_key, sources) is Ok,
        ({
            let key = resolved_of("control_plane.api_key"@, config.control_plane.api_key, sources)->Ok_0;
            0 <= at < key.len() ==> text::is_alnum(key[at]) || key[at] == '_' || key[at] == '-'
        }),
        ({
            let level = text::lowercase_of(text::trim_of(config.log.level));
            let format = text::lowercase_of(text::trim_of(config.log.format));
            &&& level == "debug"@ || level == "info"@ || level == "warn"@ || level == "error"@
            &&& format.len() == 0 || format == "struct-text"@ || format == "json"@
            &&& level != "info"@ ==> format.len() > 0
        }),
        config.control_plane.organization_id matches Some(id) ==> !id.contains('\r') && !id.contains('\n'),
{
    assert(config.identity_fault(sources) is None);
    let id = config.control_plane.tunnel_id;
    let small = |ch: char| text::is_lower(ch) || text::is_digit(ch);
    let rest = text::after_prefix(id, "tunnel_"@)->0;
    let front = "tunnel_"@.len() as int;
    assert(text::every(rest, small));
    if front <= at < id.len() {
        assert(rest[at - front] == id[at]);
        assert(small(rest[at - front]));
    }
    let key = resolved_of("control_plane.api_key"@, config.control_plane.api_key, sources)->Ok_0;
    let fit = |ch: char| is_key_char(ch);
    assert(text::every(key, fit));
    if 0 <= at < key.len() {
        assert(fit(key[at]));
    }
}

/// An accepted configuration does some work at a time and at most ten thousand requests, waits for positive times, and
/// for a poll with its guard no longer than ten minutes.
pub proof fn lemma_accepted_limits(config: ConfigView, additional: Seq<Seq<char>>, sources: Sources)
    requires
        config.fault(additional, sources) is None,
    ensures
        0 < config.control_plane.max_inflight_requests <= 10000,
        config.mcp.max_concurrent_requests > 0,
        config.control_plane.poll_timeout.0 > 0,
        config.control_plane.initial_poll_timeout.0 > 0,
        0 < config.control_plane.poll_deadline_guardrail.0 < 60_000_000_000,
        config.control_plane.poll_timeout.0 + config.control_plane.poll_deadline_guardrail.0
            <= 600_000_000_000,
        config.cloudflared.ready_timeout.0 > 0,
        config.mcp.connection_max_ttl matches Some(span) && span.0 > 0,
        config.proxy.check_interval.0 > 0,
        config.harpoon.max_redirects <= 5,
        config.harpoon.max_response_bytes matches Some(limit) ==> 0 < limit <= 102400,
{
    assert(config.limits_fault() is None);
    assert(config.harpoon_fault() is None);
}

/// An accepted configuration binds each channel once, and has a handler for every channel that it polls: the main one
/// where it lists none.
pub proof fn lemma_accepted_channels(config: ConfigView, additional: Seq<Seq<char>>, sources: Sources, at: int, other: int)
    requires
        config.fault(additional, sources) is None,
    ensures
        ({
            let names = config.bindings(additional);
            &&& 0 <= at < names.len() ==> channel_of(names[at]) is Ok
            &&& 0 <= other < at < names.len() ==> channel_of(names[other]) != channel_of(names[at])
            &&& config.control_plane.poll_channels is None ==> exists|i: int|
                0 <= i < names.len() && channel_of(#[trigger] names[i]) == Ok::<Seq<char>, Seq<char>>(
                    "main"@,
                )
            &&& config.control_plane.poll_channels matches Some(polled) ==> (0 <= at < polled.len() && polled[at]
                != "harpoon"@ ==> exists|i: int|
                0 <= i < names.len() && channel_of(#[trigger] names[i]) == Ok::<Seq<char>, Seq<char>>(
                    polled[at],
                ))
            &&& config.control_plane.poll_channels matches Some(polled) ==> (0 <= at < polled.len() && polled[at]
                == "harpoon"@ ==> config.harpoon.targets.len() > 0 || polled.contains("main"@) || exists|i:
                int|
                0 <= i < names.len() && channel_of(#[trigger] names[i]) == Ok::<Seq<char>, Seq<char>>(
                    "harpoon"@,
                ))
            &&& 0 <= at < config.mcp.server_urls.len() ==> names[at] == config.mcp.server_urls[at].channel
            &&& 0 <= at < config.mcp.commands.len() ==> names[config.mcp.server_urls.len() + at]
                == config.mcp.commands[at].channel
        }),
{
    let names = config.bindings(additional);
    let faults = |i: int| binding_fault(names, i);
    crate::checks::lemma_first_fault(0, names.len() as int, faults);
    assert(bindings_fault(names) is None);
    assert(config.routes_fault(names) is None);
    if 0 <= at < names.len() {
        assert(faults(at) is None);
    }
    if 0 <= other < at < names.len() {
        assert(faults(other) is None);
    }
    if config.control_plane.poll_channels is Some {
        let polled = config.control_plane.poll_channels->0;
        let gaps = |i: int| config.polled_fault(names, polled, i);
        crate::checks::lemma_first_fault(0, polled.len() as int, gaps);
        if 0 <= at < polled.len() {
            assert(gaps(at) is None);
        }
    }
}

/// An accepted origin is one of the web and nothing more: no credentials, path, query or fragment.
pub proof fn lemma_accepted_origins(config: ConfigView, additional: Seq<Seq<char>>, sources: Sources, at: int)
    requires
        config.fault(additional, sources) is None,
        0 <= at < config.mcp.oauth_trusted_origins.len(),
    ensures
        ({
            let value = config.mcp.oauth_trusted_origins[at];
            &&& parsed_url(value) is Ok
            &&& parsed_url(value)->Ok_0.scheme == "http"@ || parsed_url(value)->Ok_0.scheme == "https"@
            &&& parsed_url(value)->Ok_0.host is Some
            &&& parsed_url(value)->Ok_0.path == "/"@
            &&& parsed_url(value)->Ok_0.query is None
            &&& parsed_url(value)->Ok_0.fragment is None
            &&& parsed_url(value)->Ok_0.port != Some(0u16)
            &&& text::split_at_of(value, "://"@) matches Some((scheme, rest)) && text::trim_end_char_of(
                rest,
                '/',
            ).len() > 0 && !text::trim_end_char_of(rest, '/').contains('@')
        }),
{
    let origins = config.mcp.oauth_trusted_origins;
    let faults = |i: int| trusted_fault(origins[i]);
    crate::checks::lemma_first_fault(0, origins.len() as int, faults);
    assert(config.mcp.origins_fault() is None);
    assert(faults(at) is None);
    let value = origins[at];
    let (scheme, rest) = text::split_at_of(value, "://"@)->0;
    let authority = text::trim_end_char_of(rest, '/');
    let plain = |ch: char| !is_origin_mark(ch);
    assert(text::every(authority, plain));
    assert forall|i: int| 0 <= i < authority.len() implies authority[i] != '@' by {
        assert(plain(authority[i]));
    }
}

/// A channel is polled where no list is given or the list holds it.
pub proof fn lemma_polls(config: ConfigView, channel: Seq<char>)
    ensures
        config.control_plane.poll_channels is None ==> config.polls(channel),
        config.control_plane.poll_channels matches Some(listed) ==> (config.polls(channel)
            <==> listed.contains(channel)),
{
}

/// Limits within their bounds are accepted.
pub proof fn lemma_limits_accepted(config: ConfigView)
    requires
        1 <= config.control_plane.max_inflight_requests <= 10000,
        config.mcp.max_concurrent_requests >= 1,
        config.control_plane.poll_timeout.0 >= 1,
        config.control_plane.initial_poll_timeout.0 >= 1,
        1 <= config.control_plane.poll_deadline_guardrail.0 < 60_000_000_000,
        config.control_plane.poll_timeout.0 + config.control_plane.poll_deadline_guardrail.0 <= 600_000_000_000,
        config.cloudflared.ready_timeout.0 >= 1,
        config.proxy.check_interval.0 >= 1,
        config.mcp.connection_max_ttl matches Some(span) && span.0 >= 1,
    ensures
        config.limits_fault() is None,
{
}

/// An identity with a tunnel and a key of the known forms is accepted, and so are the settings of the log.
pub proof fn lemma_identity_accepted(config: ConfigView, sources: Sources, key: Seq<char>)
    requires
        config.config_version is None || config.config_version == Some(1u8) || config.config_version == Some(2u8),
        is_tunnel_id(config.control_plane.tunnel_id),
        resolved_of("control_plane.api_key"@, config.control_plane.api_key, sources) == Ok::<Seq<char>, Seq<char>>(
            key,
        ),
        forall|i: int|
            0 <= i < key.len() ==> text::is_alnum(#[trigger] key[i]) || key[i] == '_' || key[i] == '-',
    ensures
        config.identity_fault(sources) is None,
{
}

/// The levels and the formats of a log.
pub proof fn lemma_log_accepted(config: ConfigView)
    ensures
        ({
            let level = text::lowercase_of(text::trim_of(config.log.level));
            let format = text::lowercase_of(text::trim_of(config.log.format));
            &&& level == "info"@ && format.len() == 0 ==> config.log_fault() is None
            &&& (level == "debug"@ || level == "info"@ || level == "warn"@ || level == "error"@) && (format
                == "json"@ || format == "struct-text"@) ==> config.log_fault() is None
            &&& level == "debug"@ && format.len() == 0 ==> config.log_fault() is Some
            &&& level.len() == 0 ==> config.log_fault() is Some
        }),
{
    reveal_strlit("debug");
    reveal_strlit("info");
    reveal_strlit("warn");
    reveal_strlit("error");
    reveal_strlit("json");
    reveal_strlit("struct-text");
    assert("debug"@.len() == 5 && "debug"@[0] == 'd');
    assert("info"@.len() == 4 && "info"@[0] == 'i');
    assert("warn"@.len() == 4 && "warn"@[0] == 'w');
    assert("error"@.len() == 5 && "error"@[0] == 'e');
    assert("json"@.len() == 4 && "json"@[0] == 'j');
    assert("struct-text"@.len() == 11);
}

/// The limits of the outbound client within their bounds are accepted.
pub proof fn lemma_outbound_accepted(config: ConfigView)
    requires
        config.harpoon.max_response_bytes matches Some(limit) ==> 1 <= limit <= 102400,
        config.harpoon.max_redirects <= 5,
        config.harpoon.additional_transports.len() == 0,
        config.harpoon.hosts_include_regex.len() == 0,
    ensures
        config.harpoon_fault() is None,
{
}

/// Channels with names of their own are bound, each once.
pub proof fn lemma_bindings_accepted(names: Seq<Seq<char>>, at: int)
    requires
        forall|i: int| 0 <= i < names.len() ==> channel_of(#[trigger] names[i]) is Ok,
        forall|i: int, j: int|
            0 <= i < j < names.len() ==> channel_of(#[trigger] names[i]) != channel_of(#[trigger] names[j]),
    ensures
        bindings_fault(names) is None,
        0 <= at < names.len() ==> is_bound(names, channel_of(names[at])->Ok_0),
{
    let faults = |i: int| binding_fault(names, i);
    assert forall|i: int| 0 <= i < names.len() implies #[trigger] faults(i) is None by {
        assert(channel_of(names[i]) is Ok);
    }
    crate::checks::lemma_first_fault(0, names.len() as int, faults);
    if 0 <= at < names.len() {
        assert(channel_of(names[at]) is Ok);
    }
}

/// A configuration that polls everything needs the main channel; one that names what it polls needs a handler for each.
pub proof fn lemma_routes_accepted(config: ConfigView, names: Seq<Seq<char>>, polled: Seq<Seq<char>>)
    ensures
        config.control_plane.poll_channels is None && is_bound(names, "main"@) ==> config.routes_fault(names)
            is None,
        config.control_plane.poll_channels is None && !is_bound(names, "main"@) ==> config.routes_fault(names)
            is Some,
        config.control_plane.poll_channels == Some(polled) && (forall|i: int|
            0 <= i < polled.len() ==> #[trigger] polled[i] != "harpoon"@ && is_bound(names, polled[i]))
            ==> config.routes_fault(names) is None,
        config.control_plane.poll_channels == Some(polled) && config.harpoon.targets.len() > 0 && polled == seq![
            "harpoon"@,
        ] ==> config.routes_fault(names) is None,
{
    let faults = |i: int| config.polled_fault(names, polled, i);
    if config.control_plane.poll_channels == Some(polled) && (forall|i: int|
        0 <= i < polled.len() ==> #[trigger] polled[i] != "harpoon"@ && is_bound(names, polled[i])) {
        assert forall|i: int| 0 <= i < polled.len() implies #[trigger] faults(i) is None by {
            assert(polled[i] != "harpoon"@ && is_bound(names, polled[i]));
        }
    }
    crate::checks::lemma_first_fault(0, polled.len() as int, faults);
}

/// A configuration is accepted where each of its parts is.
pub proof fn lemma_configuration_accepted(config: ConfigView, additional: Seq<Seq<char>>, sources: Sources)
    requires
        !config.admin_ui.allow_remote && !config.admin_ui.open_browser && config.admin_ui.log_buffer_events == 2000,
        !config.harpoon.capture_payloads,
        config.all_headers_fault(true) is None,
        config.mcp.origins_fault() is None,
        config.control_plane.organization_id is None,
        config.log_fault() is None,
        config.identity_fault(sources) is None,
        config.limits_fault() is None,
        config.harpoon_fault() is None,
        bindings_fault(config.bindings(additional)) is None,
        config.routes_fault(config.bindings(additional)) is None,
    ensures
        config.fault(additional, sources) is None,
{
}

/// Which reason a configuration is refused for, of those that come first.
pub proof fn lemma_configuration_reasons(config: ConfigView)
    ensures
        config.control_plane.max_inflight_requests == 0 ==> config.limits_fault() == Some(
            "request concurrency must be positive"@,
        ),
        config.mcp.max_concurrent_requests == 0 ==> config.limits_fault() == Some(
            "request concurrency must be positive"@,
        ),
        config.mcp.max_concurrent_requests > 0 && config.control_plane.max_inflight_requests > 10000
            ==> config.limits_fault() == Some("control-plane.max-inflight must be less than or equal to 10000"@),
        config.control_plane.poll_timeout.0 == 0 ==> config.times_fault() == Some(
            "control-plane.poll-timeout must be positive"@,
        ),
        config.control_plane.poll_timeout.0 > 0 && config.control_plane.initial_poll_timeout.0 == 0
            ==> config.times_fault() == Some("control-plane.initial-poll-timeout must be positive"@),
        config.control_plane.poll_timeout.0 > 0 && config.control_plane.initial_poll_timeout.0 > 0
            && config.control_plane.poll_deadline_guardrail.0 == 0 ==> config.times_fault() == Some(
            "control-plane.poll-deadline-guardrail must be positive"@,
        ),
        (config.harpoon.max_response_bytes matches Some(limit) && limit == 0) ==> config.harpoon_fault() == Some(
            "harpoon.max-response-bytes must be positive"@,
        ),
        (config.harpoon.max_response_bytes matches Some(limit) && limit > 102400) ==> config.harpoon_fault()
            == Some("harpoon.max-response-bytes must be less than or equal to 102400"@),
        config.harpoon.max_response_bytes is None && config.harpoon.max_redirects > 5 ==> config.harpoon_fault()
            == Some("harpoon.max-redirects must be less than or equal to 5"@),
        config.admin_ui.allow_remote ==> config.scope_fault() == Some(
            "admin_ui.allow_remote must retain its default in otunnel"@,
        ),
{
}

} // verus!
