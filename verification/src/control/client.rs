//! What a request to the service carries.

use vstd::prelude::*;
use crate::address::{self, parsed_url, url_extended, url_pushed, url_with_pairs};
use crate::checks::{either, fault_from, first_fault, tells, unless};
use crate::config::duration::Span;
use crate::config::reference::{self, gives, resolved_of, Sources};
use crate::config::settings::{Config, ConfigView};
use crate::config::values::{channel_of, endpoint_of};
use crate::config::{first_unresolved, holds_headers, normalized_headers, values};
use crate::control::error::StatusError;
use crate::control::routing::bytes_of;
use crate::harpoon::headers;
use crate::json::assembly::{
    append,
    list,
    list_text,
    object,
    object_text,
    quote,
    string_text,
    with_member,
};
use crate::json::{self, parsed_json, Doc, Json};
use crate::net::error::{info_of, lossy_text};
use crate::protocol::WIRE_VERSION;
use crate::{config, header, text};

verus! {

/// A channel that this client serves.
pub struct Channel {
    pub name: String,
    pub stateless: bool,
    pub proc_affinity: bool,
}

/// The contents of [`Channel`].
#[verifier::ext_equal]
pub struct ChannelView {
    pub name: Seq<char>,
    pub stateless: bool,
    pub proc_affinity: bool,
}

impl View for Channel {
    type V = ChannelView;

    open spec fn view(&self) -> ChannelView {
        ChannelView {
            name: self.name@,
            stateless: self.stateless,
            proc_affinity: self.proc_affinity,
        }
    }
}

/// The contents of a list.
pub open spec fn channel_views(items: Seq<Channel>) -> Seq<ChannelView> {
    items.map_values(|item: Channel| item@)
}

/// What every request to the service carries.
pub struct Control {
    /// The URL of the tunnel.
    pub url: String,
    pub headers: header::Headers,
    /// The channels that are asked for; none asks for all.
    pub subscriptions: Vec<String>,
    pub poll_timeout: Span,
    pub initial_poll_timeout: Span,
    pub guard: Span,
    /// Whether what goes over the wire stays out of the log.
    pub suppress_raw: bool,
}

/// The URL of the tunnel that a configuration names, or why there is none.
pub open spec fn tunnel_url(config: ConfigView) -> Result<Seq<char>, Seq<char>> {
    let base = config.control_plane.base();
    match parsed_url(base) {
        Err(_) => Err("invalid control-plane.base-url"@),
        Ok(parts) => if parts.host is None {
            Err("control-plane.base-url must include scheme and host"@)
        } else {
            match endpoint_of(
                parts.text,
                match config.control_plane.url_path {
                    Some(path) => path,
                    None => Seq::empty(),
                },
                "v1/tunnels"@,
            ) {
                Err(reason) => Err(reason),
                Ok(root) => if text::byte_len(root) > address::LARGEST || text::byte_len(
                    config.control_plane.tunnel_id,
                ) > address::LARGEST {
                    Err("control plane URL is too long"@)
                } else {
                    match url_pushed(root, config.control_plane.tunnel_id) {
                        Some(url) => Ok(url),
                        None => Err("control plane URL cannot contain path segments"@),
                    }
                },
            }
        },
    }
}

/// The URL of the tunnel that a configuration names.
pub fn locate(config: &Config) -> (result: Result<String, String>)
    ensures
        gives(result, tunnel_url(config@)),
{
    let base = config.control_plane.base_url();
    let parts = match address::parse(&base) {
        Ok(parts) => parts,
        Err(_) => {
            return Err("invalid control-plane.base-url".to_owned());
        },
    };
    if parts.host.is_none() {
        return Err("control-plane.base-url must include scheme and host".to_owned());
    }
    let prefix = match &config.control_plane.url_path {
        Some(path) => path.clone(),
        None => String::new(),
    };
    let root = match values::endpoint(&parts.text, &prefix, "v1/tunnels") {
        Ok(root) => root,
        Err(reason) => {
            return Err(reason);
        },
    };
    if !text::fits(&root, address::LARGEST) || !text::fits(&config.control_plane.tunnel_id, address::LARGEST) {
        return Err("control plane URL is too long".to_owned());
    }
    match address::pushed(&root, &config.control_plane.tunnel_id) {
        Some(url) => Ok(url),
        None => Err("control plane URL cannot contain path segments".to_owned()),
    }
}

/// A header that the client sets itself.
pub open spec fn is_protected(name: Seq<char>) -> bool {
    ||| name == "authorization"@
    ||| name == "accept"@
    ||| name == "user-agent"@
    ||| name == "x-tunnel-client-name"@
    ||| name == "x-tunnel-client-version"@
    ||| name == "x-tunnel-client-wire-protocol-version"@
    ||| name == "x-tunnel-client-instance-id"@
    ||| name == "x-tunnel-client-capabilities"@
    ||| name == "x-tunnel-mcp-server-info"@
    ||| name == "x-tunnel-shard-token"@
}

/// The headers without those that the client sets itself.
pub open spec fn unprotected(map: Map<Seq<char>, Seq<Seq<u8>>>) -> Map<Seq<char>, Seq<Seq<u8>>> {
    map.remove_keys(Set::new(|name: Seq<char>| is_protected(name)))
}

fn drop_protected(map: &mut header::Headers)
    ensures
        header::header_entries(*final(map)) == unprotected(header::header_entries(*old(map))),
{
    let ghost before = header::header_entries(*map);
    proof {
        reveal_strlit("authorization");
        assert(text::lowercase_of("authorization"@) =~= "authorization"@);
        reveal_strlit("accept");
        assert(text::lowercase_of("accept"@) =~= "accept"@);
        reveal_strlit("user-agent");
        assert(text::lowercase_of("user-agent"@) =~= "user-agent"@);
        reveal_strlit("x-tunnel-client-name");
        assert(text::lowercase_of("x-tunnel-client-name"@) =~= "x-tunnel-client-name"@);
        reveal_strlit("x-tunnel-client-version");
        assert(text::lowercase_of("x-tunnel-client-version"@) =~= "x-tunnel-client-version"@);
        reveal_strlit("x-tunnel-client-wire-protocol-version");
        assert(text::lowercase_of("x-tunnel-client-wire-protocol-version"@) =~= "x-tunnel-client-wire-protocol-version"@);
        reveal_strlit("x-tunnel-client-instance-id");
        assert(text::lowercase_of("x-tunnel-client-instance-id"@) =~= "x-tunnel-client-instance-id"@);
        reveal_strlit("x-tunnel-client-capabilities");
        assert(text::lowercase_of("x-tunnel-client-capabilities"@) =~= "x-tunnel-client-capabilities"@);
        reveal_strlit("x-tunnel-mcp-server-info");
        assert(text::lowercase_of("x-tunnel-mcp-server-info"@) =~= "x-tunnel-mcp-server-info"@);
        reveal_strlit("x-tunnel-shard-token");
        assert(text::lowercase_of("x-tunnel-shard-token"@) =~= "x-tunnel-shard-token"@);
    }
    header::take(map, "authorization");
    header::take(map, "accept");
    header::take(map, "user-agent");
    header::take(map, "x-tunnel-client-name");
    header::take(map, "x-tunnel-client-version");
    header::take(map, "x-tunnel-client-wire-protocol-version");
    header::take(map, "x-tunnel-client-instance-id");
    header::take(map, "x-tunnel-client-capabilities");
    header::take(map, "x-tunnel-mcp-server-info");
    header::take(map, "x-tunnel-shard-token");
    assert(header::header_entries(*map) =~= unprotected(before));
}

/// The headers with one set to a text.
pub open spec fn with_header(
    map: Map<Seq<char>, Seq<Seq<u8>>>,
    name: Seq<char>,
    value: Seq<char>,
) -> Map<Seq<char>, Seq<Seq<u8>>> {
    map.insert(name, seq![vstd::utf8::encode_utf8(value)])
}

/// The version of this client.
pub const VERSION: &'static str = "0.1.0";

/// What every request carries besides the configured headers.
pub open spec fn client_headers(
    map: Map<Seq<char>, Seq<Seq<u8>>>,
    key: Seq<char>,
    instance: Seq<char>,
    organization: Option<Seq<char>>,
) -> Map<Seq<char>, Seq<Seq<u8>>> {
    let first = with_header(
        with_header(
            with_header(unprotected(map), "accept"@, "application/json"@),
            "x-tunnel-client-capabilities"@,
            "wrong-cluster-v1"@,
        ),
        "authorization"@,
        "Bearer "@ + key,
    );
    let second = with_header(
        with_header(
            with_header(
                with_header(first, "user-agent"@, headers::USER_AGENT@),
                "x-tunnel-client-name"@,
                "otunnel"@,
            ),
            "x-tunnel-client-version"@,
            VERSION@,
        ),
        "x-tunnel-client-wire-protocol-version"@,
        WIRE_VERSION@,
    );
    let third = with_header(second, "x-tunnel-client-instance-id"@, instance);
    match organization {
        Some(value) => with_header(third, "openai-organization"@, text::trim_of(value)),
        None => third,
    }
}

/// Every request tells which client makes it and with which key, whatever headers are configured.
pub proof fn lemma_identified(
    map: Map<Seq<char>, Seq<Seq<u8>>>,
    key: Seq<char>,
    instance: Seq<char>,
    organization: Option<Seq<char>>,
)
    ensures
        ({
            let sent = client_headers(map, key, instance, organization);
            &&& sent["user-agent"@] == seq![vstd::utf8::encode_utf8(headers::USER_AGENT@)]
            &&& sent["x-tunnel-client-name"@] == seq![vstd::utf8::encode_utf8("otunnel"@)]
            &&& sent["x-tunnel-client-version"@] == seq![vstd::utf8::encode_utf8(VERSION@)]
            &&& sent["x-tunnel-client-wire-protocol-version"@] == seq![
                vstd::utf8::encode_utf8(WIRE_VERSION@),
            ]
            &&& sent["x-tunnel-client-instance-id"@] == seq![vstd::utf8::encode_utf8(instance)]
            &&& sent["authorization"@] == seq![vstd::utf8::encode_utf8("Bearer "@ + key)]
        }),
{
    reveal_strlit("user-agent");
    reveal_strlit("x-tunnel-client-name");
    reveal_strlit("x-tunnel-client-version");
    reveal_strlit("x-tunnel-client-wire-protocol-version");
    reveal_strlit("x-tunnel-client-instance-id");
    reveal_strlit("authorization");
    reveal_strlit("openai-organization");
    assert("user-agent"@.len() == 10);
    assert("authorization"@.len() == 13);
    assert("openai-organization"@.len() == 19);
    assert("x-tunnel-client-name"@.len() == 20);
    assert("x-tunnel-client-version"@.len() == 23);
    assert("x-tunnel-client-instance-id"@.len() == 27);
    assert("x-tunnel-client-wire-protocol-version"@.len() == 37);
}

/// Sets a header, where the text can be its value.
pub(crate) fn put_text(map: &mut header::Headers, name: &str, value: &str) -> (result: bool)
    requires
        header::is_name(name@),
        text::lowercase_of(name@) == name@,
        header::has_room(header::header_entries(*old(map))),
    ensures
        result == header::is_value(vstd::utf8::encode_utf8(value@)),
        result ==> header::header_entries(*final(map)) == with_header(
            header::header_entries(*old(map)),
            name@,
            value@,
        ),
        !result ==> header::header_entries(*final(map)) == header::header_entries(*old(map)),
{
    let bytes = text::bytes(value);
    if !header::valid_value(&bytes) {
        return false;
    }
    header::put(map, name, bytes);
    true
}

/// Whether a text can be the value of a header.
pub open spec fn is_header_text(value: Seq<char>) -> bool {
    header::is_value(vstd::utf8::encode_utf8(value))
}

/// Why the identity of the client cannot be sent, if so.
pub open spec fn credentials_fault(config: ConfigView, instance: Seq<char>, sources: Sources) -> Option<
    Seq<char>,
> {
    match resolved_of("configuration value"@, config.control_plane.api_key, sources) {
        Err(reason) => Some(reason),
        Ok(key) => unless(
            is_header_text("Bearer "@ + key) && is_header_text(instance) && (
            config.control_plane.organization_id is Some ==> is_header_text(
                text::trim_of(config.control_plane.organization_id->0),
            )),
            "failed to parse header value"@,
        ),
    }
}

fn identify(map: &mut header::Headers, key: &str, instance: &str, organization: &Option<String>) -> (result:
    bool)
    requires
        header::header_entries(*old(map)).dom().finite(),
        header::header_entries(*old(map)).dom().len() + 32 < header::ROOM,
    ensures
        result == (is_header_text("Bearer "@ + key@) && is_header_text(instance@) && (
        organization is Some ==> is_header_text(text::trim_of(organization->0@)))),
        result ==> header::header_entries(*final(map)) == client_headers(
            header::header_entries(*old(map)),
            key@,
            instance@,
            text::view_of(*organization),
        ),
{
    let ghost given = header::header_entries(*map);
    drop_protected(map);
    proof {
        assert(header::header_entries(*map).dom().subset_of(given.dom()));
        vstd::set_lib::lemma_len_subset(header::header_entries(*map).dom(), given.dom());
        lemma_small_names();
        lemma_fixed_values();
    }
    let _ = put_text(map, "accept", "application/json");
    let _ = put_text(map, "x-tunnel-client-capabilities", "wrong-cluster-v1");
    if !put_text(map, "authorization", &text::cat("Bearer ", key)) {
        return false;
    }
    let _ = put_text(map, "user-agent", headers::USER_AGENT);
    let _ = put_text(map, "x-tunnel-client-name", "otunnel");
    let _ = put_text(map, "x-tunnel-client-version", VERSION);
    let _ = put_text(map, "x-tunnel-client-wire-protocol-version", WIRE_VERSION);
    if !put_text(map, "x-tunnel-client-instance-id", instance) {
        return false;
    }
    match organization {
        Some(name) => put_text(map, "openai-organization", &text::trim(name)),
        None => true,
    }
}

/// Whether the text is the name of a header as it is kept.
pub open spec fn is_small_name(value: Seq<char>) -> bool {
    header::is_name(value) && text::lowercase_of(value) == value
}

proof fn lemma_small_names()
    ensures
        is_small_name("accept"@),
        is_small_name("authorization"@),
        is_small_name("user-agent"@),
        is_small_name("openai-organization"@),
        is_small_name("x-tunnel-client-name"@),
        is_small_name("x-tunnel-client-version"@),
        is_small_name("x-tunnel-client-wire-protocol-version"@),
        is_small_name("x-tunnel-client-instance-id"@),
        is_small_name("x-tunnel-client-capabilities"@),
{
    reveal_strlit("accept");
    assert(text::lowercase_of("accept"@) =~= "accept"@);
    reveal_strlit("authorization");
    assert(text::lowercase_of("authorization"@) =~= "authorization"@);
    reveal_strlit("user-agent");
    assert(text::lowercase_of("user-agent"@) =~= "user-agent"@);
    reveal_strlit("openai-organization");
    assert(text::lowercase_of("openai-organization"@) =~= "openai-organization"@);
    reveal_strlit("x-tunnel-client-name");
    assert(text::lowercase_of("x-tunnel-client-name"@) =~= "x-tunnel-client-name"@);
    reveal_strlit("x-tunnel-client-version");
    assert(text::lowercase_of("x-tunnel-client-version"@) =~= "x-tunnel-client-version"@);
    reveal_strlit("x-tunnel-client-wire-protocol-version");
    assert(text::lowercase_of("x-tunnel-client-wire-protocol-version"@)
        =~= "x-tunnel-client-wire-protocol-version"@);
    reveal_strlit("x-tunnel-client-instance-id");
    assert(text::lowercase_of("x-tunnel-client-instance-id"@) =~= "x-tunnel-client-instance-id"@);
    reveal_strlit("x-tunnel-client-capabilities");
    assert(text::lowercase_of("x-tunnel-client-capabilities"@) =~= "x-tunnel-client-capabilities"@);
}

/// Whether some target has a template with full rules, whose requests stay out of the log.
pub open spec fn keeps_quiet(config: ConfigView) -> bool {
    exists|i: int|
        0 <= i < config.harpoon.targets.len() && target_quiet(#[trigger] config.harpoon.targets[i])
}

/// Whether the template of a target has full rules.
pub open spec fn target_quiet(target: crate::config::settings::TargetView) -> bool {
    match target.template {
        Some(definition) => crate::template::has_full_rule(definition.header_rules)
            || crate::template::has_full_rule(definition.allowed_headers),
        None => false,
    }
}

fn quiet(config: &Config) -> (result: bool)
    ensures
        result == keeps_quiet(config@),
{
    let items = &config.harpoon.targets;
    let ghost targets = config@.harpoon.targets;
    let mut index: usize = 0;
    while index < items.len()
        invariant
            index <= items.len(),
            targets == config@.harpoon.targets,
            targets == crate::config::settings::target_views(items@),
            forall|i: int| 0 <= i < index ==> !target_quiet(#[trigger] targets[i]),
        decreases items.len() - index,
    {
        assert(targets[index as int] == items@[index as int]@);
        if let Some(definition) = &items[index].template {
            if definition.rich() {
                assert(target_quiet(config@.harpoon.targets[index as int]));
                return true;
            }
        }
        index = index + 1;
    }
    false
}

impl Control {
    /// Prepares the connection to the service: what every request carries. The instance names this
    /// process.
    pub fn new(config: &Config, url: String, instance: &str, sources: &Sources) -> (result: Result<
        Control,
        String,
    >)
        requires
            config.control_plane.extra_headers.keys().len() + 32 < header::ROOM,
        ensures
            ({
                let extra = config.control_plane.extra_headers;
                match normalized_headers(extra.keys(), extra.values(), extra.keys().len() as int) {
                    Err(expected) => result matches Err(reason) && reason@ == expected,
                    Ok(given) => match result {
                        Err(reason) => if exists|map: Map<Seq<char>, Seq<Seq<u8>>>| #[trigger]
                            holds_headers(map, given, *sources) {
                            credentials_fault(config@, instance@, *sources) == Some(reason@)
                        } else {
                            first_unresolved(given, *sources, reason@)
                        },
                        Ok(control) => credentials_fault(config@, instance@, *sources) is None
                            && control.url@ == url@ && exists|map: Map<Seq<char>, Seq<Seq<u8>>>| #[trigger]
                            holds_headers(map, given, *sources) && header::header_entries(
                                control.headers,
                            ) == client_headers(
                                map,
                                resolved_of(
                                    "configuration value"@,
                                    config@.control_plane.api_key,
                                    *sources,
                                )->Ok_0,
                                instance@,
                                config@.control_plane.organization_id,
                            ),
                    },
                }
            }),
            result matches Ok(control) ==> text::views(control.subscriptions@) == (match config@.control_plane.poll_channels {
                Some(names) => names,
                None => Seq::empty(),
            }) && control.poll_timeout == config.control_plane.poll_timeout
                && control.initial_poll_timeout == config.control_plane.initial_poll_timeout
                && control.guard == config.control_plane.poll_deadline_guardrail
                && control.suppress_raw == keeps_quiet(config@),
    {
        let mut map = match config::headers(&config.control_plane.extra_headers, sources) {
            Ok(map) => map,
            Err(reason) => {
                return Err(reason);
            },
        };
        proof {
            config::lemma_given_size(
                config.control_plane.extra_headers.keys(),
                config.control_plane.extra_headers.values(),
                config.control_plane.extra_headers.keys().len() as int,
            );
        }
        let key = match reference::resolve(&config.control_plane.api_key, sources) {
            Ok(key) => key,
            Err(reason) => {
                return Err(reason);
            },
        };
        let organization = &config.control_plane.organization_id;
        if !identify(&mut map, &key, instance, organization) {
            return Err("failed to parse header value".to_owned());
        }
        let subscriptions = match &config.control_plane.poll_channels {
            Some(names) => text::copies(names),
            None => Vec::new(),
        };
        assert(config@.control_plane.poll_channels is None ==> text::views(subscriptions@)
            =~= Seq::<Seq<char>>::empty());
        Ok(
            Control {
                url,
                headers: map,
                subscriptions,
                poll_timeout: config.control_plane.poll_timeout,
                initial_poll_timeout: config.control_plane.initial_poll_timeout,
                guard: config.control_plane.poll_deadline_guardrail,
                suppress_raw: quiet(config),
            },
        )
    }
}

proof fn lemma_fixed_values()
    ensures
        is_header_text("application/json"@),
        is_header_text("wrong-cluster-v1"@),
        is_header_text(headers::USER_AGENT@),
        is_header_text("otunnel"@),
        is_header_text(VERSION@),
        is_header_text(WIRE_VERSION@),
{
    reveal_strlit("application/json");
    reveal_strlit("wrong-cluster-v1");
    reveal_strlit("otunnel/0.1.0");
    reveal_strlit("otunnel");
    reveal_strlit("0.1.0");
    reveal_strlit("2026-08-25");
    header::lemma_plain_value("application/json"@);
    header::lemma_plain_value("wrong-cluster-v1"@);
    header::lemma_plain_value(headers::USER_AGENT@);
    header::lemma_plain_value("otunnel"@);
    header::lemma_plain_value(VERSION@);
    header::lemma_plain_value(WIRE_VERSION@);
}

/// The list with one more channel in its place by name, behind those that are not after it.
pub open spec fn channel_placed(items: Seq<ChannelView>, item: ChannelView) -> Seq<ChannelView>
    decreases items.len(),
{
    if items.len() > 0 && text::precedes(item.name, items.last().name) {
        channel_placed(items.drop_last(), item).push(items.last())
    } else {
        items.push(item)
    }
}

/// The channels in the order of their names.
pub open spec fn channels_sorted(items: Seq<ChannelView>) -> Seq<ChannelView>
    decreases items.len(),
{
    if items.len() == 0 {
        Seq::empty()
    } else {
        channel_placed(channels_sorted(items.drop_last()), items.last())
    }
}

proof fn lemma_channel_placed(items: Seq<ChannelView>, item: ChannelView, at: int)
    requires
        0 <= at <= items.len(),
        forall|i: int| at <= i < items.len() ==> text::precedes(item.name, #[trigger] items[i].name),
        at == 0 || !text::precedes(item.name, items[at - 1].name),
    ensures
        channel_placed(items, item) == items.insert(at, item),
    decreases items.len(),
{
    if at < items.len() {
        assert(text::precedes(item.name, items[items.len() - 1].name));
        let front = items.drop_last();
        assert forall|i: int| at <= i < front.len() implies text::precedes(
            item.name,
            #[trigger] front[i].name,
        ) by {
            assert(front[i] == items[i]);
        }
        lemma_channel_placed(front, item, at);
        assert(items.insert(at, item) =~= front.insert(at, item).push(items.last()));
    } else {
        assert(items.insert(at, item) =~= items.push(item));
    }
}

impl Clone for Channel {
    fn clone(&self) -> (result: Channel)
        ensures
            result@ == self@,
    {
        Channel {
            name: self.name.clone(),
            stateless: self.stateless,
            proc_affinity: self.proc_affinity,
        }
    }
}

fn sort_channels(channels: &Vec<Channel>) -> (result: Vec<Channel>)
    ensures
        channel_views(result@) == channels_sorted(channel_views(channels@)),
{
    let ghost all = channel_views(channels@);
    let mut result: Vec<Channel> = Vec::new();
    let mut index: usize = 0;
    assert(channel_views(result@) == Seq::<ChannelView>::empty());
    while index < channels.len()
        invariant
            index <= channels.len(),
            all == channel_views(channels@),
            channel_views(result@) == channels_sorted(all.take(index as int)),
            result@.len() == index,
        decreases channels.len() - index,
    {
        let item = channels[index].clone();
        let ghost done = channel_views(result@);
        let mut at: usize = result.len();
        while at > 0 && text::before(&item.name, &result[at - 1].name)
            invariant
                at <= result.len(),
                done == channel_views(result@),
                forall|i: int|
                    at <= i < done.len() ==> text::precedes(item.name@, #[trigger] done[i].name),
            decreases at,
        {
            assert(done[at - 1] == result@[at - 1]@);
            at = at - 1;
        }
        proof {
            if at > 0 {
                assert(done[at - 1] == result@[at - 1]@);
            }
            lemma_channel_placed(done, item@, at as int);
            assert(all.take(index + 1).drop_last() == all.take(index as int));
            assert(all.take(index + 1).last() == item@);
            assert(channel_views(result@.insert(at as int, item)) =~= done.insert(
                at as int,
                item@,
            ));
        }
        result.insert(at, item);
        index = index + 1;
    }
    assert(all.take(all.len() as int) == all);
    result
}

/// Why a channel in a sorted list is refused, if so.
pub open spec fn listed_fault(items: Seq<ChannelView>, at: int) -> Option<Seq<char>> {
    let name = items[at].name;
    either(
        unless(
            channel_of(name) == Ok::<Seq<char>, Seq<char>>(name),
            "invalid tunnel channel name: "@ + name,
        ),
        unless(
            at == 0 || items[at - 1].name != name,
            "duplicate tunnel channel: "@ + name,
        ),
    )
}

impl ChannelView {
    /// The entry of the channel in the declaration.
    pub open spec fn declared(self) -> Seq<char> {
        let first = with_member(Seq::empty(), true, "name"@, string_text(self.name));
        let second = with_member(first, self.stateless, "stateless"@, "true"@);
        object_text(with_member(second, self.proc_affinity, "proc_affinity"@, "true"@))
    }
}

/// The declaration of the channels.
pub open spec fn declaration(items: Seq<ChannelView>) -> Seq<char> {
    let version = if exists|i: int| 0 <= i < items.len() && (#[trigger] items[i]).stateless {
        "2"@
    } else {
        "1"@
    };
    object_text(
        with_member(
            with_member(Seq::empty(), true, "version"@, version),
            true,
            "channels"@,
            list_text(items.map_values(|item: ChannelView| item.declared())),
        ),
    )
}

/// Why the channels cannot be declared, if so.
pub open spec fn channels_fault(channels: Seq<ChannelView>) -> Option<Seq<char>> {
    let items = channels_sorted(channels);
    either(
        unless(channels.len() <= 32, "tunnel protocol permits at most 32 channels"@),
        either(
            first_fault(items.len() as int, |i: int| listed_fault(items, i)),
            either(
                unless(
                    text::byte_len(declaration(items)) <= 4096,
                    "tunnel channel declaration exceeds 4096 bytes"@,
                ),
                unless(is_header_text(declaration(items)), "failed to parse header value"@),
            ),
        ),
    )
}

fn check_listed(items: &Vec<Channel>) -> (result: Result<(), String>)
    ensures
        tells(
            result,
            ({
                let all = channel_views(items@);
                first_fault(all.len() as int, |i: int| listed_fault(all, i))
            }),
        ),
{
    let ghost all = channel_views(items@);
    let ghost fault = |i: int| listed_fault(all, i);
    let mut index: usize = 0;
    while index < items.len()
        invariant
            index <= items.len(),
            all == channel_views(items@),
            fault == (|i: int| listed_fault(all, i)),
            first_fault(all.len() as int, fault) == fault_from(index as int, all.len() as int, fault),
        decreases items.len() - index,
    {
        let name = &items[index].name;
        assert(fault(index as int) == listed_fault(all, index as int));
        assert(all[index as int].name == name@);
        let canonical = match values::channel(name) {
            Ok(found) => text::same(&found, name),
            Err(_) => false,
        };
        if !canonical {
            return Err(text::cat("invalid tunnel channel name: ", name));
        }
        if index > 0 {
            assert(all[index - 1].name == items@[index - 1].name@);
            if text::same(&items[index - 1].name, name) {
                return Err(text::cat("duplicate tunnel channel: ", name));
            }
        }
        index = index + 1;
    }
    Ok(())
}

fn declare(items: &Vec<Channel>) -> (result: String)
    ensures
        result@ == declaration(channel_views(items@)),
{
    let ghost all = channel_views(items@);
    let ghost texts = all.map_values(|item: ChannelView| item.declared());
    let mut parts: Vec<String> = Vec::new();
    let mut stateless = false;
    let mut index: usize = 0;
    while index < items.len()
        invariant
            index <= items.len(),
            all == channel_views(items@),
            texts == all.map_values(|item: ChannelView| item.declared()),
            text::views(parts@) == texts.take(index as int),
            stateless == exists|i: int| 0 <= i < index && (#[trigger] all[i]).stateless,
        decreases items.len() - index,
    {
        let item = &items[index];
        let mut members: Vec<String> = Vec::new();
        assert(text::views(members@) == Seq::<Seq<char>>::empty());
        append(&mut members, true, "name", &quote(&item.name));
        append(&mut members, item.stateless, "stateless", "true");
        append(&mut members, item.proc_affinity, "proc_affinity", "true");
        let part = object(&members);
        proof {
            assert(all[index as int] == item@);
            assert(texts[index as int] == part@);
            assert(text::views(parts@.push(part)) == text::views(parts@).push(part@));
            assert(texts.take(index + 1) == texts.take(index as int).push(part@));
            if item.stateless {
                assert(all[index as int].stateless);
            }
        }
        stateless = stateless || item.stateless;
        parts.push(part);
        index = index + 1;
    }
    assert(texts.take(texts.len() as int) == texts);
    let version = if stateless {
        "2"
    } else {
        "1"
    };
    let mut members: Vec<String> = Vec::new();
    assert(text::views(members@) == Seq::<Seq<char>>::empty());
    append(&mut members, true, "version", version);
    append(&mut members, true, "channels", &list(&parts));
    object(&members)
}

/// What tells the service of the channels.
pub fn set_channels(channels: &Vec<Channel>) -> (result: Result<String, String>)
    ensures
        match result {
            Ok(value) => channels_fault(channel_views(channels@)) is None && value@ == declaration(
                channels_sorted(channel_views(channels@)),
            ),
            Err(reason) => channels_fault(channel_views(channels@)) == Some(reason@),
        },
{
    if channels.len() > 32 {
        return Err("tunnel protocol permits at most 32 channels".to_owned());
    }
    let items = sort_channels(channels);
    match check_listed(&items) {
        Ok(()) => {},
        Err(reason) => {
            return Err(reason);
        },
    }
    let value = declare(&items);
    if !text::fits(&value, 4096) {
        return Err("tunnel channel declaration exceeds 4096 bytes".to_owned());
    }
    if !header::valid_value(&text::bytes(&value)) {
        return Err("failed to parse header value".to_owned());
    }
    Ok(value)
}

/// The headers of a request: what every request carries, the declaration of the channels, and the
/// token of a route.
pub open spec fn request_headers(
    map: Map<Seq<char>, Seq<Seq<u8>>>,
    channels: Option<Seq<char>>,
    token: Option<Seq<u8>>,
) -> Map<Seq<char>, Seq<Seq<u8>>> {
    let declared = match channels {
        Some(value) => with_header(map, "x-tunnel-mcp-server-info"@, value),
        None => map,
    };
    match token {
        Some(value) => declared.insert("x-tunnel-shard-token"@, seq![value]),
        None => declared,
    }
}

/// The URL of an endpoint of the tunnel, or why there is none.
pub open spec fn tunnel_endpoint(url: Seq<char>, suffix: Seq<char>) -> Result<Seq<char>, Seq<char>> {
    let segments = text::split_of(suffix, '/');
    if suffix.len() == 0 {
        Ok(url)
    } else if text::byte_len(url) > address::LARGEST || segments.len() > address::LARGEST || text::total_bytes(
        segments,
    ) > address::LARGEST {
        Err("control plane URL is too long"@)
    } else {
        match url_extended(url, segments) {
            Some(full) => Ok(full),
            None => Err("invalid control plane URL"@),
        }
    }
}

/// The pairs of the query of a poll.
pub open spec fn poll_pairs(channels: Seq<Seq<char>>, limit: nat, millis: nat) -> Seq<
    (Seq<char>, Seq<char>),
> {
    channels.map_values(|name: Seq<char>| ("channel"@, name)) + seq![
        ("limit"@, text::decimal_of(if limit < 25 {
            limit
        } else {
            25
        })),
        ("timeout_ms"@, text::decimal_of(if millis < 1 {
            1
        } else {
            millis
        })),
    ]
}

/// The URL of a poll, or why there is none.
pub open spec fn poll_url_of(
    url: Seq<char>,
    channels: Seq<Seq<char>>,
    limit: nat,
    requested: nat,
) -> Result<Seq<char>, Seq<char>> {
    let pairs = poll_pairs(channels, limit, requested / 1_000_000);
    match tunnel_endpoint(url, "poll"@) {
        Err(reason) => Err(reason),
        Ok(full) => if text::byte_len(full) > address::LARGEST || pairs.len() > address::LARGEST
            || address::pairs_size(pairs) > address::LARGEST {
            Err("control plane URL is too long"@)
        } else {
            match url_with_pairs(full, pairs) {
                Some(found) => Ok(found),
                None => Err("invalid control plane URL"@),
            }
        },
    }
}

/// What the service tells of the tunnel, or why that is nothing: it refuses, or its answer is no document.
pub open spec fn metadata_of(status: u16, body: Seq<u8>) -> Option<Doc> {
    match text::utf8_text(body) {
        Some(value) => if 200 <= status < 300 {
            parsed_json(value)
        } else {
            None
        },
        None => None,
    }
}

/// What the service tells of the tunnel, in an answer with the status and the body.
pub fn metadata(status: u16, body: &Vec<u8>) -> (result: Result<Json, String>)
    ensures
        result is Ok <==> 200 <= status < 300 && text::utf8_text(body@) is Some && parsed_json(
            text::utf8_text(body@)->0,
        ) is Some,
        match result {
            Ok(value) => metadata_of(status, body@) == Some(value.doc()),
            Err(reason) => if 200 <= status < 300 {
                reason@ == "decode tunnel metadata response"@
            } else {
                exists|error: StatusError|
                    error.status == status && error.operation@ == "metadata"@ && error.info@ == info_of(
                        text::trim_of(lossy_text(body@)),
                    ) && reason@ == #[trigger] error.shown()
            },
        },
{
    if status < 200 || status >= 300 {
        let error = StatusError::read(status, "metadata", body);
        return Err(error.text());
    }
    let value = match text::from_utf8(body) {
        Some(value) => json::parse(&value),
        None => None,
    };
    match value {
        Some(value) => Ok(value),
        None => Err("decode tunnel metadata response".to_owned()),
    }
}

impl Control {
    /// The headers of a request.
    pub fn headers(&self, channels: &Option<String>, token: &Option<Vec<u8>>) -> (result: header::Headers)
        requires
            header::header_entries(self.headers).dom().finite(),
            header::header_entries(self.headers).dom().len() + 2 <= header::ROOM,
            channels is Some ==> is_header_text(channels->0@),
        ensures
            header::header_entries(result) == request_headers(
                header::header_entries(self.headers),
                text::view_of(*channels),
                bytes_of(*token),
            ),
    {
        let mut map = header::duplicate(&self.headers);
        proof {
            reveal_strlit("x-tunnel-mcp-server-info");
            reveal_strlit("x-tunnel-shard-token");
            assert(text::lowercase_of("x-tunnel-mcp-server-info"@)
                =~= "x-tunnel-mcp-server-info"@);
            assert(text::lowercase_of("x-tunnel-shard-token"@) =~= "x-tunnel-shard-token"@);
        }
        if let Some(value) = channels {
            header::put(&mut map, "x-tunnel-mcp-server-info", text::bytes(value));
        }
        if let Some(value) = token {
            header::put(&mut map, "x-tunnel-shard-token", value.clone());
        }
        map
    }

    /// The URL of an endpoint of the tunnel.
    pub fn endpoint(&self, suffix: &str) -> (result: Result<String, String>)
        ensures
            gives(result, tunnel_endpoint(self.url@, suffix@)),
    {
        if suffix.is_empty() {
            return Ok(self.url.clone());
        }
        let segments = text::split(suffix, '/');
        assert(text::views(segments@).len() == segments@.len());
        if !text::fits(&self.url, address::LARGEST) || segments.len() > address::LARGEST || !text::total_fits(
            &segments,
            address::LARGEST,
        ) {
            return Err("control plane URL is too long".to_owned());
        }
        match address::extended(&self.url, &segments) {
            Some(full) => Ok(full),
            None => Err("invalid control plane URL".to_owned()),
        }
    }

    /// The URL of a poll for at most `limit` requests that may take the time. A poll for none is not
    /// made.
    pub fn poll_url(&self, limit: usize, requested: Span) -> (result: Result<String, String>)
        requires
            limit > 0,
        ensures
            gives(
                result,
                poll_url_of(
                    self.url@,
                    text::views(self.subscriptions@),
                    limit as nat,
                    requested.0 as nat,
                ),
            ),
    {
        let full = match self.endpoint("poll") {
            Ok(full) => full,
            Err(reason) => {
                return Err(reason);
            },
        };
        let ghost names = text::views(self.subscriptions@);
        let ghost front = names.map_values(|name: Seq<char>| ("channel"@, name));
        let mut pairs: Vec<(String, String)> = Vec::new();
        let mut index: usize = 0;
        while index < self.subscriptions.len()
            invariant
                index <= self.subscriptions.len(),
                names == text::views(self.subscriptions@),
                front == names.map_values(|name: Seq<char>| ("channel"@, name)),
                address::pair_views(pairs@) == front.take(index as int),
            decreases self.subscriptions.len() - index,
        {
            let pair = ("channel".to_owned(), self.subscriptions[index].clone());
            proof {
                assert(front[index as int] == (pair.0@, pair.1@));
                assert(address::pair_views(pairs@.push(pair)) == address::pair_views(pairs@).push(
                    (pair.0@, pair.1@),
                ));
                assert(front.take(index + 1) == front.take(index as int).push(
                    front[index as int],
                ));
            }
            pairs.push(pair);
            index = index + 1;
        }
        assert(front.take(front.len() as int) == front);
        let most: u64 = if limit < 25 {
            limit as u64
        } else {
            25
        };
        let whole: u64 = requested.0 / 1_000_000;
        let millis: u64 = if whole < 1 {
            1
        } else {
            whole
        };
        pairs.push(("limit".to_owned(), text::decimal(most)));
        pairs.push(("timeout_ms".to_owned(), text::decimal(millis)));
        assert(address::pair_views(pairs@) =~= poll_pairs(
            names,
            limit as nat,
            requested.0 as nat / 1_000_000,
        ));
        if !text::fits(&full, address::LARGEST) || pairs.len() > address::LARGEST || !address::pairs_fit(
            &pairs,
            address::LARGEST,
        ) {
            return Err("control plane URL is too long".to_owned());
        }
        match address::with_pairs(&full, &pairs) {
            Some(found) => Ok(found),
            None => Err("invalid control plane URL".to_owned()),
        }
    }
}

/// A request to the service asks for JSON, tells what the client understands, carries its key, and takes nothing of
/// what it says of itself from the configured headers; every other configured header is sent as it is.
pub proof fn lemma_headers_protected(
    map: Map<Seq<char>, Seq<Seq<u8>>>,
    key: Seq<char>,
    instance: Seq<char>,
    organization: Option<Seq<char>>,
    name: Seq<char>,
)
    ensures
        ({
            let sent = client_headers(map, key, instance, organization);
            &&& sent.dom().contains("accept"@) && sent["accept"@] == seq![
                vstd::utf8::encode_utf8("application/json"@),
            ]
            &&& sent.dom().contains("x-tunnel-client-capabilities"@)
                && sent["x-tunnel-client-capabilities"@] == seq![
                vstd::utf8::encode_utf8("wrong-cluster-v1"@),
            ]
            &&& !sent.dom().contains("x-tunnel-shard-token"@)
            &&& !sent.dom().contains("x-tunnel-mcp-server-info"@)
            &&& organization matches Some(value) ==> sent.dom().contains("openai-organization"@)
                && sent["openai-organization"@] == seq![vstd::utf8::encode_utf8(text::trim_of(value))]
            &&& map.dom().contains(name) && name != "authorization"@ && name != "accept"@ && name
                != "user-agent"@ && name != "x-tunnel-client-name"@ && name != "x-tunnel-client-version"@
                && name != "x-tunnel-client-wire-protocol-version"@ && name
                != "x-tunnel-client-instance-id"@ && name != "x-tunnel-client-capabilities"@ && name
                != "x-tunnel-mcp-server-info"@ && name != "x-tunnel-shard-token"@ && name
                != "openai-organization"@ ==> sent.dom().contains(name) && sent[name] == map[name]
        }),
{
    reveal_strlit("authorization");
    reveal_strlit("accept");
    reveal_strlit("user-agent");
    reveal_strlit("x-tunnel-client-name");
    reveal_strlit("x-tunnel-client-version");
    reveal_strlit("x-tunnel-client-wire-protocol-version");
    reveal_strlit("x-tunnel-client-instance-id");
    reveal_strlit("x-tunnel-client-capabilities");
    reveal_strlit("x-tunnel-mcp-server-info");
    reveal_strlit("x-tunnel-shard-token");
    reveal_strlit("openai-organization");
    assert("authorization"@.len() == 13);
    assert("accept"@.len() == 6);
    assert("user-agent"@.len() == 10);
    assert("x-tunnel-client-name"@.len() == 20 && "x-tunnel-client-name"@[9] == 'c');
    assert("x-tunnel-client-version"@.len() == 23);
    assert("x-tunnel-client-wire-protocol-version"@.len() == 37);
    assert("x-tunnel-client-instance-id"@.len() == 27);
    assert("x-tunnel-client-capabilities"@.len() == 28);
    assert("x-tunnel-mcp-server-info"@.len() == 24);
    assert("x-tunnel-shard-token"@.len() == 20 && "x-tunnel-shard-token"@[9] == 's');
    assert("openai-organization"@.len() == 19);
}

/// A request carries the channels that are declared and the token of its route, and without a token none.
pub proof fn lemma_request_routed(
    map: Map<Seq<char>, Seq<Seq<u8>>>,
    channels: Option<Seq<char>>,
    token: Option<Seq<u8>>,
)
    ensures
        ({
            let sent = request_headers(map, channels, token);
            &&& token matches Some(value) ==> sent.dom().contains("x-tunnel-shard-token"@)
                && sent["x-tunnel-shard-token"@] == seq![value]
            &&& token is None && !map.dom().contains("x-tunnel-shard-token"@) ==> !sent.dom().contains(
                "x-tunnel-shard-token"@,
            )
            &&& channels matches Some(value) ==> sent.dom().contains("x-tunnel-mcp-server-info"@)
                && sent["x-tunnel-mcp-server-info"@] == seq![vstd::utf8::encode_utf8(value)]
        }),
{
    reveal_strlit("x-tunnel-mcp-server-info");
    reveal_strlit("x-tunnel-shard-token");
    assert("x-tunnel-mcp-server-info"@.len() == 24);
    assert("x-tunnel-shard-token"@.len() == 20);
}

/// A poll names each of its channels, asks for twenty-five commands at most, and waits a millisecond at least.
pub proof fn lemma_poll_asks(channels: Seq<Seq<char>>, limit: nat, millis: nat, at: int)
    ensures
        ({
            let pairs = poll_pairs(channels, limit, millis);
            &&& pairs.len() == channels.len() + 2
            &&& 0 <= at < channels.len() ==> pairs[at] == ("channel"@, channels[at])
            &&& limit <= 25 ==> pairs[channels.len() as int] == ("limit"@, text::decimal_of(limit))
            &&& limit >= 25 ==> pairs[channels.len() as int] == ("limit"@, text::decimal_of(25))
            &&& millis >= 1 ==> pairs[channels.len() as int + 1] == ("timeout_ms"@, text::decimal_of(millis))
            &&& millis == 0 ==> pairs[channels.len() as int + 1] == ("timeout_ms"@, text::decimal_of(1))
        }),
{
}

/// The URL of a tunnel ends with its identity, below the path that is configured for the service, and the service
/// has a host.
pub proof fn lemma_tunnel_located(config: ConfigView)
    requires
        tunnel_url(config) is Ok,
    ensures
        ({
            let base = parsed_url(config.control_plane.base());
            let path = match config.control_plane.url_path {
                Some(path) => path,
                None => Seq::empty(),
            };
            &&& base is Ok
            &&& base->Ok_0.host is Some
            &&& endpoint_of(base->Ok_0.text, path, "v1/tunnels"@) is Ok
            &&& url_pushed(
                endpoint_of(base->Ok_0.text, path, "v1/tunnels"@)->Ok_0,
                config.control_plane.tunnel_id,
            ) == Some(tunnel_url(config)->Ok_0)
        }),
{
}

/// Channels can be declared where there are at most thirty-two, each under a name as it is normalized, and none
/// twice; the declaration fits in four kilobytes.
pub proof fn lemma_channels_declared(channels: Seq<ChannelView>, at: int)
    requires
        channels_fault(channels) is None,
    ensures
        channels.len() <= 32,
        0 <= at < channels_sorted(channels).len() ==> channel_of(channels_sorted(channels)[at].name) == Ok::<
            Seq<char>,
            Seq<char>,
        >(channels_sorted(channels)[at].name),
        0 < at < channels_sorted(channels).len() ==> channels_sorted(channels)[at - 1].name
            != channels_sorted(channels)[at].name,
        text::byte_len(declaration(channels_sorted(channels))) <= 4096,
        header::is_value(vstd::utf8::encode_utf8(declaration(channels_sorted(channels)))),
{
    let items = channels_sorted(channels);
    let faults = |i: int| listed_fault(items, i);
    crate::checks::lemma_first_fault(0, items.len() as int, faults);
    if 0 <= at < items.len() {
        assert(faults(at) is None);
    }
}

/// A declaration is of version two exactly where a channel is stateless, and of version one otherwise.
pub proof fn lemma_declaration_version(items: Seq<ChannelView>, at: int)
    ensures
        0 <= at < items.len() && items[at].stateless ==> declaration(items) == object_text(
            seq![
                string_text("version"@) + ":2"@,
                string_text("channels"@) + ":"@ + list_text(
                    items.map_values(|item: ChannelView| item.declared()),
                ),
            ],
        ),
        (forall|i: int| 0 <= i < items.len() ==> !(#[trigger] items[i]).stateless) ==> declaration(items)
            == object_text(
            seq![
                string_text("version"@) + ":1"@,
                string_text("channels"@) + ":"@ + list_text(
                    items.map_values(|item: ChannelView| item.declared()),
                ),
            ],
        ),
{
    reveal_strlit(":");
    reveal_strlit("1");
    reveal_strlit("2");
    reveal_strlit(":1");
    reveal_strlit(":2");
    let list = list_text(items.map_values(|item: ChannelView| item.declared()));
    let first = with_member(
        with_member(Seq::empty(), true, "version"@, "1"@),
        true,
        "channels"@,
        list,
    );
    let second = with_member(
        with_member(Seq::empty(), true, "version"@, "2"@),
        true,
        "channels"@,
        list,
    );
    assert(":"@ + "1"@ =~= ":1"@);
    assert(":"@ + "2"@ =~= ":2"@);
    assert(string_text("version"@) + ":"@ + "1"@ =~= string_text("version"@) + ":1"@);
    assert(string_text("version"@) + ":"@ + "2"@ =~= string_text("version"@) + ":2"@);
    assert(first =~= seq![string_text("version"@) + ":1"@, string_text("channels"@) + ":"@ + list]);
    assert(second =~= seq![string_text("version"@) + ":2"@, string_text("channels"@) + ":"@ + list]);
}

/// What the service tells of the tunnel is read from every answer of success, and from no other.
pub proof fn lemma_metadata_on_success(status: u16, body: Seq<u8>)
    ensures
        status < 200 || status > 299 ==> metadata_of(status, body) is None,
        200 <= status <= 299 && text::utf8_text(body) is Some ==> metadata_of(status, body) == parsed_json(
            text::utf8_text(body)->0,
        ),
{
}

/// Each request of the client tells its key, its name, its version, that of the protocol, and which instance it is.
pub proof fn lemma_client_told(
    map: Map<Seq<char>, Seq<Seq<u8>>>,
    key: Seq<char>,
    instance: Seq<char>,
    organization: Option<Seq<char>>,
)
    ensures
        ({
            let sent = client_headers(map, key, instance, organization);
            &&& sent["authorization"@] == seq![vstd::utf8::encode_utf8("Bearer "@ + key)]
            &&& sent["x-tunnel-client-name"@] == seq![vstd::utf8::encode_utf8("otunnel"@)]
            &&& sent["x-tunnel-client-version"@] == seq![vstd::utf8::encode_utf8("0.1.0"@)]
            &&& sent["x-tunnel-client-wire-protocol-version"@] == seq![vstd::utf8::encode_utf8("2026-08-25"@)]
            &&& sent["x-tunnel-client-instance-id"@] == seq![vstd::utf8::encode_utf8(instance)]
            &&& sent["user-agent"@] == seq![vstd::utf8::encode_utf8(headers::USER_AGENT@)]
        }),
{
    reveal_strlit("authorization");
    reveal_strlit("accept");
    reveal_strlit("user-agent");
    reveal_strlit("x-tunnel-client-name");
    reveal_strlit("x-tunnel-client-version");
    reveal_strlit("x-tunnel-client-wire-protocol-version");
    reveal_strlit("x-tunnel-client-instance-id");
    reveal_strlit("x-tunnel-client-capabilities");
    reveal_strlit("openai-organization");
    assert("authorization"@.len() == 13);
    assert("accept"@.len() == 6);
    assert("user-agent"@.len() == 10);
    assert("x-tunnel-client-name"@.len() == 20);
    assert("x-tunnel-client-version"@.len() == 23);
    assert("x-tunnel-client-wire-protocol-version"@.len() == 37);
    assert("x-tunnel-client-instance-id"@.len() == 27);
    assert("x-tunnel-client-capabilities"@.len() == 28);
    assert("openai-organization"@.len() == 19);
}

} // verus!
