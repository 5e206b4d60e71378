//! The canonical form of a configuration.

use vstd::prelude::*;
use crate::checks::{either, fault_from, first_fault, lemma_first_fault, tells, unless};
use crate::config::settings::{
    command_views,
    server_views,
    target_views,
    Cloudflared,
    CloudflaredView,
    Command,
    CommandView,
    Config,
    ConfigView,
    ControlPlane,
    ControlPlaneView,
    Harpoon,
    HarpoonView,
    Health,
    HealthView,
    Log,
    LogView,
    Mcp,
    McpView,
    ProcessView,
    Server,
    ServerView,
    Target,
    TargetView,
};
use crate::config::values::{channel, channel_of, lemma_channel_again};
use crate::text;

verus! {

/// Why a name stands for no channel, if so.
pub open spec fn channel_fault(name: Seq<char>) -> Option<Seq<char>> {
    match channel_of(name) {
        Ok(_) => None,
        Err(reason) => Some(reason),
    }
}

/// Whether each name up to an index stands for a channel.
pub open spec fn command_named(items: Seq<CommandView>, at: int) -> bool {
    forall|j: int| 0 <= j <= at ==> channel_of((#[trigger] items[j]).channel) is Ok
}

/// The list with the name of each channel replaced by the channel, up to the first name that stands
/// for none.
pub open spec fn command_settled(items: Seq<CommandView>) -> Seq<CommandView> {
    Seq::new(
        items.len(),
        |i: int|
            if command_named(items, i) {
                CommandView { channel: channel_of(items[i].channel)->Ok_0, ..items[i] }
            } else {
                items[i]
            },
    )
}

/// Why a name stands for no channel, if so.
pub open spec fn command_fault(items: Seq<CommandView>) -> Option<Seq<char>> {
    first_fault(items.len() as int, |i: int| channel_fault(items[i].channel))
}

fn settle_commands(items: &mut Vec<Command>) -> (result: Result<(), String>)
    ensures
        tells(result, command_fault(command_views(old(items)@))),
        command_views(final(items)@) == command_settled(command_views(old(items)@)),
{
    let ghost all = command_views(items@);
    let ghost fault = |i: int| channel_fault(all[i].channel);
    let mut index: usize = 0;
    while index < items.len()
        invariant
            index <= items.len(),
            items@.len() == all.len(),
            all == command_views(old(items)@),
            fault == (|i: int| channel_fault(all[i].channel)),
            first_fault(all.len() as int, fault) == fault_from(
                index as int,
                all.len() as int,
                fault,
            ),
            command_named(all, index - 1),
            forall|i: int| index <= i < all.len() ==> (#[trigger] items@[i])@ == all[i],
            forall|i: int|
                0 <= i < index ==> (#[trigger] items@[i])@ == (CommandView {
                    channel: channel_of(all[i].channel)->Ok_0,
                    ..all[i]
                }),
        decreases items.len() - index,
    {
        assert(items@[index as int]@ == all[index as int]);
        assert(fault(index as int) == channel_fault(all[index as int].channel));
        match channel(&items[index].channel) {
            Ok(name) => {
                items[index].channel = name;
            },
            Err(reason) => {
                proof {
                    let settled = command_settled(all);
                    assert(!command_named(all, index as int)) by {
                        assert(channel_of(all[index as int].channel) is Err);
                    }
                    assert forall|i: int| 0 <= i < all.len() implies command_views(items@)[i]
                        == settled[i] by {
                        if i >= index {
                            assert(channel_of(all[index as int].channel) is Err);
                            assert(!command_named(all, i));
                        } else {
                            assert(command_named(all, i));
                        }
                    }
                    assert(command_views(items@) =~= settled);
                }
                return Err(reason);
            },
        }
        index = index + 1;
    }
    proof {
        let settled = command_settled(all);
        assert forall|i: int| 0 <= i < all.len() implies command_views(items@)[i] == settled[i] by {
            assert(command_named(all, i));
        }
        assert(command_views(items@) =~= settled);
    }
    Ok(())
}

/// Whether each name up to an index stands for a channel.
pub open spec fn server_named(items: Seq<ServerView>, at: int) -> bool {
    forall|j: int| 0 <= j <= at ==> channel_of((#[trigger] items[j]).channel) is Ok
}

/// The list with the name of each channel replaced by the channel, up to the first name that stands
/// for none.
pub open spec fn server_settled(items: Seq<ServerView>) -> Seq<ServerView> {
    Seq::new(
        items.len(),
        |i: int|
            if server_named(items, i) {
                ServerView { channel: channel_of(items[i].channel)->Ok_0, ..items[i] }
            } else {
                items[i]
            },
    )
}

/// Why a name stands for no channel, if so.
pub open spec fn server_fault(items: Seq<ServerView>) -> Option<Seq<char>> {
    first_fault(items.len() as int, |i: int| channel_fault(items[i].channel))
}

fn settle_servers(items: &mut Vec<Server>) -> (result: Result<(), String>)
    ensures
        tells(result, server_fault(server_views(old(items)@))),
        server_views(final(items)@) == server_settled(server_views(old(items)@)),
{
    let ghost all = server_views(items@);
    let ghost fault = |i: int| channel_fault(all[i].channel);
    let mut index: usize = 0;
    while index < items.len()
        invariant
            index <= items.len(),
            items@.len() == all.len(),
            all == server_views(old(items)@),
            fault == (|i: int| channel_fault(all[i].channel)),
            first_fault(all.len() as int, fault) == fault_from(
                index as int,
                all.len() as int,
                fault,
            ),
            server_named(all, index - 1),
            forall|i: int| index <= i < all.len() ==> (#[trigger] items@[i])@ == all[i],
            forall|i: int|
                0 <= i < index ==> (#[trigger] items@[i])@ == (ServerView {
                    channel: channel_of(all[i].channel)->Ok_0,
                    ..all[i]
                }),
        decreases items.len() - index,
    {
        assert(items@[index as int]@ == all[index as int]);
        assert(fault(index as int) == channel_fault(all[index as int].channel));
        match channel(&items[index].channel) {
            Ok(name) => {
                items[index].channel = name;
            },
            Err(reason) => {
                proof {
                    let settled = server_settled(all);
                    assert(!server_named(all, index as int)) by {
                        assert(channel_of(all[index as int].channel) is Err);
                    }
                    assert forall|i: int| 0 <= i < all.len() implies server_views(items@)[i]
                        == settled[i] by {
                        if i >= index {
                            assert(channel_of(all[index as int].channel) is Err);
                            assert(!server_named(all, i));
                        } else {
                            assert(server_named(all, i));
                        }
                    }
                    assert(server_views(items@) =~= settled);
                }
                return Err(reason);
            },
        }
        index = index + 1;
    }
    proof {
        let settled = server_settled(all);
        assert forall|i: int| 0 <= i < all.len() implies server_views(items@)[i] == settled[i] by {
            assert(server_named(all, i));
        }
        assert(server_views(items@) =~= settled);
    }
    Ok(())
}

/// The setting without white space at its ends; nothing where nothing is left.
pub open spec fn tidied(value: Option<Seq<char>>) -> Option<Seq<char>> {
    match value {
        Some(inner) => if text::trim_of(inner).len() == 0 {
            None
        } else {
            Some(text::trim_of(inner))
        },
        None => None,
    }
}

fn tidy(value: &Option<String>) -> (result: Option<String>)
    ensures
        text::view_of(result) == tidied(text::view_of(*value)),
{
    match value {
        Some(inner) => {
            let trimmed = text::trim(inner);
            if trimmed.is_empty() {
                None
            } else {
                Some(trimmed)
            }
        },
        None => None,
    }
}

/// Why a polled channel is refused, if so.
pub open spec fn poll_name_fault(names: Seq<Seq<char>>, at: int) -> Option<Seq<char>> {
    let name = names[at];
    if text::trim_of(name).len() == 0 {
        Some("control-plane.poll-channel contains an empty channel"@)
    } else {
        match channel_of(name) {
            Err(reason) => Some(reason),
            Ok(found) => either(
                unless(
                    name == found,
                    "control-plane.poll-channel "@ + text::debug_text(name)
                        + " is not canonical; use "@ + text::debug_text(found),
                ),
                unless(
                    !text::repeats(names, at),
                    "duplicate control-plane.poll-channel "@ + text::debug_text(found),
                ),
            ),
        }
    }
}

/// Why the polled channels are refused, if so.
pub open spec fn poll_names_fault(names: Option<Seq<Seq<char>>>) -> Option<Seq<char>> {
    match names {
        None => None,
        Some(names) => either(
            unless(
                names.len() > 0,
                "control-plane.poll-channel contains an empty channel"@,
            ),
            first_fault(names.len() as int, |i: int| poll_name_fault(names, i)),
        ),
    }
}

fn check_poll_names(names: &Vec<String>) -> (result: Result<(), String>)
    ensures
        tells(result, poll_names_fault(Some(text::views(names@)))),
{
    if names.len() == 0 {
        return Err("control-plane.poll-channel contains an empty channel".to_owned());
    }
    let ghost all = text::views(names@);
    let ghost fault = |i: int| poll_name_fault(all, i);
    let mut index: usize = 0;
    while index < names.len()
        invariant
            index <= names.len(),
            all == text::views(names@),
            fault == (|i: int| poll_name_fault(all, i)),
            first_fault(all.len() as int, fault) == fault_from(index as int, all.len() as int, fault),
        decreases names.len() - index,
    {
        let name = &names[index];
        assert(fault(index as int) == poll_name_fault(all, index as int));
        assert(all[index as int] == name@);
        if text::trim(name).is_empty() {
            return Err("control-plane.poll-channel contains an empty channel".to_owned());
        }
        let found = match channel(name) {
            Ok(found) => found,
            Err(reason) => {
                return Err(reason);
            },
        };
        if !text::same(name, &found) {
            return Err(
                text::cat(
                    &text::cat3(
                        "control-plane.poll-channel ",
                        &text::quoted(name),
                        " is not canonical; use ",
                    ),
                    &text::quoted(&found),
                ),
            );
        }
        if text::repeated(names, index) {
            return Err(text::cat("duplicate control-plane.poll-channel ", &text::quoted(&found)));
        }
        index = index + 1;
    }
    Ok(())
}

impl ServerView {
    pub open spec fn tidied(self) -> ServerView {
        ServerView {
            unix_socket: tidied(self.unix_socket),
            http_proxy: tidied(self.http_proxy),
            client_cert: tidied(self.client_cert),
            client_key: tidied(self.client_key),
            ..self
        }
    }
}

impl TargetView {
    pub open spec fn tidied(self) -> TargetView {
        TargetView { unix_socket: tidied(self.unix_socket), ..self }
    }
}

fn tidy_servers(items: &mut Vec<Server>)
    ensures
        server_views(final(items)@) == server_views(old(items)@).map_values(
            |item: ServerView| item.tidied(),
        ),
{
    let ghost all = server_views(items@);
    let mut index: usize = 0;
    while index < items.len()
        invariant
            index <= items.len(),
            items@.len() == all.len(),
            all == server_views(old(items)@),
            forall|i: int| index <= i < all.len() ==> (#[trigger] items@[i])@ == all[i],
            forall|i: int| 0 <= i < index ==> (#[trigger] items@[i])@ == all[i].tidied(),
        decreases items.len() - index,
    {
        assert(items@[index as int]@ == all[index as int]);
        let socket = tidy(&items[index].unix_socket);
        let proxy = tidy(&items[index].http_proxy);
        let cert = tidy(&items[index].client_cert);
        let key = tidy(&items[index].client_key);
        items[index].unix_socket = socket;
        items[index].http_proxy = proxy;
        items[index].client_cert = cert;
        items[index].client_key = key;
        index = index + 1;
    }
    assert(server_views(items@) =~= all.map_values(|item: ServerView| item.tidied()));
}

fn tidy_targets(items: &mut Vec<Target>)
    ensures
        target_views(final(items)@) == target_views(old(items)@).map_values(
            |item: TargetView| item.tidied(),
        ),
{
    let ghost all = target_views(items@);
    let mut index: usize = 0;
    while index < items.len()
        invariant
            index <= items.len(),
            items@.len() == all.len(),
            all == target_views(old(items)@),
            forall|i: int| index <= i < all.len() ==> (#[trigger] items@[i])@ == all[i],
            forall|i: int| 0 <= i < index ==> (#[trigger] items@[i])@ == all[i].tidied(),
        decreases items.len() - index,
    {
        assert(items@[index as int]@ == all[index as int]);
        let socket = tidy(&items[index].unix_socket);
        items[index].unix_socket = socket;
        index = index + 1;
    }
    assert(target_views(items@) =~= all.map_values(|item: TargetView| item.tidied()));
}

impl ControlPlaneView {
    pub open spec fn tidied(self) -> ControlPlaneView {
        ControlPlaneView {
            poll_channels: match self.poll_channels {
                Some(names) => Some(text::sorted_of(names)),
                None => None,
            },
            client_cert: tidied(self.client_cert),
            client_key: tidied(self.client_key),
            http_proxy: tidied(self.http_proxy),
            organization_id: tidied(self.organization_id),
            ..self
        }
    }
}

fn tidy_control(control: &mut ControlPlane)
    ensures
        final(control)@ == old(control)@.tidied(),
{
    if let Some(names) = &control.poll_channels {
        let sorted = text::sorted(names);
        control.poll_channels = Some(sorted);
    }
    control.client_cert = tidy(&control.client_cert);
    control.client_key = tidy(&control.client_key);
    control.http_proxy = tidy(&control.http_proxy);
    control.organization_id = tidy(&control.organization_id);
}

impl McpView {
    pub open spec fn tidied(self) -> McpView {
        McpView {
            server_urls: self.server_urls.map_values(|item: ServerView| item.tidied()),
            http_proxy: tidied(self.http_proxy),
            client_cert: tidied(self.client_cert),
            client_key: tidied(self.client_key),
            ..self
        }
    }
}

fn tidy_mcp(mcp: &mut Mcp)
    ensures
        final(mcp)@ == old(mcp)@.tidied(),
{
    mcp.http_proxy = tidy(&mcp.http_proxy);
    mcp.client_cert = tidy(&mcp.client_cert);
    mcp.client_key = tidy(&mcp.client_key);
    tidy_servers(&mut mcp.server_urls);
}

impl HarpoonView {
    pub open spec fn tidied(self) -> HarpoonView {
        HarpoonView {
            targets: self.targets.map_values(|item: TargetView| item.tidied()),
            http_proxy: tidied(self.http_proxy),
            ..self
        }
    }
}

fn tidy_harpoon(harpoon: &mut Harpoon)
    ensures
        final(harpoon)@ == old(harpoon)@.tidied(),
{
    harpoon.http_proxy = tidy(&harpoon.http_proxy);
    tidy_targets(&mut harpoon.targets);
}

impl HealthView {
    pub open spec fn tidied(self) -> HealthView {
        HealthView {
            listen_addr: if self.listen_addr.len() == 0 {
                "127.0.0.1:8080"@
            } else {
                self.listen_addr
            },
            unix_socket: tidied(self.unix_socket),
            url_file: tidied(self.url_file),
            ..self
        }
    }
}

fn tidy_health(health: &mut Health)
    ensures
        final(health)@ == old(health)@.tidied(),
{
    if health.listen_addr.is_empty() {
        health.listen_addr = "127.0.0.1:8080".to_owned();
    }
    health.unix_socket = tidy(&health.unix_socket);
    health.url_file = tidy(&health.url_file);
}

impl LogView {
    pub open spec fn tidied(self) -> LogView {
        LogView {
            level: text::lowercase_of(text::trim_of(self.level)),
            format: text::lowercase_of(text::trim_of(self.format)),
            file: tidied(self.file),
            ..self
        }
    }
}

fn tidy_log(log: &mut Log)
    ensures
        final(log)@ == old(log)@.tidied(),
{
    log.level = text::lowercase(&text::trim(&log.level));
    log.format = text::lowercase(&text::trim(&log.format));
    log.file = tidy(&log.file);
}

impl CloudflaredView {
    pub open spec fn tidied(self) -> CloudflaredView {
        CloudflaredView {
            path: if text::trim_of(self.path).len() == 0 {
                "cloudflared"@
            } else {
                text::trim_of(self.path)
            },
            ..self
        }
    }
}

fn tidy_connector(connector: &mut Cloudflared)
    ensures
        final(connector)@ == old(connector)@.tidied(),
{
    let path = text::trim(&connector.path);
    connector.path = if path.is_empty() {
        "cloudflared".to_owned()
    } else {
        path
    };
}

impl ConfigView {
    /// Why there is no canonical form, if so.
    pub open spec fn normal_fault(self) -> Option<Seq<char>> {
        either(
            command_fault(self.mcp.commands),
            either(
                server_fault(self.mcp.server_urls),
                poll_names_fault(self.control_plane.poll_channels),
            ),
        )
    }

    /// The configuration with the channels of its commands and servers settled. A command without a
    /// channel leaves the servers as they were.
    pub open spec fn settled(self) -> ConfigView {
        ConfigView {
            mcp: McpView {
                commands: command_settled(self.mcp.commands),
                server_urls: if command_fault(self.mcp.commands) is None {
                    server_settled(self.mcp.server_urls)
                } else {
                    self.mcp.server_urls
                },
                ..self.mcp
            },
            ..self
        }
    }

    /// The canonical form.
    pub open spec fn normal(self) -> ConfigView {
        let base = self.settled();
        ConfigView {
            ca_bundle: tidied(base.ca_bundle),
            http_proxy: tidied(base.http_proxy),
            control_plane: base.control_plane.tidied(),
            mcp: base.mcp.tidied(),
            harpoon: base.harpoon.tidied(),
            health: base.health.tidied(),
            process: ProcessView { pid_file: tidied(base.process.pid_file) },
            log: base.log.tidied(),
            cloudflared: base.cloudflared.tidied(),
            ..base
        }
    }
}

impl Config {
    /// Brings the configuration into its canonical form. Where there is none, the channels up to the
    /// refused one have been settled.
    pub fn normalize(&mut self) -> (result: Result<(), String>)
        ensures
            tells(result, old(self)@.normal_fault()),
            result is Ok ==> final(self)@ == old(self)@.normal(),
            result is Err ==> final(self)@ == old(self)@.settled(),
    {
        let ghost before = self@;
        match settle_commands(&mut self.mcp.commands) {
            Ok(()) => {},
            Err(reason) => {
                assert(self@ =~= before.settled());
                return Err(reason);
            },
        }
        match settle_servers(&mut self.mcp.server_urls) {
            Ok(()) => {},
            Err(reason) => {
                assert(self@ =~= before.settled());
                return Err(reason);
            },
        }
        assert(self@ =~= before.settled());
        if let Some(names) = &self.control_plane.poll_channels {
            match check_poll_names(names) {
                Ok(()) => {},
                Err(reason) => {
                    return Err(reason);
                },
            }
        }
        self.ca_bundle = tidy(&self.ca_bundle);
        self.http_proxy = tidy(&self.http_proxy);
        self.process.pid_file = tidy(&self.process.pid_file);
        tidy_control(&mut self.control_plane);
        tidy_mcp(&mut self.mcp);
        tidy_harpoon(&mut self.harpoon);
        tidy_health(&mut self.health);
        tidy_log(&mut self.log);
        tidy_connector(&mut self.cloudflared);
        assert(self@ =~= before.normal());
        Ok(())
    }
}

impl ControlPlaneView {
    /// The URL of the service: the given one or the public one, and with a client certificate the one
    /// that takes certificates in place of the public one.
    pub open spec fn base(self) -> Seq<char> {
        let url = if self.base_url is Some && self.base_url->0.len() > 0 {
            self.base_url->0
        } else {
            "https://api.openai.com"@
        };
        if self.client_cert is Some && text::trim_end_char_of(text::trim_of(url), '/')
            == "https://api.openai.com"@ {
            "https://mtls.api.openai.com"@
        } else {
            url
        }
    }
}

impl ControlPlane {
    /// The URL of the service.
    pub fn base_url(&self) -> (result: String)
        ensures
            result@ == self@.base(),
    {
        let url = match &self.base_url {
            Some(url) => if url.is_empty() {
                "https://api.openai.com".to_owned()
            } else {
                url.clone()
            },
            None => "https://api.openai.com".to_owned(),
        };
        if self.client_cert.is_some() && text::same(
            &text::trim_end_char(&text::trim(&url), '/'),
            "https://api.openai.com",
        ) {
            "https://mtls.api.openai.com".to_owned()
        } else {
            url
        }
    }
}

proof fn lemma_tidied_again(value: Option<Seq<char>>)
    ensures
        tidied(tidied(value)) == tidied(value),
{
    if let Some(inner) = value {
        text::lemma_trim_again(inner);
    }
}

proof fn lemma_word_again(value: Seq<char>)
    ensures
        text::lowercase_of(text::trim_of(text::lowercase_of(text::trim_of(value))))
            == text::lowercase_of(text::trim_of(value)),
{
    let once = text::trim_of(value);
    let small = text::lowercase_of(once);
    text::lemma_trim_ends(value);
    text::lemma_lowercase_again(once);
    if small.len() > 0 {
        assert(text::is_space(small[0]) == text::is_space(once[0]));
        assert(text::is_space(small[small.len() - 1]) == text::is_space(once[once.len() - 1]));
    }
    assert(text::trim_of(small) == small);
}

impl ServerView {
    proof fn lemma_tidied_again(self)
        ensures
            self.tidied().tidied() == self.tidied(),
    {
        lemma_tidied_again(self.unix_socket);
        lemma_tidied_again(self.http_proxy);
        lemma_tidied_again(self.client_cert);
        lemma_tidied_again(self.client_key);
    }
}

proof fn lemma_commands_again(items: Seq<CommandView>)
    requires
        command_fault(items) is None,
    ensures
        command_fault(command_settled(items)) is None,
        command_settled(command_settled(items)) == command_settled(items),
{
    let once = command_settled(items);
    let count = items.len() as int;
    let fault = |i: int| channel_fault(items[i].channel);
    lemma_first_fault(0, count, fault);
    assert forall|i: int| 0 <= i < count implies channel_of((#[trigger] items[i]).channel) is Ok by {
        assert(fault(i) is None);
    }
    let again = |i: int| channel_fault(once[i].channel);
    assert forall|i: int| 0 <= i < count implies #[trigger] again(i) is None && channel_of(
        once[i].channel,
    ) == Ok::<Seq<char>, Seq<char>>(once[i].channel) by {
        assert(command_named(items, i));
        lemma_channel_again(items[i].channel);
    }
    lemma_first_fault(0, count, again);
    assert forall|i: int| 0 <= i < count implies #[trigger] command_settled(once)[i] == once[i] by {
        assert(again(i) is None);
        assert(command_named(once, i)) by {
            assert forall|j: int| 0 <= j <= i implies channel_of(
                (#[trigger] once[j]).channel,
            ) is Ok by {
                assert(again(j) is None);
            }
        }
    }
    assert(command_settled(once) =~= once);
}

proof fn lemma_servers_again(items: Seq<ServerView>)
    requires
        server_fault(items) is None,
    ensures
        ({
            let once = server_settled(items).map_values(|item: ServerView| item.tidied());
            &&& server_fault(once) is None
            &&& server_settled(once).map_values(|item: ServerView| item.tidied()) == once
        }),
{
    let once = server_settled(items).map_values(|item: ServerView| item.tidied());
    let count = items.len() as int;
    let fault = |i: int| channel_fault(items[i].channel);
    lemma_first_fault(0, count, fault);
    assert forall|i: int| 0 <= i < count implies channel_of((#[trigger] items[i]).channel) is Ok by {
        assert(fault(i) is None);
    }
    let again = |i: int| channel_fault(once[i].channel);
    assert forall|i: int| 0 <= i < count implies #[trigger] again(i) is None && channel_of(
        once[i].channel,
    ) == Ok::<Seq<char>, Seq<char>>(once[i].channel) by {
        assert(server_named(items, i));
        lemma_channel_again(items[i].channel);
    }
    lemma_first_fault(0, count, again);
    let twice = server_settled(once).map_values(|item: ServerView| item.tidied());
    assert forall|i: int| 0 <= i < count implies #[trigger] twice[i] == once[i] by {
        assert(again(i) is None);
        assert(server_named(once, i)) by {
            assert forall|j: int| 0 <= j <= i implies channel_of(
                (#[trigger] once[j]).channel,
            ) is Ok by {
                assert(again(j) is None);
            }
        }
        assert(server_settled(once)[i] == once[i]);
        server_settled(items)[i].lemma_tidied_again();
    }
    assert(twice =~= once);
}

proof fn lemma_polled_again(names: Seq<Seq<char>>)
    requires
        poll_names_fault(Some(names)) is None,
    ensures
        poll_names_fault(Some(text::sorted_of(names))) is None,
        text::sorted_of(text::sorted_of(names)) == text::sorted_of(names),
{
    broadcast use vstd::seq_lib::group_to_multiset_ensures;

    let sorted = text::sorted_of(names);
    text::lemma_sorted(names);
    text::lemma_sorted_again(sorted);
    let fault = |i: int| poll_name_fault(names, i);
    lemma_first_fault(0, names.len() as int, fault);
    assert forall|i: int, j: int| 0 <= i < j < names.len() implies names[i] != names[j] by {
        assert(fault(j) is None);
    }
    assert(names.no_duplicates());
    names.lemma_multiset_has_no_duplicates();
    sorted.lemma_multiset_has_no_duplicates_conv();
    let again = |i: int| poll_name_fault(sorted, i);
    assert forall|i: int| 0 <= i < sorted.len() implies #[trigger] again(i) is None by {
        assert(sorted.to_multiset().count(sorted[i]) > 0);
        assert(names.contains(sorted[i]));
        let at = choose|at: int| 0 <= at < names.len() && names[at] == sorted[i];
        assert(fault(at) is None);
        assert(!text::repeats(sorted, i));
    }
    lemma_first_fault(0, sorted.len() as int, again);
}

impl ControlPlaneView {
    proof fn lemma_tidied_again(self)
        requires
            poll_names_fault(self.poll_channels) is None,
        ensures
            poll_names_fault(self.tidied().poll_channels) is None,
            self.tidied().tidied() == self.tidied(),
    {
        if let Some(names) = self.poll_channels {
            lemma_polled_again(names);
        }
        lemma_tidied_again(self.client_cert);
        lemma_tidied_again(self.client_key);
        lemma_tidied_again(self.http_proxy);
        lemma_tidied_again(self.organization_id);
    }
}

impl HarpoonView {
    proof fn lemma_tidied_again(self)
        ensures
            self.tidied().tidied() == self.tidied(),
    {
        let once = self.tidied().targets;
        let twice = self.tidied().tidied().targets;
        lemma_tidied_again(self.http_proxy);
        assert forall|i: int| 0 <= i < once.len() implies #[trigger] twice[i] == once[i] by {
            lemma_tidied_again(self.targets[i].unix_socket);
        }
        assert(twice =~= once);
    }
}

impl HealthView {
    proof fn lemma_tidied_again(self)
        ensures
            self.tidied().tidied() == self.tidied(),
    {
        lemma_tidied_again(self.unix_socket);
        lemma_tidied_again(self.url_file);
        reveal_strlit("127.0.0.1:8080");
    }
}

impl LogView {
    proof fn lemma_tidied_again(self)
        ensures
            self.tidied().tidied() == self.tidied(),
    {
        lemma_tidied_again(self.file);
        lemma_word_again(self.level);
        lemma_word_again(self.format);
    }
}

impl CloudflaredView {
    proof fn lemma_tidied_again(self)
        ensures
            self.tidied().tidied() == self.tidied(),
    {
        text::lemma_trim_again(self.path);
        reveal_strlit("cloudflared");
        text::lemma_trim_solid("cloudflared"@);
    }
}

impl ConfigView {
    proof fn lemma_mcp_again(self)
        requires
            self.normal_fault() is None,
        ensures
            self.normal().settled().mcp.tidied() == self.normal().mcp,
            command_fault(self.normal().mcp.commands) is None,
            server_fault(self.normal().mcp.server_urls) is None,
    {
        lemma_commands_again(self.mcp.commands);
        lemma_servers_again(self.mcp.server_urls);
        lemma_tidied_again(self.mcp.http_proxy);
        lemma_tidied_again(self.mcp.client_cert);
        lemma_tidied_again(self.mcp.client_key);
    }
}

/// A configuration in its canonical form has one, and it is this form.
pub proof fn lemma_normal_again(config: ConfigView)
    requires
        config.normal_fault() is None,
    ensures
        config.normal().normal_fault() is None,
        config.normal().normal() == config.normal(),
{
    config.lemma_mcp_again();
    config.control_plane.lemma_tidied_again();
    config.harpoon.lemma_tidied_again();
    config.health.lemma_tidied_again();
    config.log.lemma_tidied_again();
    config.cloudflared.lemma_tidied_again();
    lemma_tidied_again(config.ca_bundle);
    lemma_tidied_again(config.http_proxy);
    lemma_tidied_again(config.process.pid_file);
}

/// The service is the public one where no other is configured, and its address for client certificates where one is
/// configured.
pub proof fn lemma_service_base(control: ControlPlaneView)
    ensures
        control.base_url is None && control.client_cert is None ==> control.base()
            == "https://api.openai.com"@,
        control.base_url matches Some(url) ==> (url.len() > 0 && control.client_cert is None ==> control.base()
            == url),
        control.base_url matches Some(url) ==> (url.len() > 0 && control.client_cert is Some
            && text::trim_end_char_of(text::trim_of(url), '/') != "https://api.openai.com"@ ==> control.base()
            == url),
        control.client_cert is Some && (control.base_url matches Some(url) && url.len() > 0
            && text::trim_end_char_of(text::trim_of(url), '/') == "https://api.openai.com"@) ==> control.base()
            == "https://mtls.api.openai.com"@,
{
}

/// A setting that is blank counts as none, and any other loses the white space around it.
pub proof fn lemma_tidied(value: Seq<char>)
    ensures
        tidied(None) is None,
        text::trim_of(value).len() == 0 ==> tidied(Some(value)) is None,
        text::trim_of(value).len() > 0 ==> tidied(Some(value)) == Some(text::trim_of(value)),
{
}

/// A normalized configuration has its channels in canonical form, its polled channels in order, its optional settings
/// tidy, and its defaults filled in; everything else is as it was.
pub proof fn lemma_normal_settings(config: ConfigView, at: int)
    requires
        config.normal_fault() is None,
    ensures
        ({
            let normal = config.normal();
            &&& normal.mcp.commands.len() == config.mcp.commands.len()
            &&& 0 <= at < config.mcp.commands.len() ==> channel_of(config.mcp.commands[at].channel) == Ok::<
                Seq<char>,
                Seq<char>,
            >(normal.mcp.commands[at].channel) && normal.mcp.commands[at].command
                == config.mcp.commands[at].command
            &&& normal.mcp.server_urls.len() == config.mcp.server_urls.len()
            &&& 0 <= at < config.mcp.server_urls.len() ==> channel_of(config.mcp.server_urls[at].channel)
                == Ok::<Seq<char>, Seq<char>>(normal.mcp.server_urls[at].channel)
                && normal.mcp.server_urls[at].url == config.mcp.server_urls[at].url
            &&& config.control_plane.poll_channels matches Some(names) ==> normal.control_plane.poll_channels
                == Some(text::sorted_of(names))
            &&& normal.control_plane.api_key == config.control_plane.api_key
            &&& normal.control_plane.tunnel_id == config.control_plane.tunnel_id
            &&& normal.http_proxy == tidied(config.http_proxy)
            &&& normal.ca_bundle == tidied(config.ca_bundle)
            &&& normal.control_plane.http_proxy == tidied(config.control_plane.http_proxy)
            &&& normal.mcp.http_proxy == tidied(config.mcp.http_proxy)
            &&& normal.harpoon.http_proxy == tidied(config.harpoon.http_proxy)
            &&& config.health.listen_addr.len() == 0 ==> normal.health.listen_addr == "127.0.0.1:8080"@
            &&& config.health.listen_addr.len() > 0 ==> normal.health.listen_addr
                == config.health.listen_addr
            &&& normal.log.level == text::lowercase_of(text::trim_of(config.log.level))
            &&& text::trim_of(config.cloudflared.path).len() == 0 ==> normal.cloudflared.path == "cloudflared"@
            &&& text::trim_of(config.cloudflared.path).len() > 0 ==> normal.cloudflared.path == text::trim_of(
                config.cloudflared.path,
            )
        }),
{
    let commands = config.mcp.commands;
    let servers = config.mcp.server_urls;
    let first = |i: int| channel_fault(commands[i].channel);
    let second = |i: int| channel_fault(servers[i].channel);
    crate::checks::lemma_first_fault(0, commands.len() as int, first);
    crate::checks::lemma_first_fault(0, servers.len() as int, second);
    if 0 <= at < commands.len() {
        assert forall|j: int| 0 <= j <= at implies channel_of((#[trigger] commands[j]).channel) is Ok by {
            assert(first(j) is None);
        }
        assert(command_named(commands, at));
        assert(config.normal().mcp.commands[at] == command_settled(commands)[at]);
    }
    if 0 <= at < servers.len() {
        assert forall|j: int| 0 <= j <= at implies channel_of((#[trigger] servers[j]).channel) is Ok by {
            assert(second(j) is None);
        }
        assert(server_named(servers, at));
        assert(config.normal().mcp.server_urls[at] == server_settled(servers)[at].tidied());
    }
}

/// Polled channels are given in canonical form, each once, and at least one.
pub proof fn lemma_polled_names(names: Seq<Seq<char>>, at: int, other: int)
    requires
        poll_names_fault(Some(names)) is None,
    ensures
        names.len() > 0,
        0 <= at < names.len() ==> channel_of(names[at]) == Ok::<Seq<char>, Seq<char>>(names[at]),
        0 <= other < at < names.len() ==> names[other] != names[at],
{
    let faults = |i: int| poll_name_fault(names, i);
    crate::checks::lemma_first_fault(0, names.len() as int, faults);
    if 0 <= at < names.len() {
        assert(faults(at) is None);
    }
}

/// A channel of a command is kept in its canonical form; nothing else of the command changes.
pub proof fn lemma_channels_settled(items: Seq<CommandView>, servers: Seq<ServerView>, at: int)
    ensures
        command_settled(items).len() == items.len() && server_settled(servers).len() == servers.len(),
        command_fault(items) is None && 0 <= at < items.len() ==> channel_of(items[at].channel) == Ok::<
            Seq<char>,
            Seq<char>,
        >(command_settled(items)[at].channel) && command_settled(items)[at].command == items[at].command,
        server_fault(servers) is None && 0 <= at < servers.len() ==> channel_of(servers[at].channel) == Ok::<
            Seq<char>,
            Seq<char>,
        >(server_settled(servers)[at].channel) && server_settled(servers)[at].url == servers[at].url,
{
    let first = |i: int| channel_fault(items[i].channel);
    let second = |i: int| channel_fault(servers[i].channel);
    crate::checks::lemma_first_fault(0, items.len() as int, first);
    crate::checks::lemma_first_fault(0, servers.len() as int, second);
    if command_fault(items) is None && 0 <= at < items.len() {
        assert forall|j: int| 0 <= j <= at implies channel_of((#[trigger] items[j]).channel) is Ok by {
            assert(first(j) is None);
        }
    }
    if server_fault(servers) is None && 0 <= at < servers.len() {
        assert forall|j: int| 0 <= j <= at implies channel_of((#[trigger] servers[j]).channel) is Ok by {
            assert(second(j) is None);
        }
    }
}

/// A name to poll is canonical, not blank, and stands once.
pub proof fn lemma_poll_names(names: Seq<Seq<char>>, at: int)
    requires
        0 <= at < names.len(),
    ensures
        poll_name_fault(names, at) is None ==> text::trim_of(names[at]).len() > 0 && channel_of(names[at]) == Ok::<
            Seq<char>,
            Seq<char>,
        >(names[at]) && !text::repeats(names, at),
        poll_names_fault(Some(names)) is None ==> poll_name_fault(names, at) is None,
        poll_names_fault(None) is None,
        poll_names_fault(Some(Seq::empty())) is Some,
{
    let faults = |i: int| poll_name_fault(names, i);
    crate::checks::lemma_first_fault(0, names.len() as int, faults);
    if poll_names_fault(Some(names)) is None {
        assert(faults(at) is None);
    }
}

} // verus!
