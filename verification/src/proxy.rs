//! Which proxy a request goes through.

use vstd::prelude::*;
use crate::address::{self, parsed_url, Address, Parts};
use crate::config::reference::gives;
use crate::host::{self, ip_of, network_of, Ip, Network};
use crate::table::Table;
use crate::text;

verus! {

/// A host or network that requests reach without a proxy.
pub enum Exclusion {
    All,
    Network(Network),
    Host { name: String, port: Option<u16>, subdomains: bool },
}

/// The contents of [`Exclusion`].
#[verifier::ext_equal]
pub enum ExclusionView {
    All,
    Network(Network),
    Host { name: Seq<char>, port: Option<u16>, subdomains: bool },
}

impl View for Exclusion {
    type V = ExclusionView;

    open spec fn view(&self) -> ExclusionView {
        match self {
            Exclusion::All => ExclusionView::All,
            Exclusion::Network(network) => ExclusionView::Network(*network),
            Exclusion::Host { name, port, subdomains } => ExclusionView::Host {
                name: name@,
                port: *port,
                subdomains: *subdomains,
            },
        }
    }
}

/// The port that a text stands for.
pub open spec fn port_of(value: Seq<char>) -> Option<u16> {
    match text::unsigned_of(value) {
        Some(number) => if number <= 65535 {
            Some(number as u16)
        } else {
            None
        },
        None => None,
    }
}

fn port(value: &str) -> (result: Option<u16>)
    ensures
        result == port_of(value@),
{
    match text::unsigned(value) {
        Some(number) => if number <= 65535 {
            Some(number as u16)
        } else {
            None
        },
        None => None,
    }
}

/// A host with an optional port; nothing where the port is none.
pub open spec fn host_part(raw: Seq<char>) -> Option<(Seq<char>, Option<u16>)> {
    if raw.len() > 0 && raw[0] == '[' {
        match text::split_at_of(raw, "]:"@) {
            Some((name, rest)) => match port_of(rest) {
                Some(found) => Some((text::trim_start_char_of(name, '['), Some(found))),
                None => None,
            },
            None => Some((text::unbracketed(raw), None)),
        }
    } else if text::count_of(raw, ':') == 1 {
        match text::split_once_of(raw, ':') {
            Some((name, rest)) => match port_of(rest) {
                Some(found) => Some((name, Some(found))),
                None => None,
            },
            None => None,
        }
    } else {
        Some((raw, None))
    }
}

fn read_host(raw: &str) -> (result: Option<(String, Option<u16>)>)
    ensures
        match (result, host_part(raw@)) {
            (Some((name, found)), Some((expected, other))) => name@ == expected && found == other,
            (None, None) => true,
            _ => false,
        },
{
    let all = text::chars(raw);
    if all.len() > 0 && all[0] == '[' {
        match text::split_at(raw, "]:") {
            Some((name, rest)) => match port(&rest) {
                Some(found) => Some((text::trim_start_char(&name, '['), Some(found))),
                None => None,
            },
            None => Some((text::unbracket(raw), None)),
        }
    } else if text::count(raw, ':') == 1 {
        match text::split_once(raw, ':') {
            Some((name, rest)) => match port(&rest) {
                Some(found) => Some((name, Some(found))),
                None => None,
            },
            None => None,
        }
    } else {
        Some((raw.to_owned(), None))
    }
}

/// What an entry of the list of exclusions stands for.
pub open spec fn exclusion_of(raw: Seq<char>) -> Option<ExclusionView> {
    let entry = text::lowercase_of(text::trim_of(raw));
    if entry.len() == 0 {
        None
    } else if entry == "*"@ {
        Some(ExclusionView::All)
    } else if network_of(entry) is Some {
        Some(ExclusionView::Network(network_of(entry)->0))
    } else {
        match host_part(entry) {
            None => None,
            Some((host, found)) => {
                let name = if "*."@.is_prefix_of(host) {
                    host.skip(1)
                } else {
                    host
                };
                Some(
                    ExclusionView::Host {
                        name: text::trim_start_char_of(name, '.'),
                        port: found,
                        subdomains: "."@.is_prefix_of(name),
                    },
                )
            },
        }
    }
}

/// Whether a host is one of a domain: the domain itself or one below it.
pub open spec fn is_below(host: Seq<char>, domain: Seq<char>) -> bool {
    ("."@ + domain).is_suffix_of(host)
}

impl ExclusionView {
    /// Whether a host is excluded.
    pub open spec fn excludes(self, host: Seq<char>, address: Option<Ip>, port: Option<u16>) -> bool {
        match self {
            ExclusionView::All => true,
            ExclusionView::Network(network) => address is Some && network.holds(address->0),
            ExclusionView::Host { name, port: expected, subdomains } => {
                if expected is Some && expected != port {
                    false
                } else if ip_of(name) is Some {
                    address == ip_of(name)
                } else if address is Some {
                    false
                } else {
                    is_below(host, name) || (!subdomains && host == name)
                }
            },
        }
    }

    /// Whether the network is one.
    pub open spec fn wf(self) -> bool {
        self matches ExclusionView::Network(network) ==> network.wf()
    }
}

impl Exclusion {
    /// What an entry of the list of exclusions stands for.
    pub fn parse(raw: &str) -> (result: Option<Exclusion>)
        ensures
            match (result, exclusion_of(raw@)) {
                (Some(found), Some(expected)) => found@ == expected && found@.wf(),
                (None, None) => true,
                _ => false,
            },
    {
        let entry = text::lowercase(&text::trim(raw));
        if entry.is_empty() {
            return None;
        }
        if text::same(&entry, "*") {
            return Some(Exclusion::All);
        }
        if let Some(network) = host::network(&entry) {
            return Some(Exclusion::Network(network));
        }
        let (found, port) = match read_host(&entry) {
            Some(pair) => pair,
            None => {
                return None;
            },
        };
        let name = if text::starts_with(&found, "*.") {
            proof {
                reveal_strlit("*.");
                assert(found@.len() >= 2);
                assert(found@.skip(1) == found@.subrange(1, found@.len() as int));
            }
            let all = text::chars(&found);
            text::piece(&all, 1, all.len())
        } else {
            found
        };
        let subdomains = text::starts_with(&name, ".");
        Some(Exclusion::Host { name: text::trim_start_char(&name, '.'), port, subdomains })
    }

    /// Whether a host is excluded.
    pub fn matches(&self, host: &str, address: Option<Ip>, port: Option<u16>) -> (result: bool)
        requires
            self@.wf(),
        ensures
            result == self@.excludes(host@, address, port),
    {
        match self {
            Exclusion::All => true,
            Exclusion::Network(network) => match address {
                Some(address) => network.contains(address),
                None => false,
            },
            Exclusion::Host { name, port: expected, subdomains } => {
                if expected.is_some() && *expected != port {
                    return false;
                }
                if let Some(own) = host::ip(name) {
                    return match address {
                        Some(address) => address == own,
                        None => false,
                    };
                }
                if address.is_some() {
                    return false;
                }
                text::ends_with(host, &text::cat(".", name)) || (!*subdomains && text::same(
                    host,
                    name,
                ))
            },
        }
    }
}

/// The proxies of requests.
pub struct Proxy {
    /// The proxy of every request.
    pub fixed: Option<String>,
    pub http: Option<String>,
    pub https: Option<String>,
    pub excluded: Vec<Exclusion>,
    /// Whether the process runs for a request of a web server.
    pub cgi: bool,
}

/// The contents of a list.
pub open spec fn exclusion_views(items: Seq<Exclusion>) -> Seq<ExclusionView> {
    items.map_values(|item: Exclusion| item@)
}

/// A variable under its name in capitals or in small letters, where it is not empty.
pub open spec fn proxy_variable(
    variables: Map<Seq<char>, String>,
    upper: Seq<char>,
    lower: Seq<char>,
) -> Option<Seq<char>> {
    if variables.dom().contains(upper) && variables[upper]@.len() > 0 {
        Some(variables[upper]@)
    } else if variables.dom().contains(lower) && variables[lower]@.len() > 0 {
        Some(variables[lower]@)
    } else {
        None
    }
}

fn read_variable(variables: &Table<String>, upper: &str, lower: &str) -> (result: Option<String>)
    ensures
        text::view_of(result) == proxy_variable(variables@, upper@, lower@),
{
    if let Some(value) = variables.get(upper) {
        if !value.is_empty() {
            return Some(value.clone());
        }
    }
    if let Some(value) = variables.get(lower) {
        if !value.is_empty() {
            return Some(value.clone());
        }
    }
    None
}

/// The URL of a proxy that a variable names: a URL, or a host.
pub open spec fn environment_proxy(raw: Seq<char>) -> Option<Seq<char>> {
    if parsed_url(raw) is Ok && parsed_url(raw)->Ok_0.host is Some {
        Some(parsed_url(raw)->Ok_0.text)
    } else {
        match parsed_url("http://"@ + raw) {
            Ok(parts) => if parts.host is Some {
                Some(parts.text)
            } else {
                None
            },
            Err(_) => None,
        }
    }
}

fn read_proxy(raw: &str) -> (result: Option<String>)
    ensures
        text::view_of(result) == environment_proxy(raw@),
{
    if let Ok(parts) = address::parse(raw) {
        if parts.host.is_some() {
            return Some(parts.text);
        }
    }
    match address::parse(&text::cat("http://", raw)) {
        Ok(parts) => if parts.host.is_some() {
            Some(parts.text)
        } else {
            None
        },
        Err(_) => None,
    }
}

/// The URL of a proxy that is configured, or why there is none.
pub open spec fn explicit_proxy(raw: Seq<char>, variables: Map<Seq<char>, String>) -> Result<
    Seq<char>,
    Seq<char>,
> {
    let trimmed = text::trim_of(raw);
    let named = match text::after_prefix(trimmed, "env:"@) {
        Some(name) => if variables.dom().contains(text::trim_of(name)) {
            Ok(variables[text::trim_of(name)]@)
        } else {
            Err("read proxy environment variable "@ + text::trim_of(name))
        },
        None => Ok(trimmed),
    };
    match named {
        Err(reason) => Err(reason),
        Ok(value) => match parsed_url(text::trim_of(value)) {
            Err(_) => Err("proxy URL must include scheme and host"@),
            Ok(parts) => if parts.host is None {
                Err("proxy URL must include scheme and host"@)
            } else if parts.scheme != "http"@ && parts.scheme != "https"@ {
                Err("proxy URL scheme must be http or https, got "@ + text::debug_text(parts.scheme))
            } else {
                Ok(parts.text)
            },
        },
    }
}

fn read_explicit(raw: &str, variables: &Table<String>) -> (result: Result<String, String>)
    ensures
        gives(result, explicit_proxy(raw@, variables@)),
{
    let trimmed = text::trim(raw);
    let value = match text::strip_prefix(&trimmed, "env:") {
        Some(name) => {
            let name = text::trim(&name);
            match variables.get(&name) {
                Some(value) => value.clone(),
                None => {
                    return Err(text::cat("read proxy environment variable ", &name));
                },
            }
        },
        None => trimmed,
    };
    let parts = match address::parse(&text::trim(&value)) {
        Ok(parts) => parts,
        Err(_) => {
            return Err("proxy URL must include scheme and host".to_owned());
        },
    };
    if parts.host.is_none() {
        return Err("proxy URL must include scheme and host".to_owned());
    }
    if !text::same(&parts.scheme, "http") && !text::same(&parts.scheme, "https") {
        return Err(
            text::cat(
                "proxy URL scheme must be http or https, got ",
                &text::quoted(&parts.scheme),
            ),
        );
    }
    Ok(parts.text)
}

/// The exclusions of a list with commas.
pub open spec fn exclusions_of(items: Seq<Seq<char>>) -> Seq<ExclusionView>
    decreases items.len(),
{
    if items.len() == 0 {
        Seq::empty()
    } else {
        let rest = exclusions_of(items.drop_last());
        match exclusion_of(items.last()) {
            Some(found) => rest.push(found),
            None => rest,
        }
    }
}

fn read_exclusions(items: &Vec<String>) -> (result: Vec<Exclusion>)
    ensures
        exclusion_views(result@) == exclusions_of(text::views(items@)),
        forall|i: int| 0 <= i < result@.len() ==> (#[trigger] result@[i])@.wf(),
{
    let ghost all = text::views(items@);
    let mut result: Vec<Exclusion> = Vec::new();
    let mut index: usize = 0;
    assert(exclusion_views(result@) == Seq::<ExclusionView>::empty());
    while index < items.len()
        invariant
            index <= items.len(),
            all == text::views(items@),
            exclusion_views(result@) == exclusions_of(all.take(index as int)),
            forall|i: int| 0 <= i < result@.len() ==> (#[trigger] result@[i])@.wf(),
        decreases items.len() - index,
    {
        proof {
            assert(all.take(index + 1).drop_last() == all.take(index as int));
            assert(all.take(index + 1).last() == items@[index as int]@);
        }
        if let Some(found) = Exclusion::parse(&items[index]) {
            assert(exclusion_views(result@.push(found)) == exclusion_views(result@).push(found@));
            result.push(found);
        }
        index = index + 1;
    }
    assert(all.take(all.len() as int) == all);
    result
}

/// The proxy that a variable names.
pub open spec fn named_proxy(variables: Map<Seq<char>, String>, upper: Seq<char>, lower: Seq<char>) -> Option<
    Seq<char>,
> {
    match proxy_variable(variables, upper, lower) {
        Some(raw) => environment_proxy(raw),
        None => None,
    }
}

fn name_proxy(variables: &Table<String>, upper: &str, lower: &str) -> (result: Option<String>)
    ensures
        text::view_of(result) == named_proxy(variables@, upper@, lower@),
{
    match read_variable(variables, upper, lower) {
        Some(raw) => read_proxy(&raw),
        None => None,
    }
}

/// The entries of the list of exclusions.
pub open spec fn excluded_entries(variables: Map<Seq<char>, String>) -> Seq<Seq<char>> {
    text::split_of(
        match proxy_variable(variables, "NO_PROXY"@, "no_proxy"@) {
            Some(list) => list,
            None => Seq::empty(),
        },
        ',',
    )
}

impl Proxy {
    pub open spec fn wf(self) -> bool {
        forall|i: int| 0 <= i < self.excluded@.len() ==> (#[trigger] self.excluded@[i])@.wf()
    }

    /// The proxies of requests: the configured one, or those that the environment names.
    pub fn new(explicit: Option<&str>, variables: &Table<String>) -> (result: Result<Proxy, String>)
        ensures
            match result {
                Err(reason) => explicit is Some && explicit_proxy(explicit->0@, variables@)
                    == Err::<Seq<char>, Seq<char>>(reason@),
                Ok(proxy) => proxy.wf() && (match explicit {
                    Some(raw) => proxy.fixed is Some && explicit_proxy(raw@, variables@) == Ok::<
                        Seq<char>,
                        Seq<char>,
                    >(proxy.fixed->0@),
                    None => proxy.fixed is None,
                }) && text::view_of(proxy.http) == named_proxy(
                    variables@,
                    "HTTP_PROXY"@,
                    "http_proxy"@,
                ) && text::view_of(proxy.https) == named_proxy(
                    variables@,
                    "HTTPS_PROXY"@,
                    "https_proxy"@,
                ) && exclusion_views(proxy.excluded@) == exclusions_of(
                    excluded_entries(variables@),
                ) && proxy.cgi == (variables@.dom().contains("REQUEST_METHOD"@)
                    && variables@["REQUEST_METHOD"@]@.len() > 0),
            },
    {
        let fixed = match explicit {
            Some(raw) => match read_explicit(raw, variables) {
                Ok(url) => Some(url),
                Err(reason) => {
                    return Err(reason);
                },
            },
            None => None,
        };
        let list = match read_variable(variables, "NO_PROXY", "no_proxy") {
            Some(list) => list,
            None => String::new(),
        };
        let excluded = read_exclusions(&text::split(&list, ','));
        let cgi = match variables.get("REQUEST_METHOD") {
            Some(value) => !value.is_empty(),
            None => false,
        };
        Ok(
            Proxy {
                fixed,
                http: name_proxy(variables, "HTTP_PROXY", "http_proxy"),
                https: name_proxy(variables, "HTTPS_PROXY", "https_proxy"),
                excluded,
                cgi,
            },
        )
    }

    /// The proxy of the scheme of a request.
    pub open spec fn scheme_proxy(self, scheme: Seq<char>) -> Option<Seq<char>> {
        if scheme == "http"@ {
            text::view_of(self.http)
        } else if scheme == "https"@ {
            text::view_of(self.https)
        } else {
            None
        }
    }

    /// Whether a request reaches its host without a proxy.
    pub open spec fn bypasses(self, target: Parts) -> bool {
        let name = text::unbracketed(match target.host {
            Some(host) => host,
            None => Seq::empty(),
        });
        let address = match ip_of(name) {
            Some(address) => Some(address.unmapped()),
            None => None,
        };
        ||| name == "localhost"@
        ||| (address is Some && address->0.is_loopback())
        ||| exists|i: int|
            0 <= i < self.excluded@.len() && (#[trigger] self.excluded@[i])@.excludes(
                name,
                address,
                target.known_port,
            )
    }

    /// The proxy of a request, or why it is refused.
    pub open spec fn selected(self, target: Parts) -> Result<Option<Seq<char>>, Seq<char>> {
        if self.fixed is Some {
            Ok(text::view_of(self.fixed))
        } else if self.scheme_proxy(target.scheme) is None {
            Ok(None)
        } else if self.cgi && target.scheme == "http"@ {
            Err(
                "refusing to use HTTP_PROXY value in CGI environment; see golang.org/s/cgihttpproxy"@,
            )
        } else if self.bypasses(target) {
            Ok(None)
        } else {
            Ok(self.scheme_proxy(target.scheme))
        }
    }

    fn bypass(&self, target: &Address) -> (result: bool)
        requires
            self.wf(),
        ensures
            result == self.bypasses(target.parts()),
    {
        let host = match &target.host {
            Some(host) => host.clone(),
            None => String::new(),
        };
        let name = text::unbracket(&host);
        let address = match host::ip(&name) {
            Some(address) => Some(address.unmap()),
            None => None,
        };
        if text::same(&name, "localhost") {
            return true;
        }
        if let Some(address) = address {
            if address.loopback() {
                return true;
            }
        }
        let mut index: usize = 0;
        while index < self.excluded.len()
            invariant
                index <= self.excluded.len(),
                self.wf(),
                name@ == text::unbracketed(match target.parts().host {
                    Some(host) => host,
                    None => Seq::empty(),
                }),
                address == (match ip_of(name@) {
                    Some(address) => Some(address.unmapped()),
                    None => None,
                }),
                forall|i: int|
                    0 <= i < index ==> !(#[trigger] self.excluded@[i])@.excludes(
                        name@,
                        address,
                        target.known_port,
                    ),
            decreases self.excluded.len() - index,
        {
            if self.excluded[index].matches(&name, address, target.known_port) {
                return true;
            }
            index = index + 1;
        }
        false
    }

    /// The proxy of a request.
    pub fn select(&self, target: &Address) -> (result: Result<Option<String>, String>)
        requires
            self.wf(),
        ensures
            match (result, self.selected(target.parts())) {
                (Ok(found), Ok(expected)) => text::view_of(found) == expected,
                (Err(reason), Err(expected)) => reason@ == expected,
                _ => false,
            },
    {
        if self.fixed.is_some() {
            return Ok(text::copy_option(&self.fixed));
        }
        let web = text::same(&target.scheme, "http");
        let proxy = if web {
            text::copy_option(&self.http)
        } else if text::same(&target.scheme, "https") {
            text::copy_option(&self.https)
        } else {
            None
        };
        if proxy.is_none() {
            return Ok(None);
        }
        if self.cgi && web {
            return Err(
                "refusing to use HTTP_PROXY value in CGI environment; see golang.org/s/cgihttpproxy".to_owned(),
            );
        }
        if self.bypass(target) {
            return Ok(None);
        }
        Ok(proxy)
    }
}

/// Whether a request reaches its host without a proxy, for the exclusions of the environment.
pub open spec fn bypassed(excluded: Seq<ExclusionView>, target: Parts) -> bool {
    let name = text::unbracketed(match target.host {
        Some(host) => host,
        None => Seq::empty(),
    });
    let address = match ip_of(name) {
        Some(address) => Some(address.unmapped()),
        None => None,
    };
    ||| name == "localhost"@
    ||| (address is Some && address->0.is_loopback())
    ||| exists|i: int|
        0 <= i < excluded.len() && (#[trigger] excluded[i]).excludes(name, address, target.known_port)
}

/// The proxy of a request, from what is configured and the environment, or why it is refused.
pub open spec fn chosen_proxy(
    explicit: Option<Seq<char>>,
    variables: Map<Seq<char>, String>,
    target: Parts,
) -> Result<Option<Seq<char>>, Seq<char>> {
    match explicit {
        Some(raw) => match explicit_proxy(raw, variables) {
            Ok(url) => Ok(Some(url)),
            Err(reason) => Err(reason),
        },
        None => {
            let proxy = if target.scheme == "http"@ {
                named_proxy(variables, "HTTP_PROXY"@, "http_proxy"@)
            } else if target.scheme == "https"@ {
                named_proxy(variables, "HTTPS_PROXY"@, "https_proxy"@)
            } else {
                None
            };
            let cgi = variables.dom().contains("REQUEST_METHOD"@)
                && variables["REQUEST_METHOD"@]@.len() > 0;
            if proxy is None {
                Ok(None)
            } else if cgi && target.scheme == "http"@ {
                Err(
                    "refusing to use HTTP_PROXY value in CGI environment; see golang.org/s/cgihttpproxy"@,
                )
            } else if bypassed(exclusions_of(excluded_entries(variables)), target) {
                Ok(None)
            } else {
                Ok(proxy)
            }
        },
    }
}

/// The proxy of a request, from what is configured and the environment.
pub fn proxy_for(explicit: Option<&str>, variables: &Table<String>, target: &Address) -> (result:
    Result<Option<String>, String>)
    ensures
        match (result, chosen_proxy(text::str_view(explicit), variables@, target.parts())) {
            (Ok(found), Ok(expected)) => text::view_of(found) == expected,
            (Err(reason), Err(expected)) => reason@ == expected,
            _ => false,
        },
{
    match Proxy::new(explicit, variables) {
        Ok(proxy) => {
            proof {
                let views = exclusion_views(proxy.excluded@);
                assert(views.len() == proxy.excluded@.len());
                assert forall|i: int| 0 <= i < views.len() implies #[trigger] views[i]
                    == proxy.excluded@[i]@ by {}
                let name = text::unbracketed(match target.parts().host {
                    Some(host) => host,
                    None => Seq::empty(),
                });
                let address = match ip_of(name) {
                    Some(address) => Some(address.unmapped()),
                    None => None,
                };
                if proxy.bypasses(target.parts()) && !(name == "localhost"@ || (address is Some
                    && address->0.is_loopback())) {
                    let i = choose|i: int|
                        0 <= i < proxy.excluded@.len() && (#[trigger] proxy.excluded@[i])@.excludes(
                            name,
                            address,
                            target.parts().known_port,
                        );
                    assert(views[i].excludes(name, address, target.parts().known_port));
                }
                if bypassed(views, target.parts()) && !(name == "localhost"@ || (address is Some
                    && address->0.is_loopback())) {
                    let i = choose|i: int|
                        0 <= i < views.len() && (#[trigger] views[i]).excludes(
                            name,
                            address,
                            target.parts().known_port,
                        );
                    assert(proxy.excluded@[i]@.excludes(
                        name,
                        address,
                        target.parts().known_port,
                    ));
                }
                assert(proxy.bypasses(target.parts()) == bypassed(views, target.parts()));
            }
            proxy.select(target)
        },
        Err(reason) => Err(reason),
    }
}

/// A request to this host goes through no proxy but a configured one.
pub proof fn lemma_local_direct(proxy: Proxy, target: Parts)
    requires
        proxy.fixed is None,
        target.host == Some("localhost"@),
        proxy.selected(target) is Ok,
    ensures
        proxy.selected(target)->Ok_0 is None,
{
    reveal_strlit("localhost");
    let host = "localhost"@;
    assert(host[0] == 'l');
    assert(host.last() == 't');
    assert(text::trim_open_of(host) == host);
    assert(text::trim_close_of(host) == host);
}

proof fn lemma_listed(items: Seq<Seq<char>>, at: int)
    requires
        0 <= at < items.len(),
        exclusion_of(items[at]) is Some,
    ensures
        exclusions_of(items).contains(exclusion_of(items[at])->0),
    decreases items.len(),
{
    let front = items.drop_last();
    let rest = exclusions_of(front);
    let all = exclusions_of(items);
    if at < front.len() {
        lemma_listed(front, at);
        let i = choose|i: int| 0 <= i < rest.len() && rest[i] == exclusion_of(items[at])->0;
        assert(all[i] == rest[i]);
    } else {
        assert(all.last() == exclusion_of(items[at])->0);
    }
}

proof fn lemma_from_list(items: Seq<Seq<char>>, at: int)
    requires
        0 <= at < exclusions_of(items).len(),
    ensures
        exists|i: int|
            0 <= i < items.len() && exclusion_of(#[trigger] items[i]) == Some(exclusions_of(items)[at]),
    decreases items.len(),
{
    if items.len() > 0 {
        let front = items.drop_last();
        let rest = exclusions_of(front);
        if at < rest.len() {
            lemma_from_list(front, at);
            let i = choose|i: int|
                0 <= i < front.len() && exclusion_of(#[trigger] front[i]) == Some(rest[at]);
            assert(items[i] == front[i]);
        } else {
            assert(exclusion_of(items[items.len() - 1]) == Some(exclusions_of(items)[at]));
        }
    }
}

proof fn lemma_none_counted(value: Seq<char>, ch: char)
    requires
        !value.contains(ch),
    ensures
        text::count_of(value, ch) == 0,
    decreases value.len(),
{
    if value.len() > 0 {
        assert(value[value.len() - 1] == value.last());
        assert forall|i: int| 0 <= i < value.drop_last().len() implies value.drop_last()[i] != ch by {
            assert(value.drop_last()[i] == value[i]);
        }
        lemma_none_counted(value.drop_last(), ch);
    }
}

/// An entry that is a plain name excludes that host and the hosts below it, at every port, and no other; with
/// a dot or a star and a dot in front it excludes only the hosts below.
pub proof fn lemma_name_excludes(raw: Seq<char>, name: Seq<char>, host: Seq<char>, port: Option<u16>)
    requires
        name.len() > 0,
        name[0] != '.',
        name[0] != '*',
        name[0] != '[',
        !name.contains(':'),
        ip_of(name) is None,
        network_of(text::lowercase_of(text::trim_of(raw))) is None,
    ensures
        text::lowercase_of(text::trim_of(raw)) == name ==> exclusion_of(raw) is Some && (
        exclusion_of(raw)->0.excludes(host, None, port) <==> host == name || ("."@ + name).is_suffix_of(
            host,
        )),
        text::lowercase_of(text::trim_of(raw)) == "."@ + name || text::lowercase_of(text::trim_of(raw))
            == "*."@ + name ==> exclusion_of(raw) is Some && (exclusion_of(raw)->0.excludes(
            host,
            None,
            port,
        ) <==> ("."@ + name).is_suffix_of(host)),
        text::lowercase_of(text::trim_of(raw)) == "."@ + name || text::lowercase_of(text::trim_of(raw))
            == "*."@ + name ==> !exclusion_of(raw)->0.excludes(name, None, port),
{
    reveal_strlit(".");
    reveal_strlit("*.");
    reveal_strlit("*");
    let entry = text::lowercase_of(text::trim_of(raw));
    let dotted = "."@ + name;
    let starred = "*."@ + name;
    assert(dotted.skip(1) =~= name);
    assert(starred.skip(1) =~= dotted);
    assert(text::trim_start_char_of(name, '.') == name);
    assert(dotted[0] == '.');
    assert(text::trim_start_char_of(dotted, '.') == text::trim_start_char_of(name, '.'));
    assert(!dotted.contains(':')) by {
        assert forall|i: int| 0 <= i < dotted.len() implies dotted[i] != ':' by {
            if i > 0 {
                assert(dotted[i] == name[i - 1]);
            }
        }
    }
    assert(!starred.contains(':')) by {
        assert forall|i: int| 0 <= i < starred.len() implies starred[i] != ':' by {
            if i > 1 {
                assert(starred[i] == name[i - 2]);
            }
        }
    }
    lemma_none_counted(name, ':');
    lemma_none_counted(dotted, ':');
    lemma_none_counted(starred, ':');
    assert(starred[0] == '*');
    assert(!("*."@.is_prefix_of(name))) by {
        if "*."@.is_prefix_of(name) {
            assert(name[0] == "*."@[0]);
        }
    }
    assert(!("."@.is_prefix_of(name))) by {
        if "."@.is_prefix_of(name) {
            assert(name[0] == "."@[0]);
        }
    }
    assert("."@.is_prefix_of(dotted)) by {
        assert(dotted.subrange(0, 1) =~= "."@);
    }
    assert(!("*."@.is_prefix_of(dotted))) by {
        if "*."@.is_prefix_of(dotted) {
            assert(dotted[0] == "*."@[0]);
        }
    }
    assert("*."@.is_prefix_of(starred)) by {
        assert(starred.subrange(0, 2) =~= "*."@);
    }
    assert(name != "*"@) by {
        if name == "*"@ {
            assert(name[0] == '*');
        }
    }
    assert(dotted != "*"@ && starred != "*"@) by {
        assert("*"@.len() == 1);
    }
    assert(dotted.len() > name.len());
}

/// An entry with a port excludes nothing at another port, an entry that is an address or a network excludes
/// by address alone, and a name never excludes an address.
pub proof fn lemma_exclusion_kinds(exclusion: ExclusionView, host: Seq<char>, address: Option<Ip>, port: Option<u16>)
    ensures
        exclusion == ExclusionView::All ==> exclusion.excludes(host, address, port),
        exclusion matches ExclusionView::Network(network) ==> (exclusion.excludes(host, address, port)
            <==> address is Some && network.holds(address->0)),
        match exclusion {
            ExclusionView::Host { name, port: own, subdomains } => {
                &&& own is Some && own != port ==> !exclusion.excludes(host, address, port)
                &&& (own is None || own == port) && ip_of(name) is Some ==> (exclusion.excludes(
                    host,
                    address,
                    port,
                ) <==> address == ip_of(name))
                &&& ip_of(name) is None && address is Some ==> !exclusion.excludes(host, address, port)
                &&& (own is None || own == port) && ip_of(name) is None && address is None && host == name
                    && !subdomains ==> exclusion.excludes(host, address, port)
            },
            _ => true,
        },
{
}

/// The star excludes every host, whatever its case and the white space around it.
pub proof fn lemma_star_excludes_all(raw: Seq<char>)
    ensures
        text::lowercase_of(text::trim_of(raw)) == "*"@ ==> exclusion_of(raw) == Some(ExclusionView::All),
        text::trim_of(raw).len() == 0 ==> exclusion_of(raw) is None,
{
    reveal_strlit("*");
}

/// A host that the list of exclusions names gets no proxy of the environment.
pub proof fn lemma_named_direct(variables: Map<Seq<char>, String>, at: int, target: Parts, host: Seq<char>)
    requires
        variables.dom().contains("NO_PROXY"@),
        0 <= at < text::split_of(variables["NO_PROXY"@]@, ',').len(),
        text::lowercase_of(text::trim_of(text::split_of(variables["NO_PROXY"@]@, ',')[at])) == host,
        target.host == Some(host),
        host.len() > 0,
        host[0] != '.',
        host[0] != '*',
        host[0] != '[',
        host[0] != ']',
        host.last() != '[',
        host.last() != ']',
        !host.contains(':'),
        ip_of(host) is None,
        network_of(host) is None,
    ensures
        chosen_proxy(None, variables, target) is Ok ==> chosen_proxy(None, variables, target) == Ok::<
            Option<Seq<char>>,
            Seq<char>,
        >(None),
        chosen_proxy(None, variables, target) is Err ==> target.scheme == "http"@
            && variables.dom().contains("REQUEST_METHOD"@),
{
    let list = variables["NO_PROXY"@]@;
    let items = text::split_of(list, ',');
    if list.len() == 0 {
        assert(text::index_in(list, ',') >= 0) by {
            text::lemma_index_in(list, ',');
        }
        assert(items =~= seq![list]);
        assert(text::trim_of(list).len() == 0);
    }
    lemma_name_excludes(items[at], host, host, target.known_port);
    lemma_listed(items, at);
    assert(excluded_entries(variables) == items);
    let all = exclusions_of(items);
    let found = exclusion_of(items[at])->0;
    let i = choose|i: int| 0 <= i < all.len() && all[i] == found;
    assert(text::trim_open_of(host) == host);
    assert(text::trim_close_of(host) == host);
    assert(all[i].excludes(host, None, target.known_port));
    assert(bypassed(all, target));
}

/// A host that no entry of the list excludes goes through the proxy of its scheme, unless it is this host.
pub proof fn lemma_others_proxied(variables: Map<Seq<char>, String>, target: Parts, host: Seq<char>, list: Seq<char>)
    requires
        target.host == Some(host),
        host.len() > 0,
        host[0] != '[',
        host[0] != ']',
        host.last() != '[',
        host.last() != ']',
        host != "localhost"@,
        ip_of(host) is None,
        variables.dom().contains("NO_PROXY"@) && variables["NO_PROXY"@]@ == list && list.len() > 0,
        forall|i: int|
            0 <= i < text::split_of(list, ',').len() ==> (exclusion_of(
                #[trigger] text::split_of(list, ',')[i],
            ) matches Some(found) ==> !found.excludes(host, None, target.known_port)),
        !variables.dom().contains("REQUEST_METHOD"@),
    ensures
        target.scheme == "https"@ && variables.dom().contains("HTTPS_PROXY"@)
            && variables["HTTPS_PROXY"@]@.len() > 0 ==> chosen_proxy(None, variables, target) == Ok::<
            Option<Seq<char>>,
            Seq<char>,
        >(environment_proxy(variables["HTTPS_PROXY"@]@)),
        target.scheme == "http"@ && variables.dom().contains("HTTP_PROXY"@)
            && variables["HTTP_PROXY"@]@.len() > 0 ==> chosen_proxy(None, variables, target) == Ok::<
            Option<Seq<char>>,
            Seq<char>,
        >(environment_proxy(variables["HTTP_PROXY"@]@)),
{
    reveal_strlit("http");
    reveal_strlit("https");
    assert("http"@.len() != "https"@.len());
    let items = text::split_of(list, ',');
    assert(excluded_entries(variables) == items);
    let all = exclusions_of(items);
    assert(text::trim_open_of(host) == host);
    assert(text::trim_close_of(host) == host);
    assert forall|i: int| 0 <= i < all.len() implies !(#[trigger] all[i]).excludes(
        host,
        None,
        target.known_port,
    ) by {
        lemma_from_list(items, i);
    }
    assert(!bypassed(all, target));
}

/// A proxy of the environment is a URL with a host, or a host that becomes one with `http://` in front.
pub proof fn lemma_environment_proxy(raw: Seq<char>)
    ensures
        parsed_url(raw) is Ok && parsed_url(raw)->Ok_0.host is Some ==> environment_proxy(raw) == Some(
            parsed_url(raw)->Ok_0.text,
        ),
        !(parsed_url(raw) is Ok && parsed_url(raw)->Ok_0.host is Some) && parsed_url("http://"@ + raw)
            is Ok && parsed_url("http://"@ + raw)->Ok_0.host is Some ==> environment_proxy(raw) == Some(
            parsed_url("http://"@ + raw)->Ok_0.text,
        ),
        environment_proxy(raw) is Some ==> (parsed_url(raw) is Ok && parsed_url(raw)->Ok_0.host is Some)
            || (parsed_url("http://"@ + raw) is Ok && parsed_url("http://"@ + raw)->Ok_0.host is Some),
{
}

/// The name of a variable in capitals counts before the one in small letters, and an empty value counts as
/// none.
pub proof fn lemma_capitals_first(variables: Map<Seq<char>, String>, upper: Seq<char>, lower: Seq<char>)
    ensures
        variables.dom().contains(upper) && variables[upper]@.len() > 0 ==> proxy_variable(
            variables,
            upper,
            lower,
        ) == Some(variables[upper]@),
        !variables.dom().contains(upper) && variables.dom().contains(lower) && variables[lower]@.len()
            > 0 ==> proxy_variable(variables, upper, lower) == Some(variables[lower]@),
        proxy_variable(variables, upper, lower) is Some ==> proxy_variable(variables, upper, lower)->0.len()
            > 0,
{
}

/// A configured proxy is used for every request, whatever the environment says; it is a URL of the web with
/// a host, given as it is or by the name of a variable.
pub proof fn lemma_configured_first(raw: Seq<char>, variables: Map<Seq<char>, String>, target: Parts)
    ensures
        chosen_proxy(Some(raw), variables, target) is Ok ==> {
            let given = text::trim_of(raw);
            let value = if "env:"@.is_prefix_of(given) {
                variables[text::trim_of(given.skip(4))]@
            } else {
                given
            };
            let parts = parsed_url(text::trim_of(value));
            &&& "env:"@.is_prefix_of(given) ==> variables.dom().contains(text::trim_of(given.skip(4)))
            &&& parts is Ok
            &&& parts->Ok_0.host is Some
            &&& parts->Ok_0.scheme == "http"@ || parts->Ok_0.scheme == "https"@
            &&& chosen_proxy(Some(raw), variables, target) == Ok::<Option<Seq<char>>, Seq<char>>(
                Some(parts->Ok_0.text),
            )
        },
        ({
            let given = text::trim_of(raw);
            let parts = parsed_url(text::trim_of(given));
            !"env:"@.is_prefix_of(given) && parts is Ok && parts->Ok_0.host is Some && (
            parts->Ok_0.scheme == "http"@ || parts->Ok_0.scheme == "https"@) ==> chosen_proxy(
                Some(raw),
                variables,
                target,
            ) is Ok
        }),
{
    reveal_strlit("env:");
    let given = text::trim_of(raw);
    if "env:"@.is_prefix_of(given) {
        assert(given.subrange(4, given.len() as int) =~= given.skip(4));
    }
}

/// In the environment of a web server, a request in plain HTTP is not sent through the proxy that the
/// environment names: the name could come from a header of a client.
pub proof fn lemma_cgi_refused(variables: Map<Seq<char>, String>, target: Parts)
    requires
        target.scheme == "http"@,
        variables.dom().contains("REQUEST_METHOD"@),
        variables["REQUEST_METHOD"@]@.len() > 0,
    ensures
        chosen_proxy(None, variables, target) matches Ok(found) ==> found is None,
        chosen_proxy(None, variables, target) is Ok ==> named_proxy(
            variables,
            "HTTP_PROXY"@,
            "http_proxy"@,
        ) is None,
{
}

} // verus!
