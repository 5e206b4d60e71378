//! Where the health of a runtime can be asked for.

use vstd::prelude::*;
use crate::address::{self, url_at};
use crate::health::{normalized, socket_of, SOCKET};
use crate::host::{self, ip_of};
use crate::{digest, text};

verus! {

/// The host in an address with a port.
pub open spec fn host_in(value: Seq<char>) -> Seq<char> {
    match text::after_prefix(value, "["@) {
        Some(rest) => match text::split_once_of(rest, ']') {
            Some((host, _)) => host,
            None => rest,
        },
        None => if text::count_of(value, ':') == 1 {
            match text::split_once_of(value, ':') {
                Some((host, _)) => host,
                None => value,
            }
        } else {
            value
        },
    }
}

/// Whether an address is one of this host.
pub open spec fn is_loopback_address(value: Seq<char>) -> bool {
    let host = host_in(value);
    host == "localhost"@ || match ip_of(host) {
        Some(address) => address.is_loopback(),
        None => false,
    }
}

/// Whether an address is one of this host.
pub fn loopback_address(value: &str) -> (result: bool)
    ensures
        result == is_loopback_address(value@),
{
    let host = match text::strip_prefix(value, "[") {
        Some(rest) => match text::split_once(&rest, ']') {
            Some((host, _)) => host,
            None => rest,
        },
        None => if text::count(value, ':') == 1 {
            match text::split_once(value, ':') {
                Some((host, _)) => host,
                None => value.to_owned(),
            }
        } else {
            value.to_owned()
        },
    };
    if text::same(&host, "localhost") {
        return true;
    }
    match host::ip(&host) {
        Some(address) => address.loopback(),
        None => false,
    }
}

/// Whether the one who asks may see the details of a runtime: on a socket, or from this host.
pub fn may_see(remote: &str) -> (result: bool)
    ensures
        result == (remote@ == "local"@ || is_loopback_address(remote@)),
{
    text::same(remote, "local") || loopback_address(remote)
}

/// The address at which to listen: on all addresses where only a port is given.
pub open spec fn listen_of(address: Seq<char>) -> Seq<char> {
    if ":"@.is_prefix_of(address) {
        "0.0.0.0"@ + address
    } else {
        address
    }
}

/// The address at which to listen.
pub fn listen(address: &str) -> (result: String)
    ensures
        result@ == listen_of(address@),
{
    if text::starts_with(address, ":") {
        text::cat("0.0.0.0", address)
    } else {
        address.to_owned()
    }
}

/// The host at which a listener is reached.
pub open spec fn reached_at(address: Seq<char>) -> Seq<char> {
    let host = text::unbracketed(
        match text::rsplit_once_of(address, ':') {
            Some((host, _)) => host,
            None => Seq::empty(),
        },
    );
    let everywhere = host.len() == 0 || match ip_of(host) {
        Some(ip) => ip.is_unspecified(),
        None => false,
    };
    if everywhere {
        "localhost"@
    } else {
        host
    }
}

fn reached(address: &str) -> (result: String)
    ensures
        result@ == reached_at(address@),
{
    let front = match text::rsplit_once(address, ':') {
        Some((host, _)) => host,
        None => {
            let empty = String::new();
            assert(empty@ =~= Seq::<char>::empty());
            empty
        },
    };
    let host = text::unbracket(&front);
    let everywhere = host.is_empty() || match host::ip(&host) {
        Some(ip) => ip.unspecified(),
        None => false,
    };
    if everywhere {
        "localhost".to_owned()
    } else {
        host
    }
}

/// The URL of a listener, given the port that it got.
pub fn url(address: &str, port: u16) -> (result: Result<String, String>)
    ensures
        match result {
            Ok(url) => match url_at("http://localhost"@, reached_at(address@), port) {
                Some(expected) => text::byte_len(reached_at(address@)) <= address::LARGEST && url@
                    == text::trim_end_char_of(expected, '/'),
                None => false,
            },
            Err(reason) => (text::byte_len(reached_at(address@)) > address::LARGEST || url_at(
                "http://localhost"@,
                reached_at(address@),
                port,
            ) is None) && reason@ == "invalid health address"@,
        },
{
    let host = reached(address);
    proof {
        reveal_strlit("http://localhost");
        text::lemma_byte_len_bounds("http://localhost"@);
    }
    if !text::fits(&host, address::LARGEST) {
        return Err("invalid health address".to_owned());
    }
    match address::at("http://localhost", &host, port) {
        Some(url) => Ok(text::trim_end_char(&url, '/')),
        None => Err("invalid health address".to_owned()),
    }
}

/// The URL of a listener on a socket. Who asks at that URL asks at the socket.
pub fn socket_url(path: &str) -> (result: String)
    ensures
        result@ == SOCKET@ + digest::url_base64_of(vstd::utf8::encode_utf8(path@)),
        text::byte_len(path@) > 5 ==> normalized(result@) == result@,
        path@.len() > 0 ==> leads_to(result@, path@),
{
    let bytes = text::bytes(path);
    let encoded = digest::url_base64(&bytes);
    let result = text::cat(SOCKET, &encoded);
    proof {
        reveal_strlit("http+unix://");
        vstd::utf8::encode_utf8_valid_utf8(path@);
        vstd::utf8::encode_utf8_decode_utf8(path@);
        text::lemma_byte_len_utf8(path@);
        assert(result@.skip(12) =~= encoded@);
        assert(SOCKET@.is_prefix_of(result@));
        if text::byte_len(path@) > 5 {
            lemma_kept(encoded@);
        }
    }
    result
}

/// Whether a URL stands for a socket.
pub open spec fn leads_to(url: Seq<char>, path: Seq<char>) -> bool {
    match text::after_prefix(url, SOCKET@) {
        Some(encoded) => socket_of(encoded) == Ok::<Seq<char>, Seq<char>>(path),
        None => false,
    }
}

proof fn lemma_kept(encoded: Seq<char>)
    requires
        digest::is_url_safe(encoded),
        encoded.len() >= 8,
    ensures
        normalized(SOCKET@ + encoded) == SOCKET@ + encoded,
{
    reveal_strlit("http+unix://");
    reveal_strlit("/healthz");
    reveal_strlit("/readyz");
    let value = SOCKET@ + encoded;
    let test = |ch: char| text::is_alnum(ch) || ch == '-' || ch == '_';
    assert(value[0] == 'h');
    assert(value.last() == encoded[encoded.len() - 1]);
    assert(test(encoded[encoded.len() - 1]));
    text::lemma_trim_solid(value);
    if "/healthz"@.is_suffix_of(value) {
        let tail = value.subrange(value.len() - 8, value.len() as int);
        assert(tail == "/healthz"@);
        assert(tail[0] == value[value.len() - 8]);
        assert(value[value.len() - 8] == '/');
        assert(value[value.len() - 8] == encoded[encoded.len() - 8]);
        assert(test(encoded[encoded.len() - 8]));
    }
    if "/readyz"@.is_suffix_of(value) {
        let tail = value.subrange(value.len() - 7, value.len() as int);
        assert(tail == "/readyz"@);
        assert(tail[0] == value[value.len() - 7]);
        assert(value[value.len() - 7] == '/');
        assert(value[value.len() - 7] == encoded[encoded.len() - 7]);
        assert(test(encoded[encoded.len() - 7]));
    }
}

/// An address is one of this host where it names it, or where its host is a loopback address, with a port or without
/// one.
pub proof fn lemma_listens_here(value: Seq<char>, host: Seq<char>)
    requires
        host == host_in(value),
    ensures
        host == "localhost"@ ==> is_loopback_address(value),
        ip_of(host) matches Some(ip) ==> (ip.is_loopback() ==> is_loopback_address(value)),
        host != "localhost"@ && ip_of(host) is None ==> !is_loopback_address(value),
        host != "localhost"@ ==> (ip_of(host) matches Some(ip) ==> (!ip.is_loopback()
            ==> !is_loopback_address(value))),
{
}

/// Where no host is given, all addresses are listened on; where all are, the runtime is reached on this host.
pub proof fn lemma_listened(address: Seq<char>, host: Seq<char>, port: Seq<char>)
    ensures
        address.len() > 0 && address[0] == ':' ==> listen_of(address) == "0.0.0.0"@ + address,
        address.len() == 0 || address[0] != ':' ==> listen_of(address) == address,
        text::rsplit_once_of(address, ':') == Some((host, port)) && text::unbracketed(host).len() == 0
            ==> reached_at(address) == "localhost"@,
        text::rsplit_once_of(address, ':') == Some((host, port)) && (ip_of(text::unbracketed(host)) matches Some(
            ip,
        ) && ip.is_unspecified()) ==> reached_at(address) == "localhost"@,
        text::rsplit_once_of(address, ':') == Some((host, port)) && text::unbracketed(host).len() > 0 && ip_of(
            text::unbracketed(host),
        ) is None ==> reached_at(address) == text::unbracketed(host),
{
    reveal_strlit(":");
    if address.len() > 0 && address[0] == ':' {
        assert(address.subrange(0, 1) =~= ":"@);
    } else if ":"@.is_prefix_of(address) {
        assert(address[0] == ":"@[0]);
    }
}

} // verus!
