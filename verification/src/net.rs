//! Requests over HTTP.

pub mod error;

use vstd::prelude::*;
use crate::address::{self, joined_url, one_origin, parsed_url, same_origin, Address, Parts};
use crate::control::client::VERSION;
use crate::header::{self, ascii_text, header_entries, has_room, no_entries, Headers};
use crate::proxy::Proxy;
use crate::text;

verus! {

/// How requests are made.
pub struct Options<'a> {
    pub proxy: Option<&'a str>,
    pub socket: Option<&'a str>,
    pub ca_bundle: Option<&'a str>,
    pub client_cert: Option<&'a str>,
    pub client_key: Option<&'a str>,
}

impl<'a> Options<'a> {
    /// The certificate and the key of the client, or why they are none: there are both or neither.
    pub fn identity(&self) -> (result: Result<Option<(&'a str, &'a str)>, String>)
        ensures
            match result {
                Ok(Some((cert, key))) => self.client_cert == Some(cert) && self.client_key == Some(
                    key,
                ),
                Ok(None) => self.client_cert is None && self.client_key is None,
                Err(reason) => (self.client_cert is None) != (self.client_key is None) && reason@
                    == "client_cert and client_key must be configured together"@,
            },
    {
        match (self.client_cert, self.client_key) {
            (Some(cert), Some(key)) => Ok(Some((cert, key))),
            (None, None) => Ok(None),
            _ => Err("client_cert and client_key must be configured together".to_owned()),
        }
    }
}

/// The certificate and the key of a client as one text.
pub fn combined(cert: Vec<u8>, key: Vec<u8>) -> (result: Vec<u8>)
    ensures
        result@ == cert@.push(10) + key@,
{
    let mut result = cert;
    let mut rest = key;
    result.push(10);
    result.append(&mut rest);
    result
}

/// How a request is made.
#[derive(Clone, Copy, PartialEq, Eq, Structural)]
pub enum Way {
    /// Through the socket of this machine.
    Local,
    /// With the identity of the client.
    Own,
    /// As anyone.
    Public,
}

/// How a request for a URL is made: the socket and the identity are for the own origin alone.
pub open spec fn way_of(socket: bool, origin: Parts, url: Parts) -> Way {
    if !same_origin(url, origin) {
        Way::Public
    } else if socket {
        Way::Local
    } else {
        Way::Own
    }
}

/// How a request for a URL is made.
pub fn way(socket: bool, origin: &Address, url: &Address) -> (result: Way)
    ensures
        result == way_of(socket, origin.parts(), url.parts()),
{
    if !one_origin(url, origin) {
        Way::Public
    } else if socket {
        Way::Local
    } else {
        Way::Own
    }
}

/// The identity of the client is shown to no other origin.
pub proof fn lemma_identity_kept(socket: bool, origin: Parts, url: Parts)
    requires
        !same_origin(url, origin),
    ensures
        way_of(socket, origin, url) == Way::Public,
{
}

/// Whether a request goes through a proxy, or why that is not known.
pub fn proxied(socket: bool, origin: &Address, proxy: &Proxy, url: &Address) -> (result: Result<
    bool,
    String,
>)
    requires
        proxy.wf(),
    ensures
        match result {
            Ok(through) => if way_of(socket, origin.parts(), url.parts()) == Way::Local {
                !through
            } else {
                match proxy.selected(url.parts()) {
                    Ok(found) => through == (found is Some),
                    Err(_) => false,
                }
            },
            Err(reason) => way_of(socket, origin.parts(), url.parts()) != Way::Local
                && proxy.selected(url.parts()) == Err::<Option<Seq<char>>, Seq<char>>(reason@),
        },
{
    if let Way::Local = way(socket, origin, url) {
        return Ok(false);
    }
    match proxy.select(url) {
        Ok(found) => Ok(found.is_some()),
        Err(reason) => Err(reason),
    }
}

/// The name of the client.
pub open spec fn agent_of() -> Seq<char> {
    "otunnel/"@ + VERSION@
}

/// The headers of a request, with the name of the client where it is not given.
pub open spec fn sent_of(entries: Map<Seq<char>, Seq<Seq<u8>>>) -> Map<Seq<char>, Seq<Seq<u8>>> {
    if entries.dom().contains("user-agent"@) {
        entries
    } else {
        entries.insert("user-agent"@, seq![vstd::utf8::encode_utf8(agent_of())])
    }
}

/// Puts the name of the client into the headers of a request where it is not given.
pub fn sign(headers: &mut Headers)
    requires
        has_room(header_entries(*old(headers))),
    ensures
        header_entries(*final(headers)) == sent_of(header_entries(*old(headers))),
{
    proof {
        reveal_strlit("user-agent");
        reveal_strlit("otunnel/");
        reveal_strlit("0.1.0");
    }
    assert(text::lowercase_of("user-agent"@) =~= "user-agent"@);
    if !header::has(headers, "user-agent") {
        let agent = text::cat("otunnel/", VERSION);
        proof {
            assert(agent@ == agent_of());
            header::lemma_plain_value(agent@);
        }
        header::put(headers, "user-agent", text::bytes(&agent));
    }
}

/// A request that may be led elsewhere.
pub struct Hop {
    pub method: String,
    pub url: Address,
    pub headers: Headers,
    pub body: Vec<u8>,
}

/// Whether an answer leads elsewhere, after some that did.
pub open spec fn leads(status: u16, location: Option<Seq<u8>>, attempt: int, redirects: int) -> bool {
    300 <= status <= 399 && location is Some && attempt < redirects
}

impl Hop {
    /// The URL to which an answer leads, or why there is none.
    pub open spec fn next_of(self, location: Seq<u8>) -> Result<Parts, Seq<char>> {
        match ascii_text(location) {
            None => Err("failed to convert header to a str"@),
            Some(reference) => match joined_url(self.url.text@, reference) {
                Err(reason) => Err(reason),
                Ok(next) => parsed_url(next),
            },
        }
    }

    /// Whether the next request only asks.
    pub open spec fn turns_get(self, status: u16) -> bool {
        status == 303 || self.method@ == "POST"@ && (status == 301 || status == 302)
    }

    /// The headers of the next request: none for another origin, and none of a body that is left out.
    pub open spec fn headers_for(self, next: Parts, status: u16) -> Map<Seq<char>, Seq<Seq<u8>>> {
        let kept = if same_origin(next, self.url.parts()) {
            header_entries(self.headers)
        } else {
            no_entries()
        };
        if self.turns_get(status) {
            kept.remove("content-type"@).remove("content-length"@)
        } else {
            kept
        }
    }

    /// Whether another request is the one to which an answer leads.
    pub open spec fn leads_to(self, other: Hop, status: u16, location: Seq<u8>) -> bool {
        match self.next_of(location) {
            Err(_) => false,
            Ok(next) => {
                &&& other.url.parts() == next
                &&& header_entries(other.headers) == self.headers_for(next, status)
                &&& other.method@ == (if self.turns_get(status) {
                    "GET"@
                } else {
                    self.method@
                })
                &&& other.body@ == (if self.turns_get(status) {
                    Seq::empty()
                } else {
                    self.body@
                })
            },
        }
    }

    /// The request to which an answer leads, or why there is none.
    pub fn follow(self, status: u16, location: &Vec<u8>) -> (result: Result<Hop, String>)
        ensures
            match result {
                Ok(next) => self.leads_to(next, status, location@),
                Err(reason) => self.next_of(location@) == Err::<Parts, Seq<char>>(reason@),
            },
    {
        let reference = match header::ascii(location) {
            Some(reference) => reference,
            None => {
                return Err("failed to convert header to a str".to_owned());
            },
        };
        let joined = match address::join(&self.url.text, &reference) {
            Ok(joined) => joined,
            Err(reason) => {
                return Err(reason);
            },
        };
        let next = match address::parse(&joined) {
            Ok(next) => next,
            Err(reason) => {
                return Err(reason);
            },
        };
        proof {
            reveal_strlit("content-type");
            reveal_strlit("content-length");
        }
        assert(text::lowercase_of("content-type"@) =~= "content-type"@);
        assert(text::lowercase_of("content-length"@) =~= "content-length"@);
        let mut headers = if one_origin(&next, &self.url) {
            self.headers
        } else {
            header::empty()
        };
        let get = status == 303 || (text::same(&self.method, "POST") && (status == 301 || status
            == 302));
        if get {
            header::take(&mut headers, "content-type");
            header::take(&mut headers, "content-length");
            let body: Vec<u8> = Vec::new();
            assert(body@ =~= Seq::<u8>::empty());
            return Ok(Hop { method: "GET".to_owned(), url: next, headers, body });
        }
        Ok(Hop { method: self.method, url: next, headers, body: self.body })
    }
}

/// Whether an answer leads elsewhere, after some that did.
pub fn led(status: u16, location: &Option<Vec<u8>>, attempt: usize, redirects: usize) -> (result: bool)
    ensures
        result == leads(
            status,
            match *location {
                Some(value) => Some(value@),
                None => None,
            },
            attempt as int,
            redirects as int,
        ),
{
    300 <= status && status <= 399 && location.is_some() && attempt < redirects
}

/// No header of a request is shown to another origin.
pub proof fn lemma_headers_kept(hop: Hop, other: Hop, status: u16, location: Seq<u8>)
    requires
        hop.leads_to(other, status, location),
        !same_origin(other.url.parts(), hop.url.parts()),
    ensures
        header_entries(other.headers).dom() =~= Set::<Seq<char>>::empty(),
{
}

/// A request goes its own way, with its identity, only to its own origin: over the socket where there is one.
pub proof fn lemma_ways(socket: bool, origin: Parts, url: Parts)
    ensures
        way_of(socket, origin, url) == Way::Public <==> !same_origin(url, origin),
        same_origin(url, origin) && socket ==> way_of(socket, origin, url) == Way::Local,
        same_origin(url, origin) && !socket ==> way_of(socket, origin, url) == Way::Own,
{
}

/// A redirect is followed from 300 to 399 where it says where to and there are some left; a 303, and a 301 or 302
/// after a POST, asks with GET and without a body, and any other as before. Another origin gets no headers.
pub proof fn lemma_hop_leads(hop: Hop, other: Hop, status: u16, location: Seq<u8>, name: Seq<char>)
    requires
        hop.leads_to(other, status, location),
    ensures
        status == 303 ==> other.method@ == "GET"@ && other.body@.len() == 0,
        (status == 301 || status == 302) && hop.method@ == "POST"@ ==> other.method@ == "GET"@
            && other.body@.len() == 0,
        status == 307 || status == 308 ==> other.method@ == hop.method@ && other.body@ == hop.body@,
        (status == 301 || status == 302) && hop.method@ != "POST"@ ==> other.method@ == hop.method@
            && other.body@ == hop.body@,
        !same_origin(other.url.parts(), hop.url.parts()) ==> !header_entries(other.headers).dom().contains(
            name,
        ),
        same_origin(other.url.parts(), hop.url.parts()) && header_entries(hop.headers).dom().contains(name)
            && name != "content-type"@ && name != "content-length"@ ==> header_entries(
            other.headers,
        ).dom().contains(name) && header_entries(other.headers)[name] == header_entries(hop.headers)[name],
        status == 303 ==> !header_entries(other.headers).dom().contains("content-type"@) && !header_entries(
            other.headers,
        ).dom().contains("content-length"@),
{
}

/// Which answers lead on.
pub proof fn lemma_leads(status: u16, location: Option<Seq<u8>>, attempt: int, redirects: int)
    ensures
        leads(status, location, attempt, redirects) ==> 300 <= status <= 399,
        leads(status, location, attempt, redirects) ==> location is Some,
        leads(status, location, attempt, redirects) ==> attempt < redirects,
        300 <= status <= 399 && location is Some && attempt < redirects ==> leads(
            status,
            location,
            attempt,
            redirects,
        ),
{
}

/// A request tells the agent of the client unless it tells another.
pub proof fn lemma_agent_told(entries: Map<Seq<char>, Seq<Seq<u8>>>, name: Seq<char>)
    ensures
        sent_of(entries).dom().contains("user-agent"@),
        entries.dom().contains("user-agent"@) ==> sent_of(entries) == entries,
        !entries.dom().contains("user-agent"@) ==> sent_of(entries)["user-agent"@] == seq![
            vstd::utf8::encode_utf8("otunnel/"@ + "0.1.0"@),
        ],
        entries.dom().contains(name) ==> sent_of(entries).dom().contains(name) && sent_of(entries)[name]
            == entries[name],
{
}

} // verus!
