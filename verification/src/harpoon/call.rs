//! Calls of targets: what is asked, what is sent, where redirects lead, and what is answered.

use vstd::prelude::*;
use crate::address::{
    self, joined_url, of_origin, parsed_url, same_origin, url_anonymous, Address, Parts,
};
use crate::checks::{either, unless};
use crate::harpoon::headers;
use crate::harpoon::label::{key_of, valid_label};
use crate::harpoon::registry::{Harpoon, Target};
use crate::header::{self, header_entries};
use crate::json::{self, parsed_json, Doc, Json};
use crate::protocol::lists_of;
use crate::table::{strings_of, Table};
use crate::{digest, text};

verus! {

/// A call of a target.
pub struct Call {
    pub label: String,
    pub method: String,
    pub headers: Table<String>,
    pub body: String,
    pub timeout_ms: Option<i64>,
    pub max_response_bytes: Option<i64>,
    pub follow_redirects: Option<bool>,
    pub max_redirects: Option<i64>,
}

/// A reason with the label that it is about.
pub open spec fn labelled(label: Seq<char>, reason: Seq<char>) -> Seq<char> {
    let name = if label.len() == 0 {
        "unknown"@
    } else {
        label
    };
    "label "@ + name + (": "@ + reason)
}

/// A reason with the label that it is about.
pub fn about(label: &str, reason: &str) -> (result: String)
    ensures
        result@ == labelled(label@, reason@),
{
    let name = if label.is_empty() {
        "unknown"
    } else {
        label
    };
    text::cat(&text::cat("label ", name), &text::cat(": ", reason))
}

/// The largest text of the arguments of a template.
pub const MAX_ARGUMENTS: usize = 32768;

/// Whether the arguments of a template can be looked at: they are short, and their label is one.
pub fn template_arguments(size: usize, label: &str) -> (result: Result<(), String>)
    ensures
        result is Ok <==> size <= MAX_ARGUMENTS && crate::harpoon::label::is_label(label@),
        result matches Err(reason) ==> reason@ == "label unknown: invalid template arguments"@,
{
    if size <= MAX_ARGUMENTS && valid_label(label) {
        Ok(())
    } else {
        Err("label unknown: invalid template arguments".to_owned())
    }
}

/// The call of a template: it gets its answer from where it asks.
pub fn template_call(
    label: String,
    headers: Table<String>,
    timeout_ms: Option<i64>,
    max_response_bytes: Option<i64>,
) -> (result: Call)
    ensures
        result.label == label,
        result.method@ == "GET"@,
        result.headers == headers,
        result.body@.len() == 0,
        result.timeout_ms == timeout_ms,
        result.max_response_bytes == max_response_bytes,
        result.follow_redirects == Some(false),
        result.max_redirects is None,
{
    Call {
        label,
        method: "GET".to_owned(),
        headers,
        body: String::new(),
        timeout_ms,
        max_response_bytes,
        follow_redirects: Some(false),
        max_redirects: None,
    }
}

/// The time of a call in milliseconds, or why it is refused.
pub open spec fn timeout_of(given: Option<i64>) -> Result<u64, Seq<char>> {
    let value = match given {
        Some(value) => value as int,
        None => 30000,
    };
    if value <= 0 {
        Err("timeout must be positive"@)
    } else if value < 100 {
        Err("timeout must be at least 100ms"@)
    } else if value > 120000 {
        Err("timeout must be at most 120000ms"@)
    } else {
        Ok(value as u64)
    }
}

/// The time of a call in milliseconds.
pub fn timeout(given: Option<i64>) -> (result: Result<u64, String>)
    ensures
        match (result, timeout_of(given)) {
            (Ok(value), Ok(expected)) => value == expected,
            (Err(reason), Err(expected)) => reason@ == expected,
            _ => false,
        },
{
    let value: i64 = match given {
        Some(value) => value,
        None => 30000,
    };
    if value <= 0 {
        Err("timeout must be positive".to_owned())
    } else if value < 100 {
        Err("timeout must be at least 100ms".to_owned())
    } else if value > 120000 {
        Err("timeout must be at most 120000ms".to_owned())
    } else {
        Ok(value as u64)
    }
}

/// The largest answer of a call, or why it is refused.
pub open spec fn answer_limit_of(given: Option<i64>, limit: usize) -> Result<usize, Seq<char>> {
    match given {
        None => Ok(limit),
        Some(value) => if value <= 0 {
            Err("max_response_bytes must be positive"@)
        } else if value > limit {
            Err(
                "max_response_bytes must be less than or equal to "@ + text::decimal_of(
                    limit as nat,
                ),
            )
        } else {
            Ok(value as usize)
        },
    }
}

fn answer_limit(given: Option<i64>, limit: usize) -> (result: Result<usize, String>)
    ensures
        match (result, answer_limit_of(given, limit)) {
            (Ok(value), Ok(expected)) => value == expected,
            (Err(reason), Err(expected)) => reason@ == expected,
            _ => false,
        },
{
    match given {
        None => Ok(limit),
        Some(value) => if value <= 0 {
            Err("max_response_bytes must be positive".to_owned())
        } else if value as u64 > limit as u64 {
            Err(
                text::cat(
                    "max_response_bytes must be less than or equal to ",
                    &text::decimal(limit as u64),
                ),
            )
        } else {
            Ok(value as usize)
        },
    }
}

/// The number of redirects of a call, or why it is refused.
pub open spec fn redirects_of(follow: bool, given: Option<i64>, limit: usize) -> Result<
    usize,
    Seq<char>,
> {
    match given {
        _ if !follow => Ok(0),
        None => Ok(limit),
        Some(value) => if value < 0 {
            Err("max_redirects must be non-negative"@)
        } else if value > limit {
            Err("max_redirects must be less than or equal to "@ + text::decimal_of(limit as nat))
        } else {
            Ok(value as usize)
        },
    }
}

fn redirects(follow: bool, given: Option<i64>, limit: usize) -> (result: Result<usize, String>)
    ensures
        match (result, redirects_of(follow, given, limit)) {
            (Ok(value), Ok(expected)) => value == expected,
            (Err(reason), Err(expected)) => reason@ == expected,
            _ => false,
        },
{
    if !follow {
        return Ok(0);
    }
    match given {
        None => Ok(limit),
        Some(value) => if value < 0 {
            Err("max_redirects must be non-negative".to_owned())
        } else if value as u64 > limit as u64 {
            Err(
                text::cat(
                    "max_redirects must be less than or equal to ",
                    &text::decimal(limit as u64),
                ),
            )
        } else {
            Ok(value as usize)
        },
    }
}

/// What the first headers of a caller become, or why they are refused.
pub open spec fn caller_of(keys: Seq<Seq<char>>, values: Seq<String>, count: int) -> Result<
    Map<Seq<char>, Seq<Seq<u8>>>,
    Seq<char>,
>
    decreases count,
{
    if count <= 0 {
        Ok(header::no_entries())
    } else {
        match caller_of(keys, values, count - 1) {
            Err(reason) => Err(reason),
            Ok(map) => {
                let name = text::lowercase_of(keys[count - 1]);
                let value = vstd::utf8::encode_utf8(values[count - 1]@);
                if !header::is_name(keys[count - 1]) {
                    Err("invalid HTTP header name"@)
                } else if map.dom().contains(name) {
                    Err("duplicate caller header name"@)
                } else if !header::is_value(value) {
                    Err("failed to parse header value"@)
                } else {
                    Ok(map.insert(name, seq![value]))
                }
            },
        }
    }
}

proof fn lemma_caller_fails(keys: Seq<Seq<char>>, values: Seq<String>, at: int, count: int)
    requires
        0 <= at <= count,
    ensures
        caller_of(keys, values, at) is Err ==> caller_of(keys, values, count) == caller_of(
            keys,
            values,
            at,
        ),
    decreases count - at,
{
    if at < count {
        lemma_caller_fails(keys, values, at, count - 1);
    }
}

fn caller(values: &Table<String>) -> (result: Result<header::Headers, String>)
    requires
        values.keys().len() < header::ROOM,
    ensures
        match (result, caller_of(values.keys(), values.values(), values.keys().len() as int)) {
            (Ok(map), Ok(expected)) => header_entries(map) == expected,
            (Err(reason), Err(expected)) => reason@ == expected,
            _ => false,
        },
{
    let count: usize = values.len();
    let ghost keys = values.keys();
    let ghost items = values.values();
    let mut map = header::empty();
    let mut index: usize = 0;
    while index < count
        invariant
            index <= count,
            count == keys.len(),
            count < header::ROOM,
            keys == values.keys(),
            items == values.values(),
            caller_of(keys, items, index as int) == Ok::<Map<Seq<char>, Seq<Seq<u8>>>, Seq<char>>(
                header_entries(map),
            ),
            header_entries(map).dom().finite(),
            header_entries(map).dom().len() <= index,
        decreases count - index,
    {
        let name = values.key(index);
        proof {
            lemma_caller_fails(keys, items, index + 1, count as int);
        }
        if header::name(name).is_none() {
            return Err("invalid HTTP header name".to_owned());
        }
        if header::has(&map, name) {
            return Err("duplicate caller header name".to_owned());
        }
        let value = text::bytes(values.value(index));
        if !header::valid_value(&value) {
            return Err("failed to parse header value".to_owned());
        }
        header::put(&mut map, name, value);
        index = index + 1;
    }
    Ok(map)
}

impl Harpoon {
    /// Why a call is refused before its headers are looked at, if so.
    pub open spec fn front_fault(self, call: Call) -> Option<Seq<char>> {
        let label = text::trim_of(call.label@);
        let method = text::uppercase_of(text::trim_of(call.method@));
        either(
            unless(label.len() > 0, "label is required"@),
            either(
                unless(self.has_label(label), "unknown target"@),
                either(
                    unless(header::is_http_method(method), "invalid HTTP method"@),
                    unless(
                        method == "GET"@ || method == "POST"@ || method == "PUT"@,
                        "invalid method"@,
                    ),
                ),
            ),
        )
    }

    /// Why a call is refused after its headers are looked at, if so.
    pub open spec fn back_fault(self, call: Call) -> Option<Seq<char>> {
        match answer_limit_of(call.max_response_bytes, self.response_limit_of()) {
            Err(reason) => Some(reason),
            Ok(limit) => match redirects_of(
                follows(call),
                call.max_redirects,
                self.config.max_redirects,
            ) {
                Err(reason) => Some(reason),
                Ok(_) => unless(
                    text::byte_len(call.body@) <= limit,
                    "request body exceeds size limit"@,
                ),
            },
        }
    }
}

/// Whether a call follows redirects.
pub open spec fn follows(call: Call) -> bool {
    call.follow_redirects != Some(false)
}

/// The headers of a caller, or why they are refused.
pub open spec fn callers(call: Call) -> Result<Map<Seq<char>, Seq<Seq<u8>>>, Seq<char>> {
    caller_of(call.headers.keys(), call.headers.values(), call.headers.keys().len() as int)
}

/// The headers of an exact target, or why they are refused.
pub open spec fn exact_headers(call: Call) -> Result<Map<Seq<char>, Seq<Seq<u8>>>, Seq<char>> {
    headers::outbound_of(
        call.headers.keys(),
        call.headers.values(),
        call.headers.keys().len() as int,
    )
}

impl Target {
    /// Whether the URL and the headers are those of a call of the target.
    pub open spec fn sends(
        self,
        call: Call,
        parameters: Option<Table<String>>,
        url: Seq<char>,
        map: Map<Seq<char>, Seq<Seq<u8>>>,
    ) -> bool {
        match (self.template, parameters) {
            (Some(template), Some(values)) => callers(call) is Ok && template.arguments_fault(
                strings_of(values@),
                values.keys().len() as int,
            ) is None && template.caller_accepted(callers(call)->Ok_0) && template.url_for(
                strings_of(values@),
            ) == Some(url) && map == template.rendered(callers(call)->Ok_0),
            (None, None) => exact_headers(call) is Ok && url == self.url.text@ && map
                == exact_headers(call)->Ok_0.insert(
                "user-agent"@,
                seq![vstd::utf8::encode_utf8(headers::USER_AGENT@)],
            ),
            _ => false,
        }
    }

    /// Whether the reason tells why the target refuses a call for its parameters or headers.
    pub open spec fn refuses(
        self,
        call: Call,
        parameters: Option<Table<String>>,
        reason: Seq<char>,
    ) -> bool {
        match (self.template, parameters) {
            (Some(template), Some(values)) => match callers(call) {
                Err(expected) => reason == expected,
                Ok(map) => match template.arguments_fault(
                    strings_of(values@),
                    values.keys().len() as int,
                ) {
                    Some(expected) => reason == expected,
                    None => template.caller_refused(map, reason),
                },
            },
            (None, None) => exact_headers(call) == Err::<Map<Seq<char>, Seq<Seq<u8>>>, Seq<char>>(
                reason,
            ),
            (Some(_), None) => reason == "template target requires call_target_template"@,
            (None, Some(_)) => reason == "unknown template target"@,
        }
    }

    fn outgoing(&self, call: &Call, parameters: Option<&Table<String>>) -> (result: Result<
        (String, header::Headers),
        String,
    >)
        requires
            self.template matches Some(template) ==> template.wf(),
            call.headers.keys().len() + 2 < header::ROOM,
        ensures
            match result {
                Ok((url, map)) => self.sends(
                    *call,
                    table_of(parameters),
                    url@,
                    header_entries(map),
                ) && header_entries(map).dom().finite() && header_entries(map).dom().len()
                    < header::ROOM,
                Err(reason) => self.refuses(*call, table_of(parameters), reason@),
            },
            result matches Ok((url, _)) ==> (self.template matches Some(template) ==> of_origin(
                url@,
                template.origin@,
            )),
    {
        match (&self.template, parameters) {
            (Some(template), Some(values)) => match caller(&call.headers) {
                Ok(map) => template.render(values, &map),
                Err(reason) => Err(reason),
            },
            (None, None) => match headers::outbound(&call.headers) {
                Ok(map) => Ok((self.url.text.clone(), map)),
                Err(reason) => Err(reason),
            },
            (Some(_), None) => Err("template target requires call_target_template".to_owned()),
            (None, Some(_)) => Err("unknown template target".to_owned()),
        }
    }
}

/// The contents of an optional reference to a table.
pub open spec fn table_of(value: Option<&Table<String>>) -> Option<Table<String>> {
    match value {
        Some(inner) => Some(*inner),
        None => None,
    }
}

/// A request on its way to a target.
pub struct Outgoing {
    /// The place of the target.
    pub target: usize,
    pub method: String,
    pub url: Address,
    pub headers: header::Headers,
    pub body: Vec<u8>,
    /// The largest answer.
    pub limit: usize,
    pub follow: bool,
    /// How many redirects are followed.
    pub redirects: usize,
    /// How many redirects were followed.
    pub hop: usize,
    /// The host of the first URL.
    pub initial_host: String,
    /// Whether the target has no template.
    pub exact: bool,
}

/// The host of a URL, or nothing.
pub open spec fn host_of(host: Option<Seq<char>>) -> Seq<char> {
    match host {
        Some(name) => name,
        None => Seq::empty(),
    }
}

impl Outgoing {
    /// Whether the request can get a `Referer`.
    pub open spec fn wf(self) -> bool {
        let names = header_entries(self.headers).dom();
        names.finite() && names.remove("referer"@).len() < header::ROOM
    }

    /// Whether this is how a call of a target starts.
    pub open spec fn starts(
        self,
        harpoon: Harpoon,
        call: Call,
        parameters: Option<Table<String>>,
    ) -> bool {
        let target = harpoon.targets@[self.target as int];
        &&& self.target < harpoon.targets@.len()
        &&& target.info.label@ == text::trim_of(call.label@)
        &&& self.method@ == text::uppercase_of(text::trim_of(call.method@))
        &&& exists|url: Seq<char>| #[trigger]
            target.sends(call, parameters, url, header_entries(self.headers))
                && self.starts_at(target, url)
        &&& self.body@ == vstd::utf8::encode_utf8(call.body@)
        &&& answer_limit_of(call.max_response_bytes, harpoon.response_limit_of()) == Ok::<
            usize,
            Seq<char>,
        >(self.limit)
        &&& self.follow == follows(call)
        &&& redirects_of(self.follow, call.max_redirects, harpoon.config.max_redirects) == Ok::<
            usize,
            Seq<char>,
        >(self.redirects)
        &&& self.hop == 0
        &&& self.initial_host@ == host_of(self.url.parts().host)
        &&& self.exact == (target.template is None)
    }

    /// Whether the URL is the one to which a target sends.
    pub open spec fn starts_at(self, target: Target, url: Seq<char>) -> bool {
        match target.template {
            Some(_) => parsed_url(url) == Ok::<Parts, Seq<char>>(self.url.parts()),
            None => self.url.parts() == target.url.parts(),
        }
    }
}

impl Harpoon {
    /// Whether a request goes where its target is: to the URL of the target itself, or to the origin of
    /// its template.
    pub open spec fn stays(self, outgoing: Outgoing) -> bool {
        let target = self.targets@[outgoing.target as int];
        match target.template {
            Some(template) => parsed_url(template.origin@) matches Ok(origin) && same_origin(
                outgoing.url.parts(),
                origin,
            ),
            None => outgoing.url.parts() == target.url.parts(),
        }
    }

    /// Prepares the request of a call.
    pub fn prepare(&self, call: &Call, parameters: Option<&Table<String>>) -> (result: Result<
        Outgoing,
        String,
    >)
        requires
            self.wf(),
            call.headers.keys().len() + 2 < header::ROOM,
        ensures
            match result {
                Ok(outgoing) => self.front_fault(*call) is None && self.back_fault(*call) is None
                    && outgoing.wf() && outgoing.starts(*self, *call, table_of(parameters)),
                Err(reason) => match self.front_fault(*call) {
                    Some(expected) => reason@ == expected,
                    None => exists|i: int|
                        0 <= i < self.targets@.len() && (#[trigger] self.targets@[i]).info.label@
                            == text::trim_of(call.label@) && (if self.targets@[i].accepts(
                            *call,
                            table_of(parameters),
                        ) {
                            self.back_fault(*call) == Some(reason@)
                        } else {
                            self.targets@[i].refuses(*call, table_of(parameters), reason@)
                        }),
                },
            },
            result matches Ok(outgoing) ==> self.stays(outgoing),
    {
        let label = text::trim(&call.label);
        if label.is_empty() {
            return Err("label is required".to_owned());
        }
        let at: usize = match self.find(&label) {
            Some(at) => at,
            None => {
                return Err("unknown target".to_owned());
            },
        };
        assert(self.has_label(label@));
        let method = text::uppercase(&text::trim(&call.method));
        if !header::valid_method(&method) {
            return Err("invalid HTTP method".to_owned());
        }
        if !text::same(&method, "GET") && !text::same(&method, "POST") && !text::same(
            &method,
            "PUT",
        ) {
            return Err("invalid method".to_owned());
        }
        let target = &self.targets[at];
        let (text, headers) = match target.outgoing(call, parameters) {
            Ok(pair) => pair,
            Err(reason) => {
                return Err(reason);
            },
        };
        let limit: usize = match answer_limit(call.max_response_bytes, self.response_limit()) {
            Ok(limit) => limit,
            Err(reason) => {
                return Err(reason);
            },
        };
        let follow = match call.follow_redirects {
            Some(follow) => follow,
            None => true,
        };
        let redirects: usize = match redirects(
            follow,
            call.max_redirects,
            self.config.max_redirects,
        ) {
            Ok(redirects) => redirects,
            Err(reason) => {
                return Err(reason);
            },
        };
        if !text::fits(&call.body, limit) {
            return Err("request body exceeds size limit".to_owned());
        }
        let url = if target.template.is_some() {
            match address::parse(&text) {
                Ok(url) => url,
                Err(reason) => {
                    assert(false);
                    return Err(reason);
                },
            }
        } else {
            target.url.copy()
        };
        let initial_host = match &url.host {
            Some(host) => host.clone(),
            None => String::new(),
        };
        let outgoing = Outgoing {
            target: at,
            method,
            url,
            headers,
            body: text::bytes(&call.body),
            limit,
            follow,
            redirects,
            hop: 0,
            initial_host,
            exact: target.template.is_none(),
        };
        proof {
            assert(target.sends(
                *call,
                table_of(parameters),
                text@,
                header_entries(outgoing.headers),
            ));
            let names = header_entries(outgoing.headers).dom();
            vstd::set_lib::lemma_len_subset(names.remove("referer"@), names);
        }
        Ok(outgoing)
    }
}

impl Target {
    /// Whether the parameters and the headers of a call are accepted.
    pub open spec fn accepts(self, call: Call, parameters: Option<Table<String>>) -> bool {
        exists|url: Seq<char>, map: Map<Seq<char>, Seq<Seq<u8>>>| #[trigger]
            self.sends(call, parameters, url, map)
    }
}

/// Whether a status leads elsewhere.
pub open spec fn is_redirect(status: u16) -> bool {
    status == 301 || status == 302 || status == 303 || status == 307 || status == 308
}

/// Whether a host is neither the first one nor below it.
pub open spec fn is_elsewhere(initial: Seq<char>, host: Seq<char>) -> bool {
    host != initial && !("."@ + initial).is_suffix_of(host)
}

impl Outgoing {
    /// Whether an answer is followed.
    pub fn redirects(&self, status: u16, location: bool) -> (result: bool)
        ensures
            result == (self.follow && is_redirect(status) && location),
    {
        self.follow && (status == 301 || status == 302 || status == 303 || status == 307 || status
            == 308) && location
    }

    /// The URL to which an answer leads, or why it is not followed.
    pub open spec fn next_of(self, location: Seq<u8>) -> Result<Parts, Seq<char>> {
        match header::ascii_text(location) {
            None => Err("redirect blocked: failed to convert header to a str"@),
            Some(reference) => match joined_url(self.url.text@, reference) {
                Err(reason) => Err("redirect blocked: "@ + reason),
                Ok(next) => match parsed_url(next) {
                    Err(reason) => Err("redirect blocked: "@ + reason),
                    Ok(parts) => Ok(parts),
                },
            },
        }
    }

    /// Whether the next request tells from where it comes.
    pub open spec fn refers(self, next: Parts) -> bool {
        !(self.url.scheme@ == "https"@ && next.scheme == "http"@)
    }

    /// From where the next request comes, as it tells it.
    pub open spec fn referer(self) -> Option<Seq<u8>> {
        match url_anonymous(self.url.text@) {
            Some(value) => if header::is_value(vstd::utf8::encode_utf8(value)) {
                Some(vstd::utf8::encode_utf8(value))
            } else {
                None
            },
            None => None,
        }
    }

    /// The headers of the next request: no authorization for another host, and where it comes from.
    pub open spec fn next_headers(self, next: Parts) -> Map<Seq<char>, Seq<Seq<u8>>> {
        let entries = header_entries(self.headers);
        let kept = if is_elsewhere(self.initial_host@, host_of(next.host)) {
            entries.remove("authorization"@)
        } else {
            entries
        };
        match self.referer() {
            Some(value) if self.refers(next) => kept.insert("referer"@, seq![value]),
            _ => kept,
        }
    }

    /// Whether the next request asks with `GET` whatever this one asked with.
    pub open spec fn turns_get(self, status: u16) -> bool {
        self.method@ != "GET"@ && self.method@ != "HEAD"@ && 301 <= status <= 303
    }

    /// Why an answer is not followed, if so.
    pub open spec fn redirect_fault(self, harpoon: Harpoon, location: Seq<u8>) -> Option<Seq<char>> {
        if self.hop >= self.redirects {
            Some("redirect limit exceeded"@)
        } else {
            match self.next_of(location) {
                Err(reason) => Some(reason),
                Ok(next) => if self.refers(next) && self.referer() is None {
                    Some("failed to parse header value"@)
                } else {
                    match key_of(next.text) {
                        Err(reason) => Some(reason),
                        Ok(key) => unless(
                            exists|i: int|
                                0 <= i < harpoon.targets@.len() && #[trigger] harpoon.reaches(key, i),
                            "redirect blocked"@,
                        ),
                    }
                },
            }
        }
    }

    /// Whether another request is the one to which an answer of this one leads: to the first exact
    /// target of that URL.
    pub open spec fn leads_to(
        self,
        other: Outgoing,
        harpoon: Harpoon,
        status: u16,
        location: Seq<u8>,
    ) -> bool {
        match self.next_of(location) {
            Err(_) => false,
            Ok(next) => {
                &&& other.target < harpoon.targets@.len()
                &&& key_of(next.text) is Ok
                &&& harpoon.reaches(key_of(next.text)->Ok_0, other.target as int)
                &&& forall|i: int|
                    0 <= i < other.target ==> !#[trigger] harpoon.reaches(
                        key_of(next.text)->Ok_0,
                        i,
                    )
                &&& other.url.parts() == harpoon.targets@[other.target as int].url.parts()
                &&& other.method@ == if self.turns_get(status) {
                    "GET"@
                } else {
                    self.method@
                }
                &&& other.body@ == if self.turns_get(status) {
                    Seq::empty()
                } else {
                    self.body@
                }
                &&& header_entries(other.headers) == self.next_headers(next)
                &&& other.limit == self.limit
                &&& other.follow == self.follow
                &&& other.redirects == self.redirects
                &&& other.hop == self.hop + 1
                &&& other.initial_host@ == self.initial_host@
                &&& other.exact == self.exact
            },
        }
    }

    fn next(&self, location: &Vec<u8>) -> (result: Result<Address, String>)
        ensures
            match (result, self.next_of(location@)) {
                (Ok(next), Ok(parts)) => next.parts() == parts,
                (Err(reason), Err(expected)) => reason@ == expected,
                _ => false,
            },
    {
        let reference = match header::ascii(location) {
            Some(reference) => reference,
            None => {
                return Err("redirect blocked: failed to convert header to a str".to_owned());
            },
        };
        let next = match address::join(&self.url.text, &reference) {
            Ok(next) => next,
            Err(reason) => {
                return Err(text::cat("redirect blocked: ", &reason));
            },
        };
        match address::parse(&next) {
            Ok(next) => Ok(next),
            Err(reason) => Err(text::cat("redirect blocked: ", &reason)),
        }
    }

    fn refer(&self, next: &Address) -> (result: Result<Option<Vec<u8>>, String>)
        ensures
            match result {
                Ok(Some(value)) => self.refers(next.parts()) && self.referer() == Some(value@),
                Ok(None) => !self.refers(next.parts()),
                Err(reason) => self.refers(next.parts()) && self.referer() is None && reason@
                    == "failed to parse header value"@,
            },
    {
        if text::same(&self.url.scheme, "https") && text::same(&next.scheme, "http") {
            return Ok(None);
        }
        if let Some(value) = address::anonymous(&self.url.text) {
            let bytes = text::bytes(&value);
            if header::valid_value(&bytes) {
                return Ok(Some(bytes));
            }
        }
        Err("failed to parse header value".to_owned())
    }

    /// Follows an answer.
    pub fn redirect(self, harpoon: &Harpoon, status: u16, location: &Vec<u8>) -> (result: Result<
        Outgoing,
        String,
    >)
        requires
            harpoon.wf(),
            self.wf(),
        ensures
            match result {
                Ok(other) => self.redirect_fault(*harpoon, location@) is None && other.wf()
                    && self.leads_to(other, *harpoon, status, location@),
                Err(reason) => self.redirect_fault(*harpoon, location@) == Some(reason@),
            },
            result matches Ok(other) ==> harpoon.stays(other),
    {
        if self.hop >= self.redirects {
            return Err("redirect limit exceeded".to_owned());
        }
        let next = match self.next(location) {
            Ok(next) => next,
            Err(reason) => {
                return Err(reason);
            },
        };
        let referer = match self.refer(&next) {
            Ok(referer) => referer,
            Err(reason) => {
                return Err(reason);
            },
        };
        let at: usize = match harpoon.destination(&next.text) {
            Ok(at) => at,
            Err(reason) => {
                return Err(reason);
            },
        };
        let host = match &next.host {
            Some(host) => host.clone(),
            None => String::new(),
        };
        let mut headers = header::duplicate(&self.headers);
        proof {
            reveal_strlit("authorization");
            reveal_strlit("referer");
            assert(text::lowercase_of("authorization"@) =~= "authorization"@);
            assert(text::lowercase_of("referer"@) =~= "referer"@);
        }
        if !text::same(&host, &self.initial_host) && !text::ends_with(
            &host,
            &text::cat(".", &self.initial_host),
        ) {
            header::take(&mut headers, "authorization");
        }
        let ghost kept = header_entries(headers);
        proof {
            let names = header_entries(self.headers).dom();
            vstd::set_lib::lemma_len_subset(
                kept.dom().remove("referer"@),
                names.remove("referer"@),
            );
            assert(kept.dom().len() <= kept.dom().remove("referer"@).len() + 1);
        }
        if let Some(value) = referer {
            header::put(&mut headers, "referer", value);
            assert(header_entries(headers).dom().remove("referer"@) =~= kept.dom().remove(
                "referer"@,
            ));
        }
        let turns = !text::same(&self.method, "GET") && !text::same(&self.method, "HEAD") && 301
            <= status && status <= 303;
        Ok(
            Outgoing {
                target: at,
                method: if turns {
                    "GET".to_owned()
                } else {
                    self.method
                },
                url: harpoon.targets[at].url.copy(),
                headers,
                body: if turns {
                    Vec::new()
                } else {
                    self.body
                },
                limit: self.limit,
                follow: self.follow,
                redirects: self.redirects,
                hop: self.hop + 1,
                initial_host: self.initial_host,
                exact: self.exact,
            },
        )
    }

    /// A request never goes to another host with the authorization of the first one, nor to a URL
    /// that is not the one of an exact target.
    pub proof fn lemma_redirects_kept(
        self,
        other: Outgoing,
        harpoon: Harpoon,
        status: u16,
        location: Seq<u8>,
    )
        requires
            self.leads_to(other, harpoon, status, location),
        ensures
            is_elsewhere(self.initial_host@, host_of(self.next_of(location)->Ok_0.host))
                ==> !header_entries(other.headers).dom().contains("authorization"@),
            harpoon.targets@[other.target as int].template is None,
            key_of(harpoon.targets@[other.target as int].original_url@) == key_of(
                self.next_of(location)->Ok_0.text,
            ),
    {
        reveal_strlit("authorization");
        reveal_strlit("referer");
        assert("authorization"@.len() == 13);
        assert("referer"@.len() == 7);
    }

    /// Takes a further part of an answer, and gives the size of what there is of it.
    pub fn take_part(&self, size: usize, part: usize) -> (result: Result<usize, String>)
        ensures
            match result {
                Ok(sum) => size + part <= self.limit && sum == size + part || part == 0 && sum
                    == size,
                Err(reason) => reason@ == "response exceeds size limit"@ && part > 0 && size + part
                    > self.limit,
            },
    {
        let room: usize = if size < self.limit {
            self.limit - size
        } else {
            0
        };
        if part > room {
            return Err("response exceeds size limit".to_owned());
        }
        Ok(size + part)
    }
}

/// What is told of the answer of a target.
pub struct Answer {
    pub status_code: u16,
    pub headers: Table<Vec<String>>,
    pub body_base64: String,
    pub body_size_bytes: usize,
}

impl Harpoon {
    /// What becomes of the bytes of an answer: where they are a document with URLs of targets, those
    /// are rewritten.
    pub open spec fn rewrites(self, bytes: Seq<u8>, result: Seq<u8>) -> bool {
        match text::utf8_text(bytes) {
            Some(value) => match parsed_json(value) {
                Some(doc) => exists|json: Json| #[trigger]
                    json.doc() == doc && result == (if self.touches(json, Seq::empty()) {
                        vstd::utf8::encode_utf8(
                            json::json_text(self.rewritten_doc(json, Seq::empty())),
                        )
                    } else {
                        bytes
                    }),
                None => result == bytes,
            },
            None => result == bytes,
        }
    }

    fn rewrite_bytes(&self, bytes: Vec<u8>) -> (result: Vec<u8>)
        ensures
            self.rewrites(bytes@, result@),
    {
        if let Some(value) = text::from_utf8(&bytes) {
            if let Some(json) = json::parse(&value) {
                let ghost given = json;
                let mut json = json;
                assert(given.doc() == parsed_json(value@)->0);
                if self.rewrite(&mut json) {
                    return text::bytes(&json::write(json));
                }
            }
        }
        bytes
    }

    /// What is told of an answer to a request. An answer that is larger than any may be, with the URLs
    /// in it rewritten, is refused.
    pub fn answer(
        &self,
        exact: bool,
        status_code: u16,
        map: &header::Headers,
        bytes: Vec<u8>,
    ) -> (result: Result<Answer, String>)
        ensures
            match result {
                Ok(answer) => {
                    &&& answer.status_code == status_code
                    &&& answer.body_size_bytes <= self.response_limit_of()
                    &&& exact ==> exists|body: Seq<u8>| #[trigger]
                        self.rewrites(bytes@, body) && answer.body_base64@ == digest::base64_of(
                            body,
                        ) && answer.body_size_bytes == body.len()
                    &&& !exact ==> answer.body_base64@ == digest::base64_of(bytes@)
                        && answer.body_size_bytes == bytes@.len()
                    &&& lists_of(answer.headers@) == (if exact {
                        self.rewritten_headers(headers::wired(header_entries(*map)))
                    } else {
                        headers::wired(header_entries(*map))
                    })
                },
                Err(reason) => {
                    &&& reason@ == "response exceeds size limit"@
                    &&& exact ==> exists|body: Seq<u8>| #[trigger]
                        self.rewrites(bytes@, body) && body.len() > self.response_limit_of()
                    &&& !exact ==> bytes@.len() > self.response_limit_of()
                },
            },
    {
        let mut headers = headers::wire(map);
        let mut body = bytes;
        if exact {
            body = self.rewrite_bytes(body);
            headers = self.rewrite_headers(headers);
        }
        let body_size_bytes: usize = body.len();
        if body_size_bytes > self.response_limit() {
            return Err("response exceeds size limit".to_owned());
        }
        Ok(Answer { status_code, headers, body_base64: digest::base64(&body), body_size_bytes })
    }
}

/// The document of the headers of an answer.
pub open spec fn headers_doc(map: Map<Seq<char>, Seq<Seq<char>>>) -> Doc {
    Doc::Object(
        Map::new(|name: Seq<char>| map.dom().contains(name), |name: Seq<char>| json::texts(map[name])),
    )
}

fn headers_json(map: &Table<Vec<String>>) -> (result: Json)
    ensures
        result.doc() == headers_doc(lists_of(map@)),
{
    let count: usize = map.len();
    let ghost keys = map.keys();
    let ghost target = headers_doc(lists_of(map@))->Object_0;
    let mut result = Json::object();
    let mut index: usize = 0;
    while index < count
        invariant
            index <= count,
            count == keys.len(),
            keys == map.keys(),
            target == headers_doc(lists_of(map@))->Object_0,
            forall|i: int| 0 <= i < count ==> map@.dom().contains(#[trigger] keys[i]),
            result.doc() is Object,
            forall|name: Seq<char>| #[trigger]
                result.doc()->Object_0.dom().contains(name) ==> target.dom().contains(name)
                    && result.doc()->Object_0[name] == target[name],
            forall|i: int|
                0 <= i < index ==> result.doc()->Object_0.dom().contains(#[trigger] keys[i]),
        decreases count - index,
    {
        let name = map.key(index);
        let values = map.value(index);
        assert(lists_of(map@)[name@] == text::views(values@));
        result = result.with(name, Json::texts(values));
        index = index + 1;
    }
    proof {
        let left = result.doc()->Object_0;
        assert forall|name: Seq<char>| left.dom().contains(name) == target.dom().contains(name) by {
            if target.dom().contains(name) {
                assert(map@.dom().contains(name));
                assert(keys.contains(name));
                let i = choose|i: int| 0 <= i < keys.len() && keys[i] == name;
                assert(left.dom().contains(keys[i]));
            }
        }
        assert(left =~= target);
    }
    result
}

impl Answer {
    /// What is told of an answer, without what is empty.
    pub open spec fn short_doc(self) -> Doc {
        Doc::object().with("status_code"@, Doc::number(self.status_code as nat)).with_if(
            self.headers.keys().len() > 0,
            "headers"@,
            headers_doc(lists_of(self.headers@)),
        ).with_if(self.body_base64@.len() > 0, "body_base64"@, Doc::Text(self.body_base64@)).with(
            "body_size_bytes"@,
            Doc::number(self.body_size_bytes as nat),
        )
    }

    /// All that is told of an answer.
    pub open spec fn full_doc(self) -> Doc {
        Doc::object().with("status_code"@, Doc::number(self.status_code as nat)).with(
            "headers"@,
            headers_doc(lists_of(self.headers@)),
        ).with("body_base64"@, Doc::Text(self.body_base64@)).with(
            "body_size_bytes"@,
            Doc::number(self.body_size_bytes as nat),
        ).with("truncated"@, Doc::Bool(false))
    }

    /// What is told of an answer, without what is empty.
    pub fn short(&self) -> (result: Json)
        ensures
            result.doc() == self.short_doc(),
    {
        Json::object().with("status_code", Json::number(self.status_code as u64)).with_if(
            self.headers.len() > 0,
            "headers",
            headers_json(&self.headers),
        ).with_if(!self.body_base64.is_empty(), "body_base64", Json::text(&self.body_base64)).with(
            "body_size_bytes",
            Json::number(self.body_size_bytes as u64),
        )
    }

    /// All that is told of an answer.
    pub fn full(&self) -> (result: Json)
        ensures
            result.doc() == self.full_doc(),
    {
        Json::object().with("status_code", Json::number(self.status_code as u64)).with(
            "headers",
            headers_json(&self.headers),
        ).with("body_base64", Json::text(&self.body_base64)).with(
            "body_size_bytes",
            Json::number(self.body_size_bytes as u64),
        ).with("truncated", Json::Bool(false))
    }
}

impl Harpoon {
    /// Why a label has no audience, if so.
    pub open spec fn audience_fault(self, target: Target) -> Option<Seq<char>> {
        either(
            unless(
                target.info.category@ == "oauth"@ && target.tagged("auth-server-metadata"@)
                    && target.tagged("token-endpoint"@),
                "target is not an OAuth token endpoint"@,
            ),
            unless(
                target.url.username@.len() == 0 && target.url.password is None
                    && target.url.fragment is None,
                "target URL cannot be used as an OAuth audience"@,
            ),
        )
    }

    /// The audience of the target of a label.
    pub fn audience(&self, given: &str) -> (result: Result<Json, String>)
        requires
            self.wf(),
        ensures
            match result {
                Ok(doc) => exists|i: int|
                    0 <= i < self.targets@.len() && (#[trigger] self.targets@[i]).info.label@
                        == text::trim_of(given@) && text::trim_of(given@).len() > 0
                        && self.audience_fault(self.targets@[i]) is None && doc.doc()
                        == Doc::object().with(
                        "audience"@,
                        Doc::Text(self.targets@[i].original_url@),
                    ),
                Err(reason) => {
                    let label = text::trim_of(given@);
                    if label.len() == 0 {
                        reason@ == labelled(label, "label is required"@)
                    } else if !self.has_label(label) {
                        reason@ == labelled(label, "unknown target"@)
                    } else {
                        exists|i: int|
                            0 <= i < self.targets@.len() && (
                            #[trigger] self.targets@[i]).info.label@ == label
                                && self.audience_fault(self.targets@[i]) is Some && reason@
                                == labelled(label, self.audience_fault(self.targets@[i])->0)
                    }
                },
            },
    {
        let label = text::trim(given);
        if label.is_empty() {
            return Err(about(&label, "label is required"));
        }
        let at: usize = match self.find(&label) {
            Some(at) => at,
            None => {
                return Err(about(&label, "unknown target"));
            },
        };
        let target = &self.targets[at];
        assert(self.has_label(label@));
        if !text::same(&target.info.category, "oauth") || !text::contained(
            &target.info.tags,
            "auth-server-metadata",
        ) || !text::contained(&target.info.tags, "token-endpoint") {
            return Err(about(&label, "target is not an OAuth token endpoint"));
        }
        if !target.url.username.is_empty() || target.url.password.is_some()
            || target.url.fragment.is_some() {
            return Err(about(&label, "target URL cannot be used as an OAuth audience"));
        }
        Ok(Json::object().with("audience", Json::text(&target.original_url)))
    }
}

/// A request that follows a 301, 302 or 303 asks with GET and an empty body, unless it asked with GET or
/// HEAD before; one that follows a 307 or 308 asks as before.
pub proof fn lemma_redirect_method(
    before: Outgoing,
    next: Outgoing,
    harpoon: Harpoon,
    status: u16,
    location: Seq<u8>,
)
    requires
        before.leads_to(next, harpoon, status, location),
    ensures
        (status == 301 || status == 302 || status == 303) && before.method@ != "GET"@ && before.method@
            != "HEAD"@ ==> next.method@ == "GET"@ && next.body@.len() == 0,
        before.method@ == "GET"@ || before.method@ == "HEAD"@ ==> next.method@ == before.method@
            && next.body@ == before.body@,
        status == 307 || status == 308 ==> next.method@ == before.method@ && next.body@
            == before.body@,
{
}

/// A request that follows an answer carries no authorization to a host that is neither the first one nor
/// below it, and keeps it otherwise; of the other headers only the referer is changed.
pub proof fn lemma_redirect_headers(
    before: Outgoing,
    next: Outgoing,
    harpoon: Harpoon,
    status: u16,
    location: Seq<u8>,
    name: Seq<char>,
)
    requires
        before.leads_to(next, harpoon, status, location),
    ensures
        ({
            let host = match before.next_of(location)->Ok_0.host {
                Some(host) => host,
                None => Seq::empty(),
            };
            let own = before.initial_host@;
            let sent = header_entries(next.headers);
            let had = header_entries(before.headers);
            &&& host == own || ("."@ + own).is_suffix_of(host) ==> (sent.dom().contains(
                "authorization"@,
            ) <==> had.dom().contains("authorization"@))
            &&& host != own && !("."@ + own).is_suffix_of(host) ==> !sent.dom().contains(
                "authorization"@,
            )
            &&& name != "authorization"@ && name != "referer"@ ==> (sent.dom().contains(name)
                <==> had.dom().contains(name))
            &&& name != "referer"@ && sent.dom().contains(name) ==> sent[name] == had[name]
        }),
{
    reveal_strlit("authorization");
    reveal_strlit("referer");
    assert("authorization"@.len() != "referer"@.len());
}

/// A request tells from where it comes, without a user and a password, but not where it leaves HTTPS.
pub proof fn lemma_redirect_referer(
    before: Outgoing,
    next: Outgoing,
    harpoon: Harpoon,
    status: u16,
    location: Seq<u8>,
)
    requires
        before.leads_to(next, harpoon, status, location),
        before.redirect_fault(harpoon, location) is None,
    ensures
        ({
            let scheme = before.next_of(location)->Ok_0.scheme;
            let sent = header_entries(next.headers);
            if before.url.scheme@ == "https"@ && scheme == "http"@ {
                !header_entries(before.headers).dom().contains("referer"@) ==> !sent.dom().contains(
                    "referer"@,
                )
            } else {
                &&& url_anonymous(before.url.text@) is Some
                &&& sent.dom().contains("referer"@)
                &&& sent["referer"@] == seq![
                    vstd::utf8::encode_utf8(url_anonymous(before.url.text@)->0),
                ]
            }
        }),
{
}

/// Redirects are followed one by one up to their number, and what a call allows stays as it was.
pub proof fn lemma_redirect_bounds(
    before: Outgoing,
    next: Outgoing,
    harpoon: Harpoon,
    status: u16,
    location: Seq<u8>,
)
    requires
        before.leads_to(next, harpoon, status, location),
        before.redirect_fault(harpoon, location) is None,
    ensures
        before.hop < before.redirects,
        next.hop == before.hop + 1,
        next.hop <= next.redirects,
        next.redirects == before.redirects,
        next.limit == before.limit,
        next.follow == before.follow,
        next.initial_host@ == before.initial_host@,
        next.exact == before.exact,
{
}

/// An answer leads elsewhere exactly with 301, 302, 303, 307 and 308.
pub proof fn lemma_redirect_statuses(status: u16)
    ensures
        is_redirect(301),
        is_redirect(302),
        is_redirect(303),
        is_redirect(307),
        is_redirect(308),
        is_redirect(status) ==> 301 <= status <= 303 || 307 <= status <= 308,
{
}

/// A call starts as it was given: with its method in capitals, its body, the target of its label, no redirect
/// yet, and its own limits where it gives some.
pub proof fn lemma_call_starts(outgoing: Outgoing, harpoon: Harpoon, call: Call, parameters: Option<Table<String>>)
    requires
        outgoing.starts(harpoon, call, parameters),
    ensures
        outgoing.target < harpoon.targets@.len(),
        harpoon.targets@[outgoing.target as int].info.label@ == text::trim_of(call.label@),
        outgoing.method@ == text::uppercase_of(text::trim_of(call.method@)),
        outgoing.body@ == vstd::utf8::encode_utf8(call.body@),
        outgoing.hop == 0,
        outgoing.follow <==> call.follow_redirects != Some(false),
        call.follow_redirects == Some(false) ==> outgoing.redirects == 0,
        call.follow_redirects != Some(false) ==> match call.max_redirects {
            Some(value) => outgoing.redirects == value && value <= harpoon.config.max_redirects,
            None => outgoing.redirects == harpoon.config.max_redirects,
        },
        match call.max_response_bytes {
            Some(value) => outgoing.limit == value && 0 < value <= harpoon.response_limit_of(),
            None => outgoing.limit == harpoon.response_limit_of(),
        },
        harpoon.targets@[outgoing.target as int].template is None ==> outgoing.url.parts()
            == harpoon.targets@[outgoing.target as int].url.parts(),
        outgoing.exact <==> harpoon.targets@[outgoing.target as int].template is None,
        outgoing.url.host matches Some(host) ==> outgoing.initial_host@ == host@,
        header_entries(outgoing.headers).dom().contains("user-agent"@),
        header_entries(outgoing.headers)["user-agent"@] == seq![
            vstd::utf8::encode_utf8("otunnel/0.1.0"@),
        ],
{
}

/// A call needs a label of a target and one of the methods GET, POST and PUT, in any case, and a body within the
/// limit of the answer.
pub proof fn lemma_call_accepted(harpoon: Harpoon, call: Call)
    ensures
        harpoon.front_fault(call) is None ==> harpoon.has_label(text::trim_of(call.label@))
            && text::trim_of(call.label@).len() > 0 && ({
            let method = text::uppercase_of(text::trim_of(call.method@));
            method == "GET"@ || method == "POST"@ || method == "PUT"@
        }),
        harpoon.back_fault(call) is None ==> (call.max_response_bytes matches Some(limit)
            ==> text::byte_len(call.body@) <= limit),
        harpoon.back_fault(call) is None ==> text::byte_len(call.body@) <= harpoon.response_limit_of(),
        harpoon.back_fault(call) is None && call.follow_redirects != Some(false) ==> (
        call.max_redirects matches Some(count) ==> 0 <= count <= harpoon.config.max_redirects),
        text::trim_of(call.label@).len() == 0 ==> harpoon.front_fault(call) == Some(
            "label is required"@,
        ),
        text::trim_of(call.label@).len() > 0 && !harpoon.has_label(text::trim_of(call.label@))
            ==> harpoon.front_fault(call) == Some("unknown target"@),
{
}

/// A call waits half a minute where it says nothing, and else between a tenth of a second and two minutes.
pub proof fn lemma_call_waits(given: Option<i64>)
    ensures
        given is None ==> timeout_of(given) == Ok::<u64, Seq<char>>(30000),
        given matches Some(value) ==> (timeout_of(given) is Ok <==> 100 <= value <= 120000),
        given matches Some(value) ==> (100 <= value <= 120000 ==> timeout_of(given)->Ok_0 == value),
{
}

/// The headers of a caller arrive with the value that each has, and no name comes twice.
pub proof fn lemma_callers_kept(keys: Seq<Seq<char>>, values: Seq<String>, count: int, at: int)
    requires
        caller_of(keys, values, count) is Ok,
        0 <= at < count,
    ensures
        caller_of(keys, values, count)->Ok_0.dom().contains(text::lowercase_of(keys[at])),
        caller_of(keys, values, count)->Ok_0[text::lowercase_of(keys[at])] == seq![
            vstd::utf8::encode_utf8(values[at]@),
        ],
        header::is_name(keys[at]),
        header::is_value(vstd::utf8::encode_utf8(values[at]@)),
    decreases count,
{
    if at < count - 1 {
        lemma_callers_kept(keys, values, count - 1, at);
        assert(caller_of(keys, values, count - 1)->Ok_0.dom().contains(text::lowercase_of(keys[at])));
        assert(text::lowercase_of(keys[count - 1]) != text::lowercase_of(keys[at]));
    }
}

/// What is told of an answer is its status, its headers, its body and the size of that, without truncation.
pub proof fn lemma_answer_told(answer: Answer)
    ensures
        answer.full_doc().at("status_code"@) == Doc::number(answer.status_code as nat),
        answer.full_doc().at("body_base64"@) == Doc::Text(answer.body_base64@),
        answer.full_doc().at("body_size_bytes"@) == Doc::number(answer.body_size_bytes as nat),
        answer.full_doc().at("truncated"@) == Doc::Bool(false),
        answer.full_doc().at("headers"@) == headers_doc(lists_of(answer.headers@)),
        answer.short_doc().at("status_code"@) == Doc::number(answer.status_code as nat),
        answer.short_doc().at("body_size_bytes"@) == Doc::number(answer.body_size_bytes as nat),
        answer.body_base64@.len() > 0 ==> answer.short_doc().at("body_base64"@) == Doc::Text(
            answer.body_base64@,
        ),
        answer.headers.keys().len() > 0 ==> answer.short_doc().at("headers"@) == headers_doc(
            lists_of(answer.headers@),
        ),
{
    reveal_strlit("status_code");
    reveal_strlit("headers");
    reveal_strlit("body_base64");
    reveal_strlit("body_size_bytes");
    reveal_strlit("truncated");
    assert("status_code"@.len() == 11 && "status_code"@[0] == 's');
    assert("headers"@.len() == 7);
    assert("body_base64"@.len() == 11 && "body_base64"@[0] == 'b');
    assert("body_size_bytes"@.len() == 15);
    assert("truncated"@.len() == 9);
}

/// The audience of a token endpoint is told for such an endpoint only, and only where its address can be one.
pub proof fn lemma_audience_told(harpoon: Harpoon, target: Target)
    ensures
        harpoon.audience_fault(target) is None ==> target.info.category@ == "oauth"@ && target.tagged(
            "auth-server-metadata"@,
        ) && target.tagged("token-endpoint"@) && target.url.username@.len() == 0 && target.url.password is None
            && target.url.fragment is None,
        target.info.category@ == "oauth"@ && target.tagged("auth-server-metadata"@) && target.tagged(
            "token-endpoint"@,
        ) && target.url.username@.len() == 0 && target.url.password is None && target.url.fragment is None
            ==> harpoon.audience_fault(target) is None,
{
}

/// A target with a template is called with parameters, one without them not.
pub proof fn lemma_call_kinds(target: Target, call: Call, values: Table<String>, reason: Seq<char>)
    ensures
        target.template is Some && target.refuses(call, None, reason) ==> reason
            == "template target requires call_target_template"@,
        target.template is None && target.refuses(call, Some(values), reason) ==> reason
            == "unknown template target"@,
        target.template is Some ==> !target.accepts(call, None),
        target.template is None ==> !target.accepts(call, Some(values)),
        labelled(reason, reason) == "label "@ + (if reason.len() == 0 {
            "unknown"@
        } else {
            reason
        }) + (": "@ + reason),
{
}

/// An answer is rewritten only where it is a document that names what has another name here.
pub proof fn lemma_answer_rewritten(harpoon: Harpoon, bytes: Seq<u8>, result: Seq<u8>)
    requires
        harpoon.rewrites(bytes, result),
    ensures
        text::utf8_text(bytes) is None ==> result == bytes,
        text::utf8_text(bytes) matches Some(value) ==> (parsed_json(value) is None ==> result == bytes),
{
}

/// Which reason a call is refused for.
pub proof fn lemma_call_reasons(harpoon: Harpoon, call: Call, given: i64, limit: usize)
    ensures
        text::trim_of(call.label@).len() == 0 ==> harpoon.front_fault(call) == Some("label is required"@),
        text::trim_of(call.label@).len() > 0 && !harpoon.has_label(text::trim_of(call.label@))
            ==> harpoon.front_fault(call) == Some("unknown target"@),
        given <= 0 ==> timeout_of(Some(given)) == Err::<u64, Seq<char>>("timeout must be positive"@),
        0 < given < 100 ==> timeout_of(Some(given)) == Err::<u64, Seq<char>>("timeout must be at least 100ms"@),
        given > 120000 ==> timeout_of(Some(given)) == Err::<u64, Seq<char>>(
            "timeout must be at most 120000ms"@,
        ),
        100 <= given <= 120000 ==> timeout_of(Some(given)) == Ok::<u64, Seq<char>>(given as u64),
        timeout_of(None) == Ok::<u64, Seq<char>>(30000),
        given <= 0 ==> answer_limit_of(Some(given), limit) == Err::<usize, Seq<char>>(
            "max_response_bytes must be positive"@,
        ),
        given > limit && given > 0 ==> answer_limit_of(Some(given), limit) == Err::<usize, Seq<char>>(
            "max_response_bytes must be less than or equal to "@ + text::decimal_of(limit as nat),
        ),
        0 < given <= limit ==> answer_limit_of(Some(given), limit) == Ok::<usize, Seq<char>>(given as usize),
        answer_limit_of(None, limit) == Ok::<usize, Seq<char>>(limit),
        given < 0 ==> redirects_of(true, Some(given), limit) == Err::<usize, Seq<char>>(
            "max_redirects must be non-negative"@,
        ),
        0 <= given <= limit ==> redirects_of(true, Some(given), limit) == Ok::<usize, Seq<char>>(given as usize),
        given > limit && given >= 0 ==> redirects_of(true, Some(given), limit) == Err::<usize, Seq<char>>(
            "max_redirects must be less than or equal to "@ + text::decimal_of(limit as nat),
        ),
        redirects_of(true, None, limit) == Ok::<usize, Seq<char>>(limit),
        redirects_of(false, Some(given), limit) == Ok::<usize, Seq<char>>(0),
{
}

/// Which reason a redirect is refused for.
pub proof fn lemma_redirect_reasons(outgoing: Outgoing, harpoon: Harpoon, location: Seq<u8>, key: Seq<char>)
    ensures
        outgoing.hop >= outgoing.redirects ==> outgoing.redirect_fault(harpoon, location) == Some(
            "redirect limit exceeded"@,
        ),
        outgoing.hop < outgoing.redirects && header::ascii_text(location) is None ==> outgoing.redirect_fault(
            harpoon,
            location,
        ) == Some("redirect blocked: failed to convert header to a str"@),
        outgoing.hop < outgoing.redirects ==> (outgoing.next_of(location) matches Ok(next) ==> (outgoing.referer()
            is Some && key_of(next.text) == Ok::<Seq<char>, Seq<char>>(key) && !(exists|i: int|
            0 <= i < harpoon.targets@.len() && #[trigger] harpoon.reaches(key, i)) ==> outgoing.redirect_fault(
            harpoon,
            location,
        ) == Some("redirect blocked"@))),
{
}

} // verus!
