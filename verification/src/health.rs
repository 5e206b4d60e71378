//! Asking a runtime for its health, and what it answers.

use vstd::prelude::*;
use crate::address::{self, joined_url, parsed_url};
use crate::{digest, header, text};

pub mod exposition;
pub mod moment;
pub mod report;
pub mod snapshot;

verus! {

/// The address of a runtime, without the route of a check.
pub open spec fn normalized(raw: Seq<char>) -> Seq<char> {
    let value = text::trim_of(raw);
    let first = match text::before_suffix(value, "/healthz"@) {
        Some(front) => front,
        None => value,
    };
    let second = match text::before_suffix(first, "/readyz"@) {
        Some(front) => front,
        None => first,
    };
    text::trim_end_char_of(second, '/')
}

/// Where a runtime is asked for its health.
pub struct Target {
    pub base: String,
    pub url: String,
    pub socket: Option<String>,
    pub follow_redirects: bool,
}

/// The prefix of the address of a socket.
pub const SOCKET: &'static str = "http+unix://";

/// The socket that an address stands for, or why there is none.
pub open spec fn socket_of(encoded: Seq<char>) -> Result<Seq<char>, Seq<char>> {
    match digest::url_base64_bytes(encoded) {
        Some(bytes) => match text::utf8_text(bytes) {
            Some(path) => if path.len() == 0 {
                Err("health unix socket path is empty"@)
            } else {
                Ok(path)
            },
            None => Err("invalid health unix socket path"@),
        },
        None => Err("invalid health unix socket path"@),
    }
}

fn socket(encoded: &str) -> (result: Result<String, String>)
    ensures
        crate::config::reference::gives(result, socket_of(encoded@)),
{
    if let Some(bytes) = digest::from_url_base64(encoded) {
        if let Some(path) = text::from_utf8(&bytes) {
            if path.is_empty() {
                return Err("health unix socket path is empty".to_owned());
            }
            return Ok(path);
        }
    }
    Err("invalid health unix socket path".to_owned())
}

/// The URL and the socket at which a runtime is asked, or why it cannot be.
pub open spec fn target_of(base: Seq<char>) -> Result<(Seq<char>, Option<Seq<char>>), Seq<char>> {
    if base.len() == 0 {
        Err("health URL is empty"@)
    } else {
        let place = match text::after_prefix(base, SOCKET@) {
            Some(encoded) => match socket_of(encoded) {
                Ok(path) => Ok(("http://localhost"@, Some(path))),
                Err(reason) => Err(reason),
            },
            None => Ok((base, None)),
        };
        match place {
            Err(reason) => Err(reason),
            Ok((url, socket)) => match parsed_url(url) {
                Ok(_) => Ok((url, socket)),
                Err(reason) => Err(reason),
            },
        }
    }
}

/// The largest number of redirects that a check follows.
pub const MAX_HOPS: u32 = 10;

impl Target {
    /// The address of a runtime, without the route of a check.
    pub fn normalize(raw: &str) -> (result: String)
        ensures
            result@ == normalized(raw@),
    {
        let value = text::trim(raw);
        let first = match text::strip_suffix(&value, "/healthz") {
            Some(front) => front,
            None => value,
        };
        let second = match text::strip_suffix(&first, "/readyz") {
            Some(front) => front,
            None => first,
        };
        text::trim_end_char(&second, '/')
    }

    /// Where a runtime is asked for its health.
    pub fn new(raw: &str) -> (result: Result<Target, String>)
        ensures
            match (result, target_of(normalized(raw@))) {
                (Ok(target), Ok((url, socket))) => target.base@ == normalized(raw@) && target.url@
                    == url && text::view_of(target.socket) == socket && target.follow_redirects,
                (Err(reason), Err(expected)) => reason@ == expected,
                _ => false,
            },
    {
        let base = Self::normalize(raw);
        if base.is_empty() {
            return Err("health URL is empty".to_owned());
        }
        let (url, socket) = match text::strip_prefix(&base, SOCKET) {
            Some(encoded) => match socket(&encoded) {
                Ok(path) => ("http://localhost".to_owned(), Some(path)),
                Err(reason) => {
                    return Err(reason);
                },
            },
            None => (base.clone(), None),
        };
        match address::parse(&url) {
            Ok(_) => Ok(Target { base, url, socket, follow_redirects: true }),
            Err(reason) => Err(reason),
        }
    }

    /// Follows redirects or not.
    pub fn follow_redirects(self, enabled: bool) -> (result: Target)
        ensures
            result == (Target { follow_redirects: enabled, ..self }),
    {
        Target { follow_redirects: enabled, ..self }
    }

    /// The URL of a route.
    pub fn route(&self, path: &str) -> (result: Result<String, String>)
        ensures
            match (result, parsed_url(self.url@ + path@)) {
                (Ok(url), Ok(parts)) => url@ == parts.text,
                (Err(reason), Err(expected)) => reason@ == expected,
                _ => false,
            },
    {
        match address::parse(&text::cat(&self.url, path)) {
            Ok(address) => Ok(address.text),
            Err(reason) => Err(reason),
        }
    }

    /// Where an answer leads, if elsewhere.
    pub open spec fn next_of(
        self,
        url: Seq<char>,
        hop: u32,
        status: u16,
        location: Option<Seq<u8>>,
    ) -> Result<Option<Seq<char>>, Seq<char>> {
        match location {
            Some(bytes) if self.follow_redirects && 300 <= status < 400 => if hop >= MAX_HOPS {
                Err("health request exceeded 10 redirects"@)
            } else {
                match header::ascii_text(bytes) {
                    None => Err("failed to convert header to a str"@),
                    Some(reference) => match joined_url(url, reference) {
                        Ok(next) => Ok(Some(next)),
                        Err(reason) => Err(reason),
                    },
                }
            },
            _ => Ok(None),
        }
    }

    /// Where an answer leads, if elsewhere.
    pub fn next(&self, url: &str, hop: u32, status: u16, location: Option<&Vec<u8>>) -> (result:
        Result<Option<String>, String>)
        ensures
            match (
                result,
                self.next_of(
                    url@,
                    hop,
                    status,
                    match location {
                        Some(bytes) => Some(bytes@),
                        None => None,
                    },
                ),
            ) {
                (Ok(next), Ok(expected)) => text::view_of(next) == expected,
                (Err(reason), Err(expected)) => reason@ == expected,
                _ => false,
            },
    {
        let bytes = match location {
            Some(bytes) => bytes,
            None => {
                return Ok(None);
            },
        };
        if !self.follow_redirects || status < 300 || status >= 400 {
            return Ok(None);
        }
        if hop >= MAX_HOPS {
            return Err("health request exceeded 10 redirects".to_owned());
        }
        match header::ascii(bytes) {
            None => Err("failed to convert header to a str".to_owned()),
            Some(reference) => match address::join(url, &reference) {
                Ok(next) => Ok(Some(next)),
                Err(reason) => Err(reason),
            },
        }
    }
}

/// How much of a further part of an answer is read.
pub open spec fn part_of(limit: Option<usize>, size: usize, part: usize) -> int {
    match limit {
        None => part as int,
        Some(limit) => if size >= limit {
            0
        } else if part <= limit - size {
            part as int
        } else {
            limit - size
        },
    }
}

/// How much of a further part of an answer is read.
pub fn read_part(limit: Option<usize>, size: usize, part: usize) -> (result: usize)
    ensures
        result == part_of(limit, size, part),
{
    match limit {
        None => part,
        Some(limit) => if size >= limit {
            0
        } else if part <= limit - size {
            part
        } else {
            limit - size
        },
    }
}

/// No more than the limit of an answer is read.
pub proof fn lemma_part_bounded(limit: usize, size: usize, part: usize)
    requires
        size <= limit,
    ensures
        0 <= part_of(Some(limit), size, part) <= part,
        size + part_of(Some(limit), size, part) <= limit,
{
}

/// A value in the text of metrics.
pub open spec fn gauge_of(name: Seq<char>, kind: Seq<char>, scope: Seq<char>, value: nat) -> Seq<char> {
    "# TYPE "@ + name + " "@ + kind + "\n"@ + (name + "{otel_scope_name="@ + text::debug_text(scope)
        + ",otel_scope_schema_url=\"\",otel_scope_version=\"\"} "@ + text::decimal_of(value)
        + "\n"@)
}

/// A value in the text of metrics.
pub fn gauge(name: &str, kind: &str, scope: &str, value: u64) -> (result: String)
    ensures
        result@ == gauge_of(name@, kind@, scope@, value as nat),
{
    let front = text::cat5("# TYPE ", name, " ", kind, "\n");
    let back = text::cat5(
        name,
        "{otel_scope_name=",
        &text::quoted(scope),
        ",otel_scope_schema_url=\"\",otel_scope_version=\"\"} ",
        &text::decimal(value),
    );
    text::cat(&front, &text::cat(&back, "\n"))
}

/// The count of a kind of error in the text of metrics.
pub open spec fn error_of(kind: Seq<char>, count: nat) -> Seq<char> {
    "commands_poll_errors_total{error_kind="@ + text::debug_text(kind)
        + ",otel_scope_name=\"controlplane\",otel_scope_schema_url=\"\",otel_scope_version=\"\"} "@
        + text::decimal_of(count) + "\n"@
}

/// The counts of kinds of errors in the text of metrics, where there are any.
pub open spec fn errors_of(kinds: Seq<(Seq<char>, u64)>, count: int) -> Seq<char>
    decreases count,
{
    if count <= 0 {
        "# TYPE commands_poll_errors_total counter\n"@
    } else {
        errors_of(kinds, count - 1) + error_of(kinds[count - 1].0, kinds[count - 1].1 as nat)
    }
}

/// The contents of a list of counts.
pub open spec fn count_views(items: Seq<(String, u64)>) -> Seq<(Seq<char>, u64)> {
    items.map_values(|item: (String, u64)| (item.0@, item.1))
}

/// The counts of kinds of errors in the text of metrics, where there are any.
pub fn errors(kinds: &Vec<(String, u64)>) -> (result: String)
    ensures
        result@ == (if kinds@.len() == 0 {
            Seq::empty()
        } else {
            errors_of(count_views(kinds@), kinds@.len() as int)
        }),
{
    if kinds.len() == 0 {
        let empty = String::new();
        assert(empty@ =~= Seq::<char>::empty());
        return empty;
    }
    let ghost all = count_views(kinds@);
    let mut result = "# TYPE commands_poll_errors_total counter\n".to_owned();
    let mut index: usize = 0;
    while index < kinds.len()
        invariant
            index <= kinds.len(),
            all == count_views(kinds@),
            result@ == errors_of(all, index as int),
        decreases kinds.len() - index,
    {
        assert(all[index as int] == (kinds@[index as int].0@, kinds@[index as int].1));
        let line = text::cat5(
            "commands_poll_errors_total{error_kind=",
            &text::quoted(&kinds[index].0),
            ",otel_scope_name=\"controlplane\",otel_scope_schema_url=\"\",otel_scope_version=\"\"} ",
            &text::decimal(kinds[index].1),
            "\n",
        );
        result = text::cat(&result, &line);
        index = index + 1;
    }
    result
}

/// The URL of a runtime loses the path of a check and the slashes at its end, and the white space around it.
pub proof fn lemma_health_url(base: Seq<char>)
    requires
        base.len() > 0,
        base.last() != '/',
        !"/healthz"@.is_suffix_of(base),
        !"/readyz"@.is_suffix_of(base),
    ensures
        text::trim_of(base) == base ==> normalized(base) == base,
        text::trim_of(base + "/healthz"@) == base + "/healthz"@ ==> normalized(base + "/healthz"@) == base,
        text::trim_of(base + "/readyz"@) == base + "/readyz"@ ==> normalized(base + "/readyz"@) == base,
{
    reveal_strlit("/healthz");
    reveal_strlit("/readyz");
    assert(text::trim_end_char_of(base, '/') == base);
    let alive = base + "/healthz"@;
    let count = "/healthz"@.len() as int;
    assert(alive.subrange(alive.len() - count, alive.len() as int) =~= "/healthz"@);
    assert(alive.subrange(0, alive.len() - count) =~= base);
    let ready = base + "/readyz"@;
    let other = "/readyz"@.len() as int;
    assert(ready.subrange(ready.len() - other, ready.len() as int) =~= "/readyz"@);
    assert(ready.subrange(0, ready.len() - other) =~= base);
    assert(!"/healthz"@.is_suffix_of(ready)) by {
        if "/healthz"@.is_suffix_of(ready) {
            let tail = ready.subrange(ready.len() - 8, ready.len() as int);
            assert(tail == "/healthz"@);
            assert(tail[7] == 'z' && tail[6] == "/readyz"@[5]);
            assert("/healthz"@[6] == 'h' && "/readyz"@[5] == 'y');
        }
    }
}

/// A check of health follows redirects only where it may, up to ten, and only to where the answer leads.
pub proof fn lemma_health_redirects(target: Target, url: Seq<char>, hop: u32, status: u16, location: Option<Seq<u8>>)
    ensures
        !target.follow_redirects ==> target.next_of(url, hop, status, location) == Ok::<
            Option<Seq<char>>,
            Seq<char>,
        >(None),
        location is None ==> target.next_of(url, hop, status, location) == Ok::<Option<Seq<char>>, Seq<char>>(
            None,
        ),
        status < 300 || status > 399 ==> target.next_of(url, hop, status, location) == Ok::<
            Option<Seq<char>>,
            Seq<char>,
        >(None),
        target.follow_redirects && location is Some && 300 <= status <= 399 && hop >= 10 ==> target.next_of(
            url,
            hop,
            status,
            location,
        ) is Err,
        target.next_of(url, hop, status, location) matches Ok(Some(next)) ==> hop < 10 && location is Some
            && header::ascii_text(location->0) is Some && joined_url(
            url,
            header::ascii_text(location->0)->0,
        ) == Ok::<Seq<char>, Seq<char>>(next),
        target.follow_redirects && 300 <= status <= 399 && hop < 10 && location is Some && header::ascii_text(
            location->0,
        ) is Some && joined_url(url, header::ascii_text(location->0)->0) is Ok ==> (target.next_of(
            url,
            hop,
            status,
            location,
        ) matches Ok(Some(next)) && joined_url(url, header::ascii_text(location->0)->0)->Ok_0 == next),
{
}

/// A runtime is reached at its URL, or over the socket that its URL encodes.
pub proof fn lemma_health_target(base: Seq<char>, encoded: Seq<char>, path: Seq<char>)
    ensures
        base.len() == 0 ==> target_of(base) is Err,
        base.len() > 0 && !"http+unix://"@.is_prefix_of(base) && target_of(base) is Ok ==> target_of(base)
            == Ok::<(Seq<char>, Option<Seq<char>>), Seq<char>>((base, None)),
        target_of("http+unix://"@ + encoded) matches Ok((url, socket)) ==> url == "http://localhost"@
            && socket is Some && socket_of(encoded) == Ok::<Seq<char>, Seq<char>>(socket->0),
        socket_of(encoded) == Ok::<Seq<char>, Seq<char>>(path) ==> path.len() > 0,
{
    let whole = "http+unix://"@ + encoded;
    let count = "http+unix://"@.len() as int;
    assert(whole.subrange(0, count) =~= "http+unix://"@);
    assert(whole.subrange(count, whole.len() as int) =~= encoded);
}

/// How a value and a count of failures are written.
pub proof fn lemma_values_written(name: Seq<char>, kind: Seq<char>, scope: Seq<char>, value: nat, kinds: Seq<(Seq<char>, u64)>, count: int)
    ensures
        gauge_of(name, kind, scope, value) == "# TYPE "@ + name + " "@ + kind + "\n"@ + (name
            + "{otel_scope_name="@ + text::debug_text(scope)
            + ",otel_scope_schema_url=\"\",otel_scope_version=\"\"} "@ + text::decimal_of(value) + "\n"@),
        error_of(kind, value) == "commands_poll_errors_total{error_kind="@ + text::debug_text(kind)
            + ",otel_scope_name=\"controlplane\",otel_scope_schema_url=\"\",otel_scope_version=\"\"} "@
            + text::decimal_of(value) + "\n"@,
        errors_of(kinds, 0) == "# TYPE commands_poll_errors_total counter\n"@,
        0 < count <= kinds.len() ==> errors_of(kinds, count) == errors_of(kinds, count - 1) + error_of(
            kinds[count - 1].0,
            kinds[count - 1].1 as nat,
        ),
{
}

} // verus!
