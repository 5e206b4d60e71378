//! The companion process of a tunnel.

use vstd::prelude::*;
use crate::config::reference::{self, resolved_of, Sources};
use crate::control::delivery::{connector, is_connector};
use crate::json::{self, doc_of, parsed_json, Doc, Json};
use crate::text;

verus! {

/// The token of the companion, or why there is none: the given one, or the one that the service gave.
pub open spec fn token_of(
    given: Option<Seq<char>>,
    managed: bool,
    answer: Option<Doc>,
    sources: Sources,
) -> Result<Seq<char>, Seq<char>> {
    let found = match given {
        Some(reference) => resolved_of("configuration value"@, reference, sources),
        None => if managed {
            match answer {
                Some(doc) => match doc.at("runtime_token"@).text() {
                    Some(token) => Ok(token),
                    None => Err("Cloudflare runtime response has no token"@),
                },
                None => Err("Cloudflare runtime response has no token"@),
            }
        } else {
            Err("Cloudflare token is missing"@)
        },
    };
    match found {
        Ok(token) => if token.len() == 0 {
            Err("Cloudflare token is empty"@)
        } else {
            Ok(token)
        },
        Err(reason) => Err(reason),
    }
}

/// The token of the companion, or why there is none.
pub fn token(given: &Option<String>, managed: bool, answer: &Option<Json>, sources: &Sources) -> (result:
    Result<String, String>)
    ensures
        reference::gives(
            result,
            token_of(text::view_of(*given), managed, doc_of(*answer), *sources),
        ),
{
    let found = match given {
        Some(value) => reference::resolve(value, sources),
        None => if managed {
            match answer {
                Some(answer) => match answer.get_text("runtime_token") {
                    Some(token) => Ok(token),
                    None => Err("Cloudflare runtime response has no token".to_owned()),
                },
                None => Err("Cloudflare runtime response has no token".to_owned()),
            }
        } else {
            Err("Cloudflare token is missing".to_owned())
        },
    };
    match found {
        Ok(token) => if token.is_empty() {
            Err("Cloudflare token is empty".to_owned())
        } else {
            Ok(token)
        },
        Err(reason) => Err(reason),
    }
}

/// What the service tells of a companion, or why that is nothing.
pub open spec fn payload_of(body: Seq<u8>) -> Result<Doc, Seq<char>> {
    let doc = match text::utf8_text(body) {
        Some(value) => parsed_json(value),
        None => None,
    };
    match doc {
        None => Err("decode managed Cloudflare runtime response"@),
        Some(doc) => if is_connector(doc) {
            Ok(doc)
        } else {
            Err("invalid managed Cloudflare runtime response"@)
        },
    }
}

/// What the service tells of a companion, or why that is nothing.
pub fn payload(body: &Vec<u8>) -> (result: Result<Json, String>)
    ensures
        match (result, payload_of(body@)) {
            (Ok(value), Ok(doc)) => value.doc() == doc,
            (Err(reason), Err(expected)) => reason@ == expected,
            _ => false,
        },
{
    let value = match text::from_utf8(body) {
        Some(value) => json::parse(&value),
        None => None,
    };
    let value = match value {
        Some(value) => value,
        None => {
            return Err("decode managed Cloudflare runtime response".to_owned());
        },
    };
    if connector(&value) {
        Ok(value)
    } else {
        Err("invalid managed Cloudflare runtime response".to_owned())
    }
}

/// Whether a variable of the environment is kept from the companion: those with its settings, and those
/// with its token.
pub fn hidden(name: &str, value: &str, token: &str) -> (result: bool)
    ensures
        result == (text::same_folded(name@, "TUNNEL_TOKEN"@) || text::same_folded(
            name@,
            "TUNNEL_MANAGEMENT_DIAGNOSTICS"@,
        ) || value@ == token@),
{
    text::same_ignoring_case(name, "TUNNEL_TOKEN") || text::same_ignoring_case(
        name,
        "TUNNEL_MANAGEMENT_DIAGNOSTICS",
    ) || text::same(value, token)
}

/// The words with which the companion is started.
pub open spec fn words() -> Seq<Seq<char>> {
    seq![
        "tunnel"@,
        "--no-autoupdate"@,
        "--metrics"@,
        "127.0.0.1:0"@,
        "--output"@,
        "json"@,
        "run"@,
    ]
}

/// The words with which the companion is started.
pub fn arguments() -> (result: Vec<String>)
    ensures
        text::views(result@) == words(),
{
    let mut result: Vec<String> = Vec::new();
    result.push("tunnel".to_owned());
    result.push("--no-autoupdate".to_owned());
    result.push("--metrics".to_owned());
    result.push("127.0.0.1:0".to_owned());
    result.push("--output".to_owned());
    result.push("json".to_owned());
    result.push("run".to_owned());
    assert(text::views(result@) =~= words());
    result
}

/// A text with each occurrence of a part replaced, from left to right.
pub open spec fn replaced_of(value: Seq<char>, part: Seq<char>, with: Seq<char>) -> Seq<char>
    decreases value.len(),
{
    if part.len() == 0 {
        value
    } else {
        match text::split_at_of(value, part) {
            Some((front, back)) => if back.len() < value.len() {
                front + with + replaced_of(back, part, with)
            } else {
                value
            },
            None => value,
        }
    }
}

fn replace(value: &str, part: &str, with: &str) -> (result: String)
    requires
        part@.len() > 0,
    ensures
        result@ == replaced_of(value@, part@, with@),
    decreases value@.len(),
{
    match text::split_at(value, part) {
        Some((front, back)) => {
            proof {
                text::lemma_split_shorter(value@, part@);
            }
            text::cat3(&front, with, &replace(&back, part, with))
        },
        None => value.to_owned(),
    }
}

/// How a line of the companion is told on.
#[derive(Clone, Copy, PartialEq, Eq, Structural)]
pub enum Level {
    Error,
    Warn,
    Debug,
    Info,
}

/// A line of the companion.
pub struct Line {
    pub message: String,
    pub level: Level,
    /// The address at which the companion tells whether it is ready.
    pub ready_url: Option<String>,
}

/// The level of a line.
pub open spec fn level_of(level: Option<Seq<char>>) -> Level {
    match level {
        Some(word) => if word == "error"@ || word == "fatal"@ || word == "panic"@ {
            Level::Error
        } else if word == "warn"@ {
            Level::Warn
        } else if word == "debug"@ || word == "trace"@ {
            Level::Debug
        } else {
            Level::Info
        },
        None => Level::Info,
    }
}

/// The text of an entry of a line.
pub open spec fn entry_of(line: Seq<char>, key: Seq<char>) -> Option<Seq<char>> {
    match parsed_json(line) {
        Some(doc) => doc.at(key).text(),
        None => None,
    }
}

/// The message of a line without its secret.
pub open spec fn message_of(line: Seq<char>) -> Seq<char> {
    match entry_of(line, "message"@) {
        Some(message) => message,
        None => line,
    }
}

/// The address at which the companion tells whether it is ready, where a message names it.
pub open spec fn ready_of(message: Seq<char>) -> Option<Seq<char>> {
    match text::after_prefix(message, "Starting metrics server on "@) {
        Some(rest) => match text::before_suffix(rest, "/metrics"@) {
            Some(address) => Some("http://"@ + address + "/ready"@),
            None => None,
        },
        None => None,
    }
}

fn read_level(word: &Option<String>) -> (result: Level)
    ensures
        result == level_of(text::view_of(*word)),
{
    match word {
        Some(word) => if text::same(word, "error") || text::same(word, "fatal") || text::same(
            word,
            "panic",
        ) {
            Level::Error
        } else if text::same(word, "warn") {
            Level::Warn
        } else if text::same(word, "debug") || text::same(word, "trace") {
            Level::Debug
        } else {
            Level::Info
        },
        None => Level::Info,
    }
}

/// Reads a line of the companion; its token is not told on.
pub fn read(line: &str, token: &str) -> (result: Line)
    requires
        token@.len() > 0,
    ensures
        ({
            let shown = replaced_of(line@, token@, "[REDACTED]"@);
            &&& result.message@ == message_of(shown)
            &&& result.level == level_of(entry_of(shown, "level"@))
            &&& text::view_of(result.ready_url) == ready_of(message_of(shown))
        }),
{
    let shown = replace(line, token, "[REDACTED]");
    let event = json::parse(&shown);
    let (message, level) = match &event {
        Some(event) => (event.get_text("message"), event.get_text("level")),
        None => (None, None),
    };
    let message = match message {
        Some(message) => message,
        None => shown,
    };
    let ready_url = match text::strip_prefix(&message, "Starting metrics server on ") {
        Some(rest) => match text::strip_suffix(&rest, "/metrics") {
            Some(address) => Some(text::cat3("http://", &address, "/ready")),
            None => None,
        },
        None => None,
    };
    Line { message, level: read_level(&level), ready_url }
}

/// The watch over the companion.
pub struct Watch {
    pub ever_ready: bool,
}

/// The milliseconds between two questions whether the companion is ready.
pub fn interval(ever_ready: bool) -> (result: u64)
    ensures
        result == (if ever_ready {
            1000u64
        } else {
            250u64
        }),
{
    if ever_ready {
        1000
    } else {
        250
    }
}

impl Watch {
    /// Notes whether the companion is ready; the result tells whether it is for the first time.
    pub fn observe(&mut self, ready: bool) -> (result: bool)
        ensures
            result == (ready && !old(self).ever_ready),
            final(self).ever_ready == (old(self).ever_ready || ready),
    {
        let first = ready && !self.ever_ready;
        if first {
            self.ever_ready = true;
        }
        first
    }

    /// What it means that the time for the start is over.
    pub fn expired(&self) -> (result: Result<(), String>)
        ensures
            match result {
                Ok(()) => self.ever_ready,
                Err(reason) => !self.ever_ready && reason@
                    == "cloudflared did not become ready before its startup deadline"@,
            },
    {
        if self.ever_ready {
            Ok(())
        } else {
            Err("cloudflared did not become ready before its startup deadline".to_owned())
        }
    }
}

/// What is told on of a line never holds the token. That is so for a token longer than what is put in its
/// place, and without the brackets of that.
pub proof fn lemma_redacted(line: Seq<char>, token: Seq<char>)
    requires
        token.len() > 8,
        !token.contains('['),
        !token.contains(']'),
    ensures
        !text::occurs(replaced_of(line, token, "[REDACTED]"@), token),
    decreases line.len(),
{
    reveal_strlit("[REDACTED]");
    let mark = "[REDACTED]"@;
    text::lemma_find_first(line, token, 0);
    text::lemma_split_shorter(line, token);
    if let Some((front, back)) = text::split_at_of(line, token) {
        let at = text::find_from(line, token, 0)->Some_0;
        let rest = replaced_of(back, token, mark);
        let whole = front + mark + rest;
        let n = token.len() as int;
        lemma_redacted(back, token);
        assert(mark.len() == 10 && mark[0] == '[' && mark[9] == ']');
        if text::occurs(whole, token) {
            let p = choose|p: int|
                0 <= p <= whole.len() - token.len() && #[trigger] whole.subrange(p, p + n) == token;
            let found = whole.subrange(p, p + n);
            assert forall|i: int| p <= i < p + n implies #[trigger] whole[i] != '[' && whole[i]
                != ']' by {
                assert(found[i - p] == token[i - p]);
                assert(token.contains(token[i - p]));
            }
            assert(whole[front.len() as int] == '[');
            assert(whole[front.len() as int + 9] == ']');
            if p + n <= front.len() {
                assert(line.subrange(p, p + n) =~= found);
                assert(p < at);
            } else {
                assert(p > front.len() + 9);
                let q = p - front.len() - 10;
                assert(rest.subrange(q, q + n) =~= found);
                assert(text::occurs(rest, token));
            }
        }
    }
}

/// The token is the configured one, or the one that the service tells where it manages the companion; it is never
/// empty.
pub proof fn lemma_token_from(given: Option<Seq<char>>, managed: bool, answer: Option<Doc>, sources: Sources)
    ensures
        token_of(given, managed, answer, sources) matches Ok(token) ==> token.len() > 0,
        given matches Some(reference) ==> (token_of(given, managed, answer, sources) matches Ok(token)
            ==> resolved_of("configuration value"@, reference, sources) == Ok::<Seq<char>, Seq<char>>(token)),
        given is None && !managed ==> token_of(given, managed, answer, sources) is Err,
        given is None && managed && answer is None ==> token_of(given, managed, answer, sources) is Err,
        given is None && managed ==> (answer matches Some(doc) ==> (doc.at("runtime_token"@).text() matches Some(
            token,
        ) ==> (token.len() > 0 ==> token_of(given, managed, answer, sources) == Ok::<Seq<char>, Seq<char>>(
            token,
        )))),
{
}

/// What the service tells of the companion holds a token and a tunnel with its identity, its name and its account,
/// none of them blank.
pub proof fn lemma_payload_complete(body: Seq<u8>)
    requires
        payload_of(body) is Ok,
    ensures
        ({
            let doc = payload_of(body)->Ok_0;
            &&& doc.at("runtime_token"@) matches Doc::Text(token) && text::trim_of(token).len() > 0
            &&& doc.at("cloudflare_tunnel"@).at("tunnel_id"@) matches Doc::Text(id) && text::trim_of(id).len()
                > 0
            &&& doc.at("cloudflare_tunnel"@).at("name"@) matches Doc::Text(name) && text::trim_of(name).len()
                > 0
            &&& doc.at("cloudflare_tunnel"@).at("account_id"@) matches Doc::Text(account) && text::trim_of(
                account,
            ).len() > 0
        }),
{
}

/// The words for the levels of a line, and where the companion tells that it is ready.
pub proof fn lemma_lines_read(address: Seq<char>)
    ensures
        level_of(Some("error"@)) == Level::Error,
        level_of(Some("fatal"@)) == Level::Error,
        level_of(Some("panic"@)) == Level::Error,
        level_of(Some("warn"@)) == Level::Warn,
        level_of(Some("debug"@)) == Level::Debug,
        level_of(Some("trace"@)) == Level::Debug,
        level_of(None) == Level::Info,
        ready_of("Starting metrics server on "@ + (address + "/metrics"@)) == Some(
            "http://"@ + address + "/ready"@,
        ),
        words() == seq![
            "tunnel"@,
            "--no-autoupdate"@,
            "--metrics"@,
            "127.0.0.1:0"@,
            "--output"@,
            "json"@,
            "run"@,
        ],
{
    reveal_strlit("error");
    reveal_strlit("fatal");
    reveal_strlit("panic");
    reveal_strlit("warn");
    reveal_strlit("debug");
    reveal_strlit("trace");
    assert("error"@.len() == 5 && "error"@[0] == 'e');
    assert("fatal"@.len() == 5 && "fatal"@[0] == 'f');
    assert("panic"@.len() == 5 && "panic"@[0] == 'p');
    assert("warn"@.len() == 4);
    assert("debug"@.len() == 5 && "debug"@[0] == 'd');
    assert("trace"@.len() == 5 && "trace"@[0] == 't');
    let front = "Starting metrics server on "@;
    let rest = address + "/metrics"@;
    let whole = front + rest;
    assert(whole.subrange(0, front.len() as int) =~= front);
    assert(whole.subrange(front.len() as int, whole.len() as int) =~= rest);
    assert(rest.subrange(rest.len() - "/metrics"@.len(), rest.len() as int) =~= "/metrics"@);
    assert(rest.subrange(0, rest.len() - "/metrics"@.len()) =~= address);
}

} // verus!
