//! The check of a runtime from the command line.

use vstd::prelude::*;
use crate::health::{normalized, Target};
use crate::json::{Doc, Json};
use crate::management::inspect::Endpoint;
use crate::text;
use crate::words::{words, words_of, Break};

verus! {

/// Where the address of the runtime is.
pub enum Locator {
    Url(String),
    /// A file with the address.
    File(String),
    /// A port of this machine.
    Port(u64),
}

impl Locator {
    /// What is told of where the address is.
    pub open spec fn document_of(self) -> Doc {
        match self {
            Locator::Url(url) => Doc::object().with("kind"@, Doc::Text("url"@)).with(
                "url"@,
                Doc::Text(url@),
            ),
            Locator::File(file) => Doc::object().with("kind"@, Doc::Text("url_file"@)).with(
                "url_file"@,
                Doc::Text(file@),
            ),
            Locator::Port(port) => Doc::object().with("kind"@, Doc::Text("port"@)).with(
                "port"@,
                Doc::number(port as nat),
            ),
        }
    }

    /// What is told of where the address is.
    pub fn document(&self) -> (result: Json)
        ensures
            result.doc() == self.document_of(),
    {
        match self {
            Locator::Url(url) => Json::object().with("kind", Json::text("url")).with(
                "url",
                Json::text(url),
            ),
            Locator::File(file) => Json::object().with("kind", Json::text("url_file")).with(
                "url_file",
                Json::text(file),
            ),
            Locator::Port(port) => Json::object().with("kind", Json::text("port")).with(
                "port",
                Json::number(*port),
            ),
        }
    }

    /// Where the address is, in words.
    pub open spec fn text_of(self) -> Seq<char> {
        match self {
            Locator::Url(url) => "url="@ + url@,
            Locator::File(file) => "url_file="@ + file@,
            Locator::Port(port) => "port="@ + text::decimal_of(port as nat),
        }
    }

    /// Where the address is, in words.
    pub fn text(&self) -> (result: String)
        ensures
            result@ == self.text_of(),
    {
        match self {
            Locator::Url(url) => text::cat("url=", url),
            Locator::File(file) => text::cat("url_file=", file),
            Locator::Port(port) => text::cat("port=", &text::decimal(*port)),
        }
    }
}

/// What is asked for.
pub struct Question {
    pub url: String,
    pub file: String,
    pub port: i64,
    pub pid: i64,
    pub pid_file: String,
}

impl Question {
    /// What is wrong with a question: it names one address, and one process at most.
    pub open spec fn fault(self) -> Option<Seq<char>> {
        let url = text::trim_of(self.url@).len() > 0;
        let file = text::trim_of(self.file@).len() > 0;
        let port = self.port != 0;
        if !(url && !file && !port || !url && file && !port || !url && !file && port) {
            Some("choose exactly one of --url, --url-file, or --port"@)
        } else if self.port < 0 {
            Some("--port must be positive"@)
        } else if self.pid < 0 {
            Some("--pid must be positive"@)
        } else if self.pid != 0 && text::trim_of(self.pid_file@).len() > 0 {
            Some("choose at most one of --pid or --pid-file"@)
        } else {
            None
        }
    }

    /// Where the address is, or why that is not known.
    pub fn locator(&self) -> (result: Result<Locator, String>)
        ensures
            match result {
                Ok(locator) => self.fault() is None && match locator {
                    Locator::Url(url) => url@ == text::trim_of(self.url@) && url@.len() > 0,
                    Locator::File(file) => file@ == text::trim_of(self.file@) && file@.len() > 0,
                    Locator::Port(port) => port == self.port && port > 0,
                },
                Err(reason) => self.fault() == Some(reason@),
            },
    {
        let url = text::trim(&self.url);
        let file = text::trim(&self.file);
        let some_url = !url.is_empty();
        let some_file = !file.is_empty();
        let some_port = self.port != 0;
        if !((some_url && !some_file && !some_port) || (!some_url && some_file && !some_port) || (
        !some_url && !some_file && some_port)) {
            return Err("choose exactly one of --url, --url-file, or --port".to_owned());
        }
        if self.port < 0 {
            return Err("--port must be positive".to_owned());
        }
        if self.pid < 0 {
            return Err("--pid must be positive".to_owned());
        }
        if self.pid != 0 && !text::trim(&self.pid_file).is_empty() {
            return Err("choose at most one of --pid or --pid-file".to_owned());
        }
        if some_url {
            Ok(Locator::Url(url))
        } else if some_file {
            Ok(Locator::File(file))
        } else {
            Ok(Locator::Port(self.port as u64))
        }
    }
}

/// The address that was found, or why there is none.
pub open spec fn base_of(found: Result<Seq<char>, Seq<char>>) -> Result<Seq<char>, Seq<char>> {
    match found {
        Err(reason) => Err(reason),
        Ok(value) => if normalized(value).len() == 0 {
            Err("health URL is empty after normalization"@)
        } else {
            Ok(normalized(value))
        },
    }
}

/// What a read text means.
pub open spec fn found_of(found: Result<String, String>) -> Result<Seq<char>, Seq<char>> {
    match found {
        Ok(value) => Ok(value@),
        Err(reason) => Err(reason@),
    }
}

/// The address that was found, or why there is none.
pub fn base(found: Result<String, String>) -> (result: Result<String, String>)
    ensures
        found_of(result) == base_of(found_of(found)),
{
    match found {
        Err(reason) => Err(reason),
        Ok(value) => {
            let base = Target::normalize(&value);
            if base.is_empty() {
                Err("health URL is empty after normalization".to_owned())
            } else {
                Ok(base)
            }
        },
    }
}

/// The address of a port of this machine.
pub fn port_url(port: u64) -> (result: String)
    ensures
        result@ == "http://127.0.0.1:"@ + text::decimal_of(port as nat),
{
    text::cat("http://127.0.0.1:", &text::decimal(port))
}

/// What is told of an endpoint, without what is empty.
pub open spec fn endpoint_doc(endpoint: Endpoint) -> Doc {
    Doc::object().with_if(endpoint.url@.len() > 0, "url"@, Doc::Text(endpoint.url@)).with(
        "ok"@,
        Doc::Bool(endpoint.ok),
    ).with_if(endpoint.status != 0, "status"@, Doc::number(endpoint.status as nat)).with_if(
        endpoint.body@.len() > 0,
        "body"@,
        Doc::Text(endpoint.body@),
    ).with_if(endpoint.error@.len() > 0, "error"@, Doc::Text(endpoint.error@))
}

fn endpoint_json(endpoint: &Endpoint) -> (result: Json)
    ensures
        result.doc() == endpoint_doc(*endpoint),
{
    Json::object().with_if(!endpoint.url.is_empty(), "url", Json::text(&endpoint.url)).with(
        "ok",
        Json::Bool(endpoint.ok),
    ).with_if(endpoint.status != 0, "status", Json::number(endpoint.status as u64)).with_if(
        !endpoint.body.is_empty(),
        "body",
        Json::text(&endpoint.body),
    ).with_if(!endpoint.error.is_empty(), "error", Json::text(&endpoint.error))
}

/// The name of the metric with the time of the last poll.
pub const METRIC: &'static str = "commands_poll_last_successful_timestamp_seconds";

/// The longest line of metrics.
pub const MAX_LINE: usize = 1048576;

/// Whether a line tells of the last poll.
pub open spec fn tells_poll(line: Seq<char>) -> bool {
    match text::after_prefix(line, METRIC@) {
        Some(rest) => " "@.is_prefix_of(rest) || "{"@.is_prefix_of(rest),
        None => false,
    }
}

/// The values in the lines that tell of the last poll, up to a line that is too long, and whether there
/// is one.
pub open spec fn polls_of(lines: Seq<Seq<char>>, at: int) -> (Seq<Seq<char>>, bool)
    decreases lines.len() - at,
{
    if at < 0 || at >= lines.len() {
        (Seq::empty(), false)
    } else {
        let line = text::trim_of(lines[at]);
        if text::byte_len(line) > MAX_LINE {
            (Seq::empty(), true)
        } else {
            let (rest, long) = polls_of(lines, at + 1);
            let parts = words_of(line, Break::Space);
            if tells_poll(line) && parts.len() > 0 {
                (seq![parts.last()] + rest, long)
            } else {
                (rest, long)
            }
        }
    }
}

/// The values in the lines of metrics that tell of the last poll, up to a line that is too long, and
/// whether there is one.
pub fn polls(body: &str) -> (result: (Vec<String>, bool))
    ensures
        ({
            let (values, long) = polls_of(text::split_of(body@, '\n'), 0);
            text::views(result.0@) == values && result.1 == long
        }),
{
    let lines = text::split(body, '\n');
    let ghost all = text::views(lines@);
    let ghost whole = polls_of(all, 0);
    let mut values: Vec<String> = Vec::new();
    let mut index: usize = 0;
    assert(text::views(values@) + whole.0 =~= whole.0);
    while index < lines.len()
        invariant
            index <= lines.len(),
            all == text::views(lines@),
            all.len() == lines@.len(),
            all == text::split_of(body@, '\n'),
            whole == polls_of(all, 0),
            whole.0 == text::views(values@) + polls_of(all, index as int).0,
            whole.1 == polls_of(all, index as int).1,
        decreases lines.len() - index,
    {
        assert(all[index as int] == lines@[index as int]@);
        let line = text::trim(&lines[index]);
        let ghost before = text::views(values@);
        let ghost rest = polls_of(all, index + 1).0;
        if !text::fits(&line, MAX_LINE) {
            assert(before + Seq::<Seq<char>>::empty() =~= before);
            return (values, true);
        }
        let told = match text::strip_prefix(&line, METRIC) {
            Some(rest) => text::starts_with(&rest, " ") || text::starts_with(&rest, "{"),
            None => false,
        };
        if told {
            let parts = words(&line, Break::Space);
            assert(text::views(parts@).len() == parts@.len());
            if parts.len() > 0 {
                let value = parts[parts.len() - 1].clone();
                assert(text::views(parts@).last() == value@);
                assert(text::views(values@.push(value)) =~= before.push(value@));
                assert(before + (seq![value@] + rest) =~= before.push(value@) + rest);
                values.push(value);
            }
        }
        index = index + 1;
    }
    assert(text::views(values@) + Seq::<Seq<char>>::empty() =~= text::views(values@));
    (values, false)
}

/// What is known of the last poll of a runtime.
pub struct Poll {
    pub url: String,
    pub ok: bool,
    /// The time as a number of a document, where it is not zero.
    pub value: Option<String>,
    /// The time in whole seconds.
    pub seconds: String,
    pub error: String,
}

impl Poll {
    /// What is told of the last poll.
    pub open spec fn document_of(self) -> Doc {
        let base = Doc::object().with("url"@, Doc::Text(self.url@)).with("ok"@, Doc::Bool(self.ok));
        let valued = match self.value {
            Some(value) => base.with("value"@, Doc::figures(value@)),
            None => base,
        };
        valued.with_if(self.error@.len() > 0, "error"@, Doc::Text(self.error@))
    }

    /// What is told of the last poll.
    pub fn document(&self) -> (result: Json)
        ensures
            result.doc() == self.document_of(),
    {
        let base = Json::object().with("url", Json::text(&self.url)).with("ok", Json::Bool(self.ok));
        let valued = match &self.value {
            Some(value) => base.with("value", Json::figures(value)),
            None => base,
        };
        valued.with_if(!self.error.is_empty(), "error", Json::text(&self.error))
    }
}

/// The number of a process in a file.
pub open spec fn pid_of(content: Seq<char>) -> Option<int> {
    let value = text::trim_of(content);
    match text::after_prefix(value, "-"@) {
        Some(digits) => if digits.len() > 0 && text::all_digits(digits) && text::digits_value(
            digits,
        ) <= 0x8000_0000_0000_0000 {
            Some(-(text::digits_value(digits) as int))
        } else {
            None
        },
        None => match text::unsigned_of(value) {
            Some(number) => if number <= i64::MAX {
                Some(number as int)
            } else {
                None
            },
            None => None,
        },
    }
}

/// The number of a process in a file, or why there is none.
pub fn pid(file: &str, content: &str) -> (result: Result<u64, String>)
    ensures
        match result {
            Ok(number) => pid_of(content@) == Some(number as int) && number > 0,
            Err(reason) => match pid_of(content@) {
                None => reason@ == "parse "@ + file@ + " as pid: "@ + text::debug_text(content@),
                Some(number) => number <= 0 && reason@ == "PID must be positive"@,
            },
        },
{
    let value = text::trim(content);
    if let Some(digits) = text::strip_prefix(&value, "-") {
        let known = match text::unsigned(&digits) {
            Some(number) => number <= 0x8000_0000_0000_0000 && !text::starts_with(&digits, "+"),
            None => false,
        };
        proof {
            reveal_strlit("+");
            lemma_digits(digits@);
        }
        if known {
            return Err("PID must be positive".to_owned());
        }
        return Err(text::cat(&text::cat3("parse ", file, " as pid: "), &text::quoted(content)));
    }
    match text::unsigned(&value) {
        Some(number) => if number > 0x7fff_ffff_ffff_ffff {
            Err(text::cat(&text::cat3("parse ", file, " as pid: "), &text::quoted(content)))
        } else if number == 0 {
            Err("PID must be positive".to_owned())
        } else {
            Ok(number)
        },
        None => Err(text::cat(&text::cat3("parse ", file, " as pid: "), &text::quoted(content))),
    }
}

proof fn lemma_digits(value: Seq<char>)
    ensures
        "+"@.is_prefix_of(value) || (text::unsigned_of(value) is Some <==> value.len() > 0
            && text::all_digits(value) && text::digits_value(value) <= u64::MAX),
        !"+"@.is_prefix_of(value) ==> (text::unsigned_of(value) matches Some(number) ==> number
            == text::digits_value(value)),
        "+"@.is_prefix_of(value) ==> !text::all_digits(value),
{
    reveal_strlit("+");
    if "+"@.is_prefix_of(value) {
        assert(value[0] == "+"@[0]);
    } else if value.len() > 0 {
        assert(value[0] != '+') by {
            if value[0] == '+' {
                assert("+"@ =~= value.take(1));
            }
        }
    }
}

/// What is known of a process.
pub struct Running {
    pub pid_file: String,
    pub pid: Option<u64>,
    pub running: bool,
    pub error: String,
}

impl Running {
    /// What is told of a process.
    pub open spec fn document_of(self) -> Doc {
        let base = Doc::object().with("running"@, Doc::Bool(self.running)).with_if(
            self.pid_file@.len() > 0,
            "pid_file"@,
            Doc::Text(self.pid_file@),
        );
        let known = match self.pid {
            Some(pid) => base.with("pid"@, Doc::number(pid as nat)),
            None => base,
        };
        known.with_if(self.error@.len() > 0, "error"@, Doc::Text(self.error@))
    }

    /// What is told of a process.
    pub fn document(&self) -> (result: Json)
        ensures
            result.doc() == self.document_of(),
    {
        let base = Json::object().with("running", Json::Bool(self.running)).with_if(
            !self.pid_file.is_empty(),
            "pid_file",
            Json::text(&self.pid_file),
        );
        let known = match self.pid {
            Some(pid) => base.with("pid", Json::number(pid)),
            None => base,
        };
        known.with_if(!self.error.is_empty(), "error", Json::text(&self.error))
    }
}

/// What the check of a runtime found.
pub struct Findings {
    pub locator: Locator,
    /// The address, or why there is none.
    pub base: Result<String, String>,
    pub healthz: Endpoint,
    pub readyz: Endpoint,
    pub poll: Option<Poll>,
    pub process: Option<Running>,
}

impl Findings {
    /// Whether all is well.
    pub open spec fn is_well(self) -> bool {
        &&& self.base is Ok
        &&& self.healthz.ok
        &&& self.readyz.ok
        &&& self.poll matches Some(poll) ==> poll.ok
        &&& self.process matches Some(process) ==> process.running
    }

    /// Whether all is well.
    pub fn passed(&self) -> (result: bool)
        ensures
            result == self.is_well(),
    {
        let poll = match &self.poll {
            Some(poll) => poll.ok,
            None => true,
        };
        let process = match &self.process {
            Some(process) => process.running,
            None => true,
        };
        self.base.is_ok() && self.healthz.ok && self.readyz.ok && poll && process
    }

    /// What is told of the address.
    pub open spec fn locator_doc(self) -> Doc {
        match self.base {
            Ok(base) => self.locator.document_of().with("resolved_base_url"@, Doc::Text(base@)),
            Err(reason) => self.locator.document_of().with("error"@, Doc::Text(reason@)),
        }
    }

    /// What is told of the check.
    pub open spec fn document_of(self) -> Doc {
        let base = Doc::object().with("locator"@, self.locator_doc()).with(
            "healthz"@,
            endpoint_doc(self.healthz),
        ).with("readyz"@, endpoint_doc(self.readyz)).with(
            "result"@,
            Doc::Text(
                if self.is_well() {
                    "ok"@
                } else {
                    "fail"@
                },
            ),
        );
        let placed = match self.base {
            Ok(place) => base.with("base_url"@, Doc::Text(place@)),
            Err(_) => base,
        };
        let polled = match self.poll {
            Some(poll) => placed.with("control_plane_poll"@, poll.document_of()),
            None => placed,
        };
        match self.process {
            Some(process) => polled.with("process"@, process.document_of()),
            None => polled,
        }
    }

    /// What is told of the check.
    pub fn document(&self) -> (result: Json)
        ensures
            result.doc() == self.document_of(),
    {
        let locator = match &self.base {
            Ok(base) => self.locator.document().with("resolved_base_url", Json::text(base)),
            Err(reason) => self.locator.document().with("error", Json::text(reason)),
        };
        let word = if self.passed() {
            "ok"
        } else {
            "fail"
        };
        let base = Json::object().with("locator", locator).with(
            "healthz",
            endpoint_json(&self.healthz),
        ).with("readyz", endpoint_json(&self.readyz)).with("result", Json::text(word));
        let placed = match &self.base {
            Ok(place) => base.with("base_url", Json::text(place)),
            Err(_) => base,
        };
        let polled = match &self.poll {
            Some(poll) => placed.with("control_plane_poll", poll.document()),
            None => placed,
        };
        match &self.process {
            Some(process) => polled.with("process", process.document()),
            None => polled,
        }
    }
}

/// The mark of something that is well or not.
pub open spec fn mark_of(ok: bool) -> Seq<char> {
    if ok {
        "PASS"@
    } else {
        "FAIL"@
    }
}

fn mark(ok: bool) -> (result: &'static str)
    ensures
        result@ == mark_of(ok),
{
    if ok {
        "PASS"
    } else {
        "FAIL"
    }
}

/// A part of a line, where there is one.
pub open spec fn part_of(there: bool, value: Seq<char>) -> Seq<char> {
    if there {
        " | "@ + value
    } else {
        Seq::empty()
    }
}

fn part(there: bool, value: &str) -> (result: String)
    ensures
        result@ == part_of(there, value@),
{
    if there {
        text::cat(" | ", value)
    } else {
        let empty = String::new();
        assert(empty@ =~= Seq::<char>::empty());
        empty
    }
}

/// The line of an endpoint.
pub open spec fn endpoint_line(label: Seq<char>, endpoint: Endpoint) -> Seq<char> {
    label + ": "@ + mark_of(endpoint.ok) + part_of(endpoint.url@.len() > 0, endpoint.url@) + part_of(
        endpoint.status != 0,
        "HTTP "@ + text::decimal_of(endpoint.status as nat),
    ) + (if endpoint.error@.len() > 0 {
        part_of(true, endpoint.error@)
    } else {
        part_of(endpoint.body@.len() > 0, endpoint.body@)
    }) + "\n"@
}

fn endpoint_text(label: &str, endpoint: &Endpoint) -> (result: String)
    ensures
        result@ == endpoint_line(label@, *endpoint),
{
    let last = if !endpoint.error.is_empty() {
        part(true, &endpoint.error)
    } else {
        part(!endpoint.body.is_empty(), &endpoint.body)
    };
    let status = text::cat("HTTP ", &text::decimal(endpoint.status as u64));
    let front = text::cat5(
        label,
        ": ",
        mark(endpoint.ok),
        &part(!endpoint.url.is_empty(), &endpoint.url),
        &part(endpoint.status != 0, &status),
    );
    text::cat3(&front, &last, "\n")
}

/// The line of the last poll.
pub open spec fn poll_line(poll: Poll) -> Seq<char> {
    "Control-plane poll: "@ + mark_of(poll.ok) + part_of(true, poll.url@) + part_of(
        poll.ok,
        "last_success_unix_seconds="@ + poll.seconds@,
    ) + part_of(poll.error@.len() > 0, poll.error@) + "\n"@
}

fn poll_text(poll: &Poll) -> (result: String)
    ensures
        result@ == poll_line(*poll),
{
    let seconds = text::cat("last_success_unix_seconds=", &poll.seconds);
    let front = text::cat5(
        "Control-plane poll: ",
        mark(poll.ok),
        &part(true, &poll.url),
        &part(poll.ok, &seconds),
        &part(!poll.error.is_empty(), &poll.error),
    );
    text::cat(&front, "\n")
}

/// The line of a process.
pub open spec fn process_line(process: Running) -> Seq<char> {
    "Process: "@ + mark_of(process.running) + (match process.pid {
        Some(pid) => part_of(true, "pid="@ + text::decimal_of(pid as nat)),
        None => Seq::empty(),
    }) + part_of(process.pid_file@.len() > 0, "pid_file="@ + process.pid_file@) + part_of(
        process.error@.len() > 0,
        process.error@,
    ) + "\n"@
}

fn process_text(process: &Running) -> (result: String)
    ensures
        result@ == process_line(*process),
{
    let pid = match process.pid {
        Some(pid) => part(true, &text::cat("pid=", &text::decimal(pid))),
        None => {
            let empty = String::new();
            assert(empty@ =~= Seq::<char>::empty());
            empty
        },
    };
    let file = text::cat("pid_file=", &process.pid_file);
    let front = text::cat5(
        "Process: ",
        mark(process.running),
        &pid,
        &part(!process.pid_file.is_empty(), &file),
        &part(!process.error.is_empty(), &process.error),
    );
    text::cat(&front, "\n")
}

impl Findings {
    /// What the check found, in words.
    pub open spec fn text_of(self) -> Seq<char> {
        "Locator: "@ + self.locator.text_of() + "\n"@ + (match self.base {
            Ok(base) => "Base URL: "@ + base@ + "\n"@,
            Err(reason) => "Locator error: "@ + reason@ + "\n"@,
        }) + endpoint_line("Healthz"@, self.healthz) + endpoint_line("Readyz"@, self.readyz) + (
        match self.poll {
            Some(poll) => poll_line(poll),
            None => Seq::empty(),
        }) + (match self.process {
            Some(process) => process_line(process),
            None => Seq::empty(),
        }) + "Result: "@ + (if self.is_well() {
            "OK"@
        } else {
            "FAIL"@
        }) + "\n"@
    }

    /// What the check found, in words.
    pub fn text(&self) -> (result: String)
        ensures
            result@ == self.text_of(),
    {
        let empty = String::new();
        assert(empty@ =~= Seq::<char>::empty());
        let base = match &self.base {
            Ok(base) => text::cat3("Base URL: ", base, "\n"),
            Err(reason) => text::cat3("Locator error: ", reason, "\n"),
        };
        let poll = match &self.poll {
            Some(poll) => poll_text(poll),
            None => empty.clone(),
        };
        let process = match &self.process {
            Some(process) => process_text(process),
            None => empty,
        };
        let word = if self.passed() {
            "OK"
        } else {
            "FAIL"
        };
        let front = text::cat(&text::cat3("Locator: ", &self.locator.text(), "\n"), &base);
        let middle = text::cat5(
            &front,
            &endpoint_text("Healthz", &self.healthz),
            &endpoint_text("Readyz", &self.readyz),
            &poll,
            &process,
        );
        text::cat(&text::cat3(&middle, "Result: ", word), "\n")
    }
}

/// A check is only well where there is an address and it answers.
pub proof fn lemma_well(findings: Findings)
    requires
        findings.is_well(),
    ensures
        findings.base is Ok,
        findings.healthz.ok && findings.readyz.ok,
        findings.document_of().at("result"@) == Doc::Text("ok"@),
{
    reveal_strlit("result");
    reveal_strlit("base_url");
    reveal_strlit("control_plane_poll");
    reveal_strlit("process");
    assert("result"@.len() == 6 && "base_url"@.len() == 8 && "control_plane_poll"@.len() == 18
        && "process"@.len() == 7);
}

/// Where to look is told by its kind.
pub proof fn lemma_place_told(url: String, port: u64)
    ensures
        Locator::Url(url).document_of().at("kind"@) == Doc::Text("url"@) && Locator::Url(url).document_of().at(
            "url"@,
        ) == Doc::Text(url@),
        Locator::File(url).document_of().at("kind"@) == Doc::Text("url_file"@) && Locator::File(
            url,
        ).document_of().at("url_file"@) == Doc::Text(url@),
        Locator::Port(port).document_of().at("kind"@) == Doc::Text("port"@) && Locator::Port(
            port,
        ).document_of().at("port"@) == Doc::number(port as nat),
        Locator::Url(url).text_of() == "url="@ + url@,
        Locator::File(url).text_of() == "url_file="@ + url@,
        Locator::Port(port).text_of() == "port="@ + text::decimal_of(port as nat),
{
    reveal_strlit("kind");
    reveal_strlit("url");
    reveal_strlit("url_file");
    reveal_strlit("port");
    assert("kind"@.len() == 4 && "kind"@[0] == 'k');
    assert("url"@.len() == 3);
    assert("url_file"@.len() == 8);
    assert("port"@.len() == 4 && "port"@[0] == 'p');
}

/// A question names exactly one place, with a port that is positive, and at most one process.
pub proof fn lemma_question_asks(question: Question)
    requires
        question.fault() is None,
    ensures
        text::trim_of(question.url@).len() > 0 ==> text::trim_of(question.file@).len() == 0 && question.port == 0,
        text::trim_of(question.file@).len() > 0 ==> question.port == 0,
        text::trim_of(question.url@).len() == 0 && text::trim_of(question.file@).len() == 0 ==> question.port > 0,
        question.pid >= 0,
        question.pid > 0 ==> text::trim_of(question.pid_file@).len() == 0,
{
}

/// Such a question is accepted.
pub proof fn lemma_question_accepted(question: Question)
    requires
        question.pid == 0 || question.pid > 0 && text::trim_of(question.pid_file@).len() == 0,
    ensures
        text::trim_of(question.url@).len() > 0 && text::trim_of(question.file@).len() == 0 && question.port == 0
            ==> question.fault() is None,
        text::trim_of(question.url@).len() == 0 && text::trim_of(question.file@).len() > 0 && question.port == 0
            ==> question.fault() is None,
        text::trim_of(question.url@).len() == 0 && text::trim_of(question.file@).len() == 0 && question.port > 0
            ==> question.fault() is None,
{
}

/// An endpoint tells what is known of it.
pub proof fn lemma_endpoint_told(endpoint: Endpoint)
    ensures
        ({
            let doc = endpoint_doc(endpoint);
            &&& doc.at("ok"@) == Doc::Bool(endpoint.ok)
            &&& endpoint.url@.len() > 0 ==> doc.at("url"@) == Doc::Text(endpoint.url@)
            &&& endpoint.url@.len() == 0 ==> doc.at("url"@) == Doc::Null
            &&& endpoint.status != 0 ==> doc.at("status"@) == Doc::number(endpoint.status as nat)
            &&& endpoint.status == 0 ==> doc.at("status"@) == Doc::Null
            &&& endpoint.body@.len() > 0 ==> doc.at("body"@) == Doc::Text(endpoint.body@)
            &&& endpoint.error@.len() > 0 ==> doc.at("error"@) == Doc::Text(endpoint.error@)
            &&& endpoint.error@.len() == 0 ==> doc.at("error"@) == Doc::Null
        }),
{
    reveal_strlit("url");
    reveal_strlit("ok");
    reveal_strlit("status");
    reveal_strlit("body");
    reveal_strlit("error");
    assert("url"@.len() == 3);
    assert("ok"@.len() == 2);
    assert("status"@.len() == 6);
    assert("body"@.len() == 4);
    assert("error"@.len() == 5);
}

/// A line tells the last poll where it starts with the name of the measure and goes on with a blank or with labels.
pub proof fn lemma_poll_lines(rest: Seq<char>)
    ensures
        tells_poll("commands_poll_last_successful_timestamp_seconds"@ + (" "@ + rest)),
        tells_poll("commands_poll_last_successful_timestamp_seconds"@ + ("{"@ + rest)),
        tells_poll("commands_poll_last_successful_timestamp_seconds"@ + rest) ==> rest.len() > 0 && (rest[0] == ' '
            || rest[0] == '{'),
{
    reveal_strlit(" ");
    reveal_strlit("{");
    let name = "commands_poll_last_successful_timestamp_seconds"@;
    assert((name + (" "@ + rest)).subrange(0, name.len() as int) =~= name);
    assert((name + (" "@ + rest)).subrange(name.len() as int, (name + (" "@ + rest)).len() as int) =~= " "@ + rest);
    assert((" "@ + rest).subrange(0, 1) =~= " "@);
    assert((name + ("{"@ + rest)).subrange(0, name.len() as int) =~= name);
    assert((name + ("{"@ + rest)).subrange(name.len() as int, (name + ("{"@ + rest)).len() as int) =~= "{"@ + rest);
    assert(("{"@ + rest).subrange(0, 1) =~= "{"@);
    assert((name + rest).subrange(0, name.len() as int) =~= name);
    assert((name + rest).subrange(name.len() as int, (name + rest).len() as int) =~= rest);
    if " "@.is_prefix_of(rest) {
        assert(rest[0] == " "@[0]);
    }
    if "{"@.is_prefix_of(rest) {
        assert(rest[0] == "{"@[0]);
    }
}

/// The number of a process is written in decimal, with a minus in front where it is negative.
pub proof fn lemma_pid_read(content: Seq<char>, number: u64)
    ensures
        text::after_prefix(text::trim_of(content), "-"@) is None && text::unsigned_of(text::trim_of(content))
            == Some(number) && number <= i64::MAX ==> pid_of(content) == Some(number as int),
        text::after_prefix(text::trim_of(content), "-"@) is None && text::unsigned_of(text::trim_of(content))
            is None ==> pid_of(content) is None,
        pid_of(content) matches Some(pid) ==> (text::after_prefix(text::trim_of(content), "-"@) is Some ==> pid
            <= 0),
{
}

/// All is well where the place is known, both endpoints are well, and the poll and the process too where they are asked
/// for.
pub proof fn lemma_wellness(findings: Findings)
    ensures
        !findings.healthz.ok ==> !findings.is_well(),
        !findings.readyz.ok ==> !findings.is_well(),
        findings.base is Err ==> !findings.is_well(),
        findings.poll matches Some(poll) ==> (!poll.ok ==> !findings.is_well()),
        findings.process matches Some(process) ==> (!process.running ==> !findings.is_well()),
        findings.base is Ok && findings.healthz.ok && findings.readyz.ok && findings.poll is None
            && findings.process is None ==> findings.is_well(),
        findings.base is Ok && findings.healthz.ok && findings.readyz.ok ==> (findings.poll matches Some(poll)
            ==> (findings.process matches Some(process) ==> (poll.ok && process.running ==> findings.is_well()))),
{
}

/// What is told of the findings.
pub proof fn lemma_findings_told(findings: Findings)
    ensures
        ({
            let doc = findings.document_of();
            &&& doc.at("healthz"@) == endpoint_doc(findings.healthz)
            &&& doc.at("readyz"@) == endpoint_doc(findings.readyz)
            &&& doc.at("result"@) == Doc::Text(
                if findings.is_well() {
                    "ok"@
                } else {
                    "fail"@
                },
            )
            &&& findings.base matches Ok(place) ==> doc.at("base_url"@) == Doc::Text(place@) && doc.at(
                "locator"@,
            ).at("resolved_base_url"@) == Doc::Text(place@)
            &&& findings.base matches Err(reason) ==> doc.at("base_url"@) == Doc::Null && doc.at("locator"@).at(
                "error"@,
            ) == Doc::Text(reason@)
            &&& findings.poll matches Some(poll) ==> doc.at("control_plane_poll"@) == poll.document_of()
            &&& findings.poll is None ==> doc.at("control_plane_poll"@) == Doc::Null
            &&& findings.process matches Some(process) ==> doc.at("process"@) == process.document_of()
            &&& findings.process is None ==> doc.at("process"@) == Doc::Null
        }),
{
    reveal_strlit("locator");
    reveal_strlit("healthz");
    reveal_strlit("readyz");
    reveal_strlit("result");
    reveal_strlit("base_url");
    reveal_strlit("control_plane_poll");
    reveal_strlit("process");
    assert("locator"@.len() == 7 && "locator"@[0] == 'l');
    assert("healthz"@.len() == 7 && "healthz"@[0] == 'h');
    assert("readyz"@.len() == 6 && "readyz"@[2] == 'a');
    assert("result"@.len() == 6 && "result"@[2] == 's');
    assert("base_url"@.len() == 8);
    assert("control_plane_poll"@.len() == 18);
    assert("process"@.len() == 7 && "process"@[0] == 'p');
    reveal_strlit("resolved_base_url");
    reveal_strlit("error");
    reveal_strlit("kind");
    reveal_strlit("url");
    reveal_strlit("url_file");
    reveal_strlit("port");
    assert("resolved_base_url"@.len() == 17);
    assert("error"@.len() == 5);
    assert("kind"@.len() == 4 && "kind"@[0] == 'k');
    assert("url"@.len() == 3);
    assert("url_file"@.len() == 8);
    assert("port"@.len() == 4 && "port"@[0] == 'p');
}

/// What is told of a poll and of a process.
pub proof fn lemma_parts_told(poll: Poll, process: Running)
    ensures
        poll.document_of().at("url"@) == Doc::Text(poll.url@),
        poll.document_of().at("ok"@) == Doc::Bool(poll.ok),
        poll.error@.len() > 0 ==> poll.document_of().at("error"@) == Doc::Text(poll.error@),
        poll.value matches Some(value) ==> poll.document_of().at("value"@) == Doc::figures(value@),
        poll.value is None ==> poll.document_of().at("value"@) == Doc::Null,
        process.document_of().at("running"@) == Doc::Bool(process.running),
        process.pid matches Some(pid) ==> process.document_of().at("pid"@) == Doc::number(pid as nat),
        process.pid is None ==> process.document_of().at("pid"@) == Doc::Null,
        process.pid_file@.len() > 0 ==> process.document_of().at("pid_file"@) == Doc::Text(process.pid_file@),
        process.error@.len() > 0 ==> process.document_of().at("error"@) == Doc::Text(process.error@),
        mark_of(true) == "PASS"@ && mark_of(false) == "FAIL"@,
{
    reveal_strlit("url");
    reveal_strlit("ok");
    reveal_strlit("value");
    reveal_strlit("error");
    reveal_strlit("running");
    reveal_strlit("pid_file");
    reveal_strlit("pid");
    assert("url"@.len() == 3 && "url"@[0] == 'u');
    assert("ok"@.len() == 2);
    assert("value"@.len() == 5 && "value"@[0] == 'v');
    assert("error"@.len() == 5 && "error"@[0] == 'e');
    assert("running"@.len() == 7);
    assert("pid_file"@.len() == 8);
    assert("pid"@.len() == 3 && "pid"@[0] == 'p');
}

/// A place that is empty once it is tidied is none.
pub proof fn lemma_base_found(value: Seq<char>)
    ensures
        normalized(value).len() > 0 ==> base_of(Ok(value)) == Ok::<Seq<char>, Seq<char>>(normalized(value)),
        normalized(value).len() == 0 ==> base_of(Ok(value)) is Err,
        base_of(Err(value)) == Err::<Seq<char>, Seq<char>>(value),
{
}

/// The lines that tell the last poll are read in order, up to one that is too long.
pub proof fn lemma_polls_read(lines: Seq<Seq<char>>, at: int)
    requires
        0 <= at < lines.len(),
    ensures
        ({
            let line = text::trim_of(lines[at]);
            let parts = words_of(line, Break::Space);
            let (rest, long) = polls_of(lines, at + 1);
            &&& text::byte_len(line) > 1048576 ==> polls_of(lines, at) == (Seq::<Seq<char>>::empty(), true)
            &&& text::byte_len(line) <= 1048576 && tells_poll(line) && parts.len() > 0 ==> polls_of(lines, at) == (
                seq![parts.last()] + rest,
                long,
            )
            &&& text::byte_len(line) <= 1048576 && !tells_poll(line) ==> polls_of(lines, at) == (rest, long)
        }),
        polls_of(lines, lines.len() as int) == (Seq::<Seq<char>>::empty(), false),
{
}

/// How the findings are printed.
pub proof fn lemma_findings_printed(endpoint: Endpoint, label: Seq<char>, poll: Poll, process: Running, pid: u64)
    ensures
        endpoint.url@.len() > 0 && endpoint.status != 0 && endpoint.error@.len() > 0 ==> endpoint_line(
            label,
            endpoint,
        ) == label + ": "@ + mark_of(endpoint.ok) + (" | "@ + endpoint.url@) + (" | "@ + ("HTTP "@
            + text::decimal_of(endpoint.status as nat))) + (" | "@ + endpoint.error@) + "\n"@,
        poll.ok && poll.error@.len() == 0 ==> poll_line(poll) == "Control-plane poll: "@ + "PASS"@ + (" | "@
            + poll.url@) + (" | "@ + ("last_success_unix_seconds="@ + poll.seconds@)) + Seq::empty() + "\n"@,
        !poll.ok && poll.error@.len() > 0 ==> poll_line(poll) == "Control-plane poll: "@ + "FAIL"@ + (" | "@
            + poll.url@) + Seq::empty() + (" | "@ + poll.error@) + "\n"@,
        process.pid is None && process.pid_file@.len() > 0 && process.error@.len() > 0 ==> process_line(process)
            == "Process: "@ + mark_of(process.running) + Seq::empty() + (" | "@ + ("pid_file="@
            + process.pid_file@)) + (" | "@ + process.error@) + "\n"@,
        part_of(false, label).len() == 0 && part_of(true, label) == " | "@ + label,
{
}

} // verus!
