//! The processes and terminal sessions of managed runtimes.

use vstd::prelude::*;
use crate::checks::{tells, unless};
use crate::config::values::{below, path_below};
use crate::json::{Doc, Json};
use crate::management::identity::Identity;
use crate::management::inspect::Probe;
use crate::management::records::{Alias, Process};
use crate::management::state::Root;
use crate::{digest, text};

verus! {

/// The words as `shell_words` joins them.
pub uninterp spec fn shell_joined(words: Seq<Seq<char>>) -> Seq<char>;

/// Joins words to a line of a shell: `shell_words::join`, which depends on the words alone.
#[verifier::external_body]
pub(crate) fn shell_join(words: &Vec<String>) -> (result: String)
    ensures
        result@ == shell_joined(text::views(words@)),
{
    shell_words::join(words)
}

/// Why a program cannot be started: one that is named must be the one that runs.
pub open spec fn executable_fault(explicit: Seq<char>, same: bool) -> Option<Seq<char>> {
    unless(
        text::trim_of(explicit).len() == 0 || same,
        "--tunnel-client-bin only accepts the current executable"@,
    )
}

/// Checks the program that is named for runtimes, given whether it is the one that runs.
pub fn executable(explicit: &str, same: bool) -> (result: Result<(), String>)
    ensures
        tells(result, executable_fault(explicit@, same)),
{
    if text::trim(explicit).is_empty() || same {
        Ok(())
    } else {
        Err("--tunnel-client-bin only accepts the current executable".to_owned())
    }
}

/// The name of the terminal session of a runtime.
pub open spec fn session_name_of(root: Seq<char>, alias: Seq<char>) -> Seq<char> {
    "tunnel-mcp__"@ + alias + "__"@ + digest::hex_of(
        digest::sha256_of(vstd::utf8::encode_utf8(root)),
    ).take(8)
}

/// The name of the terminal session of a runtime.
pub fn session_name(root: &Root, alias: &str) -> (result: String)
    ensures
        result@ == session_name_of(root.path@, alias@),
{
    let bytes = digest::sha256(&text::bytes(&root.path));
    let all = digest::hex(&bytes);
    proof {
        digest::lemma_hex_len(bytes@);
    }
    let code = text::piece(&text::chars(&all), 0, 8);
    assert(code@ =~= all@.take(8));
    text::cat(&text::cat3("tunnel-mcp__", alias, "__"), &code)
}

/// The name of the terminal session that is a runtime's own, or why there is none.
pub fn owned_session(root: &Root, alias: &str, process: &Process) -> (result: Result<String, String>)
    ensures
        ({
            let expected = session_name_of(root.path@, alias@);
            let own = text::trim_of(process.session_name@).len() == 0 || process.session_name@
                == expected;
            match result {
                Ok(name) => own && name@ == expected,
                Err(reason) => !own && reason@ == "recorded tmux session does not match "@
                    + expected,
            }
        }),
{
    let expected = session_name(root, alias);
    if text::trim(&process.session_name).is_empty() || text::same(
        &process.session_name,
        &expected,
    ) {
        Ok(expected)
    } else {
        Err(text::cat("recorded tmux session does not match ", &expected))
    }
}

/// Whether a path can be the one of a socket: it is absolute, and on one line.
pub open spec fn is_socket_path(path: Seq<char>) -> bool {
    &&& "/"@.is_prefix_of(path)
    &&& !path.contains('\u{0}')
    &&& !path.contains('\r')
    &&& !path.contains('\n')
}

fn socket_path(path: &str) -> (result: bool)
    ensures
        result == is_socket_path(path@),
{
    text::starts_with(path, "/") && !text::contains_char(path, '\u{0}') && !text::contains_char(
        path,
        '\r',
    ) && !text::contains_char(path, '\n')
}

/// The words of a command to the terminal server.
pub open spec fn tmux_words(socket: Seq<char>, command: Seq<char>, session: Seq<char>) -> Seq<Seq<char>> {
    let selector = if socket.len() == 0 {
        seq!["-L"@, "default"@]
    } else {
        seq!["-S"@, socket]
    };
    selector + seq![command, "-t"@, "="@ + session]
}

/// The words of a command to the terminal server.
pub fn tmux_arguments(socket: &str, command: &str, session: &str) -> (result: Result<
    Vec<String>,
    String,
>)
    ensures
        match result {
            Ok(words) => (socket@.len() == 0 || is_socket_path(socket@)) && text::views(words@)
                == tmux_words(socket@, command@, session@),
            Err(reason) => socket@.len() > 0 && !is_socket_path(socket@) && reason@
                == "tmux socket path must be absolute"@,
        },
{
    let mut words: Vec<String> = Vec::new();
    if socket.is_empty() {
        words.push("-L".to_owned());
        words.push("default".to_owned());
    } else {
        if !socket_path(socket) {
            return Err("tmux socket path must be absolute".to_owned());
        }
        words.push("-S".to_owned());
        words.push(socket.to_owned());
    }
    words.push(command.to_owned());
    words.push("-t".to_owned());
    words.push(text::cat("=", session));
    assert(text::views(words@) =~= tmux_words(socket@, command@, session@));
    Ok(words)
}

/// The sockets at which the session of a runtime may be: the recorded one, or the one of the
/// environment and the usual one.
pub open spec fn sockets_of(recorded: Seq<char>, variable: Option<Seq<char>>) -> Seq<Seq<char>> {
    let own = text::trim_of(recorded);
    if own.len() > 0 {
        seq![own]
    } else {
        match variable {
            Some(value) => {
                let path = text::split_of(value, ',')[0];
                if is_socket_path(path) {
                    seq![path, Seq::empty()]
                } else {
                    seq![Seq::empty()]
                }
            },
            None => seq![Seq::empty()],
        }
    }
}

/// The sockets at which the session of a runtime may be.
pub fn sockets(process: &Process, variable: Option<&str>) -> (result: Vec<String>)
    ensures
        text::views(result@) == sockets_of(process.tmux_socket@, text::str_view(variable)),
{
    let mut result: Vec<String> = Vec::new();
    let own = text::trim(&process.tmux_socket);
    if !own.is_empty() {
        result.push(own);
        assert(text::views(result@) =~= sockets_of(
            process.tmux_socket@,
            text::str_view(variable),
        ));
        return result;
    }
    if let Some(value) = variable {
        let parts = text::split(value, ',');
        proof {
            assert(text::views(parts@).len() == parts@.len());
            lemma_split_some(value@);
        }
        assert(text::views(parts@)[0] == parts@[0]@);
        if socket_path(&parts[0]) {
            result.push(parts[0].clone());
        }
    }
    let empty = String::new();
    assert(empty@ =~= Seq::<char>::empty());
    result.push(empty);
    assert(text::views(result@) =~= sockets_of(process.tmux_socket@, text::str_view(variable)));
    result
}

proof fn lemma_split_some(value: Seq<char>)
    ensures
        text::split_of(value, ',').len() > 0,
    decreases value.len(),
{
    text::lemma_index_in(value, ',');
}

/// Whether the terminal server tells that there is no such session.
pub open spec fn tells_absent(code: Option<i32>, told: Seq<char>) -> bool {
    &&& code == Some(1i32)
    &&& {
        ||| text::occurs(told, "can't find session:"@)
        ||| text::occurs(told, "no server running on "@)
        ||| text::occurs(told, "error connecting to "@) && text::occurs(
            told,
            "no such file or directory"@,
        )
    }
}

/// Whether there is a session, from what the terminal server tells.
pub fn has_session(code: Option<i32>, output: &str, errors: &str) -> (result: Result<bool, String>)
    ensures
        ({
            let told = text::lowercase_of(if errors@.len() == 0 {
                output@
            } else {
                errors@
            });
            match result {
                Ok(true) => code == Some(0i32),
                Ok(false) => code != Some(0i32) && tells_absent(code, told),
                Err(reason) => code != Some(0i32) && !tells_absent(code, told) && reason@
                    == "tmux has-session failed: "@ + text::trim_of(told),
            }
        }),
{
    if let Some(0) = code {
        return Ok(true);
    }
    let told = if errors.is_empty() {
        text::lowercase(output)
    } else {
        text::lowercase(errors)
    };
    let one = match code {
        Some(value) => value == 1,
        None => false,
    };
    if one && (text::contains_text(&told, "can't find session:") || text::contains_text(
        &told,
        "no server running on ",
    ) || (text::contains_text(&told, "error connecting to ") && text::contains_text(
        &told,
        "no such file or directory",
    ))) {
        return Ok(false);
    }
    Err(text::cat("tmux has-session failed: ", &text::trim(&told)))
}

/// What it means that no session was found: nothing where its socket is recorded.
pub fn absent(process: &Process) -> (result: Result<(), String>)
    ensures
        match result {
            Ok(()) => text::trim_of(process.tmux_socket@).len() > 0,
            Err(reason) => text::trim_of(process.tmux_socket@).len() == 0 && reason@
                == "recorded legacy tmux runtime has no socket provenance and no owned session was found on the ambient or default socket"@,
        },
{
    if text::trim(&process.tmux_socket).is_empty() {
        Err(
            "recorded legacy tmux runtime has no socket provenance and no owned session was found on the ambient or default socket".to_owned(),
        )
    } else {
        Ok(())
    }
}

/// What it means how the end of a session went.
pub fn ended(success: bool, errors: &str) -> (result: Result<(), String>)
    ensures
        match result {
            Ok(()) => success,
            Err(reason) => !success && reason@ == "tmux kill-session failed: "@ + text::trim_of(
                errors@,
            ),
        },
{
    if success {
        Ok(())
    } else {
        Err(text::cat("tmux kill-session failed: ", &text::trim(errors)))
    }
}

impl Process {
    /// What tells the recorded process from others.
    pub fn identity(&self) -> (result: Identity)
        ensures
            result.start@ == self.pid_start_time@,
            result.executable@ == self.pid_executable@,
    {
        Identity { start: self.pid_start_time.clone(), executable: self.pid_executable.clone() }
    }
}

/// The words with which a runtime is started.
pub open spec fn run_words(directory: Seq<char>, profile: Seq<char>) -> Seq<Seq<char>> {
    seq!["run"@, "--profile-dir"@, directory, "--profile"@, profile]
}

/// The words with which a runtime is started.
pub fn run_arguments(record: &Alias) -> (result: Vec<String>)
    ensures
        text::views(result@) == run_words(record.profile_dir@, record.profile_name@),
{
    let mut words: Vec<String> = Vec::new();
    words.push("run".to_owned());
    words.push("--profile-dir".to_owned());
    words.push(record.profile_dir.clone());
    words.push("--profile".to_owned());
    words.push(record.profile_name.clone());
    assert(text::views(words@) =~= run_words(record.profile_dir@, record.profile_name@));
    words
}

/// The line with which a runtime is started.
pub fn run_line(binary: &str, record: &Alias) -> (result: String)
    ensures
        result@ == shell_joined(
            seq![binary@] + run_words(record.profile_dir@, record.profile_name@),
        ),
{
    let mut words: Vec<String> = Vec::new();
    words.push(binary.to_owned());
    let mut rest = run_arguments(record);
    proof {
        assert(text::views(words@) =~= seq![binary@]);
        assert(text::views(words@ + rest@) =~= text::views(words@) + text::views(rest@));
    }
    words.append(&mut rest);
    shell_join(&words)
}

/// The file of a runtime below a directory.
pub open spec fn managed_of(root: Seq<char>, directory: Seq<char>, alias: Seq<char>, ending: Seq<char>) -> Seq<
    char,
> {
    path_below(path_below(root, directory), alias + ending)
}

/// The file of a runtime below a directory.
pub fn managed(root: &Root, directory: &str, alias: &str, ending: &str) -> (result: String)
    ensures
        result@ == managed_of(root.path@, directory@, alias@, ending@),
{
    below(&below(&root.path, directory), &text::cat(alias, ending))
}

/// What is done about a runtime that was recorded before another one is started.
#[derive(Clone, Copy, PartialEq, Eq, Structural)]
pub enum Before {
    /// Its terminal session is ended.
    EndSession,
    /// Its process is ended.
    EndProcess,
    /// It is kept in place of another one.
    Keep,
    Nothing,
}

/// What is done about a runtime that was recorded, given whether it has a terminal session, and whether
/// its process is there.
pub fn before(previous: &Process, replace: bool, session: bool, there: bool) -> (result: Before)
    ensures
        result == (if previous.mode@ == "tmux"@ {
            if session {
                Before::EndSession
            } else {
                Before::Nothing
            }
        } else if previous.pid is Some && there {
            if replace {
                Before::EndProcess
            } else {
                Before::Keep
            }
        } else {
            Before::Nothing
        }),
{
    if text::same(&previous.mode, "tmux") {
        if session {
            Before::EndSession
        } else {
            Before::Nothing
        }
    } else if previous.pid.is_some() && there {
        if replace {
            Before::EndProcess
        } else {
            Before::Keep
        }
    } else {
        Before::Nothing
    }
}

/// What is known of a runtime that is started.
pub struct Launch {
    pub mode: String,
    pub command: String,
    pub launched: bool,
    pub started: bool,
    pub running: bool,
    pub healthy: bool,
    pub ready: bool,
    pub already_running: bool,
    pub health_url: String,
    pub session_name: String,
    pub log_path: String,
    pub pid: Option<u32>,
    pub exit_code: Option<i32>,
    pub log_tail: String,
    pub identity: Identity,
}

impl Launch {
    /// A runtime that is not started yet.
    pub fn new(root: &Root, binary: &str, record: &Alias) -> (result: Launch)
        ensures
            result.mode@ == "process"@,
            result.command@ == shell_joined(
                seq![binary@] + run_words(record.profile_dir@, record.profile_name@),
            ),
            result.log_path@ == managed_of(root.path@, "logs"@, record.alias@, ".log"@),
            !result.launched && !result.started && !result.running && !result.healthy
                && !result.ready && !result.already_running,
            result.health_url@.len() == 0 && result.session_name@.len() == 0
                && result.log_tail@.len() == 0,
            result.pid is None && result.exit_code is None,
            result.identity.start@.len() == 0 && result.identity.executable@.len() == 0,
    {
        Launch {
            mode: "process".to_owned(),
            command: run_line(binary, record),
            launched: false,
            started: false,
            running: false,
            healthy: false,
            ready: false,
            already_running: false,
            health_url: String::new(),
            session_name: String::new(),
            log_path: managed(root, "logs", &record.alias, ".log"),
            pid: None,
            exit_code: None,
            log_tail: String::new(),
            identity: Identity { start: String::new(), executable: String::new() },
        }
    }

    /// Notes how a runtime is, given how it ended where it did, whether its process is there, and what
    /// it tells of its health.
    pub fn observe(&mut self, exit: Option<i32>, there: bool, probe: &Probe)
        ensures
            ({
                let code = if exit is Some {
                    exit
                } else {
                    old(self).exit_code
                };
                &&& final(self).health_url@ == probe.healthz.url@
                &&& *final(self) == (Launch {
                    exit_code: code,
                    running: code is None && old(self).pid is Some && there,
                    health_url: final(self).health_url,
                    healthy: probe.healthz.ok,
                    ready: probe.readyz.ok,
                    started: probe.healthz.ok,
                    ..*old(self)
                })
            }),
    {
        if exit.is_some() {
            self.exit_code = exit;
        }
        self.running = self.exit_code.is_none() && self.pid.is_some() && there;
        self.health_url = probe.healthz.url.clone();
        self.healthy = probe.healthz.ok;
        self.ready = probe.readyz.ok;
        self.started = probe.healthz.ok;
    }

    /// Whether a runtime is watched no longer: it is healthy, it is gone, or the time is over.
    pub fn seen(&self, expired: bool) -> (result: bool)
        ensures
            result == (self.healthy || !self.running || expired),
    {
        self.healthy || !self.running || expired
    }

    /// What is told of the start of a runtime, but for its health and its log.
    pub open spec fn told_doc(self, base: Doc) -> Doc {
        base.with("mode"@, Doc::Text(self.mode@)).with("command"@, Doc::Text(self.command@)).with(
            "launched"@,
            Doc::Bool(self.launched),
        ).with("started"@, Doc::Bool(self.started)).with("running"@, Doc::Bool(self.running)).with(
            "already_running"@,
            Doc::Bool(self.already_running),
        ).with("session_name"@, Doc::Text(self.session_name@)).with(
            "log_path"@,
            Doc::Text(self.log_path@),
        ).with_if(
            self.pid is Some,
            "pid"@,
            match self.pid {
                Some(pid) => Doc::number(pid as nat),
                None => Doc::Null,
            },
        ).with_if(
            self.exit_code is Some,
            "exit_code"@,
            match self.exit_code {
                Some(code) => Doc::figures(text::signed_of(code as int)),
                None => Doc::Null,
            },
        )
    }

    /// What is told of the start of a runtime, but for its health and its log.
    pub fn told(&self, base: Json) -> (result: Json)
        ensures
            result.doc() == self.told_doc(base.doc()),
    {
        let pid = match self.pid {
            Some(pid) => Json::number(pid as u64),
            None => Json::Null,
        };
        let code = match self.exit_code {
            Some(code) => Json::figures(&text::signed(code)),
            None => Json::Null,
        };
        base.with("mode", Json::text(&self.mode)).with("command", Json::text(&self.command)).with(
            "launched",
            Json::Bool(self.launched),
        ).with("started", Json::Bool(self.started)).with("running", Json::Bool(self.running)).with(
            "already_running",
            Json::Bool(self.already_running),
        ).with("session_name", Json::text(&self.session_name)).with(
            "log_path",
            Json::text(&self.log_path),
        ).with_if(self.pid.is_some(), "pid", pid).with_if(
            self.exit_code.is_some(),
            "exit_code",
            code,
        )
    }

    /// What is told of a start that may have failed, or null.
    pub open spec fn diagnostics_doc(self) -> Doc {
        if self.log_path@.len() == 0 && self.log_tail@.len() == 0 && self.exit_code is None {
            Doc::Null
        } else {
            Doc::object().with_if(
                self.log_path@.len() > 0,
                "log_path"@,
                Doc::Text(self.log_path@),
            ).with_if(self.log_tail@.len() > 0, "log_tail"@, Doc::Text(self.log_tail@)).with_if(
                self.exit_code is Some,
                "exit_code"@,
                match self.exit_code {
                    Some(code) => Doc::figures(text::signed_of(code as int)),
                    None => Doc::Null,
                },
            )
        }
    }

    /// What is told of a start that may have failed, or null.
    pub fn diagnostics(&self) -> (result: Json)
        ensures
            result.doc() == self.diagnostics_doc(),
    {
        if self.log_path.is_empty() && self.log_tail.is_empty() && self.exit_code.is_none() {
            return Json::Null;
        }
        let code = match self.exit_code {
            Some(code) => Json::figures(&text::signed(code)),
            None => Json::Null,
        };
        Json::object().with_if(
            !self.log_path.is_empty(),
            "log_path",
            Json::text(&self.log_path),
        ).with_if(!self.log_tail.is_empty(), "log_tail", Json::text(&self.log_tail)).with_if(
            self.exit_code.is_some(),
            "exit_code",
            code,
        )
    }
}

/// Only the own executable is started.
pub proof fn lemma_own_executable(explicit: Seq<char>, same: bool)
    ensures
        executable_fault(explicit, same) is None <==> same || text::trim_of(explicit).len() == 0,
{
}

/// A session is named by its alias and by where its state is kept.
pub proof fn lemma_session_named(root: Seq<char>, alias: Seq<char>)
    ensures
        ("tunnel-mcp__"@ + alias + "__"@).is_prefix_of(session_name_of(root, alias)),
{
    let front = "tunnel-mcp__"@ + alias + "__"@;
    let whole = session_name_of(root, alias);
    assert(whole.subrange(0, front.len() as int) =~= front);
}

/// A session is asked for by its exact name, over the named socket or the common one.
pub proof fn lemma_session_asked(socket: Seq<char>, command: Seq<char>, session: Seq<char>)
    ensures
        socket.len() == 0 ==> tmux_words(socket, command, session) == seq![
            "-L"@,
            "default"@,
            command,
            "-t"@,
            "="@ + session,
        ],
        socket.len() > 0 ==> tmux_words(socket, command, session) == seq![
            "-S"@,
            socket,
            command,
            "-t"@,
            "="@ + session,
        ],
{
}

/// The recorded socket is the only one that is asked; without one, that of the environment is asked before the common
/// one where it is an absolute path on one line.
pub proof fn lemma_sockets_asked(recorded: Seq<char>, value: Seq<char>)
    ensures
        text::trim_of(recorded).len() > 0 ==> sockets_of(recorded, Some(value)) == seq![text::trim_of(recorded)]
            && sockets_of(recorded, None) == seq![text::trim_of(recorded)],
        text::trim_of(recorded).len() == 0 ==> sockets_of(recorded, None) == seq![Seq::<char>::empty()],
        text::trim_of(recorded).len() == 0 ==> sockets_of(recorded, Some(value)).last().len() == 0,
        text::trim_of(recorded).len() == 0 && sockets_of(recorded, Some(value)).len() > 1 ==> sockets_of(
            recorded,
            Some(value),
        )[0] == text::split_of(value, ',')[0] && text::split_of(value, ',')[0][0] == '/' && !text::split_of(
            value,
            ',',
        )[0].contains('\n'),
        text::trim_of(recorded).len() == 0 && is_socket_path(text::split_of(value, ',')[0]) ==> sockets_of(
            recorded,
            Some(value),
        ) == seq![text::split_of(value, ',')[0], Seq::<char>::empty()],
{
    reveal_strlit("/");
    let path = text::split_of(value, ',')[0];
    if "/"@.is_prefix_of(path) {
        assert(path[0] == "/"@[0]);
    }
}

/// A session is absent only where the command fails with 1 and says so.
pub proof fn lemma_absent_told(code: Option<i32>, told: Seq<char>)
    ensures
        code != Some(1i32) ==> !tells_absent(code, told),
        code == Some(1i32) && text::occurs(told, "can't find session:"@) ==> tells_absent(code, told),
        code == Some(1i32) && text::occurs(told, "no server running on "@) ==> tells_absent(code, told),
        code == Some(1i32) && text::occurs(told, "error connecting to "@) && text::occurs(
            told,
            "no such file or directory"@,
        ) ==> tells_absent(code, told),
        !text::occurs(told, "can't find session:"@) && !text::occurs(told, "no server running on "@)
            && !text::occurs(told, "error connecting to "@) ==> !tells_absent(code, told),
{
}

/// A runtime is started with its profile; its files stand below the state.
pub proof fn lemma_runtime_started(directory: Seq<char>, profile: Seq<char>, root: Seq<char>, alias: Seq<char>)
    ensures
        run_words(directory, profile) == seq!["run"@, "--profile-dir"@, directory, "--profile"@, profile],
        managed_of(root, "logs"@, alias, ".log"@) == path_below(path_below(root, "logs"@), alias + ".log"@),
{
}

/// What is told of a start.
pub proof fn lemma_launch_told(launch: Launch)
    ensures
        ({
            let doc = launch.told_doc(Doc::object());
            &&& doc.at("mode"@) == Doc::Text(launch.mode@)
            &&& doc.at("command"@) == Doc::Text(launch.command@)
            &&& doc.at("launched"@) == Doc::Bool(launch.launched)
            &&& doc.at("started"@) == Doc::Bool(launch.started)
            &&& doc.at("running"@) == Doc::Bool(launch.running)
            &&& doc.at("already_running"@) == Doc::Bool(launch.already_running)
            &&& doc.at("session_name"@) == Doc::Text(launch.session_name@)
            &&& doc.at("log_path"@) == Doc::Text(launch.log_path@)
            &&& launch.pid matches Some(pid) ==> doc.at("pid"@) == Doc::number(pid as nat)
            &&& launch.pid is None ==> doc.at("pid"@) == Doc::Null
            &&& launch.exit_code is None ==> doc.at("exit_code"@) == Doc::Null
        }),
        launch.log_path@.len() > 0 ==> launch.diagnostics_doc().at("log_path"@) == Doc::Text(launch.log_path@),
        launch.log_tail@.len() > 0 ==> launch.diagnostics_doc().at("log_tail"@) == Doc::Text(launch.log_tail@),
{
    reveal_strlit("mode");
    reveal_strlit("command");
    reveal_strlit("launched");
    reveal_strlit("started");
    reveal_strlit("running");
    reveal_strlit("already_running");
    reveal_strlit("session_name");
    reveal_strlit("log_path");
    reveal_strlit("pid");
    reveal_strlit("exit_code");
    reveal_strlit("log_tail");
    assert("mode"@.len() == 4);
    assert("command"@.len() == 7 && "command"@[0] == 'c');
    assert("launched"@.len() == 8 && "launched"@[1] == 'a');
    assert("started"@.len() == 7 && "started"@[0] == 's');
    assert("running"@.len() == 7 && "running"@[0] == 'r');
    assert("already_running"@.len() == 15);
    assert("session_name"@.len() == 12);
    assert("log_path"@.len() == 8 && "log_path"@[1] == 'o' && "log_path"@[4] == 'p');
    assert("pid"@.len() == 3);
    assert("exit_code"@.len() == 9);
    assert("log_tail"@.len() == 8 && "log_tail"@[1] == 'o' && "log_tail"@[4] == 't');
}

} // verus!
