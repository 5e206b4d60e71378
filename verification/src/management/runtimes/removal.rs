//! The end of managed tunnels.

use vstd::prelude::*;
use crate::json::{self, Doc, Json};
use crate::management::inspect::{self, actions_doc, live_doc, Seen};
use crate::management::profiles::{first, first_of, Manager};
use crate::management::records::{
    alias_views, process_views, AdminProfile, AdminProfileView, Alias, AliasView, Process,
    ProcessView,
};
use crate::management::runtimes::connection::truth_of;
use crate::management::runtimes::report::{steps, steps_of};
use crate::management::runtimes::{known, known_of, Outcome};
use crate::management::state;
use crate::table::{self, ordered_keys, Table};
use crate::text;

verus! {

/// The runtime that was known under a name, or one without contents.
pub open spec fn running_of(processes: Map<Seq<char>, ProcessView>, name: Seq<char>) -> ProcessView {
    if processes.dom().contains(name) {
        processes[name]
    } else {
        ProcessView::bare()
    }
}

/// The runtime that was known under a name, or one without contents.
pub fn running(processes: &Table<Process>, name: &str) -> (result: Process)
    ensures
        result@ == running_of(process_views(processes@), name@),
{
    match processes.get(name) {
        Some(process) => process.copy(),
        None => Process::default(),
    }
}

/// How a runtime is ended.
#[derive(Clone, Copy, PartialEq, Eq, Structural)]
pub enum Stop {
    /// There is nothing to end.
    Nothing,
    /// With its terminal session.
    Session,
    /// With its process.
    Process(u32),
}

/// How a runtime is ended.
pub open spec fn stop_of(process: ProcessView) -> Stop {
    if process.alias.len() == 0 || process.mode == "stopped"@ {
        Stop::Nothing
    } else if process.mode == "tmux"@ {
        Stop::Session
    } else if process.mode == "process"@ {
        match process.pid {
            Some(pid) => Stop::Process(pid),
            None => Stop::Nothing,
        }
    } else {
        Stop::Nothing
    }
}

/// How a runtime is ended.
pub fn stop(process: &Process) -> (result: Stop)
    ensures
        result == stop_of(process@),
{
    if process.alias.is_empty() || text::same(&process.mode, "stopped") {
        Stop::Nothing
    } else if text::same(&process.mode, "tmux") {
        Stop::Session
    } else if text::same(&process.mode, "process") {
        match process.pid {
            Some(pid) => Stop::Process(pid),
            None => Stop::Nothing,
        }
    } else {
        Stop::Nothing
    }
}

/// What is known of a runtime that was ended.
pub open spec fn stopped_of(process: ProcessView) -> ProcessView {
    ProcessView {
        mode: "stopped"@,
        session_name: Seq::empty(),
        tmux_socket: Seq::empty(),
        pid: None,
        pid_start_time: Seq::empty(),
        pid_executable: Seq::empty(),
        ..process
    }
}

/// What is known of a runtime that was ended.
pub fn stopped(process: Process) -> (result: Process)
    ensures
        result@ == stopped_of(process@),
{
    let mut result = process;
    result.mode = "stopped".to_owned();
    result.session_name = String::new();
    result.tmux_socket = String::new();
    result.pid = None;
    result.pid_start_time = String::new();
    result.pid_executable = String::new();
    assert(result@ =~= stopped_of(process@));
    result
}

/// What is known of a runtime after an attempt to end it.
pub open spec fn after_stop(process: ProcessView, error: Seq<char>) -> ProcessView {
    if error.len() == 0 && process.alias.len() > 0 {
        stopped_of(process)
    } else {
        process
    }
}

/// Notes an attempt to end a runtime: the runtimes where they have changed, and what is known of this
/// one.
pub fn note_stop(process: Process, error: &str, processes: Table<Process>, alias: &str) -> (result: (
    Option<Table<Process>>,
    Process,
))
    ensures
        result.1@ == after_stop(process@, error@),
        match result.0 {
            Some(after) => error@.len() == 0 && process.alias@.len() > 0 && process_views(after@)
                == process_views(processes@).insert(alias@, stopped_of(process@)),
            None => error@.len() > 0 || process.alias@.len() == 0,
        },
{
    if error.is_empty() && !process.alias.is_empty() {
        let ended = stopped(process);
        let kept = ended.copy();
        let after = processes.insert(alias.to_owned(), kept);
        assert(process_views(after@) =~= process_views(processes@).insert(alias@, ended@));
        (Some(after), ended)
    } else {
        (None, process)
    }
}

/// A runtime that was ended is not ended again.
pub proof fn lemma_stopped(process: ProcessView)
    ensures
        stop_of(stopped_of(process)) == Stop::Nothing,
        stopped_of(stopped_of(process)) == stopped_of(process),
{
}

/// The line of the history about an attempt to end a runtime.
pub fn stop_line(alias: &str, tunnel: &str, mode: &str, already: bool, error: &str, now: &str) -> (result:
    String)
    ensures
        result@ == state::history_of(
            now@,
            "stop"@,
            alias@,
            tunnel@,
            "previous_mode="@ + mode@ + " already_stopped="@ + truth_of(already) + (
            if error@.len() == 0 {
                Seq::empty()
            } else {
                " error="@ + error@
            }),
        ),
{
    let tail = if error.is_empty() {
        String::new()
    } else {
        text::cat(" error=", error)
    };
    assert(error@.len() == 0 ==> tail@ =~= Seq::<char>::empty());
    let told = if already {
        "true"
    } else {
        "false"
    };
    let detail = text::cat5("previous_mode=", mode, " already_stopped=", told, &tail);
    state::history(now, "stop", alias, tunnel, &detail)
}

impl Manager {
    /// What is told of an attempt to end a runtime.
    pub open spec fn stop_doc(
        self,
        alias: Seq<char>,
        record: AliasView,
        process: ProcessView,
        profile: AdminProfileView,
        seen: Seen,
        already: bool,
        error: Seq<char>,
    ) -> Doc {
        let actions = seen.actions_of(alias, record, process, error);
        self.status_doc(alias, record, process, profile, seen).with("error"@, Doc::Text(error)).with(
            "remote_error"@,
            Doc::Text(error),
        ).with("remote_skipped_reason"@, Doc::Text("stop is a local-only operation"@)).with(
            "next_steps"@,
            json::texts(steps_of(alias, record, process, actions)),
        ).with("repair_actions"@, actions_doc(actions)).with(
            "already_stopped"@,
            Doc::Bool(already),
        ).with("stopped"@, Doc::Bool(error.len() == 0)).with("stop_error"@, Doc::Text(error))
    }

    /// What is told of an attempt to end a runtime, and the code to leave with.
    pub fn stop(
        &self,
        alias: &str,
        record: &Alias,
        process: &Process,
        profile: &AdminProfile,
        seen: &Seen,
        already: bool,
        error: &str,
    ) -> (result: Outcome)
        ensures
            result.payload.doc() == self.stop_doc(
                alias@,
                record@,
                process@,
                profile@,
                *seen,
                already,
                error@,
            ),
            result.code == (if error@.len() == 0 {
                0u8
            } else {
                2u8
            }),
    {
        let actions = seen.actions(alias, record, process, error);
        let payload = self.status_payload(alias, record, process, profile, seen).with(
            "error",
            Json::text(error),
        ).with("remote_error", Json::text(error)).with(
            "remote_skipped_reason",
            Json::text("stop is a local-only operation"),
        ).with("next_steps", Json::texts(&steps(alias, record, process, &actions))).with(
            "repair_actions",
            inspect::actions_json(&actions),
        ).with("already_stopped", Json::Bool(already)).with(
            "stopped",
            Json::Bool(error.is_empty()),
        ).with("stop_error", Json::text(error));
        let code = if error.is_empty() {
            0
        } else {
            2
        };
        Outcome { payload, code }
    }
}

/// The tunnel of a name that has to be known.
pub fn require(aliases: &Table<Alias>, alias: &str) -> (result: Result<Alias, String>)
    ensures
        match result {
            Ok(record) => alias_views(aliases@).dom().contains(alias@) && record@ == alias_views(
                aliases@,
            )[alias@],
            Err(reason) => !alias_views(aliases@).dom().contains(alias@) && reason@ == "alias "@
                + alias@ + " is not known; run create or connect first"@,
        },
{
    match aliases.get(alias) {
        Some(record) => Ok(record.copy()),
        None => Err(text::cat3("alias ", alias, " is not known; run create or connect first")),
    }
}

/// A directory of files that are managed.
#[derive(Clone, Copy, PartialEq, Eq, Structural)]
pub enum Place {
    Logs,
    Health,
    /// None: the file is one of the user.
    Elsewhere,
}

/// The directory of a file.
pub open spec fn place_of(record: AliasView, process: ProcessView, path: Seq<char>) -> Place {
    if path == process.log_path {
        Place::Logs
    } else if path == record.health_url_file || path == process.health_url_file {
        Place::Health
    } else {
        Place::Elsewhere
    }
}

/// The paths of the records of a name, in the order in which they are removed.
pub open spec fn paths_of(record: AliasView, process: ProcessView) -> Seq<Seq<char>> {
    seq![
        record.config_path,
        record.profile_path,
        record.health_url_file,
        process.config_path,
        process.profile_path,
        process.health_url_file,
        process.log_path,
    ]
}

/// The paths that are more than white space.
pub open spec fn solid_of(paths: Seq<Seq<char>>) -> Seq<Seq<char>>
    decreases paths.len(),
{
    if paths.len() == 0 {
        Seq::empty()
    } else {
        let rest = solid_of(paths.drop_last());
        if text::trim_of(paths.last()).len() == 0 {
            rest
        } else {
            rest.push(paths.last())
        }
    }
}

/// The paths of the files that are removed with a name, each once.
pub open spec fn removals_of(record: AliasView, process: ProcessView) -> Seq<Seq<char>> {
    text::distinct_of(solid_of(paths_of(record, process)))
}

/// The place of each path.
pub open spec fn places_of(record: AliasView, process: ProcessView, paths: Seq<Seq<char>>) -> Seq<Place> {
    paths.map_values(|path: Seq<char>| place_of(record, process, path))
}

fn place(record: &Alias, process: &Process, path: &str) -> (result: Place)
    ensures
        result == place_of(record@, process@, path@),
{
    if text::same(path, &process.log_path) {
        Place::Logs
    } else if text::same(path, &record.health_url_file) || text::same(
        path,
        &process.health_url_file,
    ) {
        Place::Health
    } else {
        Place::Elsewhere
    }
}

fn all_paths(record: &Alias, process: &Process) -> (result: Vec<String>)
    ensures
        text::views(result@) == paths_of(record@, process@),
{
    let mut result: Vec<String> = Vec::new();
    result.push(record.config_path.clone());
    result.push(record.profile_path.clone());
    result.push(record.health_url_file.clone());
    result.push(process.config_path.clone());
    result.push(process.profile_path.clone());
    result.push(process.health_url_file.clone());
    result.push(process.log_path.clone());
    assert(text::views(result@) =~= paths_of(record@, process@));
    result
}

/// The files that are removed with a name, and the place of each.
pub fn removals(record: &Alias, process: &Process) -> (result: (Vec<String>, Vec<Place>))
    ensures
        text::views(result.0@) == removals_of(record@, process@),
        result.1@ == places_of(record@, process@, removals_of(record@, process@)),
{
    let paths = all_paths(record, process);
    let ghost all = text::views(paths@);
    let mut kept: Vec<String> = Vec::new();
    let mut places: Vec<Place> = Vec::new();
    let mut index: usize = 0;
    assert(text::views(kept@) =~= text::distinct_of(solid_of(all.take(0))));
    assert(places@ =~= places_of(record@, process@, text::views(kept@)));
    while index < paths.len()
        invariant
            index <= paths.len(),
            all == text::views(paths@),
            all.len() == paths@.len(),
            text::views(kept@) == text::distinct_of(solid_of(all.take(index as int))),
            places@ == places_of(record@, process@, text::views(kept@)),
        decreases paths.len() - index,
    {
        let path = &paths[index];
        proof {
            assert(all.take(index + 1).drop_last() == all.take(index as int));
            assert(all.take(index + 1).last() == path@);
            let front = solid_of(all.take(index as int));
            assert(front.push(path@).drop_last() == front);
        }
        if !text::trim(path).is_empty() && !text::contained(&kept, path) {
            let own = path.clone();
            let ghost before = text::views(kept@);
            places.push(place(record, process, path));
            assert(text::views(kept@.push(own)) =~= before.push(own@));
            kept.push(own);
            assert(places@ =~= places_of(record@, process@, text::views(kept@)));
        }
        index = index + 1;
    }
    assert(all.take(all.len() as int) == all);
    (kept, places)
}

impl Manager {
    /// What is told of a name that was removed.
    pub open spec fn removed_doc(self, alias: Seq<char>, record: AliasView, process: ProcessView) -> Doc {
        Doc::object().with("alias"@, Doc::Text(alias)).with("removed"@, Doc::Bool(true)).with(
            "removed_paths"@,
            json::texts(removals_of(record, process)),
        ).with("state_root"@, Doc::Text(self.root.path@)).with(
            "tunnel_id"@,
            Doc::Text(first_of(record.tunnel_id, process.tunnel_id)),
        )
    }

    /// Checks that a name can be removed: it is known, and its runtime is ended.
    pub fn removable(&self, alias: &str, aliases: &Table<Alias>, processes: &Table<Process>) -> (result:
        Result<(Alias, Process), String>)
        ensures
            ({
                let record = known_of(alias_views(aliases@), alias@);
                let process = running_of(process_views(processes@), alias@);
                let is_known = alias_views(aliases@).dom().contains(alias@) || process.alias.len()
                    > 0;
                let ended = process.alias.len() == 0 || process.mode == ""@ || process.mode
                    == "stopped"@;
                match result {
                    Ok((found, ending)) => is_known && ended && found@ == record && ending@
                        == process,
                    Err(reason) => if !is_known {
                        reason@ == "alias "@ + alias@ + " is not known"@
                    } else {
                        !ended && reason@ == "alias "@ + alias@
                            + " still has a managed runtime; run `otunnel runtimes stop "@
                            + alias@ + "` first"@
                    },
                }
            }),
    {
        let process = running(processes, alias);
        if !aliases.contains(alias) && process.alias.is_empty() {
            return Err(text::cat3("alias ", alias, " is not known"));
        }
        if !process.alias.is_empty() && !text::same(&process.mode, "") && !text::same(
            &process.mode,
            "stopped",
        ) {
            return Err(
                text::cat5(
                    "alias ",
                    alias,
                    " still has a managed runtime; run `otunnel runtimes stop ",
                    alias,
                    "` first",
                ),
            );
        }
        Ok((known(aliases, alias), process))
    }

    /// Removes a name: the names and the runtimes after it, the line of the history, and what is told.
    pub fn remove(
        &self,
        alias: &str,
        record: &Alias,
        process: &Process,
        aliases: Table<Alias>,
        processes: Table<Process>,
        now: &str,
    ) -> (result: (Table<Alias>, Table<Process>, String, Json))
        ensures
            alias_views(result.0@) == alias_views(aliases@).remove(alias@),
            process_views(result.1@) == process_views(processes@).remove(alias@),
            result.2@ == state::history_of(
                now@,
                "rm"@,
                alias@,
                first_of(record.tunnel_id@, process.tunnel_id@),
                "removed_paths="@ + text::decimal_of(removals_of(record@, process@).len()),
            ),
            result.3.doc() == self.removed_doc(alias@, record@, process@),
    {
        let (paths, _) = removals(record, process);
        let count: usize = paths.len();
        assert(text::views(paths@).len() == count);
        let tunnel = first(&record.tunnel_id, &process.tunnel_id);
        let names = aliases.remove(alias);
        let runtimes = processes.remove(alias);
        assert(alias_views(names@) =~= alias_views(aliases@).remove(alias@));
        assert(process_views(runtimes@) =~= process_views(processes@).remove(alias@));
        let detail = text::cat("removed_paths=", &text::decimal(count as u64));
        let line = state::history(now, "rm", alias, &tunnel, &detail);
        let told = Json::object().with("alias", Json::text(alias)).with(
            "removed",
            Json::Bool(true),
        ).with("removed_paths", Json::texts(&paths)).with(
            "state_root",
            Json::text(&self.root.path),
        ).with("tunnel_id", Json::text(&tunnel));
        (names, runtimes, line, told)
    }
}

/// What is known of a name.
#[derive(Clone, Copy, PartialEq, Eq, Structural)]
pub enum Class {
    LiveRuntime,
    ValidProfile,
    MissingProfile,
    /// Nothing is left but the name.
    StaleAlias,
}

impl Class {
    /// The class in words.
    pub open spec fn word(self) -> Seq<char> {
        match self {
            Class::LiveRuntime => "live_runtime"@,
            Class::ValidProfile => "valid_profile"@,
            Class::MissingProfile => "missing_profile"@,
            Class::StaleAlias => "stale_alias"@,
        }
    }

    /// The class in words.
    pub fn text(self) -> (result: &'static str)
        ensures
            result@ == self.word(),
    {
        match self {
            Class::LiveRuntime => "live_runtime",
            Class::ValidProfile => "valid_profile",
            Class::MissingProfile => "missing_profile",
            Class::StaleAlias => "stale_alias",
        }
    }
}

impl Seen {
    /// What is known of a name.
    pub open spec fn class_of(self, record: AliasView, process: ProcessView) -> Class {
        if self.live is Some || self.running || self.tmux {
            Class::LiveRuntime
        } else if self.profile.exists {
            Class::ValidProfile
        } else if self.profile.path@.len() > 0 || first_of(
            process.profile_name,
            record.profile_name,
        ).len() > 0 {
            Class::MissingProfile
        } else {
            Class::StaleAlias
        }
    }

    /// What is known of a name.
    pub fn class(&self, record: &Alias, process: &Process) -> (result: Class)
        ensures
            result == self.class_of(record@, process@),
    {
        if self.live.is_some() || self.running || self.tmux {
            Class::LiveRuntime
        } else if self.profile.exists {
            Class::ValidProfile
        } else if !self.profile.path.is_empty() || !first(
            &process.profile_name,
            &record.profile_name,
        ).is_empty() {
            Class::MissingProfile
        } else {
            Class::StaleAlias
        }
    }

    /// What is told of a name when the names are cleaned up.
    pub open spec fn entry_doc(self, name: Seq<char>, record: AliasView, process: ProcessView) -> Doc {
        let class = self.class_of(record, process);
        Doc::object().with("alias"@, Doc::Text(name)).with(
            "tunnel_id"@,
            Doc::Text(first_of(record.tunnel_id, process.tunnel_id)),
        ).with("classification"@, Doc::Text(class.word())).with(
            "profile"@,
            self.profile_doc(record, process),
        ).with("runtime_state"@, Doc::Text(self.state_of().word())).with(
            "live_runtime"@,
            live_doc(self.live),
        ).with("cleanup_safe"@, Doc::Bool(class == Class::StaleAlias)).with(
            "cleanup_command"@,
            Doc::Text("otunnel runtimes cleanup --apply"@),
        )
    }

    fn entry(&self, name: &str, record: &Alias, process: &Process, class: Class) -> (result: Json)
        requires
            class == self.class_of(record@, process@),
        ensures
            result.doc() == self.entry_doc(name@, record@, process@),
    {
        let safe = match class {
            Class::StaleAlias => true,
            _ => false,
        };
        Json::object().with("alias", Json::text(name)).with(
            "tunnel_id",
            Json::text(&first(&record.tunnel_id, &process.tunnel_id)),
        ).with("classification", Json::text(class.text())).with(
            "profile",
            self.profile_json(record, process),
        ).with("runtime_state", Json::text(self.state().text())).with(
            "live_runtime",
            inspect::live_json(&self.live),
        ).with("cleanup_safe", Json::Bool(safe)).with(
            "cleanup_command",
            Json::text("otunnel runtimes cleanup --apply"),
        )
    }
}

/// All names of tunnels and runtimes.
pub open spec fn names_of(aliases: Set<Seq<char>>, processes: Set<Seq<char>>) -> Seq<Seq<char>> {
    ordered_keys(aliases.union(processes))
}

fn mark<V>(marks: Table<bool>, items: &Table<V>) -> (result: Table<bool>)
    ensures
        result@.dom() == marks@.dom().union(items@.dom()),
{
    let mut result = marks;
    let count: usize = items.len();
    let ghost keys = items.keys();
    let mut index: usize = 0;
    assert(result@.dom() =~= marks@.dom().union(keys.take(0).to_set()));
    while index < count
        invariant
            index <= count,
            count == keys.len(),
            keys == items.keys(),
            result@.dom() == marks@.dom().union(keys.take(index as int).to_set()),
        decreases count - index,
    {
        let key = items.key(index).clone();
        proof {
            let before = keys.take(index as int);
            let after = keys.take(index + 1);
            assert(after == before.push(key@));
            assert(after.to_set() =~= before.to_set().insert(key@)) by {
                before.lemma_push_to_set_commute(key@);
            }
            assert(marks@.dom().union(before.to_set()).insert(key@) =~= marks@.dom().union(
                after.to_set(),
            ));
        }
        result = result.insert(key, true);
        index = index + 1;
    }
    proof {
        assert(keys.take(keys.len() as int) == keys);
        assert(keys.to_set() =~= items@.dom()) by {
            assert forall|key: Seq<char>| #[trigger] keys.to_set().contains(key)
                <==> items@.dom().contains(key) by {
                assert(keys.contains(key) <==> items@.dom().contains(key));
            }
        }
    }
    result
}

/// All names of tunnels and runtimes, in order.
pub fn names(aliases: &Table<Alias>, processes: &Table<Process>) -> (result: Vec<String>)
    ensures
        text::views(result@) == names_of(aliases@.dom(), processes@.dom()),
{
    let empty: Table<bool> = Table::new();
    let marks = mark(mark(empty, aliases), processes);
    assert(marks@.dom() =~= aliases@.dom().union(processes@.dom()));
    let count: usize = marks.len();
    let ghost keys = marks.keys();
    proof {
        assert forall|key: Seq<char>| #[trigger] keys.contains(key) <==> marks@.dom().contains(
            key,
        ) by {}
        table::lemma_ordered_keys(keys, aliases@.dom().union(processes@.dom()));
    }
    let mut result: Vec<String> = Vec::new();
    let mut index: usize = 0;
    assert(text::views(result@) =~= keys.take(0));
    while index < count
        invariant
            index <= count,
            count == keys.len(),
            keys == marks.keys(),
            text::views(result@) == keys.take(index as int),
        decreases count - index,
    {
        let key = marks.key(index).clone();
        assert(keys.take(index + 1) == keys.take(index as int).push(key@));
        assert(text::views(result@.push(key)) =~= text::views(result@).push(key@));
        result.push(key);
        index = index + 1;
    }
    assert(keys.take(keys.len() as int) == keys);
    result
}

/// What is told of the first names.
pub open spec fn entry_docs(
    names: Seq<Seq<char>>,
    seen: Seq<Seen>,
    aliases: Map<Seq<char>, AliasView>,
    processes: Map<Seq<char>, ProcessView>,
    count: int,
) -> Seq<Doc>
    decreases count,
{
    if count <= 0 {
        Seq::empty()
    } else {
        let name = names[count - 1];
        entry_docs(names, seen, aliases, processes, count - 1).push(
            seen[count - 1].entry_doc(
                name,
                known_of(aliases, name),
                running_of(processes, name),
            ),
        )
    }
}

/// Those of the first names of which nothing is left.
pub open spec fn stale_of(
    names: Seq<Seq<char>>,
    seen: Seq<Seen>,
    aliases: Map<Seq<char>, AliasView>,
    processes: Map<Seq<char>, ProcessView>,
    count: int,
) -> Seq<Seq<char>>
    decreases count,
{
    if count <= 0 {
        Seq::empty()
    } else {
        let name = names[count - 1];
        let before = stale_of(names, seen, aliases, processes, count - 1);
        if seen[count - 1].class_of(known_of(aliases, name), running_of(processes, name))
            == Class::StaleAlias {
            before.push(name)
        } else {
            before
        }
    }
}

/// The lines of the history about names that are forgotten.
pub open spec fn cleanup_lines(
    names: Seq<Seq<char>>,
    aliases: Map<Seq<char>, AliasView>,
    processes: Map<Seq<char>, ProcessView>,
    now: Seq<char>,
) -> Seq<Seq<char>> {
    names.map_values(
        |name: Seq<char>|
            state::history_of(
                now,
                "cleanup"@,
                name,
                first_of(
                    known_of(aliases, name).tunnel_id,
                    running_of(processes, name).tunnel_id,
                ),
                "removed stale local alias/process metadata"@,
            ),
    )
}

/// What the cleaning up of names comes to.
pub struct Cleanup {
    pub entries: Json,
    /// The names that are forgotten.
    pub removed: Vec<String>,
    /// The lines of the history.
    pub lines: Vec<String>,
}

/// The note on names of which nothing is left.
pub const REVIEW: &'static str = "Review entries with classification=stale_alias, then run `otunnel runtimes cleanup --apply` to remove only stale local alias/process metadata.";

impl Manager {
    /// Looks at all names, and at which are forgotten where that is asked for.
    pub fn review(
        &self,
        names: &Vec<String>,
        seen: &Vec<Seen>,
        aliases: &Table<Alias>,
        processes: &Table<Process>,
        apply: bool,
        now: &str,
    ) -> (result: Cleanup)
        requires
            names@.len() == seen@.len(),
        ensures
            ({
                let all = text::views(names@);
                let known = alias_views(aliases@);
                let run = process_views(processes@);
                let stale = if apply {
                    stale_of(all, seen@, known, run, all.len() as int)
                } else {
                    Seq::empty()
                };
                &&& result.entries.doc() == Doc::List(
                    entry_docs(all, seen@, known, run, all.len() as int),
                )
                &&& text::views(result.removed@) == stale
                &&& text::views(result.lines@) == cleanup_lines(stale, known, run, now@)
            }),
    {
        let ghost all = text::views(names@);
        let ghost aliases_view = alias_views(aliases@);
        let ghost processes_view = process_views(processes@);
        let ghost stale = |n: int|
            if apply {
                stale_of(all, seen@, aliases_view, processes_view, n)
            } else {
                Seq::<Seq<char>>::empty()
            };
        let mut entries: Vec<Json> = Vec::new();
        let mut removed: Vec<String> = Vec::new();
        let mut lines: Vec<String> = Vec::new();
        let mut index: usize = 0;
        assert(text::views(removed@) =~= Seq::<Seq<char>>::empty());
        assert(text::views(lines@) =~= cleanup_lines(
            Seq::empty(),
            aliases_view,
            processes_view,
            now@,
        ));
        while index < names.len()
            invariant
                index <= names.len(),
                names@.len() == seen@.len(),
                all == text::views(names@),
                aliases_view == alias_views(aliases@),
                processes_view == process_views(processes@),
                stale == (|n: int|
                    if apply {
                        stale_of(all, seen@, aliases_view, processes_view, n)
                    } else {
                        Seq::<Seq<char>>::empty()
                    }),
                json::docs(entries@) == entry_docs(
                    all,
                    seen@,
                    aliases_view,
                    processes_view,
                    index as int,
                ),
                text::views(removed@) == stale(index as int),
                text::views(lines@) == cleanup_lines(
                    text::views(removed@),
                    aliases_view,
                    processes_view,
                    now@,
                ),
            decreases names.len() - index,
        {
            let name = &names[index];
            assert(all[index as int] == name@);
            let record = known(aliases, name);
            let process = running(processes, name);
            let class = seen[index].class(&record, &process);
            let shown = seen[index].entry(name, &record, &process, class);
            proof {
                json::lemma_docs_push(entries@, shown);
            }
            entries.push(shown);
            let gone = match class {
                Class::StaleAlias => true,
                _ => false,
            };
            if apply && gone {
                let line = state::history(
                    now,
                    "cleanup",
                    name,
                    &first(&record.tunnel_id, &process.tunnel_id),
                    "removed stale local alias/process metadata",
                );
                let own = name.clone();
                let ghost before = text::views(removed@);
                assert(text::views(removed@.push(own)) =~= before.push(own@));
                assert(text::views(lines@.push(line)) =~= text::views(lines@).push(line@));
                removed.push(own);
                lines.push(line);
                assert(text::views(lines@) =~= cleanup_lines(
                    text::views(removed@),
                    aliases_view,
                    processes_view,
                    now@,
                ));
            }
            index = index + 1;
        }
        Cleanup { entries: Json::List(entries), removed, lines }
    }

    /// What is told of the cleaning up of names.
    pub fn cleanup(&self, apply: bool, found: Cleanup) -> (result: Json)
        ensures
            result.doc() == Doc::object().with("state_root"@, Doc::Text(self.root.path@)).with(
                "apply"@,
                Doc::Bool(apply),
            ).with("entries"@, found.entries.doc()).with(
                "removed"@,
                json::texts(text::views(found.removed@)),
            ).with("next_steps"@, json::texts(seq![REVIEW@])),
    {
        let steps = Json::texts1(REVIEW);
        let removed = Json::texts(&found.removed);
        Json::object().with("state_root", Json::text(&self.root.path)).with(
            "apply",
            Json::Bool(apply),
        ).with("entries", found.entries).with("removed", removed).with("next_steps", steps)
    }
}

/// The names and the runtimes without the names that are forgotten.
pub fn forget(removed: &Vec<String>, aliases: Table<Alias>, processes: Table<Process>) -> (result: (
    Table<Alias>,
    Table<Process>,
))
    ensures
        result.0@ == aliases@.remove_keys(text::views(removed@).to_set()),
        result.1@ == processes@.remove_keys(text::views(removed@).to_set()),
{
    let ghost all = text::views(removed@);
    let mut names = aliases;
    let mut runtimes = processes;
    let mut index: usize = 0;
    assert(names@ =~= aliases@.remove_keys(all.take(0).to_set()));
    assert(runtimes@ =~= processes@.remove_keys(all.take(0).to_set()));
    while index < removed.len()
        invariant
            index <= removed.len(),
            all == text::views(removed@),
            names@ == aliases@.remove_keys(all.take(index as int).to_set()),
            runtimes@ == processes@.remove_keys(all.take(index as int).to_set()),
        decreases removed.len() - index,
    {
        let name = &removed[index];
        let ghost before = all.take(index as int);
        let ghost after = all.take(index + 1);
        names = names.remove(name);
        runtimes = runtimes.remove(name);
        proof {
            assert(after == before.push(name@));
            before.lemma_push_to_set_commute(name@);
            assert(names@ =~= aliases@.remove_keys(after.to_set()));
            assert(runtimes@ =~= processes@.remove_keys(after.to_set()));
        }
        index = index + 1;
    }
    assert(all.take(all.len() as int) == all);
    (names, runtimes)
}

/// A name is only forgotten where nothing runs under it and no profile is left of it.
pub proof fn lemma_cleanup_safe(
    names: Seq<Seq<char>>,
    seen: Seq<Seen>,
    aliases: Map<Seq<char>, AliasView>,
    processes: Map<Seq<char>, ProcessView>,
    count: int,
    name: Seq<char>,
)
    requires
        0 <= count <= names.len(),
        count <= seen.len(),
        stale_of(names, seen, aliases, processes, count).contains(name),
    ensures
        exists|i: int|
            0 <= i < count && #[trigger] names[i] == name && seen[i].live is None
                && !seen[i].running && !seen[i].tmux && !seen[i].profile.exists,
    decreases count,
{
    if count > 0 {
        let before = stale_of(names, seen, aliases, processes, count - 1);
        if before.contains(name) {
            lemma_cleanup_safe(names, seen, aliases, processes, count - 1, name);
        } else {
            assert(names[count - 1] == name);
        }
    }
}

/// How a runtime is stopped: a session by its name, a process by its number, and what is not running not at all.
pub proof fn lemma_stop_chosen(process: ProcessView, pid: u32)
    ensures
        process.alias.len() == 0 ==> stop_of(process) == Stop::Nothing,
        process.mode == "stopped"@ ==> stop_of(process) == Stop::Nothing,
        process.alias.len() > 0 && process.mode == "tmux"@ ==> stop_of(process) == Stop::Session,
        process.alias.len() > 0 && process.mode == "process"@ && process.pid == Some(pid) ==> stop_of(process)
            == Stop::Process(pid),
        process.alias.len() > 0 && process.mode == "process"@ && process.pid is None ==> stop_of(process)
            == Stop::Nothing,
{
    reveal_strlit("stopped");
    reveal_strlit("tmux");
    reveal_strlit("process");
    assert("stopped"@.len() == 7 && "stopped"@[0] == 's');
    assert("tmux"@.len() == 4);
    assert("process"@.len() == 7 && "process"@[0] == 'p');
}

/// A stopped process keeps what it is known by and loses what it ran as; one that did not stop keeps all.
pub proof fn lemma_after_stop(process: ProcessView, error: Seq<char>)
    ensures
        error.len() > 0 ==> after_stop(process, error) == process,
        error.len() == 0 && process.alias.len() > 0 ==> {
            let after = after_stop(process, error);
            &&& after.mode == "stopped"@
            &&& after.pid is None && after.session_name.len() == 0 && after.tmux_socket.len() == 0
            &&& after.pid_start_time.len() == 0 && after.pid_executable.len() == 0
            &&& after.alias == process.alias && after.tunnel_id == process.tunnel_id && after.log_path
                == process.log_path && after.profile_path == process.profile_path && after.health_url_file
                == process.health_url_file && after.config_path == process.config_path
            &&& after.target_kind == process.target_kind && after.target_value == process.target_value
        },
        process.alias.len() == 0 ==> after_stop(process, error) == process,
{
}

/// What is told of a stop.
pub proof fn lemma_stop_told(
    manager: Manager,
    alias: Seq<char>,
    record: AliasView,
    process: ProcessView,
    profile: AdminProfileView,
    seen: Seen,
    already: bool,
    error: Seq<char>,
)
    requires
        manager.status_doc(alias, record, process, profile, seen) is Object,
    ensures
        ({
            let doc = manager.stop_doc(alias, record, process, profile, seen, already, error);
            &&& doc.at("stopped"@) == Doc::Bool(error.len() == 0)
            &&& doc.at("already_stopped"@) == Doc::Bool(already)
            &&& doc.at("stop_error"@) == Doc::Text(error)
            &&& doc.at("error"@) == Doc::Text(error)
            &&& doc.at("remote_skipped_reason"@) == Doc::Text("stop is a local-only operation"@)
        }),
{
    reveal_strlit("error");
    reveal_strlit("remote_error");
    reveal_strlit("remote_skipped_reason");
    reveal_strlit("next_steps");
    reveal_strlit("repair_actions");
    reveal_strlit("already_stopped");
    reveal_strlit("stopped");
    reveal_strlit("stop_error");
    assert("error"@.len() == 5);
    assert("remote_error"@.len() == 12);
    assert("remote_skipped_reason"@.len() == 21);
    assert("next_steps"@.len() == 10 && "next_steps"@[0] == 'n');
    assert("repair_actions"@.len() == 14);
    assert("already_stopped"@.len() == 15);
    assert("stopped"@.len() == 7);
    assert("stop_error"@.len() == 10 && "stop_error"@[0] == 's');
}

/// The files that a removal takes: each that is recorded, once, and none that is not; a log as a log, a health file as
/// such.
pub proof fn lemma_removals(record: AliasView, process: ProcessView, path: Seq<char>)
    ensures
        removals_of(record, process).no_duplicates(),
        removals_of(record, process).contains(path) ==> text::trim_of(path).len() > 0 && (path
            == record.config_path || path == record.profile_path || path == record.health_url_file || path
            == process.config_path || path == process.profile_path || path == process.health_url_file || path
            == process.log_path),
        text::trim_of(path).len() > 0 && (path == record.config_path || path == record.profile_path || path
            == record.health_url_file || path == process.config_path || path == process.profile_path || path
            == process.health_url_file || path == process.log_path) ==> removals_of(record, process).contains(
            path,
        ),
        path == process.log_path ==> place_of(record, process, path) == Place::Logs,
        path != process.log_path && (path == record.health_url_file || path == process.health_url_file)
            ==> place_of(record, process, path) == Place::Health,
        path != process.log_path && path != record.health_url_file && path != process.health_url_file
            ==> place_of(record, process, path) == Place::Elsewhere,
{
    let paths = paths_of(record, process);
    text::lemma_distinct(solid_of(paths));
    lemma_solid_paths(paths, path);
    assert(paths[0] == record.config_path && paths[1] == record.profile_path && paths[2]
        == record.health_url_file && paths[3] == process.config_path && paths[4] == process.profile_path
        && paths[5] == process.health_url_file && paths[6] == process.log_path);
    if paths.contains(path) {
        let i = choose|i: int| 0 <= i < paths.len() && paths[i] == path;
        assert(i == 0 || i == 1 || i == 2 || i == 3 || i == 4 || i == 5 || i == 6);
    }
}

proof fn lemma_solid_paths(paths: Seq<Seq<char>>, path: Seq<char>)
    ensures
        solid_of(paths).contains(path) <==> paths.contains(path) && text::trim_of(path).len() > 0,
    decreases paths.len(),
{
    if paths.len() > 0 {
        let front = paths.drop_last();
        let rest = solid_of(front);
        let all = solid_of(paths);
        lemma_solid_paths(front, path);
        if front.contains(path) {
            let i = choose|i: int| 0 <= i < front.len() && front[i] == path;
            assert(paths[i] == path);
        }
        if paths.contains(path) && path != paths.last() {
            let i = choose|i: int| 0 <= i < paths.len() && paths[i] == path;
            assert(front[i] == path);
        }
        if rest.contains(path) {
            let i = choose|i: int| 0 <= i < rest.len() && rest[i] == path;
            assert(all[i] == path);
        }
        if all.contains(path) && path != paths.last() {
            let i = choose|i: int| 0 <= i < all.len() && all[i] == path;
            assert(rest[i] == path);
        }
        if path == paths.last() {
            assert(paths[paths.len() - 1] == path);
            if text::trim_of(path).len() > 0 {
                assert(all[all.len() - 1] == path);
            } else if all.contains(path) {
                assert(rest.contains(path));
            }
        }
    }
}

/// What is told of a removal.
pub proof fn lemma_removal_told(manager: Manager, alias: Seq<char>, record: AliasView, process: ProcessView)
    ensures
        ({
            let doc = manager.removed_doc(alias, record, process);
            &&& doc.at("alias"@) == Doc::Text(alias)
            &&& doc.at("removed"@) == Doc::Bool(true)
            &&& doc.at("removed_paths"@) == json::texts(removals_of(record, process))
            &&& doc.at("state_root"@) == Doc::Text(manager.root.path@)
            &&& text::trim_of(record.tunnel_id).len() > 0 ==> doc.at("tunnel_id"@) == Doc::Text(
                text::trim_of(record.tunnel_id),
            )
        }),
{
    reveal_strlit("alias");
    reveal_strlit("removed");
    reveal_strlit("removed_paths");
    reveal_strlit("state_root");
    reveal_strlit("tunnel_id");
    assert("alias"@.len() == 5);
    assert("removed"@.len() == 7);
    assert("removed_paths"@.len() == 13);
    assert("state_root"@.len() == 10);
    assert("tunnel_id"@.len() == 9);
}

/// What an alias is taken for: for live where anything of it runs, else by its profile, and for stale only where it has
/// none.
pub proof fn lemma_alias_class(seen: Seen, record: AliasView, process: ProcessView)
    ensures
        seen.running || seen.tmux || seen.live is Some ==> seen.class_of(record, process) == Class::LiveRuntime,
        !seen.running && !seen.tmux && seen.live is None && seen.profile.exists ==> seen.class_of(
            record,
            process,
        ) == Class::ValidProfile,
        !seen.running && !seen.tmux && seen.live is None && !seen.profile.exists && seen.profile.path@.len() > 0
            ==> seen.class_of(record, process) == Class::MissingProfile,
        seen.class_of(record, process) == Class::StaleAlias ==> !seen.running && !seen.tmux && seen.live is None
            && !seen.profile.exists && seen.profile.path@.len() == 0 && text::trim_of(process.profile_name).len()
            == 0,
        Class::LiveRuntime.word() == "live_runtime"@ && Class::ValidProfile.word() == "valid_profile"@
            && Class::MissingProfile.word() == "missing_profile"@ && Class::StaleAlias.word() == "stale_alias"@,
{
}

/// What is told of an alias in a review; only a stale one is safe to clean up.
pub proof fn lemma_review_told(seen: Seen, name: Seq<char>, record: AliasView, process: ProcessView)
    ensures
        ({
            let doc = seen.entry_doc(name, record, process);
            &&& doc.at("alias"@) == Doc::Text(name)
            &&& doc.at("classification"@) == Doc::Text(seen.class_of(record, process).word())
            &&& doc.at("cleanup_safe"@) == Doc::Bool(seen.class_of(record, process) == Class::StaleAlias)
            &&& doc.at("runtime_state"@) == Doc::Text(seen.state_of().word())
            &&& doc.at("cleanup_command"@) == Doc::Text("otunnel runtimes cleanup --apply"@)
        }),
{
    reveal_strlit("alias");
    reveal_strlit("tunnel_id");
    reveal_strlit("classification");
    reveal_strlit("profile");
    reveal_strlit("runtime_state");
    reveal_strlit("live_runtime");
    reveal_strlit("cleanup_safe");
    reveal_strlit("cleanup_command");
    assert("alias"@.len() == 5);
    assert("tunnel_id"@.len() == 9);
    assert("classification"@.len() == 14);
    assert("profile"@.len() == 7);
    assert("runtime_state"@.len() == 13);
    assert("live_runtime"@.len() == 12 && "live_runtime"@[0] == 'l');
    assert("cleanup_safe"@.len() == 12 && "cleanup_safe"@[0] == 'c');
    assert("cleanup_command"@.len() == 15);
}

/// Each stale alias is cleaned up.
pub proof fn lemma_stale_cleaned(
    names: Seq<Seq<char>>,
    seen: Seq<Seen>,
    aliases: Map<Seq<char>, AliasView>,
    processes: Map<Seq<char>, ProcessView>,
    count: int,
    at: int,
)
    requires
        0 <= at < count <= names.len(),
        count <= seen.len(),
        seen[at].class_of(known_of(aliases, names[at]), running_of(processes, names[at])) == Class::StaleAlias,
    ensures
        stale_of(names, seen, aliases, processes, count).contains(names[at]),
    decreases count,
{
    let before = stale_of(names, seen, aliases, processes, count - 1);
    let all = stale_of(names, seen, aliases, processes, count);
    if at < count - 1 {
        lemma_stale_cleaned(names, seen, aliases, processes, count - 1, at);
        let i = choose|i: int| 0 <= i < before.len() && before[i] == names[at];
        assert(all[i] == names[at]);
    } else {
        assert(all[all.len() - 1] == names[at]);
    }
}

/// What is known under a name, and a bare record where nothing is.
pub proof fn lemma_known(aliases: Map<Seq<char>, AliasView>, processes: Map<Seq<char>, ProcessView>, name: Seq<char>)
    ensures
        aliases.dom().contains(name) ==> known_of(aliases, name) == aliases[name],
        !aliases.dom().contains(name) ==> known_of(aliases, name).tunnel_id.len() == 0,
        processes.dom().contains(name) ==> running_of(processes, name) == processes[name],
        !processes.dom().contains(name) ==> running_of(processes, name).alias.len() == 0,
{
}

/// A review tells each alias in order; the history names each that was cleaned up.
pub proof fn lemma_review_listed(
    names: Seq<Seq<char>>,
    seen: Seq<Seen>,
    aliases: Map<Seq<char>, AliasView>,
    processes: Map<Seq<char>, ProcessView>,
    count: int,
    at: int,
)
    requires
        0 <= count <= names.len(),
        count <= seen.len(),
    ensures
        entry_docs(names, seen, aliases, processes, count).len() == count,
        0 <= at < count ==> entry_docs(names, seen, aliases, processes, count)[at] == seen[at].entry_doc(
            names[at],
            known_of(aliases, names[at]),
            running_of(processes, names[at]),
        ),
    decreases count,
{
    if count > 0 {
        lemma_review_listed(names, seen, aliases, processes, count - 1, at);
    }
}

/// What the history tells of a clean-up.
pub proof fn lemma_cleanup_told(
    names: Seq<Seq<char>>,
    aliases: Map<Seq<char>, AliasView>,
    processes: Map<Seq<char>, ProcessView>,
    now: Seq<char>,
    at: int,
)
    requires
        0 <= at < names.len(),
    ensures
        cleanup_lines(names, aliases, processes, now).len() == names.len(),
        cleanup_lines(names, aliases, processes, now)[at] == state::history_of(
            now,
            "cleanup"@,
            names[at],
            first_of(known_of(aliases, names[at]).tunnel_id, running_of(processes, names[at]).tunnel_id),
            "removed stale local alias/process metadata"@,
        ),
{
}

} // verus!
