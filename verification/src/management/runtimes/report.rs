//! What is told of managed tunnels.

use vstd::prelude::*;
use crate::admin::{tunnel_views, Tunnel, TunnelView};
use crate::json::{self, parsed_json, Doc, Json};
use crate::management::inspect::{
    self, action_views, actions_doc, alias_doc, commands_of, doctor_words, poll_doc,
    process_doc, repair_words, tunnel_doc, ui_of, Action, ActionView, Seen,
};
use crate::management::profiles::Manager;
use crate::management::records::{
    alias_views, AdminProfile, AdminProfileView, Alias, AliasView, Process, ProcessView,
};
use crate::management::runtimes::{not_found, tells_not_found, Outcome};
use crate::management::session::shell_joined;
use crate::management::state::{self, is_reference, variable_of};
use crate::table::Table;
use crate::text;

verus! {

/// What to do next about a managed tunnel.
pub open spec fn steps_of(
    alias: Seq<char>,
    record: AliasView,
    process: ProcessView,
    actions: Seq<ActionView>,
) -> Seq<Seq<char>> {
    text::distinct_of(
        commands_of(actions) + seq![
            shell_joined(doctor_words(record, process)),
            "otunnel runtimes status "@ + alias,
        ],
    )
}

/// What to do next about a managed tunnel.
pub fn steps(alias: &str, record: &Alias, process: &Process, actions: &Vec<Action>) -> (result: Vec<
    String,
>)
    ensures
        text::views(result@) == steps_of(alias@, record@, process@, action_views(actions@)),
{
    let mut extras: Vec<String> = Vec::new();
    extras.push(inspect::doctor(record, process));
    extras.push(text::cat("otunnel runtimes status ", alias));
    assert(text::views(extras@) =~= seq![
        shell_joined(doctor_words(record@, process@)),
        "otunnel runtimes status "@ + alias@,
    ]);
    inspect::next_steps(actions, &extras)
}

impl Manager {
    /// What is told of a managed tunnel, of its records.
    pub open spec fn records_doc(
        self,
        alias: Seq<char>,
        record: AliasView,
        process: ProcessView,
        profile: AdminProfileView,
        seen: Seen,
    ) -> Doc {
        Doc::object().with("alias"@, Doc::Text(alias)).with(
            "tunnel_id"@,
            Doc::Text(record.tunnel_id),
        ).with("admin_profile"@, Doc::Text(profile.name)).with(
            "admin_profile_path"@,
            Doc::Text(self.root.file_of("admin_profiles.yaml"@)),
        ).with("remote"@, Doc::Null).with("stale"@, Doc::Bool(false)).with(
            "error"@,
            Doc::Text(""@),
        ).with("remote_error"@, Doc::Text(""@)).with(
            "repair_command"@,
            Doc::Text(shell_joined(repair_words(alias, record, process))),
        ).with(
            "repair_actions"@,
            actions_doc(seen.actions_of(alias, record, process, ""@)),
        ).with("config_path"@, Doc::Text(record.config_path)).with(
            "profile_name"@,
            Doc::Text(record.profile_name),
        ).with("profile_dir"@, Doc::Text(record.profile_dir)).with(
            "profile_path"@,
            Doc::Text(record.profile_path),
        )
    }

    /// What is told of a managed tunnel.
    pub open spec fn status_doc(
        self,
        alias: Seq<char>,
        record: AliasView,
        process: ProcessView,
        profile: AdminProfileView,
        seen: Seen,
    ) -> Doc {
        let probe = seen.effective_of();
        probe.links_doc(
            self.records_doc(alias, record, process, profile, seen).with(
                "profile_exists"@,
                Doc::Bool(seen.profile.exists),
            ).with("health_url_file"@, Doc::Text(record.health_url_file)).with(
                "health_url"@,
                Doc::Text(seen.probe.healthz.url@),
            ).with("ui_url"@, Doc::Text(ui_of(seen.probe.base_url@))).with(
                "runtime_state"@,
                Doc::Text(seen.state_of().word()),
            ).with("healthy"@, Doc::Bool(probe.healthz.ok)).with(
                "ready"@,
                Doc::Bool(probe.readyz.ok),
            ).with("control_plane_poll_health"@, poll_doc(seen.live)).with(
                "remote_lookup_attempted"@,
                Doc::Bool(false),
            ).with("remote_lookup_auth_kind"@, Doc::Text(""@)).with(
                "remote_lookup_auth_ref"@,
                Doc::Text(""@),
            ).with("remote_skipped_reason"@, Doc::Text(""@)).with(
                "tmux"@,
                seen.tmux_doc(self.root.path@, alias, process),
            ).with("process_running"@, Doc::Bool(seen.running || seen.tmux)).with(
                "process"@,
                if process.alias.len() == 0 {
                    Doc::Null
                } else {
                    process_doc(process)
                },
            ).with("local"@, seen.local_doc(self.root.path@, alias, record, process)).with(
                "next_steps"@,
                json::texts(
                    steps_of(
                        alias,
                        record,
                        process,
                        seen.actions_of(alias, record, process, ""@),
                    ),
                ),
            ),
            seen.place_of(),
        )
    }

    fn records_json(
        &self,
        alias: &str,
        record: &Alias,
        process: &Process,
        profile: &AdminProfile,
        actions: &Vec<Action>,
        seen: &Seen,
    ) -> (result: Json)
        requires
            action_views(actions@) == seen.actions_of(alias@, record@, process@, ""@),
        ensures
            result.doc() == self.records_doc(alias@, record@, process@, profile@, *seen),
    {
        let front = Json::object().with("alias", Json::text(alias)).with(
            "tunnel_id",
            Json::text(&record.tunnel_id),
        ).with("admin_profile", Json::text(&profile.name)).with(
            "admin_profile_path",
            Json::text(&self.root.file("admin_profiles.yaml")),
        ).with("remote", Json::Null).with("stale", Json::Bool(false)).with("error", Json::text("")).with(
            "remote_error",
            Json::text(""),
        );
        front.with("repair_command", Json::text(&inspect::repair(alias, record, process))).with(
            "repair_actions",
            inspect::actions_json(actions),
        ).with("config_path", Json::text(&record.config_path)).with(
            "profile_name",
            Json::text(&record.profile_name),
        ).with("profile_dir", Json::text(&record.profile_dir)).with(
            "profile_path",
            Json::text(&record.profile_path),
        )
    }

    /// What is told of a managed tunnel.
    pub fn status_payload(
        &self,
        alias: &str,
        record: &Alias,
        process: &Process,
        profile: &AdminProfile,
        seen: &Seen,
    ) -> (result: Json)
        ensures
            result.doc() == self.status_doc(alias@, record@, process@, profile@, *seen),
    {
        let actions = seen.actions(alias, record, process, "");
        let probe = seen.effective();
        let shown = if process.alias.is_empty() {
            Json::Null
        } else {
            inspect::process(process)
        };
        let front = self.records_json(alias, record, process, profile, &actions, seen).with(
            "profile_exists",
            Json::Bool(seen.profile.exists),
        ).with("health_url_file", Json::text(&record.health_url_file)).with(
            "health_url",
            Json::text(&seen.probe.healthz.url),
        ).with("ui_url", Json::text(&inspect::ui(&seen.probe.base_url))).with(
            "runtime_state",
            Json::text(seen.state().text()),
        ).with("healthy", Json::Bool(probe.healthz.ok)).with("ready", Json::Bool(probe.readyz.ok));
        let middle = front.with(
            "control_plane_poll_health",
            inspect::poll_health(&seen.live),
        ).with("remote_lookup_attempted", Json::Bool(false)).with(
            "remote_lookup_auth_kind",
            Json::text(""),
        ).with("remote_lookup_auth_ref", Json::text("")).with(
            "remote_skipped_reason",
            Json::text(""),
        );
        let told = middle.with("tmux", seen.tmux_json(&self.root, alias, process)).with(
            "process_running",
            Json::Bool(seen.running || seen.tmux),
        ).with("process", shown).with("local", seen.local(&self.root, alias, record, process)).with(
            "next_steps",
            Json::texts(&steps(alias, record, process, &actions)),
        );
        probe.links(told, &seen.place())
    }
}

/// A key with which the service may be asked.
pub struct Reference {
    pub value: String,
    /// Whether it is the one of a runtime, in place of the one of an administrator.
    pub runtime: bool,
}

/// The contents of [`Reference`].
#[verifier::ext_equal]
pub struct ReferenceView {
    pub value: Seq<char>,
    pub runtime: bool,
}

impl View for Reference {
    type V = ReferenceView;

    open spec fn view(&self) -> ReferenceView {
        ReferenceView { value: self.value@, runtime: self.runtime }
    }
}

/// The contents of a list of keys.
pub open spec fn reference_views(items: Seq<Reference>) -> Seq<ReferenceView> {
    items.map_values(|item: Reference| item@)
}

/// The key of a configuration, where it is a reference.
pub open spec fn configured_key(content: Option<Seq<char>>) -> Option<Seq<char>> {
    match content {
        None => None,
        Some(content) => match parsed_json(content) {
            None => None,
            Some(doc) => match doc.at("control_plane"@).at("api_key"@) {
                Doc::Text(key) => if is_reference(key) {
                    Some(key)
                } else {
                    None
                },
                _ => None,
            },
        },
    }
}

fn key_in(content: &Option<String>) -> (result: Option<String>)
    ensures
        text::view_of(result) == configured_key(text::view_of(*content)),
{
    let content = match content {
        None => {
            return None;
        },
        Some(content) => content,
    };
    match json::parse(content) {
        None => None,
        Some(value) => {
            let control = inspect::entry(&value, "control_plane");
            match inspect::entry(&control, "api_key") {
                Json::Text(key) => match state::reference(&key) {
                    Ok(()) => Some(key),
                    Err(_) => None,
                },
                _ => None,
            }
        },
    }
}

/// The keys of the first configurations.
pub open spec fn configured_of(contents: Seq<Option<String>>, count: int) -> Seq<ReferenceView>
    decreases count,
{
    if count <= 0 {
        Seq::empty()
    } else {
        let before = configured_of(contents, count - 1);
        match configured_key(text::view_of(contents[count - 1])) {
            Some(key) => before.push(ReferenceView { value: key, runtime: true }),
            None => before,
        }
    }
}

/// The keys with which the service may be asked: those of the configurations, the usual ones, and the
/// one of an administrator.
pub open spec fn references_of(contents: Seq<Option<String>>, admin: Seq<char>) -> Seq<ReferenceView> {
    configured_of(contents, contents.len() as int) + seq![
        ReferenceView { value: "env:CONTROL_PLANE_API_KEY"@, runtime: true },
        ReferenceView { value: "env:OPENAI_API_KEY"@, runtime: true },
        ReferenceView { value: admin, runtime: false },
    ]
}

/// The keys with which the service may be asked.
pub fn references(contents: &Vec<Option<String>>, admin: &str) -> (result: Vec<Reference>)
    ensures
        reference_views(result@) == references_of(contents@, admin@),
{
    let mut result: Vec<Reference> = Vec::new();
    let mut index: usize = 0;
    assert(reference_views(result@) =~= configured_of(contents@, 0));
    while index < contents.len()
        invariant
            index <= contents.len(),
            reference_views(result@) == configured_of(contents@, index as int),
        decreases contents.len() - index,
    {
        if let Some(value) = key_in(&contents[index]) {
            let item = Reference { value, runtime: true };
            assert(reference_views(result@.push(item)) =~= reference_views(result@).push(item@));
            result.push(item);
        }
        index = index + 1;
    }
    result.push(Reference { value: "env:CONTROL_PLANE_API_KEY".to_owned(), runtime: true });
    result.push(Reference { value: "env:OPENAI_API_KEY".to_owned(), runtime: true });
    result.push(Reference { value: admin.to_owned(), runtime: false });
    assert(reference_views(result@) =~= references_of(contents@, admin@));
    result
}

/// The file of a reference that is none to the environment.
pub open spec fn secret_path(reference: Seq<char>) -> Seq<char> {
    match text::after_prefix(reference, "file:"@) {
        Some(path) => path,
        None => reference,
    }
}

/// Why the key of a reference cannot be had, given the size of its file.
pub open spec fn missing_of(
    reference: Seq<char>,
    variables: Map<Seq<char>, String>,
    size: Option<u64>,
) -> Option<Seq<char>> {
    match text::after_prefix(reference, "env:"@) {
        Some(name) => if variable_of(variables, name) is Some {
            None
        } else {
            Some("environment variable "@ + name + " is not set"@)
        },
        None => match size {
            None => Some("secret file "@ + secret_path(reference) + " does not exist"@),
            Some(size) => if size > 0 {
                None
            } else {
                Some("secret file "@ + secret_path(reference) + " is empty"@)
            },
        },
    }
}

/// Why the key of a reference cannot be had, given the size of its file.
pub fn missing(reference: &str, variables: &Table<String>, size: Option<u64>) -> (result: Option<String>)
    ensures
        text::view_of(result) == missing_of(reference@, variables@, size),
{
    if let Some(name) = text::strip_prefix(reference, "env:") {
        return if state::variable(variables, &name).is_some() {
            None
        } else {
            Some(text::cat3("environment variable ", &name, " is not set"))
        };
    }
    let path = match text::strip_prefix(reference, "file:") {
        Some(path) => path,
        None => reference.to_owned(),
    };
    match size {
        None => Some(text::cat3("secret file ", &path, " does not exist")),
        Some(size) => if size > 0 {
            None
        } else {
            Some(text::cat3("secret file ", &path, " is empty"))
        },
    }
}

/// What became of the search for a key: the place of the one that is used, or why the last was not.
pub open spec fn chosen_from(
    items: Seq<ReferenceView>,
    variables: Map<Seq<char>, String>,
    sizes: Seq<Option<u64>>,
    at: int,
    reason: Seq<char>,
) -> (Option<int>, Seq<char>)
    decreases items.len() - at,
{
    if at < 0 || at >= items.len() {
        (None, reason)
    } else {
        let size = if at < sizes.len() {
            sizes[at]
        } else {
            None
        };
        match missing_of(items[at].value, variables, size) {
            None => (Some(at), Seq::empty()),
            Some(reason) => chosen_from(items, variables, sizes, at + 1, reason),
        }
    }
}

/// The key that is used, or why none is.
pub fn chosen(items: &Vec<Reference>, variables: &Table<String>, sizes: &Vec<Option<u64>>) -> (result: (
    Option<usize>,
    String,
))
    ensures
        ({
            let (place, reason) = chosen_from(
                reference_views(items@),
                variables@,
                sizes@,
                0,
                Seq::empty(),
            );
            &&& result.1@ == reason
            &&& match (result.0, place) {
                (Some(index), Some(at)) => index == at && index < items@.len(),
                (None, None) => true,
                _ => false,
            }
        }),
{
    let ghost all = reference_views(items@);
    let mut reason = String::new();
    assert(reason@ =~= Seq::<char>::empty());
    let mut index: usize = 0;
    while index < items.len()
        invariant
            index <= items.len(),
            all == reference_views(items@),
            chosen_from(all, variables@, sizes@, 0, Seq::empty()) == chosen_from(
                all,
                variables@,
                sizes@,
                index as int,
                reason@,
            ),
        decreases items.len() - index,
    {
        assert(all[index as int] == items@[index as int]@);
        let size = if index < sizes.len() {
            sizes[index]
        } else {
            None
        };
        match missing(&items[index].value, variables, size) {
            None => {
                let empty = String::new();
                assert(empty@ =~= Seq::<char>::empty());
                return (Some(index), empty);
            },
            Some(why) => {
                reason = why;
            },
        }
        index = index + 1;
    }
    (None, reason)
}

/// What the service answered about a tunnel.
pub enum Answered {
    Tunnel(Tunnel),
    /// The error itself, and the error with all that led to it.
    Failed(String, String),
}

/// What is told of a tunnel with what the service answered about it, and whether it is stale.
pub open spec fn asked_doc(base: Doc, reference: ReferenceView, answered: Answered) -> Doc {
    let asked = base.with("remote_lookup_attempted"@, Doc::Bool(true)).with(
        "remote_lookup_auth_kind"@,
        Doc::Text(
            if reference.runtime {
                "runtime"@
            } else {
                "admin"@
            },
        ),
    ).with("remote_lookup_auth_ref"@, Doc::Text(reference.value)).with(
        "remote_skipped_reason"@,
        Doc::Text(""@),
    );
    match answered {
        Answered::Tunnel(tunnel) => asked.with("remote"@, tunnel_doc(tunnel@)),
        Answered::Failed(error, chain) => asked.with(
            "stale"@,
            Doc::Bool(tells_not_found(error@)),
        ).with("error"@, Doc::Text(chain@)).with("remote_error"@, Doc::Text(chain@)),
    }
}

fn asked(base: Json, reference: &Reference, answered: &Answered) -> (result: Json)
    ensures
        result.doc() == asked_doc(base.doc(), reference@, *answered),
{
    let kind = if reference.runtime {
        "runtime"
    } else {
        "admin"
    };
    let asked = base.with("remote_lookup_attempted", Json::Bool(true)).with(
        "remote_lookup_auth_kind",
        Json::text(kind),
    ).with("remote_lookup_auth_ref", Json::text(&reference.value)).with(
        "remote_skipped_reason",
        Json::text(""),
    );
    match answered {
        Answered::Tunnel(tunnel) => asked.with("remote", inspect::tunnel(tunnel)),
        Answered::Failed(error, chain) => asked.with("stale", Json::Bool(not_found(error))).with(
            "error",
            Json::text(chain),
        ).with("remote_error", Json::text(chain)),
    }
}

/// The error with all that led to it, or nothing.
pub open spec fn error_of(answered: Option<(Reference, Answered)>) -> Seq<char> {
    match answered {
        Some((_, Answered::Failed(_, chain))) => chain@,
        _ => ""@,
    }
}

/// Whether a tunnel is known to be there no longer.
pub open spec fn is_stale(answered: Option<(Reference, Answered)>) -> bool {
    match answered {
        Some((_, Answered::Failed(error, _))) => tells_not_found(error@),
        _ => false,
    }
}

impl Manager {
    /// What is told of a managed tunnel with what the service answered, or why it was not asked.
    pub open spec fn status_of(
        self,
        alias: Seq<char>,
        record: AliasView,
        process: ProcessView,
        profile: AdminProfileView,
        seen: Seen,
        answered: Option<(Reference, Answered)>,
        reason: Seq<char>,
    ) -> Doc {
        let base = self.status_doc(alias, record, process, profile, seen);
        let actions = seen.actions_of(alias, record, process, error_of(answered));
        let told = match answered {
            Some((reference, answer)) => asked_doc(base, reference@, answer),
            None => base.with("remote_skipped_reason"@, Doc::Text(reason)),
        };
        told.with("next_steps"@, json::texts(steps_of(alias, record, process, actions))).with(
            "repair_actions"@,
            actions_doc(actions),
        )
    }

    /// What is told of a managed tunnel with what the service answered, or why it was not asked, and
    /// the code to leave with.
    pub fn status(
        &self,
        alias: &str,
        record: &Alias,
        process: &Process,
        profile: &AdminProfile,
        seen: &Seen,
        answered: &Option<(Reference, Answered)>,
        reason: &str,
    ) -> (result: Outcome)
        ensures
            result.payload.doc() == self.status_of(
                alias@,
                record@,
                process@,
                profile@,
                *seen,
                *answered,
                reason@,
            ),
            result.code == (if is_stale(*answered) && process.alias@.len() == 0 {
                2u8
            } else {
                0u8
            }),
    {
        let base = self.status_payload(alias, record, process, profile, seen);
        let mut stale = false;
        let mut error = "".to_owned();
        let told = match answered {
            Some((reference, answer)) => {
                if let Answered::Failed(message, chain) = answer {
                    stale = not_found(message);
                    error = chain.clone();
                }
                asked(base, reference, answer)
            },
            None => base.with("remote_skipped_reason", Json::text(reason)),
        };
        let actions = seen.actions(alias, record, process, &error);
        let payload = told.with(
            "next_steps",
            Json::texts(&steps(alias, record, process, &actions)),
        ).with("repair_actions", inspect::actions_json(&actions));
        let code = if stale && process.alias.is_empty() {
            2
        } else {
            0
        };
        Outcome { payload, code }
    }
}

/// The tunnels of the first names.
pub open spec fn alias_docs(keys: Seq<Seq<char>>, aliases: Map<Seq<char>, AliasView>, count: int) -> Seq<
    Doc,
>
    decreases count,
{
    if count <= 0 {
        Seq::empty()
    } else {
        alias_docs(keys, aliases, count - 1).push(alias_doc(aliases[keys[count - 1]]))
    }
}

/// The last of the first names that stands for a tunnel.
pub open spec fn local_of(
    keys: Seq<Seq<char>>,
    aliases: Map<Seq<char>, AliasView>,
    tunnel: Seq<char>,
    count: int,
) -> Option<AliasView>
    decreases count,
{
    if count <= 0 {
        None
    } else if aliases[keys[count - 1]].tunnel_id == tunnel {
        Some(aliases[keys[count - 1]])
    } else {
        local_of(keys, aliases, tunnel, count - 1)
    }
}

/// What is told of a tunnel of the service, with its name on this machine.
pub open spec fn remote_doc(tunnel: TunnelView, local: Option<AliasView>) -> Doc {
    tunnel_doc(tunnel).with(
        "local_alias"@,
        Doc::Text(
            match local {
                Some(record) => record.alias,
                None => ""@,
            },
        ),
    ).with(
        "local_admin_profile"@,
        Doc::Text(
            match local {
                Some(record) => record.admin_profile,
                None => ""@,
            },
        ),
    )
}

/// What is told of the first tunnels of the service.
pub open spec fn remote_docs(
    keys: Seq<Seq<char>>,
    aliases: Map<Seq<char>, AliasView>,
    tunnels: Seq<TunnelView>,
    count: int,
) -> Seq<Doc>
    decreases count,
{
    if count <= 0 {
        Seq::empty()
    } else {
        let tunnel = tunnels[count - 1];
        remote_docs(keys, aliases, tunnels, count - 1).push(
            remote_doc(tunnel, local_of(keys, aliases, tunnel.id, keys.len() as int)),
        )
    }
}

fn alias_list(aliases: &Table<Alias>) -> (result: Json)
    ensures
        result.doc() == Doc::List(
            alias_docs(aliases.keys(), alias_views(aliases@), aliases.keys().len() as int),
        ),
{
    let count: usize = aliases.len();
    let ghost keys = aliases.keys();
    let mut items: Vec<Json> = Vec::new();
    let mut index: usize = 0;
    while index < count
        invariant
            index <= count,
            count == keys.len(),
            keys == aliases.keys(),
            forall|i: int| 0 <= i < count ==> aliases@.dom().contains(#[trigger] keys[i]),
            json::docs(items@) == alias_docs(keys, alias_views(aliases@), index as int),
        decreases count - index,
    {
        let shown = inspect::alias(aliases.value(index));
        proof {
            json::lemma_docs_push(items@, shown);
        }
        items.push(shown);
        index = index + 1;
    }
    Json::List(items)
}

fn remote_json(tunnel: &Tunnel, aliases: &Table<Alias>) -> (result: Json)
    ensures
        result.doc() == remote_doc(
            tunnel@,
            local_of(
                aliases.keys(),
                alias_views(aliases@),
                tunnel.id@,
                aliases.keys().len() as int,
            ),
        ),
{
    let count: usize = aliases.len();
    let ghost keys = aliases.keys();
    let mut left: usize = count;
    while left > 0
        invariant
            left <= count,
            count == keys.len(),
            keys == aliases.keys(),
            forall|i: int| 0 <= i < count ==> aliases@.dom().contains(#[trigger] keys[i]),
            local_of(keys, alias_views(aliases@), tunnel.id@, count as int) == local_of(
                keys,
                alias_views(aliases@),
                tunnel.id@,
                left as int,
            ),
        decreases left,
    {
        let record = aliases.value(left - 1);
        if text::same(&record.tunnel_id, &tunnel.id) {
            return inspect::tunnel(tunnel).with("local_alias", Json::text(&record.alias)).with(
                "local_admin_profile",
                Json::text(&record.admin_profile),
            );
        }
        left = left - 1;
    }
    inspect::tunnel(tunnel).with("local_alias", Json::text("")).with(
        "local_admin_profile",
        Json::text(""),
    )
}

fn remote_list(tunnels: &Vec<Tunnel>, aliases: &Table<Alias>) -> (result: Json)
    ensures
        result.doc() == Doc::List(
            remote_docs(
                aliases.keys(),
                alias_views(aliases@),
                tunnel_views(tunnels@),
                tunnels@.len() as int,
            ),
        ),
{
    let ghost keys = aliases.keys();
    let ghost all = tunnel_views(tunnels@);
    let mut items: Vec<Json> = Vec::new();
    let mut index: usize = 0;
    while index < tunnels.len()
        invariant
            index <= tunnels.len(),
            keys == aliases.keys(),
            all == tunnel_views(tunnels@),
            json::docs(items@) == remote_docs(keys, alias_views(aliases@), all, index as int),
        decreases tunnels.len() - index,
    {
        assert(all[index as int] == tunnels@[index as int]@);
        let shown = remote_json(&tunnels[index], aliases);
        proof {
            json::lemma_docs_push(items@, shown);
        }
        items.push(shown);
        index = index + 1;
    }
    Json::List(items)
}

impl Manager {
    /// What is told of all managed tunnels, and of those of the service where it was asked.
    pub open spec fn list_doc(
        self,
        profile: Seq<char>,
        aliases: Table<Alias>,
        tunnels: Option<Vec<Tunnel>>,
    ) -> Doc {
        let keys = aliases.keys();
        let base = Doc::object().with(
            "aliases"@,
            Doc::List(alias_docs(keys, alias_views(aliases@), keys.len() as int)),
        ).with("admin_profile"@, Doc::Text(profile)).with(
            "admin_profile_path"@,
            Doc::Text(self.root.file_of("admin_profiles.yaml"@)),
        ).with("state_root"@, Doc::Text(self.root.path@));
        match tunnels {
            None => base,
            Some(tunnels) => base.with(
                "remote_tunnels"@,
                Doc::List(
                    remote_docs(
                        keys,
                        alias_views(aliases@),
                        tunnel_views(tunnels@),
                        tunnels@.len() as int,
                    ),
                ),
            ),
        }
    }

    /// What is told of all managed tunnels, and of those of the service where it was asked.
    pub fn list(&self, profile: &str, aliases: &Table<Alias>, tunnels: &Option<Vec<Tunnel>>) -> (result:
        Json)
        ensures
            result.doc() == self.list_doc(profile@, *aliases, *tunnels),
    {
        let base = Json::object().with("aliases", alias_list(aliases)).with(
            "admin_profile",
            Json::text(profile),
        ).with("admin_profile_path", Json::text(&self.root.file("admin_profiles.yaml"))).with(
            "state_root",
            Json::text(&self.root.path),
        );
        match tunnels {
            None => base,
            Some(tunnels) => base.with("remote_tunnels", remote_list(tunnels, aliases)),
        }
    }
}

/// What is told of the state of an alias.
#[verifier::spinoff_prover]
#[verifier::rlimit(60)]
pub proof fn lemma_status_told(
    manager: Manager,
    alias: Seq<char>,
    record: AliasView,
    process: ProcessView,
    profile: AdminProfileView,
    seen: Seen,
)
    ensures
        ({
            let doc = manager.status_doc(alias, record, process, profile, seen);
            &&& doc is Object
            &&& doc.at("alias"@) == Doc::Text(alias)
            &&& doc.at("tunnel_id"@) == Doc::Text(record.tunnel_id)
            &&& doc.at("admin_profile"@) == Doc::Text(profile.name)
            &&& doc.at("stale"@) == Doc::Bool(false)
            &&& doc.at("remote"@) == Doc::Null
            &&& doc.at("config_path"@) == Doc::Text(record.config_path)
            &&& doc.at("profile_name"@) == Doc::Text(record.profile_name)
            &&& doc.at("profile_path"@) == Doc::Text(record.profile_path)
            &&& doc.at("profile_exists"@) == Doc::Bool(seen.profile.exists)
            &&& doc.at("health_url_file"@) == Doc::Text(record.health_url_file)
            &&& doc.at("runtime_state"@) == Doc::Text(seen.state_of().word())
            &&& doc.at("healthy"@) == Doc::Bool(seen.effective_of().healthz.ok)
            &&& doc.at("ready"@) == Doc::Bool(seen.effective_of().readyz.ok)
            &&& doc.at("process_running"@) == Doc::Bool(seen.running || seen.tmux)
            &&& doc.at("remote_lookup_attempted"@) == Doc::Bool(false)
            &&& process.alias.len() == 0 ==> doc.at("process"@) == Doc::Null
            &&& process.alias.len() > 0 ==> doc.at("process"@) == process_doc(process)
            &&& doc.at("control_plane_poll_health"@) == poll_doc(seen.live)
        }),
{
    reveal_strlit("alias");
    reveal_strlit("tunnel_id");
    reveal_strlit("admin_profile");
    reveal_strlit("admin_profile_path");
    reveal_strlit("remote");
    reveal_strlit("stale");
    reveal_strlit("error");
    reveal_strlit("remote_error");
    reveal_strlit("repair_command");
    reveal_strlit("repair_actions");
    reveal_strlit("config_path");
    reveal_strlit("profile_name");
    reveal_strlit("profile_dir");
    reveal_strlit("profile_path");
    reveal_strlit("profile_exists");
    reveal_strlit("health_url_file");
    reveal_strlit("health_url");
    reveal_strlit("ui_url");
    reveal_strlit("runtime_state");
    reveal_strlit("healthy");
    reveal_strlit("ready");
    reveal_strlit("control_plane_poll_health");
    reveal_strlit("remote_lookup_attempted");
    reveal_strlit("remote_lookup_auth_kind");
    reveal_strlit("remote_lookup_auth_ref");
    reveal_strlit("remote_skipped_reason");
    reveal_strlit("tmux");
    reveal_strlit("process_running");
    reveal_strlit("process");
    reveal_strlit("local");
    reveal_strlit("next_steps");
    reveal_strlit("health_details_url");
    reveal_strlit("mcp_health_url");
    assert("alias"@.len() == 5 && "alias"@[0] == 'a');
    assert("tunnel_id"@.len() == 9);
    assert("admin_profile"@.len() == 13 && "admin_profile"@[0] == 'a');
    assert("admin_profile_path"@.len() == 18 && "admin_profile_path"@[0] == 'a');
    assert("remote"@.len() == 6 && "remote"@[0] == 'r');
    assert("stale"@.len() == 5 && "stale"@[0] == 's');
    assert("error"@.len() == 5 && "error"@[0] == 'e');
    assert("remote_error"@.len() == 12 && "remote_error"@[0] == 'r');
    assert("repair_command"@.len() == 14 && "repair_command"@[7] == 'c' && "repair_command"@[0] == 'r');
    assert("repair_actions"@.len() == 14 && "repair_actions"@[7] == 'a' && "repair_actions"@[0] == 'r');
    assert("config_path"@.len() == 11 && "config_path"@[0] == 'c');
    assert("profile_name"@.len() == 12 && "profile_name"@[0] == 'p' && "profile_name"@[8] == 'n');
    assert("profile_dir"@.len() == 11 && "profile_dir"@[0] == 'p');
    assert("profile_path"@.len() == 12 && "profile_path"@[0] == 'p' && "profile_path"@[8] == 'p');
    assert("profile_exists"@.len() == 14 && "profile_exists"@[0] == 'p');
    assert("health_url_file"@.len() == 15 && "health_url_file"@[0] == 'h');
    assert("health_url"@.len() == 10 && "health_url"@[0] == 'h');
    assert("ui_url"@.len() == 6 && "ui_url"@[0] == 'u');
    assert("runtime_state"@.len() == 13 && "runtime_state"@[0] == 'r');
    assert("healthy"@.len() == 7 && "healthy"@[0] == 'h');
    assert("ready"@.len() == 5 && "ready"@[0] == 'r');
    assert("control_plane_poll_health"@.len() == 25);
    assert("remote_lookup_attempted"@.len() == 23 && "remote_lookup_attempted"@[15] == 't');
    assert("remote_lookup_auth_kind"@.len() == 23 && "remote_lookup_auth_kind"@[15] == 'u');
    assert("remote_lookup_auth_ref"@.len() == 22);
    assert("remote_skipped_reason"@.len() == 21);
    assert("tmux"@.len() == 4);
    assert("process_running"@.len() == 15 && "process_running"@[0] == 'p');
    assert("process"@.len() == 7 && "process"@[0] == 'p');
    assert("local"@.len() == 5 && "local"@[0] == 'l');
    assert("next_steps"@.len() == 10 && "next_steps"@[0] == 'n');
    assert("health_details_url"@.len() == 18 && "health_details_url"@[0] == 'h');
    assert("mcp_health_url"@.len() == 14 && "mcp_health_url"@[0] == 'm');
}

/// A key of a configuration is used where it is a reference.
pub proof fn lemma_configured_key(content: Seq<char>, doc: Doc, key: Seq<char>)
    ensures
        configured_key(None) is None,
        parsed_json(content) is None ==> configured_key(Some(content)) is None,
        parsed_json(content) == Some(doc) && doc.at("control_plane"@).at("api_key"@) == Doc::Text(key)
            && is_reference(key) ==> configured_key(Some(content)) == Some(key),
        parsed_json(content) == Some(doc) && doc.at("control_plane"@).at("api_key"@) == Doc::Text(key)
            && !is_reference(key) ==> configured_key(Some(content)) is None,
{
}

/// The keys to ask with: those of the configurations, then those of the environment for the runtime, and last that of
/// the operator.
pub proof fn lemma_keys_asked(contents: Seq<Option<String>>, admin: Seq<char>)
    ensures
        ({
            let items = references_of(contents, admin);
            let front = configured_of(contents, contents.len() as int);
            &&& items.len() == front.len() + 3
            &&& items[front.len() as int] == (ReferenceView { value: "env:CONTROL_PLANE_API_KEY"@, runtime: true })
            &&& items[front.len() + 1int] == (ReferenceView { value: "env:OPENAI_API_KEY"@, runtime: true })
            &&& items.last() == (ReferenceView { value: admin, runtime: false })
        }),
        configured_of(contents, 0).len() == 0,
{
}

/// A reference is missing where its variable is not set, or its file is not there or empty.
pub proof fn lemma_reference_missing(
    reference: Seq<char>,
    name: Seq<char>,
    variables: Map<Seq<char>, String>,
    size: u64,
)
    ensures
        text::after_prefix(reference, "env:"@) == Some(name) && variable_of(variables, name) is Some
            ==> missing_of(reference, variables, None) is None,
        text::after_prefix(reference, "env:"@) == Some(name) && variable_of(variables, name) is None
            ==> missing_of(reference, variables, None) is Some,
        text::after_prefix(reference, "env:"@) is None ==> missing_of(reference, variables, None) is Some,
        text::after_prefix(reference, "env:"@) is None && size > 0 ==> missing_of(reference, variables, Some(size))
            is None,
        text::after_prefix(reference, "env:"@) is None && size == 0 ==> missing_of(
            reference,
            variables,
            Some(size),
        ) is Some,
{
}

/// The first key that is not missing is used.
pub proof fn lemma_key_used(
    items: Seq<ReferenceView>,
    variables: Map<Seq<char>, String>,
    sizes: Seq<Option<u64>>,
    from: int,
    reason: Seq<char>,
    at: int,
)
    requires
        0 <= from <= at < items.len(),
        sizes.len() == items.len(),
        missing_of(items[at].value, variables, sizes[at]) is None,
        forall|i: int|
            from <= i < at ==> missing_of((#[trigger] items[i]).value, variables, sizes[i]) is Some,
    ensures
        chosen_from(items, variables, sizes, from, reason).0 == Some(at),
    decreases at - from,
{
    if from < at {
        assert(missing_of(items[from].value, variables, sizes[from]) is Some);
        let next = missing_of(items[from].value, variables, sizes[from])->0;
        lemma_key_used(items, variables, sizes, from + 1, next, at);
    }
}

/// What is told of what the service answered: the tunnel, or why there is none, and whether the alias is stale.
pub proof fn lemma_answer_told(
    map: Map<Seq<char>, Doc>,
    reference: ReferenceView,
    tunnel: Tunnel,
    error: String,
    chain: String,
)
    ensures
        ({
            let doc = asked_doc(Doc::Object(map), reference, Answered::Tunnel(tunnel));
            &&& doc.at("remote"@) == tunnel_doc(tunnel@)
            &&& doc.at("remote_lookup_attempted"@) == Doc::Bool(true)
            &&& doc.at("remote_lookup_auth_ref"@) == Doc::Text(reference.value)
            &&& reference.runtime ==> doc.at("remote_lookup_auth_kind"@) == Doc::Text("runtime"@)
            &&& !reference.runtime ==> doc.at("remote_lookup_auth_kind"@) == Doc::Text("admin"@)
        }),
        ({
            let doc = asked_doc(Doc::Object(map), reference, Answered::Failed(error, chain));
            &&& doc.at("stale"@) == Doc::Bool(tells_not_found(error@))
            &&& doc.at("error"@) == Doc::Text(chain@)
            &&& doc.at("remote_error"@) == Doc::Text(chain@)
            &&& doc.at("remote_lookup_attempted"@) == Doc::Bool(true)
        }),
        is_stale(None) == false,
{
    reveal_strlit("remote");
    reveal_strlit("remote_lookup_attempted");
    reveal_strlit("remote_lookup_auth_kind");
    reveal_strlit("remote_lookup_auth_ref");
    reveal_strlit("remote_skipped_reason");
    reveal_strlit("stale");
    reveal_strlit("error");
    reveal_strlit("remote_error");
    assert("remote"@.len() == 6);
    assert("remote_lookup_attempted"@.len() == 23 && "remote_lookup_attempted"@[15] == 't');
    assert("remote_lookup_auth_kind"@.len() == 23 && "remote_lookup_auth_kind"@[15] == 'u');
    assert("remote_lookup_auth_ref"@.len() == 22);
    assert("remote_skipped_reason"@.len() == 21);
    assert("stale"@.len() == 5 && "stale"@[0] == 's');
    assert("error"@.len() == 5 && "error"@[0] == 'e');
    assert("remote_error"@.len() == 12);
}

/// The aliases are listed in order; a tunnel of the service is told with the alias that names it.
pub proof fn lemma_listed(
    keys: Seq<Seq<char>>,
    aliases: Map<Seq<char>, AliasView>,
    tunnels: Seq<TunnelView>,
    count: int,
    at: int,
)
    ensures
        0 <= count <= keys.len() ==> alias_docs(keys, aliases, count).len() == count && (0 <= at < count
            ==> alias_docs(keys, aliases, count)[at] == alias_doc(aliases[keys[at]])),
        0 <= count <= tunnels.len() ==> remote_docs(keys, aliases, tunnels, count).len() == count && (0 <= at
            < count ==> remote_docs(keys, aliases, tunnels, count)[at] == remote_doc(
            tunnels[at],
            local_of(keys, aliases, tunnels[at].id, keys.len() as int),
        )),
    decreases count,
{
    if count > 0 {
        lemma_listed(keys, aliases, tunnels, count - 1, at);
    }
}

/// The alias of a tunnel is one that names it; where none does there is none.
pub proof fn lemma_local_alias(
    keys: Seq<Seq<char>>,
    aliases: Map<Seq<char>, AliasView>,
    tunnel: Seq<char>,
    count: int,
    at: int,
)
    requires
        0 <= count <= keys.len(),
    ensures
        local_of(keys, aliases, tunnel, count) matches Some(record) ==> record.tunnel_id == tunnel,
        0 <= at < count && aliases[keys[at]].tunnel_id == tunnel ==> local_of(keys, aliases, tunnel, count) is Some,
    decreases count,
{
    if count > 0 {
        lemma_local_alias(keys, aliases, tunnel, count - 1, at);
    }
}

/// What is told of a tunnel of the service.
pub proof fn lemma_remote_told(tunnel: TunnelView, record: AliasView)
    ensures
        remote_doc(tunnel, Some(record)).at("local_alias"@) == Doc::Text(record.alias),
        remote_doc(tunnel, Some(record)).at("local_admin_profile"@) == Doc::Text(record.admin_profile),
        remote_doc(tunnel, Some(record)).at("id"@) == Doc::Text(tunnel.id),
        remote_doc(tunnel, None).at("local_alias"@) == Doc::Text(""@),
{
    reveal_strlit("id");
    reveal_strlit("name");
    reveal_strlit("description");
    reveal_strlit("organization_ids");
    reveal_strlit("workspace_ids");
    reveal_strlit("tenant_ids");
    reveal_strlit("local_alias");
    reveal_strlit("local_admin_profile");
    assert("id"@.len() == 2);
    assert("name"@.len() == 4);
    assert("description"@.len() == 11 && "description"@[0] == 'd');
    assert("organization_ids"@.len() == 16);
    assert("workspace_ids"@.len() == 13);
    assert("tenant_ids"@.len() == 10);
    assert("local_alias"@.len() == 11 && "local_alias"@[0] == 'l');
    assert("local_admin_profile"@.len() == 19);
}

} // verus!
