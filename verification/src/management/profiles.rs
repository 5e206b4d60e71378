//! The administrative profiles.

use vstd::prelude::*;
use crate::checks::{either, fault_from, first_fault, unless};
use crate::json::{self, Doc, Json};
use crate::management::records::{
    profile_views, AdminProfile, AdminProfileView, Alias, Process,
};
use crate::management::state::{
    self, alias_of, is_reference, variable_of, AdminProfiles, AdminProfilesView, Root,
};
use crate::table::Table;
use crate::text;

verus! {

/// The administrative profiles and the managed tunnels of a directory.
pub struct Manager {
    pub root: Root,
}

/// The value, or a fallback where it is only white space; both without white space around them.
pub open spec fn first_of(value: Seq<char>, fallback: Seq<char>) -> Seq<char> {
    if text::trim_of(value).len() > 0 {
        text::trim_of(value)
    } else {
        text::trim_of(fallback)
    }
}

/// The value, or a fallback where it is only white space; both without white space around them.
pub fn first(value: &str, fallback: &str) -> (result: String)
    ensures
        result@ == first_of(value@, fallback@),
{
    let own = text::trim(value);
    if own.is_empty() {
        text::trim(fallback)
    } else {
        own
    }
}

/// The variable, or nothing.
pub open spec fn given_variable(variables: Map<Seq<char>, String>, name: Seq<char>) -> Seq<char> {
    match variable_of(variables, name) {
        Some(value) => value,
        None => Seq::empty(),
    }
}

/// The variable, or nothing.
pub fn variable_or_empty(variables: &Table<String>, name: &str) -> (result: String)
    ensures
        result@ == given_variable(variables@, name@),
{
    match state::variable(variables, name) {
        Some(value) => value,
        None => {
            let empty = String::new();
            assert(empty@ =~= Seq::<char>::empty());
            empty
        },
    }
}

/// The address of a service: the given one, the one before, the one of the environment, or the usual
/// one.
pub open spec fn base_of(given: Seq<char>, previous: Seq<char>, variables: Map<Seq<char>, String>) -> Seq<
    char,
> {
    first_of(
        given,
        first_of(
            previous,
            first_of(
                given_variable(variables, "CONTROL_PLANE_BASE_URL"@),
                "https://api.openai.com"@,
            ),
        ),
    )
}

/// The path of a service: the given one, the one before, or the one of the environment.
pub open spec fn prefix_of(
    given: Seq<char>,
    previous: Seq<char>,
    variables: Map<Seq<char>, String>,
) -> Seq<char> {
    first_of(given, first_of(previous, given_variable(variables, "CONTROL_PLANE_URL_PATH"@)))
}

/// The key of a service: the given one, the one before, or the usual one.
pub open spec fn key_of(given: Seq<char>, previous: Seq<char>) -> Seq<char> {
    first_of(given, first_of(previous, "env:OPENAI_ADMIN_KEY"@))
}

/// The profile of a name, or one without contents.
pub open spec fn previous_of(profiles: Map<Seq<char>, AdminProfileView>, name: Seq<char>) -> AdminProfileView {
    if profiles.dom().contains(name) {
        profiles[name]
    } else {
        AdminProfileView::bare()
    }
}

/// The profile of a name, or one without contents.
pub fn previous(profiles: &Table<AdminProfile>, name: &str) -> (result: AdminProfile)
    ensures
        result@ == previous_of(profile_views(profiles@), name@),
{
    match profiles.get(name) {
        Some(profile) => profile.copy(),
        None => AdminProfile::default(),
    }
}

/// A profile from what is given and what was before.
pub open spec fn profile_of(
    previous: AdminProfileView,
    name: Seq<char>,
    base: Seq<char>,
    prefix: Seq<char>,
    key: Seq<char>,
    variables: Map<Seq<char>, String>,
    now: Seq<char>,
) -> AdminProfileView {
    AdminProfileView {
        name,
        control_plane_base_url: base_of(base, previous.control_plane_base_url, variables),
        control_plane_url_path: prefix_of(prefix, previous.control_plane_url_path, variables),
        admin_key: key_of(key, previous.admin_key),
        updated_at: now,
    }
}

/// A profile from what is given and what was before.
pub fn profile(
    previous: &AdminProfile,
    name: &str,
    base: &str,
    prefix: &str,
    key: &str,
    variables: &Table<String>,
    now: &str,
) -> (result: AdminProfile)
    ensures
        result@ == profile_of(previous@, name@, base@, prefix@, key@, variables@, now@),
{
    let usual_base = first(
        &variable_or_empty(variables, "CONTROL_PLANE_BASE_URL"),
        "https://api.openai.com",
    );
    let usual_prefix = variable_or_empty(variables, "CONTROL_PLANE_URL_PATH");
    AdminProfile {
        name: name.to_owned(),
        control_plane_base_url: first(base, &first(&previous.control_plane_base_url, &usual_base)),
        control_plane_url_path: first(
            prefix,
            &first(&previous.control_plane_url_path, &usual_prefix),
        ),
        admin_key: first(key, &first(&previous.admin_key, "env:OPENAI_ADMIN_KEY")),
        updated_at: now.to_owned(),
    }
}

impl AdminProfilesView {
    /// The profiles with one set.
    pub open spec fn set(self, name: Seq<char>, profile: AdminProfileView, activate: bool) -> AdminProfilesView {
        AdminProfilesView {
            active_profile: if activate {
                name
            } else {
                self.active_profile
            },
            profiles: self.profiles.insert(name, profile),
        }
    }
}

impl AdminProfiles {
    /// The profiles with one set.
    pub fn set(self, name: &str, profile: AdminProfile, activate: bool) -> (result: AdminProfiles)
        ensures
            result@ == self@.set(name@, profile@, activate),
    {
        let active_profile = if activate {
            name.to_owned()
        } else {
            self.active_profile
        };
        let profiles = self.profiles.insert(name.to_owned(), profile);
        assert(profile_views(profiles@) =~= profile_views(self.profiles@).insert(name@, profile@));
        AdminProfiles { active_profile, profiles }
    }
}

impl Manager {
    /// What is told of a profile.
    pub open spec fn profile_doc(self, profile: AdminProfileView, active: bool) -> Doc {
        Doc::object().with("name"@, Doc::Text(profile.name)).with(
            "control_plane_base_url"@,
            Doc::Text(profile.control_plane_base_url),
        ).with_if(
            profile.control_plane_url_path.len() > 0,
            "control_plane_url_path"@,
            Doc::Text(profile.control_plane_url_path),
        ).with("admin_key"@, Doc::Text(profile.admin_key)).with_if(
            profile.updated_at.len() > 0,
            "updated_at"@,
            Doc::Text(profile.updated_at),
        ).with("path"@, Doc::Text(self.root.file_of("admin_profiles.yaml"@))).with(
            "active"@,
            Doc::Bool(active),
        )
    }

    fn describe(&self, profile: &AdminProfile, active: bool) -> (result: Json)
        ensures
            result.doc() == self.profile_doc(profile@, active),
    {
        Json::object().with("name", Json::text(&profile.name)).with(
            "control_plane_base_url",
            Json::text(&profile.control_plane_base_url),
        ).with_if(
            !profile.control_plane_url_path.is_empty(),
            "control_plane_url_path",
            Json::text(&profile.control_plane_url_path),
        ).with("admin_key", Json::text(&profile.admin_key)).with_if(
            !profile.updated_at.is_empty(),
            "updated_at",
            Json::text(&profile.updated_at),
        ).with("path", Json::text(&self.root.file("admin_profiles.yaml"))).with(
            "active",
            Json::Bool(active),
        )
    }

    /// What is told after a profile was set or put into use.
    pub open spec fn result_doc(self, file: AdminProfilesView, name: Seq<char>) -> Doc {
        Doc::object().with(
            "profile"@,
            self.profile_doc(file.profiles[name], file.active_profile == name),
        ).with("active_profile"@, Doc::Text(file.active_profile)).with(
            "path"@,
            Doc::Text(self.root.file_of("admin_profiles.yaml"@)),
        ).with("state_root"@, Doc::Text(self.root.path@))
    }

    fn result(&self, file: &AdminProfiles, name: &str) -> (result: Json)
        requires
            file@.profiles.dom().contains(name@),
        ensures
            result.doc() == self.result_doc(file@, name@),
    {
        let shown = match file.profiles.get(name) {
            Some(profile) => self.describe(profile, text::same(&file.active_profile, name)),
            None => Json::Null,
        };
        Json::object().with("profile", shown).with(
            "active_profile",
            Json::text(&file.active_profile),
        ).with("path", Json::text(&self.root.file("admin_profiles.yaml"))).with(
            "state_root",
            Json::text(&self.root.path),
        )
    }

    /// What is told of the first profiles in the order of their names.
    pub open spec fn profile_docs(
        self,
        keys: Seq<Seq<char>>,
        file: AdminProfilesView,
        count: int,
    ) -> Seq<Doc>
        decreases count,
    {
        if count <= 0 {
            Seq::empty()
        } else {
            self.profile_docs(keys, file, count - 1).push(
                self.profile_doc(
                    file.profiles[keys[count - 1]],
                    file.active_profile == keys[count - 1],
                ),
            )
        }
    }

    /// Tells of all profiles.
    pub fn profiles(&self, file: &AdminProfiles) -> (result: Json)
        ensures
            result.doc() == Doc::object().with(
                "profiles"@,
                Doc::List(
                    self.profile_docs(
                        file.profiles.keys(),
                        file@,
                        file.profiles.keys().len() as int,
                    ),
                ),
            ).with("active_profile"@, Doc::Text(file.active_profile@)).with(
                "path"@,
                Doc::Text(self.root.file_of("admin_profiles.yaml"@)),
            ).with("state_root"@, Doc::Text(self.root.path@)),
    {
        let count: usize = file.profiles.len();
        let ghost keys = file.profiles.keys();
        let mut items: Vec<Json> = Vec::new();
        let mut index: usize = 0;
        while index < count
            invariant
                index <= count,
                count == keys.len(),
                keys == file.profiles.keys(),
                forall|i: int|
                    0 <= i < count ==> file.profiles@.dom().contains(#[trigger] keys[i]),
                json::docs(items@) == self.profile_docs(keys, file@, index as int),
            decreases count - index,
        {
            let name = file.profiles.key(index);
            let shown = self.describe(
                file.profiles.value(index),
                text::same(&file.active_profile, name),
            );
            proof {
                json::lemma_docs_push(items@, shown);
            }
            items.push(shown);
            index = index + 1;
        }
        Json::object().with("profiles", Json::List(items)).with(
            "active_profile",
            Json::text(&file.active_profile),
        ).with("path", Json::text(&self.root.file("admin_profiles.yaml"))).with(
            "state_root",
            Json::text(&self.root.path),
        )
    }

    /// Sets a profile: the profiles after it, and what is told of it.
    pub fn set_profile(
        &self,
        given: &str,
        base: &str,
        prefix: &str,
        key: &str,
        activate: bool,
        file: AdminProfiles,
        variables: &Table<String>,
        now: &str,
    ) -> (result: Result<(AdminProfiles, Json), String>)
        ensures
            ({
                let name = alias_of(given@);
                let made = profile_of(
                    previous_of(file@.profiles, name),
                    name,
                    base@,
                    prefix@,
                    key@,
                    variables@,
                    now@,
                );
                let after = file@.set(name, made, activate || file@.active_profile.len() == 0);
                match result {
                    Ok((changed, told)) => name.len() > 0 && is_reference(made.admin_key)
                        && changed@ == after && told.doc() == self.result_doc(after, name),
                    Err(reason) => if name.len() == 0 {
                        reason@ == "alias must contain at least one ASCII letter or number"@
                    } else {
                        !is_reference(made.admin_key) && reason@
                            == "credential must be an env:NAME or file:/path reference"@
                    },
                }
            }),
    {
        let name = match state::alias(given) {
            Ok(name) => name,
            Err(reason) => {
                return Err(reason);
            },
        };
        let before = previous(&file.profiles, &name);
        let made = profile(&before, &name, base, prefix, key, variables, now);
        match state::reference(&made.admin_key) {
            Ok(()) => {},
            Err(reason) => {
                return Err(reason);
            },
        }
        let used = activate || file.active_profile.is_empty();
        let changed = file.set(&name, made, used);
        let told = self.result(&changed, &name);
        Ok((changed, told))
    }

    /// Puts a profile into use: the profiles after it, and what is told of it.
    pub fn activate_profile(&self, given: &str, file: AdminProfiles) -> (result: Result<
        (AdminProfiles, Json),
        String,
    >)
        ensures
            ({
                let name = alias_of(given@);
                match result {
                    Ok((changed, told)) => name.len() > 0 && file@.profiles.dom().contains(name)
                        && changed@ == (AdminProfilesView { active_profile: name, ..file@ })
                        && told.doc() == self.result_doc(changed@, name),
                    Err(reason) => if name.len() == 0 {
                        reason@ == "alias must contain at least one ASCII letter or number"@
                    } else {
                        !file@.profiles.dom().contains(name) && reason@ == unknown_of(name)
                    },
                }
            }),
    {
        let name = match state::alias(given) {
            Ok(name) => name,
            Err(reason) => {
                return Err(reason);
            },
        };
        if !file.profiles.contains(&name) {
            return Err(unknown(&name));
        }
        let changed = AdminProfiles { active_profile: name.clone(), profiles: file.profiles };
        let told = self.result(&changed, &name);
        Ok((changed, told))
    }

    /// Takes a profile out that is not referred to: the profiles after it, and what is told of it.
    pub fn delete_profile(
        &self,
        given: &str,
        file: AdminProfiles,
        aliases: &Table<Alias>,
        processes: &Table<Process>,
    ) -> (result: Result<(AdminProfiles, Json), String>)
        ensures
            ({
                let name = alias_of(given@);
                let rest = file@.profiles.remove(name);
                match result {
                    Ok((changed, told)) => name.len() > 0 && file@.profiles.dom().contains(name)
                        && referred(name, *aliases, *processes) is None && changed@.profiles == rest
                        && next_active(file@.active_profile, name, changed)
                        && told.doc() == Doc::object().with(
                        "deleted_profile"@,
                        Doc::Text(name),
                    ).with("active_profile"@, Doc::Text(changed@.active_profile)).with(
                        "path"@,
                        Doc::Text(self.root.file_of("admin_profiles.yaml"@)),
                    ).with("state_root"@, Doc::Text(self.root.path@)),
                    Err(reason) => if name.len() == 0 {
                        reason@ == "alias must contain at least one ASCII letter or number"@
                    } else if !file@.profiles.dom().contains(name) {
                        reason@ == unknown_of(name)
                    } else {
                        referred(name, *aliases, *processes) == Some(reason@)
                    },
                }
            }),
    {
        let name = match state::alias(given) {
            Ok(name) => name,
            Err(reason) => {
                return Err(reason);
            },
        };
        if !file.profiles.contains(&name) {
            return Err(unknown(&name));
        }
        match alias_refers(&name, aliases) {
            Ok(()) => {},
            Err(reason) => {
                return Err(reason);
            },
        }
        match process_refers(&name, processes) {
            Ok(()) => {},
            Err(reason) => {
                return Err(reason);
            },
        }
        let was = text::same(&file.active_profile, &name);
        let profiles = file.profiles.remove(&name);
        assert(profile_views(profiles@) =~= profile_views(file.profiles@).remove(name@));
        let active_profile = if !was {
            file.active_profile
        } else if profiles.len() > 0 {
            profiles.key(0).clone()
        } else {
            String::new()
        };
        let changed = AdminProfiles { active_profile, profiles };
        let told = Json::object().with("deleted_profile", Json::text(&name)).with(
            "active_profile",
            Json::text(&changed.active_profile),
        ).with("path", Json::text(&self.root.file("admin_profiles.yaml"))).with(
            "state_root",
            Json::text(&self.root.path),
        );
        Ok((changed, told))
    }
}

/// Whether the profile in use after one was taken out is the right one: another one stays, and in
/// place of the one that was taken out comes the first of the others.
pub open spec fn next_active(before: Seq<char>, name: Seq<char>, changed: AdminProfiles) -> bool {
    if before != name {
        changed@.active_profile == before
    } else if changed.profiles.keys().len() > 0 {
        changed@.active_profile == changed.profiles.keys()[0]
    } else {
        changed@.active_profile.len() == 0
    }
}

/// Why a profile cannot be used that is not there.
pub open spec fn unknown_of(name: Seq<char>) -> Seq<char> {
    "admin profile "@ + name + " is not known"@
}

fn unknown(name: &str) -> (result: String)
    ensures
        result@ == unknown_of(name@),
{
    text::cat3("admin profile ", name, " is not known")
}

/// Why a profile cannot be taken out for a tunnel, if so.
pub open spec fn alias_fault(name: Seq<char>, record: Alias) -> Option<Seq<char>> {
    unless(
        record.admin_profile@ != name,
        "admin profile "@ + name + " is still referenced by alias "@ + record.alias@,
    )
}

/// Why a profile cannot be taken out for a runtime, if so.
pub open spec fn process_fault(name: Seq<char>, record: Process) -> Option<Seq<char>> {
    unless(
        record.admin_profile@ != name || record.alias@.len() == 0 || record.mode@ == "stopped"@,
        "admin profile "@ + name + " is still referenced by active runtime "@ + record.alias@,
    )
}

/// Why a profile cannot be taken out, if so: the first tunnel or the first active runtime that refers
/// to it.
pub open spec fn referred(name: Seq<char>, aliases: Table<Alias>, processes: Table<Process>) -> Option<
    Seq<char>,
> {
    either(
        first_fault(
            aliases.keys().len() as int,
            |i: int| alias_fault(name, aliases.values()[i]),
        ),
        first_fault(
            processes.keys().len() as int,
            |i: int| process_fault(name, processes.values()[i]),
        ),
    )
}

fn alias_refers(name: &str, aliases: &Table<Alias>) -> (result: Result<(), String>)
    ensures
        crate::checks::tells(
            result,
            first_fault(
                aliases.keys().len() as int,
                |i: int| alias_fault(name@, aliases.values()[i]),
            ),
        ),
{
    let count: usize = aliases.len();
    let ghost fault = |i: int| alias_fault(name@, aliases.values()[i]);
    let mut index: usize = 0;
    while index < count
        invariant
            index <= count,
            count == aliases.keys().len(),
            fault == (|i: int| alias_fault(name@, aliases.values()[i])),
            first_fault(count as int, fault) == fault_from(index as int, count as int, fault),
        decreases count - index,
    {
        let record = aliases.value(index);
        assert(fault(index as int) == alias_fault(name@, *record));
        if text::same(&record.admin_profile, name) {
            return Err(
                text::cat(
                    &text::cat3("admin profile ", name, " is still referenced by alias "),
                    &record.alias,
                ),
            );
        }
        index = index + 1;
    }
    Ok(())
}

fn process_refers(name: &str, processes: &Table<Process>) -> (result: Result<(), String>)
    ensures
        crate::checks::tells(
            result,
            first_fault(
                processes.keys().len() as int,
                |i: int| process_fault(name@, processes.values()[i]),
            ),
        ),
{
    let count: usize = processes.len();
    let ghost fault = |i: int| process_fault(name@, processes.values()[i]);
    let mut index: usize = 0;
    while index < count
        invariant
            index <= count,
            count == processes.keys().len(),
            fault == (|i: int| process_fault(name@, processes.values()[i])),
            first_fault(count as int, fault) == fault_from(index as int, count as int, fault),
        decreases count - index,
    {
        let record = processes.value(index);
        assert(fault(index as int) == process_fault(name@, *record));
        if text::same(&record.admin_profile, name) && !record.alias.is_empty() && !text::same(
            &record.mode,
            "stopped",
        ) {
            return Err(
                text::cat(
                    &text::cat3("admin profile ", name, " is still referenced by active runtime "),
                    &record.alias,
                ),
            );
        }
        index = index + 1;
    }
    Ok(())
}

/// What is given counts before what was there, and that before the environment and what is common; each of them only
/// where it holds more than white space.
pub proof fn lemma_profile_made(
    previous: AdminProfileView,
    name: Seq<char>,
    base: Seq<char>,
    prefix: Seq<char>,
    key: Seq<char>,
    variables: Map<Seq<char>, String>,
    now: Seq<char>,
)
    ensures
        ({
            let made = profile_of(previous, name, base, prefix, key, variables, now);
            let before = previous.control_plane_base_url;
            &&& made.name == name
            &&& made.updated_at == now
            &&& text::trim_of(base).len() > 0 ==> made.control_plane_base_url == text::trim_of(base)
            &&& text::trim_of(prefix).len() > 0 ==> made.control_plane_url_path == text::trim_of(prefix)
            &&& text::trim_of(key).len() > 0 ==> made.admin_key == text::trim_of(key)
            &&& text::trim_of(base).len() == 0 && text::trim_of(before).len() > 0 && text::trim_of(
                text::trim_of(before),
            ) == text::trim_of(before) ==> made.control_plane_base_url == text::trim_of(before)
            &&& text::trim_of(key).len() == 0 && text::trim_of(previous.admin_key).len() == 0 && text::trim_of(
                text::trim_of("env:OPENAI_ADMIN_KEY"@),
            ) == "env:OPENAI_ADMIN_KEY"@ ==> made.admin_key == "env:OPENAI_ADMIN_KEY"@
        }),
{
}

/// A stored profile stands under its name beside the others; it becomes the active one where that is asked.
pub proof fn lemma_profile_stored(
    file: AdminProfilesView,
    name: Seq<char>,
    profile: AdminProfileView,
    activate: bool,
    other: Seq<char>,
)
    ensures
        ({
            let after = file.set(name, profile, activate);
            &&& after.profiles[name] == profile
            &&& other != name ==> (after.profiles.dom().contains(other) <==> file.profiles.dom().contains(other))
                && (file.profiles.dom().contains(other) ==> after.profiles[other] == file.profiles[other])
            &&& activate ==> after.active_profile == name
            &&& !activate ==> after.active_profile == file.active_profile
        }),
        file.profiles.dom().contains(name) ==> previous_of(file.profiles, name) == file.profiles[name],
        !file.profiles.dom().contains(name) ==> previous_of(file.profiles, name).admin_key.len() == 0,
{
}

/// An admin profile that an alias or a runtime that is not stopped refers to is not removed.
pub proof fn lemma_profile_free(name: Seq<char>, aliases: Table<Alias>, processes: Table<Process>, at: int)
    requires
        referred(name, aliases, processes) is None,
    ensures
        0 <= at < aliases.keys().len() ==> aliases.values()[at].admin_profile@ != name,
        0 <= at < processes.keys().len() && processes.values()[at].admin_profile@ == name
            && processes.values()[at].alias@.len() > 0 ==> processes.values()[at].mode@ == "stopped"@,
{
    let first = |i: int| alias_fault(name, aliases.values()[i]);
    let second = |i: int| process_fault(name, processes.values()[i]);
    crate::checks::lemma_first_fault(0, aliases.keys().len() as int, first);
    crate::checks::lemma_first_fault(0, processes.keys().len() as int, second);
    if 0 <= at < aliases.keys().len() {
        assert(first(at) is None);
    }
    if 0 <= at < processes.keys().len() {
        assert(second(at) is None);
    }
}

/// Removing the active profile makes the first of the others active; removing another keeps it.
pub proof fn lemma_active_after(before: Seq<char>, name: Seq<char>, changed: AdminProfiles)
    requires
        next_active(before, name, changed),
    ensures
        before != name ==> changed@.active_profile == before,
        before == name && changed.profiles.keys().len() > 0 ==> changed@.active_profile
            == changed.profiles.keys()[0],
        before == name && changed.profiles.keys().len() == 0 ==> changed@.active_profile.len() == 0,
{
}

/// What is told of an admin profile.
pub proof fn lemma_profile_told(manager: Manager, profile: AdminProfileView, active: bool)
    ensures
        ({
            let doc = manager.profile_doc(profile, active);
            &&& doc.at("name"@) == Doc::Text(profile.name)
            &&& doc.at("control_plane_base_url"@) == Doc::Text(profile.control_plane_base_url)
            &&& doc.at("admin_key"@) == Doc::Text(profile.admin_key)
            &&& doc.at("active"@) == Doc::Bool(active)
            &&& doc.at("path"@) == Doc::Text(manager.root.file_of("admin_profiles.yaml"@))
            &&& profile.control_plane_url_path.len() > 0 ==> doc.at("control_plane_url_path"@) == Doc::Text(
                profile.control_plane_url_path,
            )
            &&& profile.control_plane_url_path.len() == 0 ==> doc.at("control_plane_url_path"@) == Doc::Null
            &&& profile.updated_at.len() > 0 ==> doc.at("updated_at"@) == Doc::Text(profile.updated_at)
        }),
{
    reveal_strlit("name");
    reveal_strlit("control_plane_base_url");
    reveal_strlit("control_plane_url_path");
    reveal_strlit("admin_key");
    reveal_strlit("updated_at");
    reveal_strlit("path");
    reveal_strlit("active");
    assert("name"@.len() == 4 && "name"@[0] == 'n');
    assert("control_plane_base_url"@.len() == 22 && "control_plane_base_url"@[14] == 'b');
    assert("control_plane_url_path"@.len() == 22 && "control_plane_url_path"@[14] == 'u');
    assert("admin_key"@.len() == 9);
    assert("updated_at"@.len() == 10);
    assert("path"@.len() == 4 && "path"@[0] == 'p');
    assert("active"@.len() == 6);
}

/// The profiles are told one by one, in order, the active one as such.
pub proof fn lemma_profiles_told(
    manager: Manager,
    keys: Seq<Seq<char>>,
    file: AdminProfilesView,
    count: int,
    at: int,
)
    requires
        0 <= count <= keys.len(),
    ensures
        manager.profile_docs(keys, file, count).len() == count,
        0 <= at < count ==> manager.profile_docs(keys, file, count)[at] == manager.profile_doc(
            file.profiles[keys[at]],
            file.active_profile == keys[at],
        ),
    decreases count,
{
    if count > 0 {
        lemma_profiles_told(manager, keys, file, count - 1, at);
    }
}

/// What is told of a change of an admin profile.
pub proof fn lemma_change_told(manager: Manager, file: AdminProfilesView, name: Seq<char>)
    ensures
        ({
            let doc = manager.result_doc(file, name);
            &&& doc.at("profile"@) == manager.profile_doc(file.profiles[name], file.active_profile == name)
            &&& doc.at("active_profile"@) == Doc::Text(file.active_profile)
            &&& doc.at("path"@) == Doc::Text(manager.root.file_of("admin_profiles.yaml"@))
            &&& doc.at("state_root"@) == Doc::Text(manager.root.path@)
        }),
        unknown_of(name) == "admin profile "@ + name + " is not known"@,
{
    reveal_strlit("profile");
    reveal_strlit("active_profile");
    reveal_strlit("path");
    reveal_strlit("state_root");
    assert("profile"@.len() == 7);
    assert("active_profile"@.len() == 14);
    assert("path"@.len() == 4);
    assert("state_root"@.len() == 10);
}

/// What is given counts where it holds more than white space, and what is common otherwise.
pub proof fn lemma_first_given(value: Seq<char>, fallback: Seq<char>, variables: Map<Seq<char>, String>)
    ensures
        text::trim_of(value).len() > 0 ==> first_of(value, fallback) == text::trim_of(value),
        text::trim_of(value).len() == 0 ==> first_of(value, fallback) == text::trim_of(fallback),
        variable_of(variables, value) is None ==> given_variable(variables, value).len() == 0,
        variable_of(variables, value) matches Some(found) ==> given_variable(variables, value) == found,
{
}

} // verus!
