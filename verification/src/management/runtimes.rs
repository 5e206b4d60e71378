//! Managed tunnels: how the service is reached, and which tunnel is meant.

pub mod connection;
pub mod removal;
pub mod report;

use vstd::prelude::*;
use crate::address;
use crate::admin::{self, scope_pairs, tunnel_views, Tunnel, TunnelView};
use crate::checks::{either, tells, unless};
use crate::json::{self, Doc, Json};
use crate::management::inspect::{self, tunnel_doc};
use crate::management::profiles::{
    first, first_of, given_variable, key_of, previous, previous_of, profile, profile_of,
    variable_or_empty, Manager,
};
use crate::management::records::{alias_views, AdminProfile, AdminProfileView, Alias, AliasView};
use crate::management::state::{self, alias_of, is_reference, AdminProfiles};
use crate::table::Table;
use crate::text;

verus! {

/// How the service is to be reached; what is not given is that of a profile.
pub struct Remote {
    pub profile: String,
    pub key: String,
    pub base_url: String,
    pub url_path: String,
}

/// Whose tunnels are meant.
pub struct Scope {
    pub organizations: Vec<String>,
    pub workspaces: Vec<String>,
    pub tenant: String,
}

/// The note on more than one kind of scope.
pub const FAMILIES: &'static str = "runtimes accepts exactly one remote scope family: --organization-id, --workspace-id, or --tenant-id";

/// The note on more than one organization.
pub const ORGANIZATIONS: &'static str = "runtimes list accepts at most one --organization-id for remote listing";

/// The note on more than one workspace.
pub const WORKSPACES: &'static str = "runtimes list accepts at most one --workspace-id for remote listing";

impl Scope {
    /// What is wrong with the scope: it is of one kind, and a list has one owner.
    pub open spec fn fault(self, list: bool) -> Option<Seq<char>> {
        let organizations = self.organizations@.len();
        let workspaces = self.workspaces@.len();
        let tenant = self.tenant@.len();
        either(
            unless(
                (organizations == 0 || workspaces == 0) && (organizations == 0 || tenant == 0) && (
                workspaces == 0 || tenant == 0),
                FAMILIES@,
            ),
            either(
                unless(!list || organizations <= 1, ORGANIZATIONS@),
                unless(!list || workspaces <= 1, WORKSPACES@),
            ),
        )
    }

    /// Checks the scope.
    pub fn validate(&self, list: bool) -> (result: Result<(), String>)
        ensures
            tells(result, self.fault(list)),
    {
        let organizations = self.organizations.len() > 0;
        let workspaces = self.workspaces.len() > 0;
        let tenant = !self.tenant.is_empty();
        if (organizations && workspaces) || (organizations && tenant) || (workspaces && tenant) {
            return Err(FAMILIES.to_owned());
        }
        if list && self.organizations.len() > 1 {
            return Err(ORGANIZATIONS.to_owned());
        }
        if list && self.workspaces.len() > 1 {
            return Err(WORKSPACES.to_owned());
        }
        Ok(())
    }

    /// Whether a scope is given.
    pub open spec fn is_present(self) -> bool {
        self.organizations@.len() > 0 || self.workspaces@.len() > 0 || self.tenant@.len() > 0
    }

    /// Whether a scope is given.
    pub fn present(&self) -> (result: bool)
        ensures
            result == self.is_present(),
    {
        self.organizations.len() > 0 || self.workspaces.len() > 0 || !self.tenant.is_empty()
    }

    /// What is asked for with a list of tunnels, or why it is not; nothing without a scope.
    pub fn query(&self) -> (result: Result<Option<Vec<(String, String)>>, String>)
        ensures
            match result {
                Ok(None) => !self.is_present(),
                Ok(Some(pairs)) => self.is_present() && self.fault(true) is None
                    && address::pair_views(pairs@) == scope_pairs(
                    first_text(text::views(self.organizations@)),
                    first_text(text::views(self.workspaces@)),
                    self.tenant@,
                ),
                Err(reason) => self.is_present() && self.fault(true) == Some(reason@),
            },
    {
        if !self.present() {
            return Ok(None);
        }
        match self.validate(true) {
            Ok(()) => {},
            Err(reason) => {
                return Err(reason);
            },
        }
        let organization = first_or_empty(&self.organizations);
        let workspace = first_or_empty(&self.workspaces);
        Ok(Some(admin::scope(&organization, &workspace, &self.tenant)))
    }
}

/// The first text, or an empty one.
pub open spec fn first_text(items: Seq<Seq<char>>) -> Seq<char> {
    if items.len() == 0 {
        Seq::empty()
    } else {
        items[0]
    }
}

fn first_or_empty(items: &Vec<String>) -> (result: String)
    ensures
        result@ == first_text(text::views(items@)),
{
    if items.len() == 0 {
        let empty = String::new();
        assert(empty@ =~= Seq::<char>::empty());
        empty
    } else {
        assert(text::views(items@)[0] == items@[0]@);
        items[0].clone()
    }
}

/// A tunnel to be made or found.
pub struct Create {
    pub alias: String,
    pub name: String,
    pub description: String,
    pub remote: Remote,
    pub scope: Scope,
}

/// A runtime to be connected.
pub struct Connect {
    pub create: Create,
    pub tunnel_id: String,
    pub profile: String,
    pub profile_dir: String,
    pub server_url: String,
    pub command: String,
    pub key: String,
    pub binary: String,
}

/// What is told of a managed tunnel, and the code to leave with.
pub struct Outcome {
    pub payload: Json,
    pub code: u8,
}

/// The name of the profile that is meant.
pub open spec fn remote_name(
    requested: Seq<char>,
    fallback: Seq<char>,
    variables: Map<Seq<char>, String>,
) -> Seq<char> {
    alias_of(
        first_of(
            requested,
            first_of(
                fallback,
                first_of(given_variable(variables, "TUNNEL_MCP_ADMIN_PROFILE"@), "default"@),
            ),
        ),
    )
}

/// The profile that is meant: the one before where it says the same, or else a new one.
pub open spec fn remote_of(
    requested: Remote,
    name: Seq<char>,
    before: AdminProfileView,
    variables: Map<Seq<char>, String>,
    now: Seq<char>,
) -> (AdminProfileView, bool) {
    let made = profile_of(
        before,
        name,
        requested.base_url@,
        requested.url_path@,
        requested.key@,
        variables,
        now,
    );
    if before.name.len() == 0 || before.control_plane_base_url != made.control_plane_base_url
        || before.control_plane_url_path != made.control_plane_url_path || before.admin_key
        != made.admin_key {
        (made, true)
    } else {
        (before, false)
    }
}

impl Manager {
    /// The profile by which the service is reached, and the profiles where they have changed.
    pub fn remote(
        &self,
        requested: &Remote,
        fallback: &str,
        file: AdminProfiles,
        variables: &Table<String>,
        now: &str,
    ) -> (result: Result<(AdminProfile, Option<AdminProfiles>), String>)
        ensures
            ({
                let name = remote_name(requested.profile@, fallback@, variables@);
                let before = previous_of(file@.profiles, name);
                let key = key_of(requested.key@, before.admin_key);
                let (chosen, changed) = remote_of(*requested, name, before, variables@, now@);
                match result {
                    Ok((profile, after)) => name.len() > 0 && is_reference(key) && profile@
                        == chosen && match after {
                        Some(after) => changed && after@ == file@.set(name, chosen, true),
                        None => !changed,
                    },
                    Err(reason) => if name.len() == 0 {
                        reason@ == "alias must contain at least one ASCII letter or number"@
                    } else {
                        !is_reference(key) && reason@
                            == "credential must be an env:NAME or file:/path reference"@
                    },
                }
            }),
    {
        let usual = first(
            &variable_or_empty(variables, "TUNNEL_MCP_ADMIN_PROFILE"),
            "default",
        );
        let given = first(&requested.profile, &first(fallback, &usual));
        let name = match state::alias(&given) {
            Ok(name) => name,
            Err(reason) => {
                return Err(reason);
            },
        };
        let before = previous(&file.profiles, &name);
        let made = profile(
            &before,
            &name,
            &requested.base_url,
            &requested.url_path,
            &requested.key,
            variables,
            now,
        );
        match state::reference(&made.admin_key) {
            Ok(()) => {},
            Err(reason) => {
                return Err(reason);
            },
        }
        if before.name.is_empty() || !text::same(
            &before.control_plane_base_url,
            &made.control_plane_base_url,
        ) || !text::same(&before.control_plane_url_path, &made.control_plane_url_path)
            || !text::same(&before.admin_key, &made.admin_key) {
            let kept = made.copy();
            return Ok((made, Some(file.set(&name, kept, true))));
        }
        Ok((before, None))
    }
}

/// Whether an error tells that something is not there.
pub open spec fn tells_not_found(message: Seq<char>) -> bool {
    let folded = text::lowercase_of(message);
    text::occurs(folded, "404"@) || text::occurs(folded, "not found"@)
}

/// Whether an error tells that something is not there.
pub fn not_found(message: &str) -> (result: bool)
    ensures
        result == tells_not_found(message@),
{
    let folded = text::lowercase(message);
    text::contains_text(&folded, "404") || text::contains_text(&folded, "not found")
}

/// The tunnel that was known under a name, or one without contents.
pub open spec fn known_of(aliases: Map<Seq<char>, AliasView>, name: Seq<char>) -> AliasView {
    if aliases.dom().contains(name) {
        aliases[name]
    } else {
        AliasView::bare()
    }
}

/// The tunnel that was known under a name, or one without contents.
pub fn known(aliases: &Table<Alias>, name: &str) -> (result: Alias)
    ensures
        result@ == known_of(alias_views(aliases@), name@),
{
    match aliases.get(name) {
        Some(record) => record.copy(),
        None => Alias::default(),
    }
}

/// What follows from the search for the tunnel that was known under a name.
#[derive(Clone, Copy, PartialEq, Eq, Structural)]
pub enum Found {
    /// It is there still.
    There,
    /// It is there no longer: the name is forgotten.
    Forget,
    /// It cannot be told.
    Fail,
}

/// What follows from the search for the tunnel that was known under a name, given why it failed.
pub fn looked_up(failure: Option<&str>) -> (result: Found)
    ensures
        result == match text::str_view(failure) {
            None => Found::There,
            Some(message) => if tells_not_found(message) {
                Found::Forget
            } else {
                Found::Fail
            },
        },
{
    match failure {
        None => Found::There,
        Some(message) => if not_found(message) {
            Found::Forget
        } else {
            Found::Fail
        },
    }
}

/// The place of the first tunnel of a name, from one on.
pub open spec fn named_from(items: Seq<TunnelView>, name: Seq<char>, at: int) -> Option<TunnelView>
    decreases items.len() - at,
{
    if at < 0 || at >= items.len() {
        None
    } else if items[at].name == name {
        Some(items[at])
    } else {
        named_from(items, name, at + 1)
    }
}

/// The contents of a tunnel, where there is one.
pub open spec fn tunnel_view(value: Option<Tunnel>) -> Option<TunnelView> {
    match value {
        Some(tunnel) => Some(tunnel@),
        None => None,
    }
}

impl Create {
    /// The name of the tunnel.
    pub open spec fn name_of(self, alias: Seq<char>) -> Seq<char> {
        first_of(self.name@, alias)
    }

    /// The description of the tunnel.
    pub open spec fn description_of(self, alias: Seq<char>) -> Seq<char> {
        first_of(self.description@, "MCP tunnel for "@ + alias)
    }

    /// The first of several tunnels that has the name.
    pub fn find(&self, alias: &str, items: &Vec<Tunnel>) -> (result: Option<Tunnel>)
        ensures
            tunnel_view(result) == named_from(tunnel_views(items@), self.name_of(alias@), 0),
    {
        let name = first(&self.name, alias);
        let ghost all = tunnel_views(items@);
        let mut index: usize = 0;
        while index < items.len()
            invariant
                index <= items.len(),
                name@ == self.name_of(alias@),
                all == tunnel_views(items@),
                named_from(all, name@, 0) == named_from(all, name@, index as int),
            decreases items.len() - index,
        {
            assert(all[index as int] == items@[index as int]@);
            if text::same(&items[index].name, &name) {
                return Some(items[index].copy());
            }
            index = index + 1;
        }
        None
    }

    /// The tunnel to be made.
    pub open spec fn body_doc(self, alias: Seq<char>) -> Doc {
        Doc::object().with("name"@, Doc::Text(self.name_of(alias))).with(
            "description"@,
            Doc::Text(self.description_of(alias)),
        ).with_if(
            self.scope.organizations@.len() > 0,
            "organization_ids"@,
            json::texts(text::views(self.scope.organizations@)),
        ).with_if(
            self.scope.workspaces@.len() > 0,
            "workspace_ids"@,
            json::texts(text::views(self.scope.workspaces@)),
        )
    }

    /// The tunnel to be made, or why there is none: it has an owner.
    pub fn body(&self, alias: &str) -> (result: Result<Json, String>)
        ensures
            ({
                let owned = self.scope.organizations@.len() > 0 || self.scope.workspaces@.len() > 0;
                match result {
                    Ok(body) => owned && body.doc() == self.body_doc(alias@),
                    Err(reason) => !owned && reason@
                        == "creating a tunnel requires --organization-id or --workspace-id"@,
                }
            }),
    {
        if self.scope.organizations.len() == 0 && self.scope.workspaces.len() == 0 {
            return Err(
                "creating a tunnel requires --organization-id or --workspace-id".to_owned(),
            );
        }
        let name = first(&self.name, alias);
        let description = first(&self.description, &text::cat("MCP tunnel for ", alias));
        Ok(
            Json::object().with("name", Json::text(&name)).with(
                "description",
                Json::text(&description),
            ).with_if(
                self.scope.organizations.len() > 0,
                "organization_ids",
                Json::texts(&self.scope.organizations),
            ).with_if(
                self.scope.workspaces.len() > 0,
                "workspace_ids",
                Json::texts(&self.scope.workspaces),
            ),
        )
    }

    /// The name of the tunnel on this machine, or why it is none.
    pub fn begin(&self) -> (result: Result<String, String>)
        ensures
            match result {
                Ok(name) => name@ == alias_of(self.alias@) && name@.len() > 0 && self.scope.fault(
                    false,
                ) is None,
                Err(reason) => if alias_of(self.alias@).len() == 0 {
                    reason@ == "alias must contain at least one ASCII letter or number"@
                } else {
                    self.scope.fault(false) == Some(reason@)
                },
            },
    {
        let name = match state::alias(&self.alias) {
            Ok(name) => name,
            Err(reason) => {
                return Err(reason);
            },
        };
        match self.scope.validate(false) {
            Ok(()) => Ok(name),
            Err(reason) => Err(reason),
        }
    }
}

/// What is known of a tunnel from now on.
pub open spec fn record_of(
    alias: Seq<char>,
    tunnel: TunnelView,
    profile: Seq<char>,
    now: Seq<char>,
) -> AliasView {
    AliasView {
        alias,
        tunnel_id: tunnel.id,
        name: tunnel.name,
        description: tunnel.description,
        organization_ids: tunnel.organization_ids,
        workspace_ids: tunnel.workspace_ids,
        tenant_ids: tunnel.tenant_ids,
        admin_profile: profile,
        updated_at: now,
        ..AliasView::bare()
    }
}

/// What is known of a tunnel from now on.
pub fn record(alias: &str, tunnel: &Tunnel, profile: &str, now: &str) -> (result: Alias)
    ensures
        result@ == record_of(alias@, tunnel@, profile@, now@),
{
    let result = Alias {
        alias: alias.to_owned(),
        tunnel_id: tunnel.id.clone(),
        name: tunnel.name.clone(),
        admin_profile: profile.to_owned(),
        description: tunnel.description.clone(),
        organization_ids: text::copies(&tunnel.organization_ids),
        workspace_ids: text::copies(&tunnel.workspace_ids),
        tenant_ids: text::copies(&tunnel.tenant_ids),
        config_path: String::new(),
        profile_name: String::new(),
        profile_dir: String::new(),
        profile_path: String::new(),
        health_url_file: String::new(),
        updated_at: now.to_owned(),
    };
    assert(result@ =~= record_of(alias@, tunnel@, profile@, now@));
    result
}

impl Manager {
    /// What is told of a tunnel that was made or found.
    pub open spec fn created_doc(self, alias: Seq<char>, tunnel: TunnelView, profile: Seq<char>) -> Doc {
        Doc::object().with("alias"@, Doc::Text(alias)).with("tunnel"@, tunnel_doc(tunnel)).with(
            "admin_profile"@,
            Doc::Text(profile),
        ).with(
            "admin_profile_path"@,
            Doc::Text(self.root.file_of("admin_profiles.yaml"@)),
        ).with("state_root"@, Doc::Text(self.root.path@))
    }

    /// Notes a tunnel that was made or found: the names after it, the line of the history, and what is
    /// told of it.
    pub fn create(
        &self,
        alias: &str,
        tunnel: &Tunnel,
        profile: &str,
        aliases: Table<Alias>,
        now: &str,
    ) -> (result: (Table<Alias>, String, Json))
        ensures
            alias_views(result.0@) == alias_views(aliases@).insert(
                alias@,
                record_of(alias@, tunnel@, profile@, now@),
            ),
            result.1@ == state::history_of(
                now@,
                "create"@,
                alias@,
                tunnel.id@,
                "name="@ + tunnel.name@ + " admin_profile="@ + profile@,
            ),
            result.2.doc() == self.created_doc(alias@, tunnel@, profile@),
    {
        let made = record(alias, tunnel, profile, now);
        let after = aliases.insert(alias.to_owned(), made);
        assert(alias_views(after@) =~= alias_views(aliases@).insert(alias@, made@));
        let detail = text::cat(
            &text::cat3("name=", &tunnel.name, " admin_profile="),
            profile,
        );
        let line = state::history(now, "create", alias, &tunnel.id, &detail);
        let told = Json::object().with("alias", Json::text(alias)).with(
            "tunnel",
            inspect::tunnel(tunnel),
        ).with("admin_profile", Json::text(profile)).with(
            "admin_profile_path",
            Json::text(&self.root.file("admin_profiles.yaml")),
        ).with("state_root", Json::text(&self.root.path));
        (after, line, told)
    }
}

/// The reference to the key of the service: the given one, or the one of a profile.
pub fn client_key(profile: &AdminProfile, reference: &str) -> (result: Result<String, String>)
    ensures
        ({
            let chosen = first_of(reference@, profile.admin_key@);
            match result {
                Ok(key) => key@ == chosen && is_reference(chosen),
                Err(reason) => !is_reference(chosen) && reason@
                    == "credential must be an env:NAME or file:/path reference"@,
            }
        }),
{
    let chosen = first(reference, &profile.admin_key);
    match state::reference(&chosen) {
        Ok(()) => Ok(chosen),
        Err(reason) => Err(reason),
    }
}

/// A profile that is asked for again as it is found is kept.
pub proof fn lemma_remote_kept(
    requested: Remote,
    name: Seq<char>,
    before: AdminProfileView,
    variables: Map<Seq<char>, String>,
    earlier: Seq<char>,
    now: Seq<char>,
)
    requires
        name.len() > 0,
        requested.base_url@.len() == 0,
        requested.url_path@.len() == 0,
        requested.key@.len() == 0,
    ensures
        ({
            let (made, _) = remote_of(requested, name, before, variables, earlier);
            remote_of(requested, name, made, variables, now) == (made, false)
        }),
{
    let (made, fresh) = remote_of(requested, name, before, variables, earlier);
    let empty = requested.base_url@;
    assert(requested.url_path@ =~= empty && requested.key@ =~= empty);
    if fresh {
        let usual = first_of(
            given_variable(variables, "CONTROL_PLANE_BASE_URL"@),
            "https://api.openai.com"@,
        );
        let path = given_variable(variables, "CONTROL_PLANE_URL_PATH"@);
        lemma_first_kept(empty, before.control_plane_base_url, usual);
        lemma_first_kept(empty, before.control_plane_url_path, path);
        lemma_first_kept(empty, before.admin_key, "env:OPENAI_ADMIN_KEY"@);
    }
}

/// What was found first is found first again.
proof fn lemma_first_kept(empty: Seq<char>, before: Seq<char>, usual: Seq<char>)
    requires
        empty.len() == 0,
    ensures
        ({
            let found = first_of(empty, first_of(before, usual));
            first_of(empty, first_of(found, usual)) == found
        }),
{
    text::lemma_trim_again(before);
    text::lemma_trim_again(usual);
}

/// A remote scope names one family, and for a list one member of it.
pub proof fn lemma_scope_single(scope: Scope, list: bool)
    requires
        scope.fault(list) is None,
    ensures
        scope.organizations@.len() > 0 ==> scope.workspaces@.len() == 0 && scope.tenant@.len() == 0,
        scope.workspaces@.len() > 0 ==> scope.tenant@.len() == 0,
        list ==> scope.organizations@.len() <= 1 && scope.workspaces@.len() <= 1,
{
}

/// A scope of one family is accepted; for anything but a list, of any size.
pub proof fn lemma_scope_accepted(scope: Scope, list: bool)
    requires
        scope.organizations@.len() == 0 || scope.workspaces@.len() == 0,
        scope.organizations@.len() == 0 || scope.tenant@.len() == 0,
        scope.workspaces@.len() == 0 || scope.tenant@.len() == 0,
    ensures
        scope.fault(false) is None,
        scope.organizations@.len() <= 1 && scope.workspaces@.len() <= 1 ==> scope.fault(list) is None,
        scope.is_present() <==> scope.organizations@.len() + scope.workspaces@.len() + scope.tenant@.len() > 0,
{
}

/// A profile is stored again only where it is new or one of its settings changed.
pub proof fn lemma_remote_changed(
    requested: Remote,
    name: Seq<char>,
    before: AdminProfileView,
    variables: Map<Seq<char>, String>,
    now: Seq<char>,
)
    ensures
        ({
            let (made, stored) = remote_of(requested, name, before, variables, now);
            &&& !stored ==> made == before
            &&& before.name.len() == 0 ==> stored
            &&& stored ==> made.name == name && made.updated_at == now
            &&& text::trim_of(requested.key@).len() > 0 ==> made.admin_key == text::trim_of(requested.key@)
            &&& text::trim_of(requested.base_url@).len() > 0 ==> made.control_plane_base_url == text::trim_of(
                requested.base_url@,
            )
            &&& text::trim_of(requested.url_path@).len() > 0 ==> made.control_plane_url_path == text::trim_of(
                requested.url_path@,
            )
        }),
{
}

/// The profile for the remote side is the asked one, or that of the alias, or that of the environment.
pub proof fn lemma_remote_named(requested: Seq<char>, fallback: Seq<char>, variables: Map<Seq<char>, String>)
    ensures
        text::trim_of(requested).len() > 0 ==> remote_name(requested, fallback, variables) == alias_of(
            text::trim_of(requested),
        ),
        text::trim_of(requested).len() == 0 && text::trim_of(fallback).len() > 0 && text::trim_of(
            text::trim_of(fallback),
        ) == text::trim_of(fallback) ==> remote_name(requested, fallback, variables) == alias_of(
            text::trim_of(fallback),
        ),
{
}

/// A tunnel is found again by its name, the first of that name.
pub proof fn lemma_tunnel_named(items: Seq<TunnelView>, name: Seq<char>, from: int, at: int)
    requires
        0 <= from <= items.len(),
    ensures
        from <= at < items.len() && items[at].name == name && (forall|i: int|
            from <= i < at ==> (#[trigger] items[i]).name != name) ==> named_from(items, name, from) == Some(
            items[at],
        ),
        (forall|i: int| from <= i < items.len() ==> (#[trigger] items[i]).name != name) ==> named_from(
            items,
            name,
            from,
        ) is None,
    decreases items.len() - from,
{
    if from < items.len() {
        lemma_tunnel_named(items, name, from + 1, at);
        assert(items[from] == items[from]);
    }
}

/// A tunnel is created under the given name, or that of the alias, and for the given organizations and workspaces.
pub proof fn lemma_tunnel_created(create: Create, alias: Seq<char>)
    ensures
        ({
            let doc = create.body_doc(alias);
            &&& text::trim_of(create.name@).len() > 0 ==> doc.at("name"@) == Doc::Text(text::trim_of(create.name@))
            &&& text::trim_of(create.name@).len() == 0 ==> doc.at("name"@) == Doc::Text(text::trim_of(alias))
            &&& text::trim_of(create.description@).len() > 0 ==> doc.at("description"@) == Doc::Text(
                text::trim_of(create.description@),
            )
            &&& text::trim_of(create.description@).len() == 0 ==> doc.at("description"@) == Doc::Text(
                text::trim_of("MCP tunnel for "@ + alias),
            )
            &&& create.scope.organizations@.len() > 0 ==> doc.at("organization_ids"@) == json::texts(
                text::views(create.scope.organizations@),
            )
            &&& create.scope.organizations@.len() == 0 ==> doc.at("organization_ids"@) == Doc::Null
            &&& create.scope.workspaces@.len() > 0 ==> doc.at("workspace_ids"@) == json::texts(
                text::views(create.scope.workspaces@),
            )
            &&& create.scope.workspaces@.len() == 0 ==> doc.at("workspace_ids"@) == Doc::Null
        }),
{
    reveal_strlit("name");
    reveal_strlit("description");
    reveal_strlit("organization_ids");
    reveal_strlit("workspace_ids");
    assert("name"@.len() == 4);
    assert("description"@.len() == 11);
    assert("organization_ids"@.len() == 16);
    assert("workspace_ids"@.len() == 13);
}

/// The record of an alias holds what the service told of its tunnel.
pub proof fn lemma_alias_recorded(alias: Seq<char>, tunnel: TunnelView, profile: Seq<char>, now: Seq<char>)
    ensures
        ({
            let record = record_of(alias, tunnel, profile, now);
            &&& record.alias == alias
            &&& record.tunnel_id == tunnel.id
            &&& record.name == tunnel.name
            &&& record.description == tunnel.description
            &&& record.organization_ids == tunnel.organization_ids
            &&& record.workspace_ids == tunnel.workspace_ids
            &&& record.tenant_ids == tunnel.tenant_ids
            &&& record.admin_profile == profile
            &&& record.updated_at == now
            &&& record.profile_path.len() == 0
        }),
        tells_not_found("404"@) || true,
{
}

/// What is told of a new tunnel.
pub proof fn lemma_creation_told(manager: Manager, alias: Seq<char>, tunnel: TunnelView, profile: Seq<char>)
    ensures
        ({
            let doc = manager.created_doc(alias, tunnel, profile);
            &&& doc.at("alias"@) == Doc::Text(alias)
            &&& doc.at("tunnel"@) == tunnel_doc(tunnel)
            &&& doc.at("admin_profile"@) == Doc::Text(profile)
            &&& doc.at("admin_profile_path"@) == Doc::Text(manager.root.file_of("admin_profiles.yaml"@))
            &&& doc.at("state_root"@) == Doc::Text(manager.root.path@)
        }),
{
    reveal_strlit("alias");
    reveal_strlit("tunnel");
    reveal_strlit("admin_profile");
    reveal_strlit("admin_profile_path");
    reveal_strlit("state_root");
    assert("alias"@.len() == 5);
    assert("tunnel"@.len() == 6);
    assert("admin_profile"@.len() == 13);
    assert("admin_profile_path"@.len() == 18);
    assert("state_root"@.len() == 10);
}

/// A service that tells of something missing says so in its words or by its number.
pub proof fn lemma_missing_told(message: Seq<char>)
    ensures
        text::occurs(text::lowercase_of(message), "404"@) ==> tells_not_found(message),
        text::occurs(text::lowercase_of(message), "not found"@) ==> tells_not_found(message),
        tells_not_found(message) ==> text::occurs(text::lowercase_of(message), "404"@) || text::occurs(
            text::lowercase_of(message),
            "not found"@,
        ),
{
}

/// A change of any setting of a profile has it stored.
pub proof fn lemma_remote_stored(
    requested: Remote,
    name: Seq<char>,
    before: AdminProfileView,
    variables: Map<Seq<char>, String>,
    now: Seq<char>,
)
    ensures
        text::trim_of(requested.key@).len() > 0 && text::trim_of(requested.key@) != before.admin_key ==> remote_of(
            requested,
            name,
            before,
            variables,
            now,
        ).1,
        text::trim_of(requested.base_url@).len() > 0 && text::trim_of(requested.base_url@)
            != before.control_plane_base_url ==> remote_of(requested, name, before, variables, now).1,
        text::trim_of(requested.url_path@).len() > 0 && text::trim_of(requested.url_path@)
            != before.control_plane_url_path ==> remote_of(requested, name, before, variables, now).1,
{
}

} // verus!
