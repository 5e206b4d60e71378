//! The administration of tunnels from the command line.

use vstd::prelude::*;
use crate::address::pair_views;
use crate::admin::{self, scope_pairs, Tunnel, TunnelView};
use crate::checks::{either, unless};
use crate::config::reference::{self, resolved_of, Sources};
use crate::json::{self, Doc, Json};
use crate::management::runtimes::first_text;
use crate::text;

verus! {

/// The fields of the first record that `csv` reads in a text, or the reason that it gives.
pub uninterp spec fn csv_fields(value: Seq<char>) -> Result<Option<Seq<Seq<char>>>, Seq<char>>;

/// What the fields of a record mean.
pub open spec fn fields_of(result: Result<Option<Vec<String>>, String>) -> Result<
    Option<Seq<Seq<char>>>,
    Seq<char>,
> {
    match result {
        Ok(Some(fields)) => Ok(Some(text::views(fields@))),
        Ok(None) => Ok(None),
        Err(reason) => Err(reason@),
    }
}

/// Reads the first record of a text: `csv::Reader::records` of a reader without headers, which depends
/// on the text alone.
#[verifier::external_body]
fn record(value: &str) -> (result: Result<Option<Vec<String>>, String>)
    ensures
        fields_of(result) == csv_fields(value@),
{
    let mut reader = csv::ReaderBuilder::new().has_headers(false).from_reader(value.as_bytes());
    match reader.records().next() {
        Some(Ok(record)) => Ok(Some(record.iter().map(str::to_owned).collect())),
        Some(Err(error)) => Err(error.to_string()),
        None => Ok(None),
    }
}

/// The values after some fields of a record, or the one that is there twice.
pub open spec fn added(before: Seq<Seq<char>>, fields: Seq<Seq<char>>, count: int) -> Result<
    Seq<Seq<char>>,
    Seq<char>,
>
    decreases count,
{
    if count <= 0 {
        Ok(before)
    } else {
        match added(before, fields, count - 1) {
            Err(value) => Err(value),
            Ok(values) => {
                let value = text::trim_of(fields[count - 1]);
                if value.len() == 0 {
                    Ok(values)
                } else if values.contains(value) {
                    Err(value)
                } else {
                    Ok(values.push(value))
                }
            },
        }
    }
}

proof fn lemma_added_fails(before: Seq<Seq<char>>, fields: Seq<Seq<char>>, at: int, count: int)
    requires
        0 <= at <= count,
        added(before, fields, at) is Err,
    ensures
        added(before, fields, count) == added(before, fields, at),
    decreases count - at,
{
    if at < count {
        lemma_added_fails(before, fields, at, count - 1);
    }
}

/// The values of the first arguments, or why there are none.
pub open spec fn strings_of(name: Seq<char>, arguments: Seq<Seq<char>>, count: int) -> Result<
    Seq<Seq<char>>,
    Seq<char>,
>
    decreases count,
{
    if count <= 0 {
        Ok(Seq::empty())
    } else {
        match strings_of(name, arguments, count - 1) {
            Err(reason) => Err(reason),
            Ok(before) => if arguments[count - 1].len() == 0 {
                Ok(before)
            } else {
                match csv_fields(arguments[count - 1]) {
                    Err(reason) => Err(reason),
                    Ok(None) => Ok(before),
                    Ok(Some(fields)) => match added(before, fields, fields.len() as int) {
                        Ok(values) => Ok(values),
                        Err(value) => Err("duplicate "@ + name + " values: "@ + value),
                    },
                }
            },
        }
    }
}

proof fn lemma_strings_fail(name: Seq<char>, arguments: Seq<Seq<char>>, at: int, count: int)
    requires
        0 <= at <= count,
        strings_of(name, arguments, at) is Err,
    ensures
        strings_of(name, arguments, count) == strings_of(name, arguments, at),
    decreases count - at,
{
    if at < count {
        lemma_strings_fail(name, arguments, at, count - 1);
    }
}

fn gather(values: Vec<String>, fields: &Vec<String>) -> (result: Result<Vec<String>, String>)
    ensures
        match (
            result,
            added(text::views(values@), text::views(fields@), fields@.len() as int),
        ) {
            (Ok(found), Ok(expected)) => text::views(found@) == expected,
            (Err(value), Err(expected)) => value@ == expected,
            _ => false,
        },
{
    let ghost before = text::views(values@);
    let ghost all = text::views(fields@);
    let mut found = values;
    let mut index: usize = 0;
    while index < fields.len()
        invariant
            index <= fields.len(),
            before == text::views(values@),
            all == text::views(fields@),
            added(before, all, index as int) == Ok::<Seq<Seq<char>>, Seq<char>>(
                text::views(found@),
            ),
        decreases fields.len() - index,
    {
        assert(all[index as int] == fields@[index as int]@);
        let value = text::trim(&fields[index]);
        if !value.is_empty() {
            if text::contained(&found, &value) {
                proof {
                    lemma_added_fails(before, all, index + 1, all.len() as int);
                }
                return Err(value);
            }
            assert(text::views(found@.push(value)) =~= text::views(found@).push(value@));
            found.push(value);
        }
        index = index + 1;
    }
    Ok(found)
}

/// The values of arguments, each of which may hold several, or why there are none.
pub fn strings(name: &str, arguments: &Vec<String>) -> (result: Result<Vec<String>, String>)
    ensures
        match (result, strings_of(name@, text::views(arguments@), arguments@.len() as int)) {
            (Ok(found), Ok(expected)) => text::views(found@) == expected,
            (Err(reason), Err(expected)) => reason@ == expected,
            _ => false,
        },
{
    let ghost all = text::views(arguments@);
    let mut found: Vec<String> = Vec::new();
    let mut index: usize = 0;
    assert(text::views(found@) =~= Seq::<Seq<char>>::empty());
    while index < arguments.len()
        invariant
            index <= arguments.len(),
            all == text::views(arguments@),
            strings_of(name@, all, index as int) == Ok::<Seq<Seq<char>>, Seq<char>>(
                text::views(found@),
            ),
        decreases arguments.len() - index,
    {
        assert(all[index as int] == arguments@[index as int]@);
        if !arguments[index].is_empty() {
            match record(&arguments[index]) {
                Err(reason) => {
                    proof {
                        lemma_strings_fail(name@, all, index + 1, all.len() as int);
                    }
                    return Err(reason);
                },
                Ok(None) => {},
                Ok(Some(fields)) => {
                    assert(text::views(fields@).len() == fields@.len());
                    match gather(found, &fields) {
                        Ok(values) => {
                            found = values;
                        },
                        Err(value) => {
                            proof {
                                lemma_strings_fail(name@, all, index + 1, all.len() as int);
                            }
                            return Err(
                                text::cat(&text::cat3("duplicate ", name, " values: "), &value),
                            );
                        },
                    }
                },
            }
        }
        index = index + 1;
    }
    Ok(found)
}

/// No value of arguments comes twice.
pub proof fn lemma_strings_distinct(name: Seq<char>, arguments: Seq<Seq<char>>, count: int)
    requires
        0 <= count <= arguments.len(),
    ensures
        strings_of(name, arguments, count) matches Ok(values) ==> values.no_duplicates(),
    decreases count,
{
    if count > 0 {
        lemma_strings_distinct(name, arguments, count - 1);
        if let Ok(before) = strings_of(name, arguments, count - 1) {
            if let Ok(Some(fields)) = csv_fields(arguments[count - 1]) {
                lemma_added_distinct(before, fields, fields.len() as int);
            }
        }
    }
}

proof fn lemma_added_distinct(before: Seq<Seq<char>>, fields: Seq<Seq<char>>, count: int)
    requires
        before.no_duplicates(),
    ensures
        added(before, fields, count) matches Ok(values) ==> values.no_duplicates(),
    decreases count,
{
    if count > 0 {
        lemma_added_distinct(before, fields, count - 1);
    }
}

/// What is done to tunnels.
#[derive(Clone, Copy, PartialEq, Eq, Structural)]
pub enum Command {
    Create,
    Get,
    List,
    Update,
    Delete,
}

/// What is wrong with a command.
pub open spec fn command_fault(
    command: Command,
    confirm: bool,
    name: Seq<char>,
    description: Seq<char>,
) -> Option<Seq<char>> {
    match command {
        Command::Delete => unless(confirm, "refusing to delete without --confirm"@),
        Command::Create => either(
            unless(text::trim_of(name).len() > 0, "name is required (set --name)"@),
            unless(
                text::trim_of(description).len() > 0,
                "description is required (set --description)"@,
            ),
        ),
        _ => None,
    }
}

/// Checks a command.
pub fn check(command: Command, confirm: bool, name: &str, description: &str) -> (result: Result<
    (),
    String,
>)
    ensures
        crate::checks::tells(result, command_fault(command, confirm, name@, description@)),
{
    match command {
        Command::Delete => if !confirm {
            return Err("refusing to delete without --confirm".to_owned());
        },
        Command::Create => {
            if text::trim(name).is_empty() {
                return Err("name is required (set --name)".to_owned());
            }
            if text::trim(description).is_empty() {
                return Err("description is required (set --description)".to_owned());
            }
        },
        _ => {},
    }
    Ok(())
}

/// A variable of the environment that is more than white space.
pub open spec fn set_variable(sources: Sources, name: Seq<char>) -> Option<Seq<char>> {
    if sources.variables@.dom().contains(name) && text::trim_of(sources.variables@[name]@).len() > 0 {
        Some(sources.variables@[name]@)
    } else {
        None
    }
}

fn set_value(sources: &Sources, name: &str) -> (result: Option<String>)
    ensures
        text::view_of(result) == set_variable(*sources, name@),
{
    match sources.variables.get(name) {
        Some(value) => if text::trim(value).is_empty() {
            None
        } else {
            Some(value.clone())
        },
        None => None,
    }
}

/// The note that there is no key for a read.
pub const NO_KEY: &'static str = "tunnel get requires a runtime or admin key; set CONTROL_PLANE_API_KEY, OPENAI_API_KEY, OPENAI_ADMIN_KEY, or --admin-key";

/// The key with which the service is asked, or why there is none: a read may use the one of a runtime.
pub open spec fn key_of(reference: Seq<char>, sources: Sources, read_only: bool) -> Result<
    Seq<char>,
    Seq<char>,
> {
    let admin = set_variable(sources, "OPENAI_ADMIN_KEY"@);
    let found = if read_only && admin is None && (reference == ""@ || reference
        == "env:OPENAI_ADMIN_KEY"@) {
        match (
            set_variable(sources, "CONTROL_PLANE_API_KEY"@),
            set_variable(sources, "OPENAI_API_KEY"@),
        ) {
            (Some(key), _) => Ok(key),
            (_, Some(key)) => Ok(key),
            _ => Err(NO_KEY@),
        }
    } else if reference.len() == 0 {
        match admin {
            Some(key) => Ok(key),
            None => Err("admin key is required; set --admin-key or OPENAI_ADMIN_KEY"@),
        }
    } else if "env:"@.is_prefix_of(reference) || "file:"@.is_prefix_of(reference) {
        resolved_of("configuration value"@, reference, sources)
    } else {
        Err("admin-key must use env: or file: prefixes"@)
    };
    match found {
        Ok(key) => Ok(text::trim_of(key)),
        Err(reason) => Err(reason),
    }
}

/// The key with which the service is asked, or why there is none.
pub fn key(reference: &str, sources: &Sources, read_only: bool) -> (result: Result<String, String>)
    ensures
        reference::gives(result, key_of(reference@, *sources, read_only)),
{
    let admin = set_value(sources, "OPENAI_ADMIN_KEY");
    let found = if read_only && admin.is_none() && (text::same(reference, "") || text::same(
        reference,
        "env:OPENAI_ADMIN_KEY",
    )) {
        match (
            set_value(sources, "CONTROL_PLANE_API_KEY"),
            set_value(sources, "OPENAI_API_KEY"),
        ) {
            (Some(key), _) => Ok(key),
            (_, Some(key)) => Ok(key),
            _ => Err(NO_KEY.to_owned()),
        }
    } else if reference.is_empty() {
        match admin {
            Some(key) => Ok(key),
            None => Err("admin key is required; set --admin-key or OPENAI_ADMIN_KEY".to_owned()),
        }
    } else if text::starts_with(reference, "env:") || text::starts_with(reference, "file:") {
        reference::resolve(reference, sources)
    } else {
        Err("admin-key must use env: or file: prefixes".to_owned())
    };
    match found {
        Ok(key) => Ok(text::trim(&key)),
        Err(reason) => Err(reason),
    }
}

/// The tunnel to be made.
pub open spec fn create_doc(
    name: Seq<char>,
    description: Seq<char>,
    organizations: Seq<Seq<char>>,
    workspaces: Seq<Seq<char>>,
) -> Doc {
    Doc::object().with("name"@, Doc::Text(name)).with("description"@, Doc::Text(description)).with_if(
        organizations.len() > 0,
        "organization_ids"@,
        json::texts(organizations),
    ).with_if(workspaces.len() > 0, "workspace_ids"@, json::texts(workspaces))
}

/// The tunnel to be made, or why there is none.
pub fn create(
    name: &str,
    description: &str,
    organizations: &Vec<String>,
    workspaces: &Vec<String>,
) -> (result: Result<Json, String>)
    ensures
        match result {
            Ok(body) => (organizations@.len() > 0 || workspaces@.len() > 0) && body.doc()
                == create_doc(
                name@,
                description@,
                text::views(organizations@),
                text::views(workspaces@),
            ),
            Err(reason) => organizations@.len() == 0 && workspaces@.len() == 0 && reason@
                == "at least one of --organization-id or --workspace-id is required"@,
        },
{
    assert(text::views(organizations@).len() == organizations@.len());
    assert(text::views(workspaces@).len() == workspaces@.len());
    if organizations.len() == 0 && workspaces.len() == 0 {
        return Err(
            "at least one of --organization-id or --workspace-id is required".to_owned(),
        );
    }
    Ok(
        Json::object().with("name", Json::text(name)).with(
            "description",
            Json::text(description),
        ).with_if(organizations.len() > 0, "organization_ids", Json::texts(organizations)).with_if(
            workspaces.len() > 0,
            "workspace_ids",
            Json::texts(workspaces),
        ),
    )
}

/// What is asked for with a list, or why it is not: it has one owner.
pub fn query(organizations: &Vec<String>, workspaces: &Vec<String>, tenant: &str) -> (result: Result<
    Vec<(String, String)>,
    String,
>)
    ensures
        ({
            let organization = organizations@.len() > 0;
            let workspace = workspaces@.len() > 0;
            let owner = tenant@.len() > 0;
            let single = organization && !workspace && !owner || !organization && workspace
                && !owner || !organization && !workspace && owner;
            match result {
                Ok(pairs) => single && pair_views(pairs@) == scope_pairs(
                    first_text(text::views(organizations@)),
                    first_text(text::views(workspaces@)),
                    tenant@,
                ),
                Err(reason) => !single && reason@
                    == "provide exactly one of --organization-id, --workspace-id, or --tenant-id"@,
            }
        }),
{
    let organization = organizations.len() > 0;
    let workspace = workspaces.len() > 0;
    let owner = !tenant.is_empty();
    if !((organization && !workspace && !owner) || (!organization && workspace && !owner) || (
    !organization && !workspace && owner)) {
        return Err(
            "provide exactly one of --organization-id, --workspace-id, or --tenant-id".to_owned(),
        );
    }
    assert(text::views(organizations@).len() == organizations@.len());
    assert(text::views(workspaces@).len() == workspaces@.len());
    let empty = String::new();
    assert(empty@ =~= Seq::<char>::empty());
    let first = if organization {
        organizations[0].clone()
    } else {
        empty.clone()
    };
    let second = if workspace {
        workspaces[0].clone()
    } else {
        empty
    };
    Ok(admin::scope(&first, &second, tenant))
}

/// The changes to a tunnel that are given.
pub struct Changes {
    pub name: Option<String>,
    pub description: Option<String>,
    pub organizations: Option<Vec<String>>,
    pub workspaces: Option<Vec<String>>,
}

impl Changes {
    /// Whether a change is given.
    pub open spec fn is_some(self) -> bool {
        self.name is Some || self.description is Some || self.organizations is Some
            || self.workspaces is Some
    }

    /// The changes to a tunnel.
    pub open spec fn document_of(self) -> Doc {
        let first = match self.name {
            Some(name) => Doc::object().with("name"@, Doc::Text(text::trim_of(name@))),
            None => Doc::object(),
        };
        let second = match self.description {
            Some(description) => first.with("description"@, Doc::Text(description@)),
            None => first,
        };
        let third = match self.organizations {
            Some(items) => second.with("organization_ids"@, json::texts(text::views(items@))),
            None => second,
        };
        match self.workspaces {
            Some(items) => third.with("workspace_ids"@, json::texts(text::views(items@))),
            None => third,
        }
    }

    /// The changes to a tunnel, or why there are none.
    pub fn document(&self) -> (result: Result<Json, String>)
        ensures
            match result {
                Ok(body) => self.is_some() && body.doc() == self.document_of(),
                Err(reason) => !self.is_some() && reason@
                    == "provide at least one field to update"@,
            },
    {
        if self.name.is_none() && self.description.is_none() && self.organizations.is_none()
            && self.workspaces.is_none() {
            return Err("provide at least one field to update".to_owned());
        }
        let first = match &self.name {
            Some(name) => Json::object().with("name", Json::text(&text::trim(name))),
            None => Json::object(),
        };
        let second = match &self.description {
            Some(description) => first.with("description", Json::text(description)),
            None => first,
        };
        let third = match &self.organizations {
            Some(items) => second.with("organization_ids", Json::texts(items)),
            None => second,
        };
        Ok(
            match &self.workspaces {
                Some(items) => third.with("workspace_ids", Json::texts(items)),
                None => third,
            },
        )
    }
}

/// What is told of a tunnel, in words.
pub open spec fn tunnel_text(tunnel: TunnelView) -> Seq<char> {
    "Tunnel "@ + tunnel.id + "\n  Name: "@ + tunnel.name + "\n  Description: "@ + tunnel.description
        + "\n"@ + (if tunnel.creator.len() == 0 {
        Seq::empty()
    } else {
        "  Creator: "@ + tunnel.creator + "\n"@
    }) + "  Organizations: "@ + text::joined(tunnel.organization_ids, ", "@)
        + "\n  Workspaces: "@ + text::joined(tunnel.workspace_ids, ", "@) + "\n"@ + (
    if tunnel.tenant_ids.len() == 0 {
        Seq::empty()
    } else {
        "  Tenants: "@ + text::joined(tunnel.tenant_ids, ", "@) + "\n"@
    })
}

/// What is told of a tunnel, in words.
pub fn shown(tunnel: &Tunnel) -> (result: String)
    ensures
        result@ == tunnel_text(tunnel@),
{
    let empty = String::new();
    assert(empty@ =~= Seq::<char>::empty());
    assert(text::views(tunnel.tenant_ids@).len() == tunnel.tenant_ids@.len());
    let creator = if tunnel.creator.is_empty() {
        empty.clone()
    } else {
        text::cat3("  Creator: ", &tunnel.creator, "\n")
    };
    let tenants = if tunnel.tenant_ids.len() == 0 {
        empty
    } else {
        text::cat3("  Tenants: ", &text::join(&tunnel.tenant_ids, ", "), "\n")
    };
    let front = text::cat5(
        "Tunnel ",
        &tunnel.id,
        "\n  Name: ",
        &tunnel.name,
        "\n  Description: ",
    );
    let middle = text::cat5(
        &front,
        &tunnel.description,
        "\n",
        &creator,
        "  Organizations: ",
    );
    let rest = text::cat5(
        &middle,
        &text::join(&tunnel.organization_ids, ", "),
        "\n  Workspaces: ",
        &text::join(&tunnel.workspace_ids, ", "),
        "\n",
    );
    text::cat(&rest, &tenants)
}

/// Deleting needs a confirmation, and creating a name and a description.
pub proof fn lemma_admin_commands(confirm: bool, name: Seq<char>, description: Seq<char>)
    ensures
        command_fault(Command::Delete, confirm, name, description) is None <==> confirm,
        command_fault(Command::Create, confirm, name, description) is None <==> text::trim_of(name).len() > 0
            && text::trim_of(description).len() > 0,
        command_fault(Command::Get, confirm, name, description) is None,
        command_fault(Command::List, confirm, name, description) is None,
{
}

/// The key of an operator comes by reference, or from the environment; to read, the key of the runtime does too, before
/// the common one.
pub proof fn lemma_admin_key(reference: Seq<char>, sources: Sources)
    ensures
        reference.len() == 0 && set_variable(sources, "OPENAI_ADMIN_KEY"@) is None ==> key_of(
            reference,
            sources,
            false,
        ) is Err,
        reference.len() == 0 ==> (set_variable(sources, "OPENAI_ADMIN_KEY"@) matches Some(key) ==> key_of(
            reference,
            sources,
            false,
        ) == Ok::<Seq<char>, Seq<char>>(text::trim_of(key)) && key_of(reference, sources, true) == Ok::<
            Seq<char>,
            Seq<char>,
        >(text::trim_of(key))),
        reference == ""@ && set_variable(sources, "OPENAI_ADMIN_KEY"@) is None ==> (set_variable(
            sources,
            "CONTROL_PLANE_API_KEY"@,
        ) matches Some(key) ==> key_of(reference, sources, true) == Ok::<Seq<char>, Seq<char>>(
            text::trim_of(key),
        )),
        reference == ""@ && set_variable(sources, "OPENAI_ADMIN_KEY"@) is None && set_variable(
            sources,
            "CONTROL_PLANE_API_KEY"@,
        ) is None ==> (set_variable(sources, "OPENAI_API_KEY"@) matches Some(key) ==> key_of(
            reference,
            sources,
            true,
        ) == Ok::<Seq<char>, Seq<char>>(text::trim_of(key))),
        reference == ""@ && set_variable(sources, "OPENAI_ADMIN_KEY"@) is None && set_variable(
            sources,
            "CONTROL_PLANE_API_KEY"@,
        ) is None && set_variable(sources, "OPENAI_API_KEY"@) is None ==> key_of(reference, sources, true) is Err,
        reference.len() > 0 && !("env:"@.is_prefix_of(reference)) && !("file:"@.is_prefix_of(reference))
            ==> key_of(reference, sources, false) is Err,
        "file:"@.is_prefix_of(reference) && reference != "env:OPENAI_ADMIN_KEY"@ && reference.len() > 0 ==> (
        resolved_of("configuration value"@, reference, sources) matches Ok(key) ==> key_of(
            reference,
            sources,
            false,
        ) == Ok::<Seq<char>, Seq<char>>(text::trim_of(key))),
{
}

/// A variable is set where it holds more than white space.
pub proof fn lemma_variable_set(sources: Sources, name: Seq<char>)
    ensures
        set_variable(sources, name) matches Some(value) ==> sources.variables@.dom().contains(name)
            && text::trim_of(value).len() > 0 && value == sources.variables@[name]@,
        sources.variables@.dom().contains(name) && text::trim_of(sources.variables@[name]@).len() > 0
            ==> set_variable(sources, name) is Some,
{
}

/// What a new tunnel is asked with, and what a change asks: only what changes, each part under its own name.
pub proof fn lemma_admin_bodies(
    name: Seq<char>,
    description: Seq<char>,
    organizations: Seq<Seq<char>>,
    workspaces: Seq<Seq<char>>,
    changes: Changes,
)
    ensures
        ({
            let doc = create_doc(name, description, organizations, workspaces);
            &&& doc.at("name"@) == Doc::Text(name)
            &&& doc.at("description"@) == Doc::Text(description)
            &&& organizations.len() > 0 ==> doc.at("organization_ids"@) == json::texts(organizations)
            &&& organizations.len() == 0 ==> doc.at("organization_ids"@) == Doc::Null
            &&& workspaces.len() > 0 ==> doc.at("workspace_ids"@) == json::texts(workspaces)
            &&& workspaces.len() == 0 ==> doc.at("workspace_ids"@) == Doc::Null
        }),
        ({
            let doc = changes.document_of();
            &&& changes.name matches Some(value) ==> doc.at("name"@) == Doc::Text(text::trim_of(value@))
            &&& changes.name is None ==> doc.at("name"@) == Doc::Null
            &&& changes.description matches Some(value) ==> doc.at("description"@) == Doc::Text(value@)
            &&& changes.description is None ==> doc.at("description"@) == Doc::Null
            &&& changes.organizations matches Some(items) ==> doc.at("organization_ids"@) == json::texts(
                text::views(items@),
            )
            &&& changes.organizations is None ==> doc.at("organization_ids"@) == Doc::Null
            &&& changes.workspaces matches Some(items) ==> doc.at("workspace_ids"@) == json::texts(
                text::views(items@),
            )
            &&& changes.workspaces is None ==> doc.at("workspace_ids"@) == Doc::Null
        }),
        changes.is_some() <==> changes.name is Some || changes.description is Some || changes.organizations
            is Some || changes.workspaces is Some,
{
    reveal_strlit("name");
    reveal_strlit("description");
    reveal_strlit("organization_ids");
    reveal_strlit("workspace_ids");
    assert("name"@.len() == 4);
    assert("description"@.len() == 11);
    assert("organization_ids"@.len() == 16);
    assert("workspace_ids"@.len() == 13);
}

/// The values of an argument are taken one by one, without the white space around them; one that stands twice is
/// refused.
pub proof fn lemma_values_added(before: Seq<Seq<char>>, fields: Seq<Seq<char>>, values: Seq<Seq<char>>, count: int)
    requires
        0 < count <= fields.len(),
        added(before, fields, count - 1) == Ok::<Seq<Seq<char>>, Seq<char>>(values),
    ensures
        text::trim_of(fields[count - 1]).len() == 0 ==> added(before, fields, count) == Ok::<
            Seq<Seq<char>>,
            Seq<char>,
        >(values),
        text::trim_of(fields[count - 1]).len() > 0 && values.contains(text::trim_of(fields[count - 1]))
            ==> added(before, fields, count) is Err,
        text::trim_of(fields[count - 1]).len() > 0 && !values.contains(text::trim_of(fields[count - 1]))
            ==> added(before, fields, count) == Ok::<Seq<Seq<char>>, Seq<char>>(
            values.push(text::trim_of(fields[count - 1])),
        ),
{
}

/// What is printed of a tunnel.
pub proof fn lemma_tunnel_printed(tunnel: TunnelView)
    ensures
        tunnel.creator.len() > 0 && tunnel.tenant_ids.len() > 0 ==> tunnel_text(tunnel) == "Tunnel "@ + tunnel.id
            + "\n  Name: "@ + tunnel.name + "\n  Description: "@ + tunnel.description + "\n"@ + ("  Creator: "@
            + tunnel.creator + "\n"@) + "  Organizations: "@ + text::joined(tunnel.organization_ids, ", "@)
            + "\n  Workspaces: "@ + text::joined(tunnel.workspace_ids, ", "@) + "\n"@ + ("  Tenants: "@
            + text::joined(tunnel.tenant_ids, ", "@) + "\n"@),
        tunnel.creator.len() == 0 && tunnel.tenant_ids.len() == 0 ==> tunnel_text(tunnel) == "Tunnel "@
            + tunnel.id + "\n  Name: "@ + tunnel.name + "\n  Description: "@ + tunnel.description + "\n"@
            + Seq::empty() + "  Organizations: "@ + text::joined(tunnel.organization_ids, ", "@)
            + "\n  Workspaces: "@ + text::joined(tunnel.workspace_ids, ", "@) + "\n"@ + Seq::empty(),
{
}

} // verus!
