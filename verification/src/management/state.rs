//! Where the records of managed tunnels are kept, and what they may hold.

use vstd::prelude::*;
use crate::checks::{either, tells, unless};
use crate::config::values::{below, path_below};
use crate::json::{self, parsed_json, Doc, Json};
use crate::management::records::{
    alias_table, alias_views, process_table, process_views, profile_table, profile_views,
    read_alias_table, read_process_table, read_profile_table, AdminProfile, AdminProfileView, Alias,
    AliasView, Process, ProcessView,
};
use crate::table::Table;
use crate::words::{words, words_of, Break};
use crate::{pattern, text, words as word};

verus! {

/// How services are administered, and which profile is in use.
pub struct AdminProfiles {
    pub active_profile: String,
    pub profiles: Table<AdminProfile>,
}

/// The contents of [`AdminProfiles`].
#[verifier::ext_equal]
pub struct AdminProfilesView {
    pub active_profile: Seq<char>,
    pub profiles: Map<Seq<char>, AdminProfileView>,
}

impl View for AdminProfiles {
    type V = AdminProfilesView;

    open spec fn view(&self) -> AdminProfilesView {
        AdminProfilesView {
            active_profile: self.active_profile@,
            profiles: profile_views(self.profiles@),
        }
    }
}

/// The directory of the records.
pub struct Root {
    pub path: String,
}

/// The variable without white space around it, where there is more than that.
pub open spec fn variable_of(variables: Map<Seq<char>, String>, name: Seq<char>) -> Option<Seq<char>> {
    if variables.dom().contains(name) && text::trim_of(variables[name]@).len() > 0 {
        Some(text::trim_of(variables[name]@))
    } else {
        None
    }
}

/// The variable without white space around it, where there is more than that.
pub fn variable(variables: &Table<String>, name: &str) -> (result: Option<String>)
    ensures
        text::view_of(result) == variable_of(variables@, name@),
{
    match variables.get(name) {
        Some(value) => {
            let trimmed = text::trim(value);
            if trimmed.is_empty() {
                None
            } else {
                Some(trimmed)
            }
        },
        None => None,
    }
}

/// The directories in which records may be.
pub open spec fn candidates_of(variables: Map<Seq<char>, String>) -> Seq<Seq<char>> {
    let codex = match variable_of(variables, "CODEX_HOME"@) {
        Some(root) => seq![path_below(root, "tunnel-mcp"@)],
        None => Seq::empty(),
    };
    match variable_of(variables, "HOME"@) {
        Some(home) => codex.push(path_below(home, ".codex/tunnel-mcp"@)).push(
            path_below(home, ".tunnel-client"@),
        ),
        None => codex,
    }
}

/// The first candidate, from one on, that is among the directories.
pub open spec fn present_from(
    candidates: Seq<Seq<char>>,
    directories: Seq<Seq<char>>,
    at: int,
) -> Option<Seq<char>>
    decreases candidates.len() - at,
{
    if at < 0 || at >= candidates.len() {
        None
    } else if directories.contains(candidates[at]) {
        Some(candidates[at])
    } else {
        present_from(candidates, directories, at + 1)
    }
}

/// The directory of the records: the configured one, the first one that is there, or a new one.
pub open spec fn root_of(
    variables: Map<Seq<char>, String>,
    directories: Seq<Seq<char>>,
    home: Option<Seq<char>>,
    mac: bool,
) -> Seq<char> {
    match variable_of(variables, "TUNNEL_CLIENT_STATE_DIR"@) {
        Some(root) => root,
        None => match present_from(candidates_of(variables), directories, 0) {
            Some(path) => path,
            None => match variable_of(variables, "XDG_STATE_HOME"@) {
                Some(root) => path_below(root, "tunnel-client"@),
                None => {
                    let base = match variable_of(variables, "HOME"@) {
                        Some(home) => Some(home),
                        None => home,
                    };
                    match base {
                        Some(home) => path_below(
                            home,
                            if mac {
                                "Library/Application Support/tunnel-client"@
                            } else {
                                ".local/state/tunnel-client"@
                            },
                        ),
                        None => ".tunnel-client"@,
                    }
                },
            },
        },
    }
}

/// The directories in which records may be.
pub fn candidates(variables: &Table<String>) -> (result: Vec<String>)
    ensures
        text::views(result@) == candidates_of(variables@),
{
    let mut result: Vec<String> = Vec::new();
    if let Some(root) = variable(variables, "CODEX_HOME") {
        result.push(below(&root, "tunnel-mcp"));
    }
    if let Some(home) = variable(variables, "HOME") {
        result.push(below(&home, ".codex/tunnel-mcp"));
        result.push(below(&home, ".tunnel-client"));
    }
    assert(text::views(result@) =~= candidates_of(variables@));
    result
}

impl Root {
    /// The directory of the records, given which directories are there and a home for want of a
    /// variable.
    pub fn select(
        variables: &Table<String>,
        directories: &Vec<String>,
        home: Option<&str>,
        mac: bool,
    ) -> (result: Root)
        ensures
            result.path@ == root_of(
                variables@,
                text::views(directories@),
                text::str_view(home),
                mac,
            ),
    {
        if let Some(path) = variable(variables, "TUNNEL_CLIENT_STATE_DIR") {
            return Root { path };
        }
        let all = candidates(variables);
        let ghost names = text::views(all@);
        let mut index: usize = 0;
        while index < all.len()
            invariant
                index <= all.len(),
                names == text::views(all@),
                names == candidates_of(variables@),
                variable_of(variables@, "TUNNEL_CLIENT_STATE_DIR"@) is None,
                present_from(names, text::views(directories@), 0) == present_from(
                    names,
                    text::views(directories@),
                    index as int,
                ),
            decreases all.len() - index,
        {
            assert(names[index as int] == all@[index as int]@);
            if text::contained(directories, &all[index]) {
                return Root { path: all[index].clone() };
            }
            index = index + 1;
        }
        if let Some(root) = variable(variables, "XDG_STATE_HOME") {
            return Root { path: below(&root, "tunnel-client") };
        }
        let rest = if mac {
            "Library/Application Support/tunnel-client"
        } else {
            ".local/state/tunnel-client"
        };
        match variable(variables, "HOME") {
            Some(home) => Root { path: below(&home, rest) },
            None => match home {
                Some(home) => Root { path: below(home, rest) },
                None => Root { path: ".tunnel-client".to_owned() },
            },
        }
    }

    /// The path of a file of records.
    pub open spec fn file_of(self, name: Seq<char>) -> Seq<char> {
        path_below(self.path@, name)
    }

    /// The path of a file of records.
    pub fn file(&self, name: &str) -> (result: String)
        ensures
            result@ == self.file_of(name@),
    {
        below(&self.path, name)
    }

    /// Why a file of records cannot be read.
    pub open spec fn broken(self, name: Seq<char>) -> Seq<char> {
        "state file "@ + self.file_of(name) + " is not valid JSON-compatible YAML"@
    }

    fn breaks(&self, name: &str) -> (result: String)
        ensures
            result@ == self.broken(name@),
    {
        text::cat3("state file ", &self.file(name), " is not valid JSON-compatible YAML")
    }

    /// What is known of tunnels by their names, given what is in the file of it.
    pub fn aliases(&self, content: Option<&str>) -> (result: Result<Table<Alias>, String>)
        ensures
            match (result, records_of(text::str_view(content), |doc: Doc| alias_table(doc))) {
                (Ok(table), Some(map)) => alias_views(table@) == map,
                (Err(reason), None) => reason@ == self.broken("aliases.yaml"@),
                _ => false,
            },
    {
        let value = match content {
            None => {
                let empty: Table<Alias> = Table::new();
                assert(alias_views(empty@) =~= Map::<Seq<char>, AliasView>::empty());
                return Ok(empty);
            },
            Some(value) => value,
        };
        if let Some(value) = json::parse(value) {
            if let Some(table) = read_alias_table(&value) {
                return Ok(table);
            }
        }
        Err(self.breaks("aliases.yaml"))
    }

    /// What is known of runtimes by their names, given what is in the file of it.
    pub fn processes(&self, content: Option<&str>) -> (result: Result<Table<Process>, String>)
        ensures
            match (result, records_of(text::str_view(content), |doc: Doc| process_table(doc))) {
                (Ok(table), Some(map)) => process_views(table@) == map,
                (Err(reason), None) => reason@ == self.broken("processes.yaml"@),
                _ => false,
            },
    {
        let value = match content {
            None => {
                let empty: Table<Process> = Table::new();
                assert(process_views(empty@) =~= Map::<Seq<char>, ProcessView>::empty());
                return Ok(empty);
            },
            Some(value) => value,
        };
        if let Some(value) = json::parse(value) {
            if let Some(table) = read_process_table(&value) {
                return Ok(table);
            }
        }
        Err(self.breaks("processes.yaml"))
    }
}

/// What the content of a file tells of records; a file that is not there tells of none.
pub open spec fn records_of<V>(
    content: Option<Seq<char>>,
    table: spec_fn(Doc) -> Option<Map<Seq<char>, V>>,
) -> Option<Map<Seq<char>, V>> {
    match content {
        None => Some(Map::empty()),
        Some(value) => match parsed_json(value) {
            Some(doc) => table(doc),
            None => None,
        },
    }
}

/// What a document tells of administrative profiles: the one in use, and either an entry with the
/// profiles or the other entries.
pub open spec fn profiles_of(doc: Doc) -> Option<AdminProfilesView> {
    match doc {
        Doc::Object(map) => {
            let active = if map.dom().contains("active_profile"@) {
                map["active_profile"@].text()
            } else {
                Some(Seq::empty())
            };
            let table = if map.dom().contains("profiles"@) {
                profile_table(map["profiles"@])
            } else {
                profile_table(Doc::Object(map.remove("active_profile"@)))
            };
            match (active, table) {
                (Some(active_profile), Some(profiles)) => Some(
                    AdminProfilesView { active_profile, profiles },
                ),
                _ => None,
            }
        },
        _ => None,
    }
}

impl Root {
    /// The administrative profiles, given what is in the file of them.
    pub fn profiles(&self, content: Option<&str>) -> (result: Result<AdminProfiles, String>)
        ensures
            match content {
                None => result is Ok && result->Ok_0@ == (AdminProfilesView {
                    active_profile: Seq::empty(),
                    profiles: Map::empty(),
                }),
                Some(value) => match (result, parsed_json(value@)) {
                    (Ok(profiles), Some(doc)) => profiles_of(doc) == Some(profiles@),
                    (Err(reason), Some(doc)) => profiles_of(doc) is None && reason@ == self.broken(
                        "admin_profiles.yaml"@,
                    ),
                    (Err(reason), None) => reason@ == self.broken("admin_profiles.yaml"@),
                    _ => false,
                },
            },
    {
        let value = match content {
            None => {
                let result = AdminProfiles {
                    active_profile: String::new(),
                    profiles: Table::new(),
                };
                assert(result@.active_profile =~= Seq::<char>::empty());
                assert(result@.profiles =~= Map::<Seq<char>, AdminProfileView>::empty());
                return Ok(result);
            },
            Some(value) => value,
        };
        if let Some(value) = json::parse(value) {
            if let Some(profiles) = read_profiles(value) {
                return Ok(profiles);
            }
        }
        Err(self.breaks("admin_profiles.yaml"))
    }
}

fn read_profiles(value: Json) -> (result: Option<AdminProfiles>)
    ensures
        match result {
            Some(profiles) => profiles_of(value.doc()) == Some(profiles@),
            None => profiles_of(value.doc()) is None,
        },
{
    if !value.is_object() {
        return None;
    }
    let active_profile = match value.get("active_profile") {
        None => {
            let empty = String::new();
            assert(empty@ =~= Seq::<char>::empty());
            empty
        },
        Some(Json::Text(inner)) => inner.clone(),
        Some(_) => {
            return None;
        },
    };
    let nested = match value.get("profiles") {
        Some(inner) => Some(read_profile_table(inner)),
        None => None,
    };
    let table = match nested {
        Some(table) => table,
        None => read_profile_table(&value.without("active_profile")),
    };
    match table {
        Some(profiles) => Some(AdminProfiles { active_profile, profiles }),
        None => None,
    }
}

/// The name of a tunnel: its words in small letters with dashes between them.
pub open spec fn alias_of(value: Seq<char>) -> Seq<char> {
    text::joined(words_of(text::lowercase_of(value), Break::Symbol), "-"@)
}

/// The name of a tunnel.
pub fn alias(value: &str) -> (result: Result<String, String>)
    ensures
        match result {
            Ok(name) => alias_of(value@).len() > 0 && name@ == alias_of(value@),
            Err(reason) => alias_of(value@).len() == 0 && reason@
                == "alias must contain at least one ASCII letter or number"@,
        },
{
    let name = text::join(&words(&text::lowercase(value), Break::Symbol), "-");
    if name.is_empty() {
        return Err("alias must contain at least one ASCII letter or number".to_owned());
    }
    Ok(name)
}

/// The name of a name is the name itself.
pub proof fn lemma_alias_again(value: Seq<char>)
    ensures
        alias_of(alias_of(value)) == alias_of(value),
{
    let small = text::lowercase_of(value);
    let items = words_of(small, Break::Symbol);
    word::lemma_words_solid(small, Break::Symbol);
    reveal_strlit("-");
    assert("-"@ =~= seq!['-']);
    lemma_joined_small(small, items);
    assert(text::lowercase_of(alias_of(value)) == alias_of(value));
    word::lemma_words_joined(items, '-', Break::Symbol);
}

/// The words of a text without capitals, joined with dashes, hold no capitals.
proof fn lemma_joined_small(small: Seq<char>, items: Seq<Seq<char>>)
    requires
        items == words_of(small, Break::Symbol),
        forall|i: int| 0 <= i < small.len() ==> !text::is_upper(#[trigger] small[i]),
    ensures
        text::lowercase_of(text::joined(items, "-"@)) == text::joined(items, "-"@),
{
    lemma_words_small(small);
    lemma_joined_chars(items);
    let all = text::joined(items, "-"@);
    assert(text::lowercase_of(all) =~= all) by {
        assert forall|i: int| 0 <= i < all.len() implies text::lower_of(all[i]) == all[i] by {
            assert(!text::is_upper(all[i]));
        }
    }
}

proof fn lemma_words_small(small: Seq<char>)
    requires
        forall|i: int| 0 <= i < small.len() ==> !text::is_upper(#[trigger] small[i]),
    ensures
        forall|i: int, j: int|
            0 <= i < words_of(small, Break::Symbol).len() && 0 <= j < words_of(
                small,
                Break::Symbol,
            )[i].len() ==> !text::is_upper(#[trigger] words_of(small, Break::Symbol)[i][j]),
    decreases small.len(),
{
    if small.len() > 0 {
        let kind = Break::Symbol;
        let front = words_of(small.drop_last(), kind);
        let all = words_of(small, kind);
        assert forall|i: int| 0 <= i < small.drop_last().len() implies !text::is_upper(
            #[trigger] small.drop_last()[i],
        ) by {
            assert(small.drop_last()[i] == small[i]);
        }
        lemma_words_small(small.drop_last());
        if !kind.parts(small.last()) && small.len() > 1 && !kind.parts(small[small.len() - 2]) {
            word::lemma_words_last(small.drop_last(), kind);
        }
        assert forall|i: int, j: int| 0 <= i < all.len() && 0 <= j < all[i].len() implies
            !text::is_upper(#[trigger] all[i][j]) by {
            assert(!text::is_upper(small[small.len() - 1]));
            if i < front.len() && j < front[i].len() {
                assert(!text::is_upper(front[i][j]));
            }
        }
    }
}

proof fn lemma_joined_chars(items: Seq<Seq<char>>)
    requires
        forall|i: int, j: int|
            0 <= i < items.len() && 0 <= j < items[i].len() ==> !text::is_upper(
                #[trigger] items[i][j],
            ),
    ensures
        forall|i: int|
            0 <= i < text::joined(items, "-"@).len() ==> !text::is_upper(
                #[trigger] text::joined(items, "-"@)[i],
            ),
    decreases items.len(),
{
    reveal_strlit("-");
    if items.len() > 1 {
        let front = items.drop_last();
        assert forall|i: int, j: int| 0 <= i < front.len() && 0 <= j < front[i].len() implies
            !text::is_upper(#[trigger] front[i][j]) by {
            assert(front[i][j] == items[i][j]);
        }
        lemma_joined_chars(front);
        let base = text::joined(front, "-"@);
        let all = text::joined(items, "-"@);
        assert forall|i: int| 0 <= i < all.len() implies !text::is_upper(#[trigger] all[i]) by {
            if i < base.len() {
                assert(all[i] == base[i]);
            } else if i == base.len() {
                assert(all[i] == '-');
            } else {
                assert(all[i] == items[items.len() - 1][i - base.len() - 1]);
            }
        }
    } else if items.len() == 1 {
        assert forall|i: int| 0 <= i < items[0].len() implies !text::is_upper(
            #[trigger] items[0][i],
        ) by {}
    }
}

/// Whether a credential refers to an environment variable or a file.
pub open spec fn is_reference(value: Seq<char>) -> bool {
    "env:"@.is_prefix_of(value) || "file:"@.is_prefix_of(value)
}

/// Checks that a credential refers to an environment variable or a file.
pub fn reference(value: &str) -> (result: Result<(), String>)
    ensures
        tells(
            result,
            unless(
                is_reference(value@),
                "credential must be an env:NAME or file:/path reference"@,
            ),
        ),
{
    if text::starts_with(value, "env:") || text::starts_with(value, "file:") {
        Ok(())
    } else {
        Err("credential must be an env:NAME or file:/path reference".to_owned())
    }
}

/// What a key of a service looks like.
pub const KEY: &'static str = "sk-[A-Za-z0-9_-]{12,}";

/// What a bearer token looks like.
pub const BEARER: &'static str = "(?i)\\bBearer\\s+[A-Za-z0-9._~+/=-]{12,}";

/// What an authorization header looks like.
pub const AUTHORIZATION: &'static str = "(?i)\\bAuthorization\\s*:";

/// What an assignment of a secret looks like.
pub const ASSIGNMENT: &'static str = "(?i)(api[_-]?key|access[_-]?token|refresh[_-]?token|id[_-]?token|password|secret)=\\S+";

/// What an assignment of a known variable looks like.
pub const VARIABLE: &'static str = "(?i)\\b(OPENAI_ADMIN_KEY|OPENAI_API_KEY|CONTROL_PLANE_API_KEY)=";

/// What a user with a password in a URL looks like.
pub const USER: &'static str = "://[^/\\s:@]+:[^/\\s:@]+@";

/// What a flag for a secret looks like.
pub const FLAG: &'static str = "(?i)^-{1,2}[a-z0-9_-]*(api[_-]?key|access[_-]?token|refresh[_-]?token|id[_-]?token|password|secret)[a-z0-9_-]*$";

/// What a reference to a secret looks like.
pub const REFERENCE: &'static str = "^(env:[A-Za-z_][A-Za-z0-9_]*|file:.+|\\$[A-Za-z_][A-Za-z0-9_]*|\\$\\{[A-Za-z_][A-Za-z0-9_]*\\})$";

/// Whether a target holds a credential as it is.
pub open spec fn holds_secret(value: Seq<char>) -> bool {
    ||| pattern::regex_found(KEY@, value)
    ||| pattern::regex_found(BEARER@, value)
    ||| pattern::regex_found(AUTHORIZATION@, value)
    ||| pattern::regex_found(ASSIGNMENT@, value)
    ||| pattern::regex_found(VARIABLE@, value)
    ||| pattern::regex_found(USER@, value)
}

/// Whether a word is a flag for a secret, and the next one is a secret.
pub open spec fn flags_secret(items: Seq<Seq<char>>, at: int) -> bool {
    &&& pattern::regex_found(FLAG@, items[at])
    &&& !"-"@.is_prefix_of(items[at + 1])
    &&& !pattern::regex_found(REFERENCE@, items[at + 1])
}

/// Why a target is refused, if so: it must not hold credentials.
pub open spec fn target_fault(value: Seq<char>) -> Option<Seq<char>> {
    let items = words_of(value, Break::Space);
    either(
        unless(
            !holds_secret(value),
            "MCP target contains inline credential material; use env or file references"@,
        ),
        unless(
            !(exists|i: int| 0 <= i < items.len() - 1 && #[trigger] flags_secret(items, i)),
            "MCP command contains inline credential material; use env or file references"@,
        ),
    )
}

/// Checks that a target holds no credentials.
pub fn target(value: &str) -> (result: Result<(), String>)
    ensures
        tells(result, target_fault(value@)),
{
    if pattern::found(KEY, value) || pattern::found(BEARER, value) || pattern::found(
        AUTHORIZATION,
        value,
    ) || pattern::found(ASSIGNMENT, value) || pattern::found(VARIABLE, value) || pattern::found(
        USER,
        value,
    ) {
        return Err(
            "MCP target contains inline credential material; use env or file references".to_owned(),
        );
    }
    let items = words(value, Break::Space);
    let ghost all = text::views(items@);
    assert(all.len() == items@.len());
    let mut index: usize = 1;
    while index < items.len()
        invariant
            1 <= index,
            index <= items.len() || items.len() == 0,
            all == text::views(items@),
            all == words_of(value@, Break::Space),
            !holds_secret(value@),
            forall|i: int| 0 <= i < index - 1 ==> !#[trigger] flags_secret(all, i),
        decreases items.len() - index,
    {
        proof {
            assert(all[index - 1] == items@[index - 1]@);
            assert(all[index as int] == items@[index as int]@);
        }
        if pattern::found(FLAG, &items[index - 1]) && !text::starts_with(&items[index], "-")
            && !pattern::found(REFERENCE, &items[index]) {
            assert(flags_secret(all, index - 1));
            return Err(
                "MCP command contains inline credential material; use env or file references".to_owned(),
            );
        }
        index = index + 1;
    }
    Ok(())
}

/// A text on one line.
pub open spec fn one_line(value: Seq<char>) -> Seq<char> {
    value.map_values(
        |ch: char|
            if ch == '\n' {
                ' '
            } else {
                ch
            },
    )
}

fn on_one_line(value: &str) -> (result: String)
    ensures
        result@ == one_line(value@),
{
    let all = text::chars(value);
    let mut result = String::new();
    let mut index: usize = 0;
    assert(result@ =~= one_line(value@).take(0));
    while index < all.len()
        invariant
            index <= all.len(),
            all@ == value@,
            result@ == one_line(value@).take(index as int),
        decreases all.len() - index,
    {
        assert(one_line(value@).take(index + 1) == one_line(value@).take(index as int).push(
            one_line(value@)[index as int],
        ));
        result.push(
            if all[index] == '\n' {
                ' '
            } else {
                all[index]
            },
        );
        index = index + 1;
    }
    assert(one_line(value@).take(value@.len() as int) == one_line(value@));
    result
}

/// A line of the history.
pub open spec fn history_of(
    time: Seq<char>,
    action: Seq<char>,
    alias: Seq<char>,
    tunnel: Seq<char>,
    detail: Seq<char>,
) -> Seq<char> {
    let shown = if text::trim_of(tunnel).len() == 0 {
        "-"@
    } else {
        tunnel
    };
    let told = text::trim_of(one_line(detail));
    "- "@ + time + " action="@ + action + " alias="@ + alias + " tunnel_id="@ + shown + (
    if told.len() == 0 {
        Seq::empty()
    } else {
        " detail="@ + told
    }) + "\n"@
}

/// A line of the history.
pub fn history(time: &str, action: &str, alias: &str, tunnel: &str, detail: &str) -> (result: String)
    ensures
        result@ == history_of(time@, action@, alias@, tunnel@, detail@),
{
    let shown = if text::trim(tunnel).is_empty() {
        "-"
    } else {
        tunnel
    };
    let told = text::trim(&on_one_line(detail));
    let front = text::cat5("- ", time, " action=", action, " alias=");
    let head = text::cat(&text::cat3(&front, alias, " tunnel_id="), shown);
    let tail = if told.is_empty() {
        String::new()
    } else {
        text::cat(" detail=", &told)
    };
    assert(told@.len() == 0 ==> tail@ =~= Seq::<char>::empty());
    text::cat3(&head, &tail, "\n")
}

/// A variable counts where it holds more than white space, and then without the white space around it.
pub proof fn lemma_variable_counts(variables: Map<Seq<char>, String>, name: Seq<char>)
    ensures
        variable_of(variables, name) matches Some(value) ==> variables.dom().contains(name) && value.len() > 0
            && value == text::trim_of(variables[name]@),
        variables.dom().contains(name) && text::trim_of(variables[name]@).len() > 0 ==> variable_of(
            variables,
            name,
        ) is Some,
{
}

/// Where the state is kept: in the named directory; or in the first old one that is there, that of the coding agent
/// before that of the home; or below the named base; or in the place that the system has for it.
pub proof fn lemma_state_root(
    variables: Map<Seq<char>, String>,
    directories: Seq<Seq<char>>,
    home: Option<Seq<char>>,
    mac: bool,
)
    ensures
        variable_of(variables, "TUNNEL_CLIENT_STATE_DIR"@) matches Some(root) ==> root_of(
            variables,
            directories,
            home,
            mac,
        ) == root,
        variable_of(variables, "TUNNEL_CLIENT_STATE_DIR"@) is None ==> (variable_of(variables, "CODEX_HOME"@) matches Some(
            codex,
        ) ==> (directories.contains(path_below(codex, "tunnel-mcp"@)) ==> root_of(
            variables,
            directories,
            home,
            mac,
        ) == path_below(codex, "tunnel-mcp"@))),
        variable_of(variables, "TUNNEL_CLIENT_STATE_DIR"@) is None && variable_of(variables, "CODEX_HOME"@) is None
            ==> (variable_of(variables, "HOME"@) matches Some(own) ==> {
            &&& directories.contains(path_below(own, ".codex/tunnel-mcp"@)) ==> root_of(
                variables,
                directories,
                home,
                mac,
            ) == path_below(own, ".codex/tunnel-mcp"@)
            &&& !directories.contains(path_below(own, ".codex/tunnel-mcp"@)) && directories.contains(
                path_below(own, ".tunnel-client"@),
            ) ==> root_of(variables, directories, home, mac) == path_below(own, ".tunnel-client"@)
        }),
        variable_of(variables, "TUNNEL_CLIENT_STATE_DIR"@) is None && directories.len() == 0 ==> {
            &&& variable_of(variables, "XDG_STATE_HOME"@) matches Some(base) ==> root_of(
                variables,
                directories,
                home,
                mac,
            ) == path_below(base, "tunnel-client"@)
            &&& variable_of(variables, "XDG_STATE_HOME"@) is None ==> (variable_of(variables, "HOME"@) matches Some(
                own,
            ) ==> root_of(variables, directories, home, mac) == path_below(
                own,
                if mac {
                    "Library/Application Support/tunnel-client"@
                } else {
                    ".local/state/tunnel-client"@
                },
            ))
            &&& variable_of(variables, "XDG_STATE_HOME"@) is None && variable_of(variables, "HOME"@) is None
                ==> (home matches Some(own) ==> (!mac ==> root_of(variables, directories, home, mac)
                == path_below(own, ".local/state/tunnel-client"@)))
            &&& variable_of(variables, "XDG_STATE_HOME"@) is None && variable_of(variables, "HOME"@) is None
                && home is None ==> root_of(variables, directories, home, mac) == ".tunnel-client"@
        },
{
    let candidates = candidates_of(variables);
    assert(present_from(candidates, directories, 0) == if candidates.len() == 0 {
        None
    } else if directories.contains(candidates[0]) {
        Some(candidates[0])
    } else {
        present_from(candidates, directories, 1)
    });
    assert(present_from(candidates, directories, 1) == if candidates.len() <= 1 {
        None
    } else if directories.contains(candidates[1]) {
        Some(candidates[1])
    } else {
        present_from(candidates, directories, 2)
    });
    assert(present_from(candidates, directories, 2) == if candidates.len() <= 2 {
        None
    } else if directories.contains(candidates[2]) {
        Some(candidates[2])
    } else {
        present_from(candidates, directories, 3)
    });
    assert(present_from(candidates, directories, 3) is None);
}

/// A file that is not there holds nothing; one that is no document cannot be read.
pub proof fn lemma_state_read<V>(content: Seq<char>, table: spec_fn(Doc) -> Option<Map<Seq<char>, V>>)
    ensures
        records_of(None, table) == Some(Map::<Seq<char>, V>::empty()),
        parsed_json(content) is None ==> records_of(Some(content), table) is None,
        parsed_json(content) matches Some(doc) ==> records_of(Some(content), table) == table(doc),
{
}

/// The admin profiles stand under their own name, or, in older files, beside the active one.
pub proof fn lemma_profiles_read(map: Map<Seq<char>, Doc>, read: AdminProfilesView)
    requires
        profiles_of(Doc::Object(map)) == Some(read),
    ensures
        map.dom().contains("active_profile"@) ==> map["active_profile"@] == Doc::Text(read.active_profile),
        !map.dom().contains("active_profile"@) ==> read.active_profile.len() == 0,
        map.dom().contains("profiles"@) ==> profile_table(map["profiles"@]) == Some(read.profiles),
        !map.dom().contains("profiles"@) ==> !read.profiles.dom().contains("active_profile"@),
{
}

/// Inline credentials are told from references: only what starts as a variable or a file is a reference.
pub proof fn lemma_references_told(rest: Seq<char>, value: Seq<char>)
    ensures
        is_reference("env:"@ + rest),
        is_reference("file:"@ + rest),
        value.len() < 4 ==> !is_reference(value),
{
    reveal_strlit("env:");
    reveal_strlit("file:");
    let variable = "env:"@ + rest;
    let file = "file:"@ + rest;
    assert(variable.subrange(0, "env:"@.len() as int) =~= "env:"@);
    assert(file.subrange(0, "file:"@.len() as int) =~= "file:"@);
}

/// A target with a credential in it is refused, and so is a command with a flag for one that is followed by neither
/// another flag nor a reference.
pub proof fn lemma_targets_clean(value: Seq<char>, at: int)
    requires
        target_fault(value) is None,
    ensures
        !pattern::regex_found("sk-[A-Za-z0-9_-]{12,}"@, value),
        !pattern::regex_found("(?i)\\bBearer\\s+[A-Za-z0-9._~+/=-]{12,}"@, value),
        !pattern::regex_found("(?i)\\bAuthorization\\s*:"@, value),
        !pattern::regex_found("://[^/\\s:@]+:[^/\\s:@]+@"@, value),
        !pattern::regex_found(
            "(?i)(api[_-]?key|access[_-]?token|refresh[_-]?token|id[_-]?token|password|secret)=\\S+"@,
            value,
        ),
        !pattern::regex_found("(?i)\\b(OPENAI_ADMIN_KEY|OPENAI_API_KEY|CONTROL_PLANE_API_KEY)="@, value),
        0 <= at < words_of(value, Break::Space).len() - 1 && pattern::regex_found(
            FLAG@,
            words_of(value, Break::Space)[at],
        ) ==> "-"@.is_prefix_of(words_of(value, Break::Space)[at + 1]) || pattern::regex_found(
            REFERENCE@,
            words_of(value, Break::Space)[at + 1],
        ),
{
    let items = words_of(value, Break::Space);
    if 0 <= at < items.len() - 1 {
        assert(!flags_secret(items, at));
    }
}

/// A line of the history stays one line, and names the action, the alias and the tunnel.
pub proof fn lemma_history_line(
    time: Seq<char>,
    action: Seq<char>,
    alias: Seq<char>,
    tunnel: Seq<char>,
    detail: Seq<char>,
)
    ensures
        !one_line(detail).contains('\n'),
        one_line(detail).len() == detail.len(),
        forall|i: int| 0 <= i < detail.len() && detail[i] != '\n' ==> #[trigger] one_line(detail)[i] == detail[i],
        text::trim_of(tunnel).len() > 0 && text::trim_of(one_line(detail)).len() > 0 ==> history_of(
            time,
            action,
            alias,
            tunnel,
            detail,
        ) == "- "@ + time + " action="@ + action + " alias="@ + alias + " tunnel_id="@ + tunnel + (" detail="@
            + text::trim_of(one_line(detail))) + "\n"@,
        text::trim_of(tunnel).len() == 0 && text::trim_of(one_line(detail)).len() == 0 ==> history_of(
            time,
            action,
            alias,
            tunnel,
            detail,
        ) == "- "@ + time + " action="@ + action + " alias="@ + alias + " tunnel_id="@ + "-"@ + Seq::empty()
            + "\n"@,
{
}

/// The files of the state stand below its root under their names.
pub proof fn lemma_state_files(root: Root, name: Seq<char>)
    ensures
        root.file_of(name) == path_below(root.path@, name),
        root.broken(name) == "state file "@ + path_below(root.path@, name)
            + " is not valid JSON-compatible YAML"@,
{
}

} // verus!
