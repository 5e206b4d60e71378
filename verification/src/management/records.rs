//! The records of managed tunnels, as they are kept in files.

use vstd::prelude::*;
use crate::json::{self, Doc, Json};
use crate::table::Table;
use crate::text;

verus! {

/// A text entry of an object; it is empty where it is not there.
pub open spec fn text_entry(doc: Doc, key: Seq<char>) -> Option<Seq<char>> {
    match doc {
        Doc::Object(map) => if map.dom().contains(key) {
            map[key].text()
        } else {
            Some(Seq::empty())
        },
        _ => None,
    }
}

pub(crate) fn read_text(value: &Json, key: &str) -> (result: Option<String>)
    requires
        value.doc() is Object,
    ensures
        text::view_of(result) == text_entry(value.doc(), key@),
{
    match value.get(key) {
        None => {
            let empty = String::new();
            assert(empty@ =~= Seq::<char>::empty());
            Some(empty)
        },
        Some(Json::Text(inner)) => Some(inner.clone()),
        Some(_) => None,
    }
}

/// The texts of a list of documents, where each is one.
pub open spec fn texts_of(items: Seq<Doc>) -> Option<Seq<Seq<char>>>
    decreases items.len(),
{
    if items.len() == 0 {
        Some(Seq::empty())
    } else {
        match (texts_of(items.drop_last()), items.last()) {
            (Some(front), Doc::Text(value)) => Some(front.push(value)),
            _ => None,
        }
    }
}

/// A list of texts in an object; it is empty where it is not there.
pub open spec fn list_entry(doc: Doc, key: Seq<char>) -> Option<Seq<Seq<char>>> {
    match doc {
        Doc::Object(map) => if map.dom().contains(key) {
            match map[key] {
                Doc::List(items) => texts_of(items),
                _ => None,
            }
        } else {
            Some(Seq::empty())
        },
        _ => None,
    }
}

proof fn lemma_texts_fail(items: Seq<Doc>, at: int)
    requires
        0 <= at < items.len(),
        !(items[at] is Text),
    ensures
        texts_of(items) is None,
    decreases items.len(),
{
    if at < items.len() - 1 {
        lemma_texts_fail(items.drop_last(), at);
    }
}

pub(crate) fn read_texts(items: &Vec<Json>) -> (result: Option<Vec<String>>)
    ensures
        match result {
            Some(values) => texts_of(json::docs(items@)) == Some(text::views(values@)),
            None => texts_of(json::docs(items@)) is None,
        },
{
    let ghost all = json::docs(items@);
    proof {
        json::lemma_docs(items@);
    }
    let mut result: Vec<String> = Vec::new();
    let mut index: usize = 0;
    assert(text::views(result@) == Seq::<Seq<char>>::empty());
    while index < items.len()
        invariant
            index <= items.len(),
            all == json::docs(items@),
            all.len() == items.len(),
            forall|i: int| 0 <= i < items@.len() ==> #[trigger] all[i] == items@[i].doc(),
            texts_of(all.take(index as int)) == Some(text::views(result@)),
        decreases items.len() - index,
    {
        proof {
            assert(all.take(index + 1).drop_last() == all.take(index as int));
            assert(all.take(index + 1).last() == items@[index as int].doc());
        }
        match &items[index] {
            Json::Text(value) => {
                let own = value.clone();
                assert(text::views(result@.push(own)) == text::views(result@).push(own@));
                result.push(own);
            },
            _ => {
                proof {
                    assert(all[index as int] == items@[index as int].doc());
                    lemma_texts_fail(all, index as int);
                }
                return None;
            },
        }
        index = index + 1;
    }
    assert(all.take(all.len() as int) == all);
    Some(result)
}

pub(crate) fn read_list(value: &Json, key: &str) -> (result: Option<Vec<String>>)
    requires
        value.doc() is Object,
    ensures
        match result {
            Some(values) => list_entry(value.doc(), key@) == Some(text::views(values@)),
            None => list_entry(value.doc(), key@) is None,
        },
{
    match value.get(key) {
        None => {
            let empty: Vec<String> = Vec::new();
            assert(text::views(empty@) =~= Seq::<Seq<char>>::empty());
            Some(empty)
        },
        Some(Json::List(items)) => read_texts(items),
        Some(_) => None,
    }
}

/// A list of texts in an object; it is empty where it is not there or null.
pub open spec fn nullable_entry(doc: Doc, key: Seq<char>) -> Option<Seq<Seq<char>>> {
    if doc.at(key) is Null && doc is Object {
        Some(Seq::empty())
    } else {
        list_entry(doc, key)
    }
}

pub(crate) fn read_nullable(value: &Json, key: &str) -> (result: Option<Vec<String>>)
    requires
        value.doc() is Object,
    ensures
        match result {
            Some(values) => nullable_entry(value.doc(), key@) == Some(text::views(values@)),
            None => nullable_entry(value.doc(), key@) is None,
        },
{
    match value.get(key) {
        Some(Json::Null) => {
            let empty: Vec<String> = Vec::new();
            assert(text::views(empty@) =~= Seq::<Seq<char>>::empty());
            Some(empty)
        },
        _ => read_list(value, key),
    }
}

/// The number of a process in an object; there is none where it is not there or null.
pub open spec fn number_entry(doc: Doc, key: Seq<char>) -> Option<Option<u32>> {
    match doc {
        Doc::Object(map) => if map.dom().contains(key) {
            match map[key] {
                Doc::Null => Some(None),
                Doc::Number(value) => match text::unsigned_of(value) {
                    Some(number) => if number <= u32::MAX {
                        Some(Some(number as u32))
                    } else {
                        None
                    },
                    None => None,
                },
                _ => None,
            }
        } else {
            Some(None)
        },
        _ => None,
    }
}

pub(crate) fn read_number(value: &Json, key: &str) -> (result: Option<Option<u32>>)
    requires
        value.doc() is Object,
    ensures
        result == number_entry(value.doc(), key@),
{
    match value.get(key) {
        None => Some(None),
        Some(Json::Null) => Some(None),
        Some(Json::Number(inner)) => match text::unsigned(&json::figures(inner)) {
            Some(number) => if number <= 0xffff_ffff {
                Some(Some(number as u32))
            } else {
                None
            },
            None => None,
        },
        Some(_) => None,
    }
}

/// What is known of a tunnel under a name.
pub struct Alias {
    pub alias: String,
    pub tunnel_id: String,
    pub name: String,
    pub admin_profile: String,
    pub description: String,
    pub organization_ids: Vec<String>,
    pub workspace_ids: Vec<String>,
    pub tenant_ids: Vec<String>,
    pub config_path: String,
    pub profile_name: String,
    pub profile_dir: String,
    pub profile_path: String,
    pub health_url_file: String,
    pub updated_at: String,
}

/// The contents of [`Alias`].
#[verifier::ext_equal]
pub struct AliasView {
    pub alias: Seq<char>,
    pub tunnel_id: Seq<char>,
    pub name: Seq<char>,
    pub admin_profile: Seq<char>,
    pub description: Seq<char>,
    pub organization_ids: Seq<Seq<char>>,
    pub workspace_ids: Seq<Seq<char>>,
    pub tenant_ids: Seq<Seq<char>>,
    pub config_path: Seq<char>,
    pub profile_name: Seq<char>,
    pub profile_dir: Seq<char>,
    pub profile_path: Seq<char>,
    pub health_url_file: Seq<char>,
    pub updated_at: Seq<char>,
}

impl View for Alias {
    type V = AliasView;

    open spec fn view(&self) -> AliasView {
        AliasView {
            alias: self.alias@,
            tunnel_id: self.tunnel_id@,
            name: self.name@,
            admin_profile: self.admin_profile@,
            description: self.description@,
            organization_ids: text::views(self.organization_ids@),
            workspace_ids: text::views(self.workspace_ids@),
            tenant_ids: text::views(self.tenant_ids@),
            config_path: self.config_path@,
            profile_name: self.profile_name@,
            profile_dir: self.profile_dir@,
            profile_path: self.profile_path@,
            health_url_file: self.health_url_file@,
            updated_at: self.updated_at@,
        }
    }
}

impl AliasView {
    /// The record without any contents.
    pub open spec fn bare() -> AliasView {
        AliasView {
            alias: Seq::empty(),
            tunnel_id: Seq::empty(),
            name: Seq::empty(),
            admin_profile: Seq::empty(),
            description: Seq::empty(),
            organization_ids: Seq::empty(),
            workspace_ids: Seq::empty(),
            tenant_ids: Seq::empty(),
            config_path: Seq::empty(),
            profile_name: Seq::empty(),
            profile_dir: Seq::empty(),
            profile_path: Seq::empty(),
            health_url_file: Seq::empty(),
            updated_at: Seq::empty(),
        }
    }

    /// What a document tells of a record, where each of its entries is of its kind. What is not there
    /// is empty.
    pub open spec fn read_of(doc: Doc) -> Option<AliasView> {
        if doc is Object

            && text_entry(doc, "alias"@) is Some
            && text_entry(doc, "tunnel_id"@) is Some
            && text_entry(doc, "name"@) is Some
            && text_entry(doc, "admin_profile"@) is Some
            && text_entry(doc, "description"@) is Some
            && list_entry(doc, "organization_ids"@) is Some
            && list_entry(doc, "workspace_ids"@) is Some
            && list_entry(doc, "tenant_ids"@) is Some
            && text_entry(doc, "config_path"@) is Some
            && text_entry(doc, "profile_name"@) is Some
            && text_entry(doc, "profile_dir"@) is Some
            && text_entry(doc, "profile_path"@) is Some
            && text_entry(doc, "health_url_file"@) is Some
            && text_entry(doc, "updated_at"@) is Some
        {
            Some(AliasView {
                alias: text_entry(doc, "alias"@)->0,
                tunnel_id: text_entry(doc, "tunnel_id"@)->0,
                name: text_entry(doc, "name"@)->0,
                admin_profile: text_entry(doc, "admin_profile"@)->0,
                description: text_entry(doc, "description"@)->0,
                organization_ids: list_entry(doc, "organization_ids"@)->0,
                workspace_ids: list_entry(doc, "workspace_ids"@)->0,
                tenant_ids: list_entry(doc, "tenant_ids"@)->0,
                config_path: text_entry(doc, "config_path"@)->0,
                profile_name: text_entry(doc, "profile_name"@)->0,
                profile_dir: text_entry(doc, "profile_dir"@)->0,
                profile_path: text_entry(doc, "profile_path"@)->0,
                health_url_file: text_entry(doc, "health_url_file"@)->0,
                updated_at: text_entry(doc, "updated_at"@)->0,
            })
        } else {
            None
        }
    }
}

impl Default for Alias {
    fn default() -> (result: Alias)
        ensures
            result@ == AliasView::bare(),
    {
        let result = Alias {
            alias: String::new(),
            tunnel_id: String::new(),
            name: String::new(),
            admin_profile: String::new(),
            description: String::new(),
            organization_ids: Vec::new(),
            workspace_ids: Vec::new(),
            tenant_ids: Vec::new(),
            config_path: String::new(),
            profile_name: String::new(),
            profile_dir: String::new(),
            profile_path: String::new(),
            health_url_file: String::new(),
            updated_at: String::new(),
        };
        assert(result.alias@ =~= Seq::<char>::empty());
        assert(result.tunnel_id@ =~= Seq::<char>::empty());
        assert(result.name@ =~= Seq::<char>::empty());
        assert(result.admin_profile@ =~= Seq::<char>::empty());
        assert(result.description@ =~= Seq::<char>::empty());
        assert(text::views(result.organization_ids@) =~= Seq::<Seq<char>>::empty());
        assert(text::views(result.workspace_ids@) =~= Seq::<Seq<char>>::empty());
        assert(text::views(result.tenant_ids@) =~= Seq::<Seq<char>>::empty());
        assert(result.config_path@ =~= Seq::<char>::empty());
        assert(result.profile_name@ =~= Seq::<char>::empty());
        assert(result.profile_dir@ =~= Seq::<char>::empty());
        assert(result.profile_path@ =~= Seq::<char>::empty());
        assert(result.health_url_file@ =~= Seq::<char>::empty());
        assert(result.updated_at@ =~= Seq::<char>::empty());
        result
    }
}

impl Alias {
    /// A copy of the record.
    pub fn copy(&self) -> (result: Alias)
        ensures
            result@ == self@,
    {
        Alias {
            alias: self.alias.clone(),
            tunnel_id: self.tunnel_id.clone(),
            name: self.name.clone(),
            admin_profile: self.admin_profile.clone(),
            description: self.description.clone(),
            organization_ids: text::copies(&self.organization_ids),
            workspace_ids: text::copies(&self.workspace_ids),
            tenant_ids: text::copies(&self.tenant_ids),
            config_path: self.config_path.clone(),
            profile_name: self.profile_name.clone(),
            profile_dir: self.profile_dir.clone(),
            profile_path: self.profile_path.clone(),
            health_url_file: self.health_url_file.clone(),
            updated_at: self.updated_at.clone(),
        }
    }

    /// What a document tells of a record.
    pub fn read(value: &Json) -> (result: Option<Alias>)
        ensures
            match result {
                Some(record) => AliasView::read_of(value.doc()) == Some(record@),
                None => AliasView::read_of(value.doc()) is None,
            },
    {
        if !value.is_object() {
            return None;
        }
        let alias = match read_text(value, "alias") {
            Some(inner) => inner,
            None => {
                return None;
            },
        };
        let tunnel_id = match read_text(value, "tunnel_id") {
            Some(inner) => inner,
            None => {
                return None;
            },
        };
        let name = match read_text(value, "name") {
            Some(inner) => inner,
            None => {
                return None;
            },
        };
        let admin_profile = match read_text(value, "admin_profile") {
            Some(inner) => inner,
            None => {
                return None;
            },
        };
        let description = match read_text(value, "description") {
            Some(inner) => inner,
            None => {
                return None;
            },
        };
        let organization_ids = match read_list(value, "organization_ids") {
            Some(inner) => inner,
            None => {
                return None;
            },
        };
        let workspace_ids = match read_list(value, "workspace_ids") {
            Some(inner) => inner,
            None => {
                return None;
            },
        };
        let tenant_ids = match read_list(value, "tenant_ids") {
            Some(inner) => inner,
            None => {
                return None;
            },
        };
        let config_path = match read_text(value, "config_path") {
            Some(inner) => inner,
            None => {
                return None;
            },
        };
        let profile_name = match read_text(value, "profile_name") {
            Some(inner) => inner,
            None => {
                return None;
            },
        };
        let profile_dir = match read_text(value, "profile_dir") {
            Some(inner) => inner,
            None => {
                return None;
            },
        };
        let profile_path = match read_text(value, "profile_path") {
            Some(inner) => inner,
            None => {
                return None;
            },
        };
        let health_url_file = match read_text(value, "health_url_file") {
            Some(inner) => inner,
            None => {
                return None;
            },
        };
        let updated_at = match read_text(value, "updated_at") {
            Some(inner) => inner,
            None => {
                return None;
            },
        };
        Some(Alias { alias, tunnel_id, name, admin_profile, description, organization_ids, workspace_ids, tenant_ids, config_path, profile_name, profile_dir, profile_path, health_url_file, updated_at })
    }
}

/// What is known of a runtime under a name.
pub struct Process {
    pub alias: String,
    pub tunnel_id: String,
    pub config_path: String,
    pub health_url_file: String,
    pub target_kind: String,
    pub target_value: String,
    pub command: String,
    pub started_at: String,
    pub admin_profile: String,
    pub profile_name: String,
    pub profile_dir: String,
    pub profile_path: String,
    pub mode: String,
    pub session_name: String,
    pub tmux_socket: String,
    pub pid: Option<u32>,
    pub pid_start_time: String,
    pub pid_executable: String,
    pub log_path: String,
}

/// The contents of [`Process`].
#[verifier::ext_equal]
pub struct ProcessView {
    pub alias: Seq<char>,
    pub tunnel_id: Seq<char>,
    pub config_path: Seq<char>,
    pub health_url_file: Seq<char>,
    pub target_kind: Seq<char>,
    pub target_value: Seq<char>,
    pub command: Seq<char>,
    pub started_at: Seq<char>,
    pub admin_profile: Seq<char>,
    pub profile_name: Seq<char>,
    pub profile_dir: Seq<char>,
    pub profile_path: Seq<char>,
    pub mode: Seq<char>,
    pub session_name: Seq<char>,
    pub tmux_socket: Seq<char>,
    pub pid: Option<u32>,
    pub pid_start_time: Seq<char>,
    pub pid_executable: Seq<char>,
    pub log_path: Seq<char>,
}

impl View for Process {
    type V = ProcessView;

    open spec fn view(&self) -> ProcessView {
        ProcessView {
            alias: self.alias@,
            tunnel_id: self.tunnel_id@,
            config_path: self.config_path@,
            health_url_file: self.health_url_file@,
            target_kind: self.target_kind@,
            target_value: self.target_value@,
            command: self.command@,
            started_at: self.started_at@,
            admin_profile: self.admin_profile@,
            profile_name: self.profile_name@,
            profile_dir: self.profile_dir@,
            profile_path: self.profile_path@,
            mode: self.mode@,
            session_name: self.session_name@,
            tmux_socket: self.tmux_socket@,
            pid: self.pid,
            pid_start_time: self.pid_start_time@,
            pid_executable: self.pid_executable@,
            log_path: self.log_path@,
        }
    }
}

impl ProcessView {
    /// The record without any contents.
    pub open spec fn bare() -> ProcessView {
        ProcessView {
            alias: Seq::empty(),
            tunnel_id: Seq::empty(),
            config_path: Seq::empty(),
            health_url_file: Seq::empty(),
            target_kind: Seq::empty(),
            target_value: Seq::empty(),
            command: Seq::empty(),
            started_at: Seq::empty(),
            admin_profile: Seq::empty(),
            profile_name: Seq::empty(),
            profile_dir: Seq::empty(),
            profile_path: Seq::empty(),
            mode: Seq::empty(),
            session_name: Seq::empty(),
            tmux_socket: Seq::empty(),
            pid: None,
            pid_start_time: Seq::empty(),
            pid_executable: Seq::empty(),
            log_path: Seq::empty(),
        }
    }

    /// What a document tells of a record, where each of its entries is of its kind. What is not there
    /// is empty.
    pub open spec fn read_of(doc: Doc) -> Option<ProcessView> {
        if doc is Object

            && text_entry(doc, "alias"@) is Some
            && text_entry(doc, "tunnel_id"@) is Some
            && text_entry(doc, "config_path"@) is Some
            && text_entry(doc, "health_url_file"@) is Some
            && text_entry(doc, "target_kind"@) is Some
            && text_entry(doc, "target_value"@) is Some
            && text_entry(doc, "command"@) is Some
            && text_entry(doc, "started_at"@) is Some
            && text_entry(doc, "admin_profile"@) is Some
            && text_entry(doc, "profile_name"@) is Some
            && text_entry(doc, "profile_dir"@) is Some
            && text_entry(doc, "profile_path"@) is Some
            && text_entry(doc, "mode"@) is Some
            && text_entry(doc, "session_name"@) is Some
            && text_entry(doc, "tmux_socket"@) is Some
            && number_entry(doc, "pid"@) is Some
            && text_entry(doc, "pid_start_time"@) is Some
            && text_entry(doc, "pid_executable"@) is Some
            && text_entry(doc, "log_path"@) is Some
        {
            Some(ProcessView {
                alias: text_entry(doc, "alias"@)->0,
                tunnel_id: text_entry(doc, "tunnel_id"@)->0,
                config_path: text_entry(doc, "config_path"@)->0,
                health_url_file: text_entry(doc, "health_url_file"@)->0,
                target_kind: text_entry(doc, "target_kind"@)->0,
                target_value: text_entry(doc, "target_value"@)->0,
                command: text_entry(doc, "command"@)->0,
                started_at: text_entry(doc, "started_at"@)->0,
                admin_profile: text_entry(doc, "admin_profile"@)->0,
                profile_name: text_entry(doc, "profile_name"@)->0,
                profile_dir: text_entry(doc, "profile_dir"@)->0,
                profile_path: text_entry(doc, "profile_path"@)->0,
                mode: text_entry(doc, "mode"@)->0,
                session_name: text_entry(doc, "session_name"@)->0,
                tmux_socket: text_entry(doc, "tmux_socket"@)->0,
                pid: number_entry(doc, "pid"@)->0,
                pid_start_time: text_entry(doc, "pid_start_time"@)->0,
                pid_executable: text_entry(doc, "pid_executable"@)->0,
                log_path: text_entry(doc, "log_path"@)->0,
            })
        } else {
            None
        }
    }
}

impl Default for Process {
    fn default() -> (result: Process)
        ensures
            result@ == ProcessView::bare(),
    {
        let result = Process {
            alias: String::new(),
            tunnel_id: String::new(),
            config_path: String::new(),
            health_url_file: String::new(),
            target_kind: String::new(),
            target_value: String::new(),
            command: String::new(),
            started_at: String::new(),
            admin_profile: String::new(),
            profile_name: String::new(),
            profile_dir: String::new(),
            profile_path: String::new(),
            mode: String::new(),
            session_name: String::new(),
            tmux_socket: String::new(),
            pid: None,
            pid_start_time: String::new(),
            pid_executable: String::new(),
            log_path: String::new(),
        };
        assert(result.alias@ =~= Seq::<char>::empty());
        assert(result.tunnel_id@ =~= Seq::<char>::empty());
        assert(result.config_path@ =~= Seq::<char>::empty());
        assert(result.health_url_file@ =~= Seq::<char>::empty());
        assert(result.target_kind@ =~= Seq::<char>::empty());
        assert(result.target_value@ =~= Seq::<char>::empty());
        assert(result.command@ =~= Seq::<char>::empty());
        assert(result.started_at@ =~= Seq::<char>::empty());
        assert(result.admin_profile@ =~= Seq::<char>::empty());
        assert(result.profile_name@ =~= Seq::<char>::empty());
        assert(result.profile_dir@ =~= Seq::<char>::empty());
        assert(result.profile_path@ =~= Seq::<char>::empty());
        assert(result.mode@ =~= Seq::<char>::empty());
        assert(result.session_name@ =~= Seq::<char>::empty());
        assert(result.tmux_socket@ =~= Seq::<char>::empty());
        assert(result.pid_start_time@ =~= Seq::<char>::empty());
        assert(result.pid_executable@ =~= Seq::<char>::empty());
        assert(result.log_path@ =~= Seq::<char>::empty());
        result
    }
}

impl Process {
    /// A copy of the record.
    pub fn copy(&self) -> (result: Process)
        ensures
            result@ == self@,
    {
        Process {
            alias: self.alias.clone(),
            tunnel_id: self.tunnel_id.clone(),
            config_path: self.config_path.clone(),
            health_url_file: self.health_url_file.clone(),
            target_kind: self.target_kind.clone(),
            target_value: self.target_value.clone(),
            command: self.command.clone(),
            started_at: self.started_at.clone(),
            admin_profile: self.admin_profile.clone(),
            profile_name: self.profile_name.clone(),
            profile_dir: self.profile_dir.clone(),
            profile_path: self.profile_path.clone(),
            mode: self.mode.clone(),
            session_name: self.session_name.clone(),
            tmux_socket: self.tmux_socket.clone(),
            pid: self.pid,
            pid_start_time: self.pid_start_time.clone(),
            pid_executable: self.pid_executable.clone(),
            log_path: self.log_path.clone(),
        }
    }

    /// What a document tells of a record.
    pub fn read(value: &Json) -> (result: Option<Process>)
        ensures
            match result {
                Some(record) => ProcessView::read_of(value.doc()) == Some(record@),
                None => ProcessView::read_of(value.doc()) is None,
            },
    {
        if !value.is_object() {
            return None;
        }
        let alias = match read_text(value, "alias") {
            Some(inner) => inner,
            None => {
                return None;
            },
        };
        let tunnel_id = match read_text(value, "tunnel_id") {
            Some(inner) => inner,
            None => {
                return None;
            },
        };
        let config_path = match read_text(value, "config_path") {
            Some(inner) => inner,
            None => {
                return None;
            },
        };
        let health_url_file = match read_text(value, "health_url_file") {
            Some(inner) => inner,
            None => {
                return None;
            },
        };
        let target_kind = match read_text(value, "target_kind") {
            Some(inner) => inner,
            None => {
                return None;
            },
        };
        let target_value = match read_text(value, "target_value") {
            Some(inner) => inner,
            None => {
                return None;
            },
        };
        let command = match read_text(value, "command") {
            Some(inner) => inner,
            None => {
                return None;
            },
        };
        let started_at = match read_text(value, "started_at") {
            Some(inner) => inner,
            None => {
                return None;
            },
        };
        let admin_profile = match read_text(value, "admin_profile") {
            Some(inner) => inner,
            None => {
                return None;
            },
        };
        let profile_name = match read_text(value, "profile_name") {
            Some(inner) => inner,
            None => {
                return None;
            },
        };
        let profile_dir = match read_text(value, "profile_dir") {
            Some(inner) => inner,
            None => {
                return None;
            },
        };
        let profile_path = match read_text(value, "profile_path") {
            Some(inner) => inner,
            None => {
                return None;
            },
        };
        let mode = match read_text(value, "mode") {
            Some(inner) => inner,
            None => {
                return None;
            },
        };
        let session_name = match read_text(value, "session_name") {
            Some(inner) => inner,
            None => {
                return None;
            },
        };
        let tmux_socket = match read_text(value, "tmux_socket") {
            Some(inner) => inner,
            None => {
                return None;
            },
        };
        let pid = match read_number(value, "pid") {
            Some(inner) => inner,
            None => {
                return None;
            },
        };
        let pid_start_time = match read_text(value, "pid_start_time") {
            Some(inner) => inner,
            None => {
                return None;
            },
        };
        let pid_executable = match read_text(value, "pid_executable") {
            Some(inner) => inner,
            None => {
                return None;
            },
        };
        let log_path = match read_text(value, "log_path") {
            Some(inner) => inner,
            None => {
                return None;
            },
        };
        Some(Process { alias, tunnel_id, config_path, health_url_file, target_kind, target_value, command, started_at, admin_profile, profile_name, profile_dir, profile_path, mode, session_name, tmux_socket, pid, pid_start_time, pid_executable, log_path })
    }
}

/// How a service is administered.
pub struct AdminProfile {
    pub name: String,
    pub control_plane_base_url: String,
    pub control_plane_url_path: String,
    pub admin_key: String,
    pub updated_at: String,
}

/// The contents of [`AdminProfile`].
#[verifier::ext_equal]
pub struct AdminProfileView {
    pub name: Seq<char>,
    pub control_plane_base_url: Seq<char>,
    pub control_plane_url_path: Seq<char>,
    pub admin_key: Seq<char>,
    pub updated_at: Seq<char>,
}

impl View for AdminProfile {
    type V = AdminProfileView;

    open spec fn view(&self) -> AdminProfileView {
        AdminProfileView {
            name: self.name@,
            control_plane_base_url: self.control_plane_base_url@,
            control_plane_url_path: self.control_plane_url_path@,
            admin_key: self.admin_key@,
            updated_at: self.updated_at@,
        }
    }
}

impl AdminProfileView {
    /// The record without any contents.
    pub open spec fn bare() -> AdminProfileView {
        AdminProfileView {
            name: Seq::empty(),
            control_plane_base_url: Seq::empty(),
            control_plane_url_path: Seq::empty(),
            admin_key: Seq::empty(),
            updated_at: Seq::empty(),
        }
    }

    /// What a document tells of a record, where each of its entries is of its kind. What is not there
    /// is empty.
    pub open spec fn read_of(doc: Doc) -> Option<AdminProfileView> {
        if doc is Object

            && text_entry(doc, "name"@) is Some
            && text_entry(doc, "control_plane_base_url"@) is Some
            && text_entry(doc, "control_plane_url_path"@) is Some
            && text_entry(doc, "admin_key"@) is Some
            && text_entry(doc, "updated_at"@) is Some
        {
            Some(AdminProfileView {
                name: text_entry(doc, "name"@)->0,
                control_plane_base_url: text_entry(doc, "control_plane_base_url"@)->0,
                control_plane_url_path: text_entry(doc, "control_plane_url_path"@)->0,
                admin_key: text_entry(doc, "admin_key"@)->0,
                updated_at: text_entry(doc, "updated_at"@)->0,
            })
        } else {
            None
        }
    }
}

impl Default for AdminProfile {
    fn default() -> (result: AdminProfile)
        ensures
            result@ == AdminProfileView::bare(),
    {
        let result = AdminProfile {
            name: String::new(),
            control_plane_base_url: String::new(),
            control_plane_url_path: String::new(),
            admin_key: String::new(),
            updated_at: String::new(),
        };
        assert(result.name@ =~= Seq::<char>::empty());
        assert(result.control_plane_base_url@ =~= Seq::<char>::empty());
        assert(result.control_plane_url_path@ =~= Seq::<char>::empty());
        assert(result.admin_key@ =~= Seq::<char>::empty());
        assert(result.updated_at@ =~= Seq::<char>::empty());
        result
    }
}

impl AdminProfile {
    /// A copy of the record.
    pub fn copy(&self) -> (result: AdminProfile)
        ensures
            result@ == self@,
    {
        AdminProfile {
            name: self.name.clone(),
            control_plane_base_url: self.control_plane_base_url.clone(),
            control_plane_url_path: self.control_plane_url_path.clone(),
            admin_key: self.admin_key.clone(),
            updated_at: self.updated_at.clone(),
        }
    }

    /// What a document tells of a record.
    pub fn read(value: &Json) -> (result: Option<AdminProfile>)
        ensures
            match result {
                Some(record) => AdminProfileView::read_of(value.doc()) == Some(record@),
                None => AdminProfileView::read_of(value.doc()) is None,
            },
    {
        if !value.is_object() {
            return None;
        }
        let name = match read_text(value, "name") {
            Some(inner) => inner,
            None => {
                return None;
            },
        };
        let control_plane_base_url = match read_text(value, "control_plane_base_url") {
            Some(inner) => inner,
            None => {
                return None;
            },
        };
        let control_plane_url_path = match read_text(value, "control_plane_url_path") {
            Some(inner) => inner,
            None => {
                return None;
            },
        };
        let admin_key = match read_text(value, "admin_key") {
            Some(inner) => inner,
            None => {
                return None;
            },
        };
        let updated_at = match read_text(value, "updated_at") {
            Some(inner) => inner,
            None => {
                return None;
            },
        };
        Some(AdminProfile { name, control_plane_base_url, control_plane_url_path, admin_key, updated_at })
    }
}

/// The contents of a table of records.
pub open spec fn alias_views(map: Map<Seq<char>, Alias>) -> Map<Seq<char>, AliasView> {
    Map::new(|name: Seq<char>| map.dom().contains(name), |name: Seq<char>| map[name]@)
}

/// What a document tells of tunnels, by their names.
pub open spec fn alias_table(doc: Doc) -> Option<Map<Seq<char>, AliasView>> {
    match doc {
        Doc::Object(map) => if forall|name: Seq<char>| #[trigger]
            map.dom().contains(name) ==> AliasView::read_of(map[name]) is Some {
            Some(
                Map::new(
                    |name: Seq<char>| map.dom().contains(name),
                    |name: Seq<char>| AliasView::read_of(map[name])->0,
                ),
            )
        } else {
            None
        },
        _ => None,
    }
}

/// What a document tells of tunnels, by their names.
pub fn read_alias_table(value: &Json) -> (result: Option<Table<Alias>>)
    ensures
        match result {
            Some(table) => alias_table(value.doc()) == Some(alias_views(table@)),
            None => alias_table(value.doc()) is None,
        },
{
    match value {
        Json::Object(entries) => {
            let ghost map = json::fields(entries@);
            let mut result: Table<Alias> = Table::new();
            let mut index: usize = 0;
            assert(entries@.take(0) == Seq::<(String, Json)>::empty());
            while index < entries.len()
                invariant
                    index <= entries.len(),
                    map == json::fields(entries@),
                    value.doc() == Doc::Object(map),
                    forall|name: Seq<char>|
                        #[trigger] result@.dom().contains(name) <==> json::fields(
                            entries@.take(index as int),
                        ).dom().contains(name),
                    forall|name: Seq<char>| #[trigger]
                        result@.dom().contains(name) ==> map.dom().contains(name)
                            && AliasView::read_of(map[name]) == Some(result@[name]@),
                decreases entries.len() - index,
            {
                let name = &entries[index].0;
                proof {
                    assert(entries@.take(index + 1) == entries@.take(index as int).push(
                        entries@[index as int],
                    ));
                    json::lemma_fields_push(entries@.take(index as int), entries@[index as int]);
                    json::lemma_fields_contain(entries@, index as int);
                }
                if let Some(inner) = value.get(name) {
                    match Alias::read(inner) {
                        Some(record) => {
                            result = result.insert(name.clone(), record);
                        },
                        None => {
                            assert(map.dom().contains(name@));
                            return None;
                        },
                    }
                }
                index = index + 1;
            }
            proof {
                assert(entries@.take(entries@.len() as int) == entries@);
                assert forall|name: Seq<char>| #[trigger]
                    map.dom().contains(name) implies AliasView::read_of(map[name]) is Some by {
                    assert(result@.dom().contains(name));
                }
                assert(alias_views(result@) =~= alias_table(value.doc())->0);
            }
            Some(result)
        },
        _ => None,
    }
}

/// The contents of a table of records.
pub open spec fn process_views(map: Map<Seq<char>, Process>) -> Map<Seq<char>, ProcessView> {
    Map::new(|name: Seq<char>| map.dom().contains(name), |name: Seq<char>| map[name]@)
}

/// What a document tells of runtimes, by their names.
pub open spec fn process_table(doc: Doc) -> Option<Map<Seq<char>, ProcessView>> {
    match doc {
        Doc::Object(map) => if forall|name: Seq<char>| #[trigger]
            map.dom().contains(name) ==> ProcessView::read_of(map[name]) is Some {
            Some(
                Map::new(
                    |name: Seq<char>| map.dom().contains(name),
                    |name: Seq<char>| ProcessView::read_of(map[name])->0,
                ),
            )
        } else {
            None
        },
        _ => None,
    }
}

/// What a document tells of runtimes, by their names.
pub fn read_process_table(value: &Json) -> (result: Option<Table<Process>>)
    ensures
        match result {
            Some(table) => process_table(value.doc()) == Some(process_views(table@)),
            None => process_table(value.doc()) is None,
        },
{
    match value {
        Json::Object(entries) => {
            let ghost map = json::fields(entries@);
            let mut result: Table<Process> = Table::new();
            let mut index: usize = 0;
            assert(entries@.take(0) == Seq::<(String, Json)>::empty());
            while index < entries.len()
                invariant
                    index <= entries.len(),
                    map == json::fields(entries@),
                    value.doc() == Doc::Object(map),
                    forall|name: Seq<char>|
                        #[trigger] result@.dom().contains(name) <==> json::fields(
                            entries@.take(index as int),
                        ).dom().contains(name),
                    forall|name: Seq<char>| #[trigger]
                        result@.dom().contains(name) ==> map.dom().contains(name)
                            && ProcessView::read_of(map[name]) == Some(result@[name]@),
                decreases entries.len() - index,
            {
                let name = &entries[index].0;
                proof {
                    assert(entries@.take(index + 1) == entries@.take(index as int).push(
                        entries@[index as int],
                    ));
                    json::lemma_fields_push(entries@.take(index as int), entries@[index as int]);
                    json::lemma_fields_contain(entries@, index as int);
                }
                if let Some(inner) = value.get(name) {
                    match Process::read(inner) {
                        Some(record) => {
                            result = result.insert(name.clone(), record);
                        },
                        None => {
                            assert(map.dom().contains(name@));
                            return None;
                        },
                    }
                }
                index = index + 1;
            }
            proof {
                assert(entries@.take(entries@.len() as int) == entries@);
                assert forall|name: Seq<char>| #[trigger]
                    map.dom().contains(name) implies ProcessView::read_of(map[name]) is Some by {
                    assert(result@.dom().contains(name));
                }
                assert(process_views(result@) =~= process_table(value.doc())->0);
            }
            Some(result)
        },
        _ => None,
    }
}

/// The contents of a table of records.
pub open spec fn profile_views(map: Map<Seq<char>, AdminProfile>) -> Map<Seq<char>, AdminProfileView> {
    Map::new(|name: Seq<char>| map.dom().contains(name), |name: Seq<char>| map[name]@)
}

/// What a document tells of administrative profiles, by their names.
pub open spec fn profile_table(doc: Doc) -> Option<Map<Seq<char>, AdminProfileView>> {
    match doc {
        Doc::Object(map) => if forall|name: Seq<char>| #[trigger]
            map.dom().contains(name) ==> AdminProfileView::read_of(map[name]) is Some {
            Some(
                Map::new(
                    |name: Seq<char>| map.dom().contains(name),
                    |name: Seq<char>| AdminProfileView::read_of(map[name])->0,
                ),
            )
        } else {
            None
        },
        _ => None,
    }
}

/// What a document tells of administrative profiles, by their names.
pub fn read_profile_table(value: &Json) -> (result: Option<Table<AdminProfile>>)
    ensures
        match result {
            Some(table) => profile_table(value.doc()) == Some(profile_views(table@)),
            None => profile_table(value.doc()) is None,
        },
{
    match value {
        Json::Object(entries) => {
            let ghost map = json::fields(entries@);
            let mut result: Table<AdminProfile> = Table::new();
            let mut index: usize = 0;
            assert(entries@.take(0) == Seq::<(String, Json)>::empty());
            while index < entries.len()
                invariant
                    index <= entries.len(),
                    map == json::fields(entries@),
                    value.doc() == Doc::Object(map),
                    forall|name: Seq<char>|
                        #[trigger] result@.dom().contains(name) <==> json::fields(
                            entries@.take(index as int),
                        ).dom().contains(name),
                    forall|name: Seq<char>| #[trigger]
                        result@.dom().contains(name) ==> map.dom().contains(name)
                            && AdminProfileView::read_of(map[name]) == Some(result@[name]@),
                decreases entries.len() - index,
            {
                let name = &entries[index].0;
                proof {
                    assert(entries@.take(index + 1) == entries@.take(index as int).push(
                        entries@[index as int],
                    ));
                    json::lemma_fields_push(entries@.take(index as int), entries@[index as int]);
                    json::lemma_fields_contain(entries@, index as int);
                }
                if let Some(inner) = value.get(name) {
                    match AdminProfile::read(inner) {
                        Some(record) => {
                            result = result.insert(name.clone(), record);
                        },
                        None => {
                            assert(map.dom().contains(name@));
                            return None;
                        },
                    }
                }
                index = index + 1;
            }
            proof {
                assert(entries@.take(entries@.len() as int) == entries@);
                assert forall|name: Seq<char>| #[trigger]
                    map.dom().contains(name) implies AdminProfileView::read_of(map[name]) is Some by {
                    assert(result@.dom().contains(name));
                }
                assert(profile_views(result@) =~= profile_table(value.doc())->0);
            }
            Some(result)
        },
        _ => None,
    }
}

/// The texts of a list are read in order, all or none of them.
pub proof fn lemma_texts_read(items: Seq<Doc>, at: int)
    ensures
        texts_of(items) matches Some(found) ==> found.len() == items.len() && (0 <= at < items.len() ==> items[at]
            == Doc::Text(found[at])),
        0 <= at < items.len() && !(items[at] is Text) ==> texts_of(items) is None,
    decreases items.len(),
{
    if items.len() > 0 {
        lemma_texts_read(items.drop_last(), at);
        if 0 <= at < items.len() - 1 {
            assert(items.drop_last()[at] == items[at]);
        }
    }
}

/// An alias is read with each of its fields from the entry of the same name.
pub proof fn lemma_alias_read(map: Map<Seq<char>, Doc>, read: AliasView)
    requires
        AliasView::read_of(Doc::Object(map)) == Some(read),
    ensures
        map.dom().contains("alias"@) ==> map["alias"@] == Doc::Text(read.alias),
        !map.dom().contains("alias"@) ==> read.alias.len() == 0,
        map.dom().contains("tunnel_id"@) ==> map["tunnel_id"@] == Doc::Text(read.tunnel_id),
        !map.dom().contains("tunnel_id"@) ==> read.tunnel_id.len() == 0,
        map.dom().contains("name"@) ==> map["name"@] == Doc::Text(read.name),
        !map.dom().contains("name"@) ==> read.name.len() == 0,
        map.dom().contains("admin_profile"@) ==> map["admin_profile"@] == Doc::Text(read.admin_profile),
        !map.dom().contains("admin_profile"@) ==> read.admin_profile.len() == 0,
        map.dom().contains("description"@) ==> map["description"@] == Doc::Text(read.description),
        !map.dom().contains("description"@) ==> read.description.len() == 0,
        map.dom().contains("config_path"@) ==> map["config_path"@] == Doc::Text(read.config_path),
        !map.dom().contains("config_path"@) ==> read.config_path.len() == 0,
        map.dom().contains("profile_name"@) ==> map["profile_name"@] == Doc::Text(read.profile_name),
        !map.dom().contains("profile_name"@) ==> read.profile_name.len() == 0,
        map.dom().contains("profile_dir"@) ==> map["profile_dir"@] == Doc::Text(read.profile_dir),
        !map.dom().contains("profile_dir"@) ==> read.profile_dir.len() == 0,
        map.dom().contains("profile_path"@) ==> map["profile_path"@] == Doc::Text(read.profile_path),
        !map.dom().contains("profile_path"@) ==> read.profile_path.len() == 0,
        map.dom().contains("health_url_file"@) ==> map["health_url_file"@] == Doc::Text(read.health_url_file),
        !map.dom().contains("health_url_file"@) ==> read.health_url_file.len() == 0,
        map.dom().contains("updated_at"@) ==> map["updated_at"@] == Doc::Text(read.updated_at),
        !map.dom().contains("updated_at"@) ==> read.updated_at.len() == 0,
        map.dom().contains("organization_ids"@) ==> (map["organization_ids"@] matches Doc::List(items) && texts_of(items) == Some(
            read.organization_ids,
        )),
        !map.dom().contains("organization_ids"@) ==> read.organization_ids.len() == 0,
        map.dom().contains("workspace_ids"@) ==> (map["workspace_ids"@] matches Doc::List(items) && texts_of(items) == Some(
            read.workspace_ids,
        )),
        !map.dom().contains("workspace_ids"@) ==> read.workspace_ids.len() == 0,
        map.dom().contains("tenant_ids"@) ==> (map["tenant_ids"@] matches Doc::List(items) && texts_of(items) == Some(
            read.tenant_ids,
        )),
        !map.dom().contains("tenant_ids"@) ==> read.tenant_ids.len() == 0,
{
}

/// A process is read with each of its fields from the entry of the same name.
pub proof fn lemma_process_read(map: Map<Seq<char>, Doc>, read: ProcessView)
    requires
        ProcessView::read_of(Doc::Object(map)) == Some(read),
    ensures
        map.dom().contains("alias"@) ==> map["alias"@] == Doc::Text(read.alias),
        !map.dom().contains("alias"@) ==> read.alias.len() == 0,
        map.dom().contains("tunnel_id"@) ==> map["tunnel_id"@] == Doc::Text(read.tunnel_id),
        !map.dom().contains("tunnel_id"@) ==> read.tunnel_id.len() == 0,
        map.dom().contains("config_path"@) ==> map["config_path"@] == Doc::Text(read.config_path),
        !map.dom().contains("config_path"@) ==> read.config_path.len() == 0,
        map.dom().contains("health_url_file"@) ==> map["health_url_file"@] == Doc::Text(read.health_url_file),
        !map.dom().contains("health_url_file"@) ==> read.health_url_file.len() == 0,
        map.dom().contains("target_kind"@) ==> map["target_kind"@] == Doc::Text(read.target_kind),
        !map.dom().contains("target_kind"@) ==> read.target_kind.len() == 0,
        map.dom().contains("target_value"@) ==> map["target_value"@] == Doc::Text(read.target_value),
        !map.dom().contains("target_value"@) ==> read.target_value.len() == 0,
        map.dom().contains("command"@) ==> map["command"@] == Doc::Text(read.command),
        !map.dom().contains("command"@) ==> read.command.len() == 0,
        map.dom().contains("started_at"@) ==> map["started_at"@] == Doc::Text(read.started_at),
        !map.dom().contains("started_at"@) ==> read.started_at.len() == 0,
        map.dom().contains("admin_profile"@) ==> map["admin_profile"@] == Doc::Text(read.admin_profile),
        !map.dom().contains("admin_profile"@) ==> read.admin_profile.len() == 0,
        map.dom().contains("profile_name"@) ==> map["profile_name"@] == Doc::Text(read.profile_name),
        !map.dom().contains("profile_name"@) ==> read.profile_name.len() == 0,
        map.dom().contains("profile_dir"@) ==> map["profile_dir"@] == Doc::Text(read.profile_dir),
        !map.dom().contains("profile_dir"@) ==> read.profile_dir.len() == 0,
        map.dom().contains("profile_path"@) ==> map["profile_path"@] == Doc::Text(read.profile_path),
        !map.dom().contains("profile_path"@) ==> read.profile_path.len() == 0,
        map.dom().contains("mode"@) ==> map["mode"@] == Doc::Text(read.mode),
        !map.dom().contains("mode"@) ==> read.mode.len() == 0,
        map.dom().contains("session_name"@) ==> map["session_name"@] == Doc::Text(read.session_name),
        !map.dom().contains("session_name"@) ==> read.session_name.len() == 0,
        map.dom().contains("tmux_socket"@) ==> map["tmux_socket"@] == Doc::Text(read.tmux_socket),
        !map.dom().contains("tmux_socket"@) ==> read.tmux_socket.len() == 0,
        map.dom().contains("pid_start_time"@) ==> map["pid_start_time"@] == Doc::Text(read.pid_start_time),
        !map.dom().contains("pid_start_time"@) ==> read.pid_start_time.len() == 0,
        map.dom().contains("pid_executable"@) ==> map["pid_executable"@] == Doc::Text(read.pid_executable),
        !map.dom().contains("pid_executable"@) ==> read.pid_executable.len() == 0,
        map.dom().contains("log_path"@) ==> map["log_path"@] == Doc::Text(read.log_path),
        !map.dom().contains("log_path"@) ==> read.log_path.len() == 0,
        map.dom().contains("pid"@) ==> (read.pid matches Some(pid) ==> (map["pid"@] matches Doc::Number(value)
            && text::unsigned_of(value) == Some(pid as u64))),
        map.dom().contains("pid"@) && map["pid"@] is Number ==> read.pid is Some,
        !map.dom().contains("pid"@) ==> read.pid is None,
{
}

/// An admin profile is read with each of its fields from the entry of the same name.
pub proof fn lemma_profile_read(map: Map<Seq<char>, Doc>, read: AdminProfileView)
    requires
        AdminProfileView::read_of(Doc::Object(map)) == Some(read),
    ensures
        map.dom().contains("name"@) ==> map["name"@] == Doc::Text(read.name),
        !map.dom().contains("name"@) ==> read.name.len() == 0,
        map.dom().contains("control_plane_base_url"@) ==> map["control_plane_base_url"@] == Doc::Text(read.control_plane_base_url),
        !map.dom().contains("control_plane_base_url"@) ==> read.control_plane_base_url.len() == 0,
        map.dom().contains("control_plane_url_path"@) ==> map["control_plane_url_path"@] == Doc::Text(read.control_plane_url_path),
        !map.dom().contains("control_plane_url_path"@) ==> read.control_plane_url_path.len() == 0,
        map.dom().contains("admin_key"@) ==> map["admin_key"@] == Doc::Text(read.admin_key),
        !map.dom().contains("admin_key"@) ==> read.admin_key.len() == 0,
        map.dom().contains("updated_at"@) ==> map["updated_at"@] == Doc::Text(read.updated_at),
        !map.dom().contains("updated_at"@) ==> read.updated_at.len() == 0,
{
}

/// A table holds one record for each entry, under its name.
pub proof fn lemma_tables_read(map: Map<Seq<char>, Doc>, name: Seq<char>)
    ensures
        alias_table(Doc::Object(map)) matches Some(found) ==> (found.dom().contains(name) <==> map.dom().contains(
            name,
        )) && (map.dom().contains(name) ==> AliasView::read_of(map[name]) == Some(found[name])),
        process_table(Doc::Object(map)) matches Some(found) ==> (found.dom().contains(name)
            <==> map.dom().contains(name)) && (map.dom().contains(name) ==> ProcessView::read_of(map[name])
            == Some(found[name])),
        profile_table(Doc::Object(map)) matches Some(found) ==> (found.dom().contains(name)
            <==> map.dom().contains(name)) && (map.dom().contains(name) ==> AdminProfileView::read_of(map[name])
            == Some(found[name])),
        map.dom().contains(name) && !(map[name] is Object) ==> alias_table(Doc::Object(map)) is None
            && process_table(Doc::Object(map)) is None && profile_table(Doc::Object(map)) is None,
{
}

} // verus!
