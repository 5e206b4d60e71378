//! Targets from the configuration, and how they are found and told of.

use vstd::prelude::*;
use crate::address::{self, parsed_url};
use crate::config::reference::{self, resolved_of, Sources};
use crate::config::settings;
use crate::harpoon::policy;
use crate::harpoon::registry::{clean, cleaned, Harpoon, Target, TargetInfo};
use crate::harpoon::schema;
use crate::json::record::{has_opening, holds_opening};
use crate::json::{self, raw_map, Doc, Json};
use crate::template::request::is_rich;
use crate::template::Template;
use crate::text;

verus! {

impl Harpoon {
    /// Whether the target is the one that a label of a template means: the label itself, or a name
    /// that is bound to the policy of a template with more than bare names.
    pub open spec fn means_template(self, label: Seq<char>, target: Target) -> bool {
        match (policy::bound_of(label), target.template) {
            (Some((name, code)), Some(template)) => target.info.label@ == text::trim_of(name)
                && is_rich(template.header_rules@) && policy::is_code(
                self.policy_key@,
                name,
                template.digest@,
                code,
            ),
            (None, Some(template)) => target.info.label@ == text::trim_of(label) && !is_rich(
                template.header_rules@,
            ),
            _ => false,
        }
    }

    /// The target that a label of a template means.
    pub fn template_target(&self, label: &str) -> (result: Result<usize, String>)
        requires
            self.wf(),
        ensures
            match result {
                Ok(at) => at < self.targets@.len() && self.means_template(
                    label@,
                    self.targets@[at as int],
                ),
                Err(reason) => reason@ == "unknown template target"@ && forall|i: int|
                    0 <= i < self.targets@.len() ==> !self.means_template(
                        label@,
                        #[trigger] self.targets@[i],
                    ),
            },
    {
        let bound = policy::bound(label);
        let name = match &bound {
            Some((name, _)) => text::trim(name),
            None => text::trim(label),
        };
        let found = self.find(&name);
        if let Some(at) = found {
            if let Some(template) = &self.targets[at].template {
                let matching = match &bound {
                    Some((name, code)) => template.rich() && policy::matches_code(
                        &self.policy_key,
                        name,
                        &template.digest,
                        code,
                    ),
                    None => !template.rich(),
                };
                if matching {
                    return Ok(at);
                }
            }
            assert(!self.means_template(label@, self.targets@[at as int]));
        }
        Err("unknown template target".to_owned())
    }
}

/// Whether the arguments of a tool hold a bound label.
pub open spec fn holds_bound(arguments: Seq<char>) -> bool {
    raw_map(arguments) is Ok && holds_opening(arguments, "label"@, "hr1:"@)
}

/// Whether the arguments of a tool hold a bound label.
pub fn contains_bound(arguments: &str) -> (result: bool)
    ensures
        result == holds_bound(arguments@),
{
    match json::raw_table(arguments) {
        Ok(_) => has_opening(arguments, "label", "hr1:"),
        Err(_) => false,
    }
}

/// The methods of a target.
pub open spec fn methods_of(templated: bool) -> Seq<Seq<char>> {
    if templated {
        seq!["GET"@]
    } else {
        seq!["GET"@, "POST"@, "PUT"@]
    }
}

fn methods(templated: bool) -> (result: Vec<String>)
    ensures
        text::views(result@) == methods_of(templated),
{
    let mut result: Vec<String> = Vec::new();
    result.push("GET".to_owned());
    if !templated {
        result.push("POST".to_owned());
        result.push("PUT".to_owned());
    }
    assert(text::views(result@) =~= methods_of(templated));
    result
}

/// The contents of an optional document.
pub open spec fn doc_of(value: Option<Json>) -> Option<Doc> {
    match value {
        Some(inner) => Some(inner.doc()),
        None => None,
    }
}

/// Why a configured target cannot have a template, if so.
pub open spec fn combines(target: settings::Target) -> bool {
    &&& target.template is Some
    &&& target.url@.len() > 0 || (target.unix_socket matches Some(socket) && socket@.len() > 0)
}

/// The URL of a configured target.
pub open spec fn configured_url(target: settings::Target, sources: Sources) -> Result<
    Seq<char>,
    Seq<char>,
> {
    match target.template {
        Some(definition) => Ok(definition.origin@),
        None => resolved_of("configuration value"@, target.url@, sources),
    }
}

impl Harpoon {
    /// Whether an entry is the one of a configured target.
    pub open spec fn is_configured(
        self,
        entry: Target,
        target: settings::Target,
        sources: Sources,
    ) -> bool {
        &&& entry.info.label@ == text::trim_of(target.label@)
        &&& entry.info.description@ == text::trim_of(target.description@)
        &&& entry.info.category@ == "config"@
        &&& entry.info.source@ == "config"@
        &&& entry.info.tags@.len() == 0
        &&& text::views(entry.info.allowed_methods@) == methods_of(target.template is Some)
        &&& configured_url(target, sources) == Ok::<Seq<char>, Seq<char>>(entry.original_url@)
        &&& parsed_url(entry.original_url@) == Ok::<address::Parts, Seq<char>>(entry.url.parts())
        &&& text::view_of(entry.unix_socket) == crate::config::normal::tidied(
            text::view_of(target.unix_socket),
        )
        &&& self.is_templated(entry, target, sources)
    }

    /// Why a configured target is refused, but for its template, if so.
    pub open spec fn register_fault(self, target: settings::Target, sources: Sources) -> Option<
        Seq<char>,
    > {
        if combines(target) {
            Some("Harpoon target cannot combine a template with an exact URL or socket"@)
        } else {
            match configured_url(target, sources) {
                Err(reason) => Some(reason),
                Ok(original) => match parsed_url(original) {
                    Err(reason) => Some(reason),
                    Ok(parts) => self.insert_fault(
                        text::trim_of(target.label@),
                        parts.scheme,
                        original,
                        text::view_of(target.unix_socket),
                        target.template is None,
                    ),
                },
            }
        }
    }

    /// The schema of a call of a template.
    fn template_schema(&self) -> (result: Json)
        ensures
            result.doc() == schema::template_call_doc(self.response_limit_of()),
            result.doc() is Object,
            result.doc().at("properties"@) is Object,
            result.doc().at("required"@) is List,
    {
        proof {
            reveal_strlit("properties");
            reveal_strlit("additionalProperties");
            reveal_strlit("type");
            reveal_strlit("required");
            reveal_strlit("title");
            reveal_strlit("description");
            assert("properties"@.len() == 10);
            assert("additionalProperties"@.len() == 20);
            assert("type"@.len() == 4);
            assert("required"@.len() == 8);
            assert("title"@.len() == 5);
            assert("description"@.len() == 11);
        }
        schema::template_call(self.response_limit())
    }

    /// Whether a target is a configured one, before it is put into its canonical form.
    spec fn is_given(self, given: Target, target: settings::Target, sources: Sources) -> bool {
        &&& given.info.label@ == text::trim_of(target.label@)
        &&& given.info.description@ == text::trim_of(target.description@)
        &&& given.info.category@ == "config"@
        &&& given.info.source@ == "config"@
        &&& given.info.tags@.len() == 0
        &&& text::views(given.info.allowed_methods@) == methods_of(target.template is Some)
        &&& configured_url(target, sources) == Ok::<Seq<char>, Seq<char>>(given.original_url@)
        &&& parsed_url(given.original_url@) == Ok::<address::Parts, Seq<char>>(given.url.parts())
        &&& text::view_of(given.unix_socket) == text::view_of(target.unix_socket)
        &&& self.is_templated(given, target, sources)
    }

    /// Whether a target has the template of a configured one, and tells how to call it.
    pub open spec fn is_templated(
        self,
        given: Target,
        target: settings::Target,
        sources: Sources,
    ) -> bool {
        match (given.template, target.template) {
            (Some(template), Some(definition)) => template.wf() && definition.accepted(
                definition.headers,
                sources,
            ) && given.info.template_version == Some(1u8) && doc_of(given.info.parameters_schema)
                == Some(template.schema_doc()) && doc_of(given.info.invocation) == Some(
                template.invocation_doc(
                    text::trim_of(target.label@),
                    schema::template_call_doc(self.response_limit_of()),
                ),
            ),
            (None, None) => given.info.template_version is None && given.info.parameters_schema
                is None && given.info.invocation is None,
            _ => false,
        }
    }

    fn describe(&self, label: &str, template: &Option<Template>) -> (result: (
        Option<u8>,
        Option<Json>,
        Option<Json>,
    ))
        requires
            template matches Some(made) ==> made.wf(),
        ensures
            match *template {
                Some(made) => result.0 == Some(1u8) && doc_of(result.1) == Some(made.schema_doc())
                    && doc_of(result.2) == Some(
                    made.invocation_doc(
                        label@,
                        schema::template_call_doc(self.response_limit_of()),
                    ),
                ),
                None => result.0 is None && result.1 is None && result.2 is None,
            },
    {
        match template {
            Some(made) => (
                Some(1),
                Some(made.schema()),
                Some(made.invocation(label, self.template_schema())),
            ),
            None => (None, None, None),
        }
    }

    fn configure(&self, target: &settings::Target, sources: &Sources) -> (result: Result<
        Target,
        String,
    >)
        ensures
            match result {
                Ok(given) => !combines(*target) && self.is_given(given, *target, *sources),
                Err(reason) => match target.template {
                    Some(definition) => definition.refused(
                        definition.headers,
                        *sources,
                        reason@,
                    ) || (definition.accepted(definition.headers, *sources)
                        && self.register_fault(*target, *sources) == Some(reason@)),
                    None => self.register_fault(*target, *sources) == Some(reason@),
                },
            },
    {
        let mut template: Option<Template> = None;
        if let Some(definition) = &target.template {
            match Template::new(definition, sources) {
                Ok(made) => {
                    template = Some(made);
                },
                Err(reason) => {
                    return Err(reason);
                },
            }
        }
        let socketed = match &target.unix_socket {
            Some(socket) => !socket.is_empty(),
            None => false,
        };
        if template.is_some() && (!target.url.is_empty() || socketed) {
            return Err(
                "Harpoon target cannot combine a template with an exact URL or socket".to_owned(),
            );
        }
        let original_url = match &template {
            Some(made) => made.origin.clone(),
            None => match reference::resolve(&target.url, sources) {
                Ok(url) => url,
                Err(reason) => {
                    return Err(reason);
                },
            },
        };
        let url = match address::parse(&original_url) {
            Ok(url) => url,
            Err(reason) => {
                return Err(reason);
            },
        };
        let label = text::trim(&target.label);
        let (template_version, parameters_schema, invocation) = self.describe(&label, &template);
        Ok(
            Target {
                info: TargetInfo {
                    label,
                    description: text::trim(&target.description),
                    category: "config".to_owned(),
                    source: "config".to_owned(),
                    tags: Vec::new(),
                    allowed_methods: methods(template.is_some()),
                    template_version,
                    parameters_schema,
                    invocation,
                },
                url,
                original_url,
                unix_socket: text::copy_option(&target.unix_socket),
                template,
            },
        )
    }

    /// Adds a configured target.
    pub fn register(&mut self, target: &settings::Target, sources: &Sources) -> (result: Result<
        (),
        String,
    >)
        requires
            old(self).wf(),
        ensures
            final(self).wf(),
            final(self).config == old(self).config,
            final(self).patterns == old(self).patterns,
            final(self).policy_key == old(self).policy_key,
            match result {
                Ok(()) => old(self).register_fault(*target, *sources) is None
                    && final(self).targets@.len() == old(self).targets@.len() + 1
                    && final(self).targets@.drop_last() == old(self).targets@
                    && old(self).is_configured(final(self).targets@.last(), *target, *sources),
                Err(reason) => final(self).targets == old(self).targets && match target.template {
                    Some(definition) => definition.refused(
                        definition.headers,
                        *sources,
                        reason@,
                    ) || (definition.accepted(definition.headers, *sources)
                        && old(self).register_fault(*target, *sources) == Some(reason@)),
                    None => old(self).register_fault(*target, *sources) == Some(reason@),
                },
            },
    {
        let given = match self.configure(target, sources) {
            Ok(given) => given,
            Err(reason) => {
                return Err(reason);
            },
        };
        proof {
            text::lemma_trim_again(target.label@);
            text::lemma_trim_again(target.description@);
            lemma_config_word();
            assert(text::views(given.info.tags@) =~= Seq::<Seq<char>>::empty());
        }
        let added = self.insert(given);
        proof {
            if added is Ok {
                let last = self.targets@.last();
                assert(text::views(last.info.tags@).len() == last.info.tags@.len());
            }
        }
        added
    }
}

proof fn lemma_config_word()
    ensures
        text::lowercase_of(text::trim_of("config"@)) == "config"@,
        "config"@.len() > 0,
        crate::harpoon::registry::tags_of(Seq::<Seq<char>>::empty()) == Seq::<Seq<char>>::empty(),
{
    reveal_strlit("config");
    assert(!text::is_space("config"@[0]) && !text::is_space("config"@.last()));
    text::lemma_trim_solid("config"@);
    assert(text::lowercase_of("config"@) =~= "config"@);
}

/// What is told of a target.
pub open spec fn info_doc(info: TargetInfo) -> Doc {
    Doc::object().with("label"@, Doc::Text(info.label@)).with_if(
        info.description@.len() > 0,
        "description"@,
        Doc::Text(info.description@),
    ).with_if(info.category@.len() > 0, "category"@, Doc::Text(info.category@)).with_if(
        info.source@.len() > 0,
        "source"@,
        Doc::Text(info.source@),
    ).with_if(info.tags@.len() > 0, "tags"@, json::texts(text::views(info.tags@))).with(
        "allowed_methods"@,
        json::texts(text::views(info.allowed_methods@)),
    ).with_if(
        info.template_version is Some,
        "template_version"@,
        match info.template_version {
            Some(version) => Doc::number(version as nat),
            None => Doc::Null,
        },
    ).with_if(
        info.parameters_schema is Some,
        "parameters_schema"@,
        match info.parameters_schema {
            Some(inner) => inner.doc(),
            None => Doc::Null,
        },
    ).with_if(
        info.invocation is Some,
        "invocation"@,
        match info.invocation {
            Some(inner) => inner.doc(),
            None => Doc::Null,
        },
    )
}

fn optional_copy(value: &Option<Json>) -> (result: Json)
    ensures
        result.doc() == (match *value {
            Some(inner) => inner.doc(),
            None => Doc::Null,
        }),
{
    match value {
        Some(inner) => json::copy(inner),
        None => Json::Null,
    }
}

impl TargetInfo {
    /// What is told of a target, as a document.
    pub fn document(&self) -> (result: Json)
        ensures
            result.doc() == info_doc(*self),
    {
        let version = match self.template_version {
            Some(version) => Json::number(version as u64),
            None => Json::Null,
        };
        let front = Json::object().with("label", Json::text(&self.label)).with_if(
            !self.description.is_empty(),
            "description",
            Json::text(&self.description),
        ).with_if(!self.category.is_empty(), "category", Json::text(&self.category)).with_if(
            !self.source.is_empty(),
            "source",
            Json::text(&self.source),
        ).with_if(self.tags.len() > 0, "tags", Json::texts(&self.tags));
        front.with("allowed_methods", Json::texts(&self.allowed_methods)).with_if(
            self.template_version.is_some(),
            "template_version",
            version,
        ).with_if(
            self.parameters_schema.is_some(),
            "parameters_schema",
            optional_copy(&self.parameters_schema),
        ).with_if(self.invocation.is_some(), "invocation", optional_copy(&self.invocation))
    }
}

/// What a caller wants to be told of.
pub struct Filter {
    pub categories: Vec<String>,
    pub sources: Vec<String>,
    pub tags: Vec<String>,
}

impl Filter {
    /// Whether a target is wanted: its category and its source where some are given, and all tags.
    pub open spec fn wants(self, info: TargetInfo) -> bool {
        let categories = cleaned(text::views(self.categories@));
        let sources = cleaned(text::views(self.sources@));
        let tags = cleaned(text::views(self.tags@));
        &&& categories.len() == 0 || categories.contains(info.category@)
        &&& sources.len() == 0 || sources.contains(info.source@)
        &&& forall|i: int|
            0 <= i < tags.len() ==> text::views(info.tags@).contains(#[trigger] tags[i])
    }
}

/// What is told of the wanted targets.
pub open spec fn wanted_docs(targets: Seq<Target>, filter: Filter) -> Seq<Doc>
    decreases targets.len(),
{
    if targets.len() == 0 {
        Seq::empty()
    } else {
        let rest = wanted_docs(targets.drop_last(), filter);
        if filter.wants(targets.last().info) {
            rest.push(info_doc(targets.last().info))
        } else {
            rest
        }
    }
}

fn contains_all(items: &Vec<String>, wanted: &Vec<String>) -> (result: bool)
    ensures
        result == forall|i: int|
            0 <= i < text::views(wanted@).len() ==> text::views(items@).contains(
                #[trigger] text::views(wanted@)[i],
            ),
{
    let ghost all = text::views(wanted@);
    let mut index: usize = 0;
    while index < wanted.len()
        invariant
            index <= wanted.len(),
            all == text::views(wanted@),
            forall|i: int| 0 <= i < index ==> text::views(items@).contains(#[trigger] all[i]),
        decreases wanted.len() - index,
    {
        assert(all[index as int] == wanted@[index as int]@);
        if !text::contained(items, &wanted[index]) {
            return false;
        }
        index = index + 1;
    }
    true
}

impl Harpoon {
    /// Tells of the wanted targets, in the order in which they came.
    pub fn list(&self, filter: &Filter) -> (result: Json)
        ensures
            result.doc() == Doc::object().with(
                "targets"@,
                Doc::List(wanted_docs(self.targets@, *filter)),
            ),
    {
        let categories = clean(&filter.categories);
        let sources = clean(&filter.sources);
        let tags = clean(&filter.tags);
        proof {
            assert(text::views(categories@).len() == categories@.len());
            assert(text::views(sources@).len() == sources@.len());
        }
        let mut items: Vec<Json> = Vec::new();
        let mut index: usize = 0;
        assert(self.targets@.take(0) == Seq::<Target>::empty());
        while index < self.targets.len()
            invariant
                index <= self.targets.len(),
                text::views(categories@) == cleaned(text::views(filter.categories@)),
                text::views(sources@) == cleaned(text::views(filter.sources@)),
                text::views(tags@) == cleaned(text::views(filter.tags@)),
                text::views(categories@).len() == categories@.len(),
                text::views(sources@).len() == sources@.len(),
                json::docs(items@) == wanted_docs(self.targets@.take(index as int), *filter),
            decreases self.targets.len() - index,
        {
            let info = &self.targets[index].info;
            proof {
                let next = self.targets@.take(index + 1);
                assert(next.drop_last() == self.targets@.take(index as int));
                assert(next.last().info == *info);
            }
            if (categories.len() == 0 || text::contained(&categories, &info.category)) && (
            sources.len() == 0 || text::contained(&sources, &info.source)) && contains_all(
                &info.tags,
                &tags,
            ) {
                assert(filter.wants(*info));
                let item = info.document();
                proof {
                    json::lemma_docs_push(items@, item);
                }
                items.push(item);
            } else {
                assert(!filter.wants(*info));
            }
            index = index + 1;
        }
        assert(self.targets@.take(self.targets@.len() as int) == self.targets@);
        Json::object().with("targets", Json::List(items))
    }
}

/// A list of targets holds exactly those that the filter wants: of one of the categories and of one of the
/// sources where some are given, and with all of the tags.
pub proof fn lemma_targets_wanted(filter: Filter, info: TargetInfo, tag: Seq<char>)
    ensures
        filter.wants(info) && cleaned(text::views(filter.categories@)).len() > 0 ==> cleaned(
            text::views(filter.categories@),
        ).contains(info.category@),
        filter.wants(info) && cleaned(text::views(filter.sources@)).len() > 0 ==> cleaned(
            text::views(filter.sources@),
        ).contains(info.source@),
        filter.wants(info) && cleaned(text::views(filter.tags@)).contains(tag) ==> text::views(
            info.tags@,
        ).contains(tag),
        filter.categories@.len() == 0 && filter.sources@.len() == 0 && filter.tags@.len() == 0
            ==> filter.wants(info),
{
}

/// What the filter wants is told, and nothing else; the order of the targets is kept.
pub proof fn lemma_wanted_told(targets: Seq<Target>, filter: Filter, at: int)
    requires
        0 <= at < targets.len(),
    ensures
        filter.wants(targets[at].info) ==> wanted_docs(targets, filter).contains(
            info_doc(targets[at].info),
        ),
        (forall|i: int| 0 <= i < targets.len() ==> !filter.wants((#[trigger] targets[i]).info))
            ==> wanted_docs(targets, filter).len() == 0,
        wanted_docs(targets, filter).len() <= targets.len(),
    decreases targets.len(),
{
    let front = targets.drop_last();
    let rest = wanted_docs(front, filter);
    let all = wanted_docs(targets, filter);
    if front.len() > 0 {
        lemma_wanted_told(front, filter, if at < front.len() {
            at
        } else {
            0
        });
        if forall|i: int| 0 <= i < targets.len() ==> !filter.wants((#[trigger] targets[i]).info) {
            assert forall|i: int| 0 <= i < front.len() implies !filter.wants((#[trigger] front[i]).info) by {
                assert(front[i] == targets[i]);
            }
            assert(!filter.wants(targets[targets.len() - 1].info));
        }
    }
    if filter.wants(targets[at].info) {
        if at < front.len() {
            let i = choose|i: int| 0 <= i < rest.len() && rest[i] == info_doc(targets[at].info);
            assert(all[i] == rest[i]);
        } else {
            assert(all.last() == info_doc(targets[at].info));
        }
    }
    if front.len() == 0 {
        assert(targets[0] == targets.last());
    }
}

/// A target of a template reads only; an exact one takes GET, POST and PUT. A template has neither a URL nor a
/// socket of its own.
pub proof fn lemma_target_kinds(harpoon: Harpoon, entry: Target, target: settings::Target, sources: Sources)
    requires
        harpoon.is_configured(entry, target, sources),
        harpoon.register_fault(target, sources) is None,
    ensures
        target.template is Some ==> text::views(entry.info.allowed_methods@) == seq!["GET"@],
        target.template is None ==> text::views(entry.info.allowed_methods@) == seq![
            "GET"@,
            "POST"@,
            "PUT"@,
        ],
        target.template is Some ==> target.url@.len() == 0 && (target.unix_socket matches Some(socket)
            ==> socket@.len() == 0),
        entry.info.label@ == text::trim_of(target.label@),
        target.template matches Some(definition) ==> entry.original_url@ == definition.origin@,
        target.template is Some <==> entry.template is Some,
{
}

/// A configured target is told as such: with its label, its origin or its address, and the methods of its kind.
pub proof fn lemma_configured_target(harpoon: Harpoon, entry: Target, target: settings::Target, sources: Sources)
    requires
        harpoon.is_configured(entry, target, sources),
    ensures
        entry.info.label@ == text::trim_of(target.label@),
        entry.info.description@ == text::trim_of(target.description@),
        entry.info.category@ == "config"@ && entry.info.source@ == "config"@,
        target.template is Some ==> text::views(entry.info.allowed_methods@) == seq!["GET"@],
        target.template is None ==> text::views(entry.info.allowed_methods@) == seq!["GET"@, "POST"@, "PUT"@],
        target.template matches Some(definition) ==> entry.original_url@ == definition.origin@,
        target.template is None ==> resolved_of("configuration value"@, target.url@, sources) == Ok::<
            Seq<char>,
            Seq<char>,
        >(entry.original_url@),
        parsed_url(entry.original_url@) == Ok::<address::Parts, Seq<char>>(entry.url.parts()),
{
}

/// A target is refused where it mixes a template with an address, where its address cannot be resolved or read, or where
/// it cannot be taken.
pub proof fn lemma_target_refused(harpoon: Harpoon, target: settings::Target, sources: Sources)
    ensures
        target.template is Some && target.url@.len() > 0 ==> harpoon.register_fault(target, sources) is Some,
        target.template is None && resolved_of("configuration value"@, target.url@, sources) is Err
            ==> harpoon.register_fault(target, sources) is Some,
        harpoon.register_fault(target, sources) is None && target.template is None ==> resolved_of(
            "configuration value"@,
            target.url@,
            sources,
        ) is Ok && parsed_url(resolved_of("configuration value"@, target.url@, sources)->Ok_0) is Ok,
{
}

/// A template is meant by a bound label where it has rules for headers, and by its plain label where it has none.
pub proof fn lemma_template_meant(harpoon: Harpoon, label: Seq<char>, target: Target)
    requires
        harpoon.means_template(label, target),
    ensures
        target.template is Some,
        policy::bound_of(label) is None ==> target.info.label@ == text::trim_of(label) && !is_rich(
            target.template->0.header_rules@,
        ),
        policy::bound_of(label) matches Some((name, code)) ==> target.info.label@ == text::trim_of(name)
            && is_rich(target.template->0.header_rules@) && policy::opens(
            harpoon.policy_key@,
            name,
            target.template->0.digest@,
            label,
        ),
{
}

/// What is told of a target: its label and its methods always, and the rest where there is any.
pub proof fn lemma_target_told(info: TargetInfo)
    ensures
        ({
            let doc = info_doc(info);
            &&& doc.at("label"@) == Doc::Text(info.label@)
            &&& doc.at("allowed_methods"@) == json::texts(text::views(info.allowed_methods@))
            &&& info.description@.len() > 0 ==> doc.at("description"@) == Doc::Text(info.description@)
            &&& info.description@.len() == 0 ==> doc.at("description"@) == Doc::Null
            &&& info.category@.len() > 0 ==> doc.at("category"@) == Doc::Text(info.category@)
            &&& info.source@.len() > 0 ==> doc.at("source"@) == Doc::Text(info.source@)
            &&& info.tags@.len() > 0 ==> doc.at("tags"@) == json::texts(text::views(info.tags@))
            &&& info.tags@.len() == 0 ==> doc.at("tags"@) == Doc::Null
            &&& info.template_version matches Some(version) ==> doc.at("template_version"@) == Doc::number(
                version as nat,
            )
            &&& info.template_version is None ==> doc.at("template_version"@) == Doc::Null
            &&& info.parameters_schema matches Some(inner) ==> doc.at("parameters_schema"@) == inner.doc()
            &&& info.parameters_schema is None ==> doc.at("parameters_schema"@) == Doc::Null
            &&& info.invocation matches Some(inner) ==> doc.at("invocation"@) == inner.doc()
            &&& info.invocation is None ==> doc.at("invocation"@) == Doc::Null
        }),
{
    reveal_strlit("label");
    reveal_strlit("description");
    reveal_strlit("category");
    reveal_strlit("source");
    reveal_strlit("tags");
    reveal_strlit("allowed_methods");
    reveal_strlit("template_version");
    reveal_strlit("parameters_schema");
    reveal_strlit("invocation");
    assert("label"@.len() == 5);
    assert("description"@.len() == 11);
    assert("category"@.len() == 8);
    assert("source"@.len() == 6);
    assert("tags"@.len() == 4);
    assert("allowed_methods"@.len() == 15);
    assert("template_version"@.len() == 16);
    assert("parameters_schema"@.len() == 17);
    assert("invocation"@.len() == 10);
}

} // verus!
