//! The targets that can be called.

use vstd::prelude::*;
use crate::address::{Address, Parts};
use crate::checks::{either, tells, unless};
use crate::config::normal::tidied;
use crate::config::settings;
use crate::config::validation::host_expression;
use crate::harpoon::label::{candidate, is_label, key_of, make_candidate, url_key, valid_label};
use crate::harpoon::schema;
use crate::host::{self, ip_of};
use crate::json::Json;
use crate::template::Template;
use crate::{pattern, text};

verus! {

/// What is told of a target.
pub struct TargetInfo {
    pub label: String,
    pub description: String,
    pub category: String,
    pub source: String,
    pub tags: Vec<String>,
    pub allowed_methods: Vec<String>,
    pub template_version: Option<u8>,
    pub parameters_schema: Option<Json>,
    pub invocation: Option<Json>,
}

/// A target.
pub struct Target {
    pub info: TargetInfo,
    pub url: Address,
    pub original_url: String,
    pub unix_socket: Option<String>,
    pub template: Option<Template>,
}

/// The index map of `indexmap`.
#[verifier::external_type_specification]
#[verifier::external_body]
#[verifier::reject_recursive_types(K)]
#[verifier::reject_recursive_types(V)]
#[verifier::reject_recursive_types(S)]
pub struct ExIndexMap<K, V, S>(indexmap::IndexMap<K, V, S>);

/// The places of targets by their labels, in the order in which they came.
pub type Labels = indexmap::IndexMap<String, usize>;

/// What an index map of labels holds, in order.
pub uninterp spec fn label_entries(map: Labels) -> Seq<(Seq<char>, usize)>;

/// What an empty index map holds.
pub open spec fn no_labels() -> Seq<(Seq<char>, usize)> {
    Seq::empty()
}

/// The empty index map: `indexmap::IndexMap::default`.
#[verifier::external_body]
fn empty_labels() -> (result: Labels)
    ensures
        label_entries(result) == no_labels(),
{
    indexmap::IndexMap::default()
}

/// Whether the entries place a label.
pub open spec fn places(entries: Seq<(Seq<char>, usize)>, label: Seq<char>) -> bool {
    exists|i: int| 0 <= i < entries.len() && (#[trigger] entries[i]).0 == label
}

/// Whether the place is the one of the label.
pub open spec fn is_place(
    entries: Seq<(Seq<char>, usize)>,
    label: Seq<char>,
    place: Option<usize>,
) -> bool {
    match place {
        Some(found) => entries.contains((label, found)),
        None => !places(entries, label),
    }
}

/// The place of a label: `indexmap::IndexMap::get`.
#[verifier::external_body]
fn place(map: &Labels, label: &str) -> (result: Option<usize>)
    ensures
        is_place(label_entries(*map), label@, result),
{
    map.get(label).copied()
}

/// Adds a label at the end: `indexmap::IndexMap::insert` of a key that is not there.
#[verifier::external_body]
fn add_label(map: &mut Labels, label: String, place: usize)
    requires
        !places(label_entries(*old(map)), label@),
    ensures
        label_entries(*final(map)) == label_entries(*old(map)).push((label@, place)),
{
    map.insert(label, place);
}

/// The largest number of targets.
pub const MAX_TARGETS: usize = 10000;

/// The targets, and what the configuration says of them.
pub struct Harpoon {
    pub config: settings::Harpoon,
    /// The expressions of hosts that count as private.
    pub patterns: Vec<String>,
    /// The key of the codes that bind labels.
    pub policy_key: Vec<u8>,
    pub labels: Labels,
    pub targets: Vec<Target>,
}

impl Harpoon {
    /// What holds of the targets: each label is the one of a single target and places it, and each
    /// URL can be compared.
    pub open spec fn wf(self) -> bool {
        &&& self.targets@.len() <= MAX_TARGETS
        &&& label_entries(self.labels).len() == self.targets@.len()
        &&& forall|i: int|
            0 <= i < self.targets@.len() ==> #[trigger] label_entries(self.labels)[i] == (
                self.targets@[i].info.label@,
                i as usize,
            )
        &&& forall|i: int, j: int|
            0 <= i < j < self.targets@.len() ==> (#[trigger] self.targets@[i]).info.label@ != (
            #[trigger] self.targets@[j]).info.label@
        &&& forall|i: int|
            0 <= i < self.targets@.len() ==> is_label((#[trigger] self.targets@[i]).info.label@)
                && key_of(self.targets@[i].original_url@) is Ok
        &&& forall|i: int|
            0 <= i < self.targets@.len() ==> ((#[trigger] self.targets@[i]).template matches Some(
                template,
            ) ==> template.wf())
    }

    /// Whether some target has the label.
    pub open spec fn has_label(self, label: Seq<char>) -> bool {
        exists|i: int| 0 <= i < self.targets@.len() && (#[trigger] self.targets@[i]).info.label@ == label
    }

    proof fn lemma_labels(self, label: Seq<char>)
        requires
            self.wf(),
        ensures
            places(label_entries(self.labels), label) == self.has_label(label),
    {
        let entries = label_entries(self.labels);
        if places(entries, label) {
            let i = choose|i: int| 0 <= i < entries.len() && (#[trigger] entries[i]).0 == label;
            assert(self.targets@[i].info.label@ == label);
        }
        if self.has_label(label) {
            let i = choose|i: int|
                0 <= i < self.targets@.len() && (#[trigger] self.targets@[i]).info.label@ == label;
            assert(entries[i].0 == label);
        }
    }

    /// The place of the target with the label.
    pub(crate) fn find(&self, label: &str) -> (result: Option<usize>)
        requires
            self.wf(),
        ensures
            match result {
                Some(at) => at < self.targets@.len() && self.targets@[at as int].info.label@ == label@,
                None => !self.has_label(label@),
            },
    {
        proof {
            self.lemma_labels(label@);
        }
        let result = place(&self.labels, label);
        proof {
            if result is Some {
                let entries = label_entries(self.labels);
                let i = choose|i: int| 0 <= i < entries.len() && entries[i] == (label@, result->0);
                assert(entries[i] == (self.targets@[i].info.label@, i as usize));
            }
        }
        result
    }
}

/// The words of a list, trimmed and without capitals; empty ones fall away.
pub open spec fn cleaned(items: Seq<Seq<char>>) -> Seq<Seq<char>>
    decreases items.len(),
{
    if items.len() == 0 {
        Seq::empty()
    } else {
        let rest = cleaned(items.drop_last());
        let word = text::lowercase_of(text::trim_of(items.last()));
        if word.len() == 0 {
            rest
        } else {
            rest.push(word)
        }
    }
}

/// The words of a list, trimmed and without capitals.
pub fn clean(items: &Vec<String>) -> (result: Vec<String>)
    ensures
        text::views(result@) == cleaned(text::views(items@)),
{
    let ghost all = text::views(items@);
    let mut result: Vec<String> = Vec::new();
    let mut index: usize = 0;
    assert(text::views(result@) == Seq::<Seq<char>>::empty());
    while index < items.len()
        invariant
            index <= items.len(),
            all == text::views(items@),
            text::views(result@) == cleaned(all.take(index as int)),
        decreases items.len() - index,
    {
        proof {
            assert(all.take(index + 1).drop_last() == all.take(index as int));
            assert(all.take(index + 1).last() == items@[index as int]@);
        }
        let word = text::lowercase(&text::trim(&items[index]));
        if !word.is_empty() {
            assert(text::views(result@.push(word)) == text::views(result@).push(word@));
            result.push(word);
        }
        index = index + 1;
    }
    assert(all.take(all.len() as int) == all);
    result
}

/// The list without repetitions side by side.
pub open spec fn deduped(items: Seq<Seq<char>>) -> Seq<Seq<char>>
    decreases items.len(),
{
    if items.len() == 0 {
        Seq::empty()
    } else {
        let rest = deduped(items.drop_last());
        if rest.len() > 0 && rest.last() == items.last() {
            rest
        } else {
            rest.push(items.last())
        }
    }
}

fn dedup(items: &Vec<String>) -> (result: Vec<String>)
    ensures
        text::views(result@) == deduped(text::views(items@)),
{
    let ghost all = text::views(items@);
    let mut result: Vec<String> = Vec::new();
    let mut index: usize = 0;
    assert(text::views(result@) == Seq::<Seq<char>>::empty());
    while index < items.len()
        invariant
            index <= items.len(),
            all == text::views(items@),
            text::views(result@) == deduped(all.take(index as int)),
        decreases items.len() - index,
    {
        proof {
            assert(all.take(index + 1).drop_last() == all.take(index as int));
            assert(all.take(index + 1).last() == items@[index as int]@);
            assert(text::views(result@).len() == result@.len());
            if result@.len() > 0 {
                assert(text::views(result@).last() == result@[result@.len() - 1]@);
            }
        }
        if result.len() == 0 || !text::same(&result[result.len() - 1], &items[index]) {
            let own = items[index].clone();
            assert(text::views(result@.push(own)) == text::views(result@).push(own@));
            result.push(own);
        }
        index = index + 1;
    }
    assert(all.take(all.len() as int) == all);
    result
}

/// The tags of a target: clean, in order, each once.
pub open spec fn tags_of(tags: Seq<Seq<char>>) -> Seq<Seq<char>> {
    deduped(text::sorted_of(cleaned(tags)))
}

/// The category of a target: its own or its source.
pub open spec fn category_of(info: TargetInfo) -> Seq<char> {
    let own = text::lowercase_of(text::trim_of(info.category@));
    if own.len() == 0 {
        text::lowercase_of(text::trim_of(info.source@))
    } else {
        own
    }
}

/// Whether an entry of the registry is the given target in its canonical form.
pub open spec fn is_entry(entry: Target, given: Target) -> bool {
    &&& entry.info.label@ == text::trim_of(given.info.label@)
    &&& entry.info.description@ == text::trim_of(given.info.description@)
    &&& entry.info.category@ == category_of(given.info)
    &&& entry.info.source@ == category_of(given.info)
    &&& text::views(entry.info.tags@) == tags_of(text::views(given.info.tags@))
    &&& entry.info.allowed_methods == given.info.allowed_methods
    &&& entry.info.template_version == given.info.template_version
    &&& entry.info.parameters_schema == given.info.parameters_schema
    &&& entry.info.invocation == given.info.invocation
    &&& entry.url == given.url
    &&& entry.original_url == given.original_url
    &&& text::view_of(entry.unix_socket) == tidied(text::view_of(given.unix_socket))
    &&& entry.template == given.template
}

impl Harpoon {
    /// Whether an exact target has the key and another way to it.
    pub open spec fn conflicts(self, key: Seq<char>, socket: Option<Seq<char>>, at: int) -> bool {
        let existing = self.targets@[at];
        &&& existing.template is None
        &&& key_of(existing.original_url@) == Ok::<Seq<char>, Seq<char>>(key)
        &&& text::view_of(existing.unix_socket) != socket
    }

    /// Why a target is refused, if so: by its label, the scheme of its URL, its URL, its socket, and
    /// whether it has no template.
    pub open spec fn insert_fault(
        self,
        given: Seq<char>,
        scheme: Seq<char>,
        original_url: Seq<char>,
        socket: Option<Seq<char>>,
        exact: bool,
    ) -> Option<Seq<char>> {
        let label = text::trim_of(given);
        either(
            unless(is_label(label), "invalid Harpoon target label"@),
            either(
                unless(
                    scheme == "http"@ || scheme == "https"@,
                    "Harpoon targets must use HTTP or HTTPS"@,
                ),
                either(
                    unless(
                        self.config.allow_plaintext_http || scheme == "https"@,
                        "Harpoon target base URL must use https"@,
                    ),
                    match key_of(original_url) {
                        Err(reason) => Some(reason),
                        Ok(key) => either(
                            unless(
                                !self.has_label(label),
                                "duplicate Harpoon target "@ + label,
                            ),
                            either(
                                unless(
                                    self.targets@.len() < MAX_TARGETS,
                                    "Harpoon registry limit 10000 exceeded"@,
                                ),
                                unless(
                                    !exact || !(exists|i: int|
                                        0 <= i < self.targets@.len() && #[trigger] self.conflicts(
                                            key,
                                            tidied(socket),
                                            i,
                                        )),
                                    "duplicate Harpoon target URL uses a different transport"@,
                                ),
                            ),
                        ),
                    },
                ),
            ),
        )
    }

    fn conflicting(&self, key: &str, socket: &Option<String>) -> (result: bool)
        requires
            self.wf(),
        ensures
            result == exists|i: int|
                0 <= i < self.targets@.len() && #[trigger] self.conflicts(
                    key@,
                    text::view_of(*socket),
                    i,
                ),
    {
        let mut index: usize = 0;
        while index < self.targets.len()
            invariant
                index <= self.targets.len(),
                self.wf(),
                forall|i: int|
                    0 <= i < index ==> !#[trigger] self.conflicts(key@, text::view_of(*socket), i),
            decreases self.targets.len() - index,
        {
            let existing = &self.targets[index];
            if existing.template.is_none() {
                let same = match url_key(&existing.original_url) {
                    Ok(found) => text::same(&found, key),
                    Err(_) => false,
                };
                if same && !same_option(&existing.unix_socket, socket) {
                    assert(self.conflicts(key@, text::view_of(*socket), index as int));
                    return true;
                }
            }
            index = index + 1;
        }
        false
    }

    /// Adds a target in its canonical form.
    pub fn insert(&mut self, target: Target) -> (result: Result<(), String>)
        requires
            old(self).wf(),
            target.template matches Some(template) ==> template.wf(),
        ensures
            tells(
                result,
                old(self).insert_fault(
                    target.info.label@,
                    target.url.scheme@,
                    target.original_url@,
                    text::view_of(target.unix_socket),
                    target.template is None,
                ),
            ),
            final(self).wf(),
            final(self).config == old(self).config,
            final(self).patterns == old(self).patterns,
            final(self).policy_key == old(self).policy_key,
            match result {
                Ok(()) => final(self).targets@.len() == old(self).targets@.len() + 1
                    && final(self).targets@.drop_last() == old(self).targets@ && is_entry(
                    final(self).targets@.last(),
                    target,
                ),
                Err(_) => final(self).targets == old(self).targets,
            },
    {
        let mut target = target;
        let label = text::trim(&target.info.label);
        if !valid_label(&label) {
            return Err("invalid Harpoon target label".to_owned());
        }
        if !text::same(&target.url.scheme, "http") && !text::same(&target.url.scheme, "https") {
            return Err("Harpoon targets must use HTTP or HTTPS".to_owned());
        }
        if !self.config.allow_plaintext_http && !text::same(&target.url.scheme, "https") {
            return Err("Harpoon target base URL must use https".to_owned());
        }
        let key = match url_key(&target.original_url) {
            Ok(key) => key,
            Err(reason) => {
                return Err(reason);
            },
        };
        target.unix_socket = tidy_socket(&target.unix_socket);
        target.info.description = text::trim(&target.info.description);
        let own = text::lowercase(&text::trim(&target.info.category));
        let category = if own.is_empty() {
            text::lowercase(&text::trim(&target.info.source))
        } else {
            own
        };
        target.info.source = category.clone();
        target.info.category = category;
        target.info.tags = dedup(&text::sorted(&clean(&target.info.tags)));
        target.info.label = label.clone();
        if self.find(&label).is_some() {
            return Err(text::cat("duplicate Harpoon target ", &label));
        }
        if self.targets.len() >= MAX_TARGETS {
            return Err("Harpoon registry limit 10000 exceeded".to_owned());
        }
        if target.template.is_none() && self.conflicting(&key, &target.unix_socket) {
            return Err("duplicate Harpoon target URL uses a different transport".to_owned());
        }
        proof {
            self.lemma_labels(label@);
        }
        let place: usize = self.targets.len();
        add_label(&mut self.labels, label, place);
        self.targets.push(target);
        assert(self.targets@.drop_last() =~= old(self).targets@);
        Ok(())
    }
}

/// Whether two optional texts are the same.
pub fn same_option(left: &Option<String>, right: &Option<String>) -> (result: bool)
    ensures
        result == (text::view_of(*left) == text::view_of(*right)),
{
    match (left, right) {
        (Some(left), Some(right)) => text::same(left, right),
        (None, None) => true,
        _ => false,
    }
}

fn tidy_socket(value: &Option<String>) -> (result: Option<String>)
    ensures
        text::view_of(result) == tidied(text::view_of(*value)),
{
    match value {
        Some(inner) => {
            let trimmed = text::trim(inner);
            if trimmed.is_empty() {
                None
            } else {
                Some(trimmed)
            }
        },
        None => None,
    }
}

/// The expressions of hosts: those that are not empty.
pub open spec fn host_expressions(items: Seq<Seq<char>>) -> Seq<Seq<char>>
    decreases items.len(),
{
    if items.len() == 0 {
        Seq::empty()
    } else {
        let rest = host_expressions(items.drop_last());
        if text::trim_of(items.last()).len() == 0 {
            rest
        } else {
            rest.push(host_expression(items.last()))
        }
    }
}

/// Why an expression of hosts is refused, if so.
pub open spec fn expression_fault(value: Seq<char>) -> Option<Seq<char>> {
    unless(
        text::trim_of(value).len() == 0 || pattern::regex_valid(host_expression(value)),
        "invalid harpoon host regex "@ + text::debug_text(value),
    )
}

fn read_patterns(items: &Vec<String>) -> (result: Result<Vec<String>, String>)
    ensures
        match result {
            Ok(patterns) => text::views(patterns@) == host_expressions(text::views(items@))
                && forall|i: int|
                0 <= i < items@.len() ==> expression_fault((#[trigger] items@[i])@) is None,
            Err(reason) => exists|i: int|
                0 <= i < items@.len() && expression_fault((#[trigger] items@[i])@) == Some(reason@),
        },
{
    let ghost all = text::views(items@);
    let mut result: Vec<String> = Vec::new();
    let mut index: usize = 0;
    assert(text::views(result@) == Seq::<Seq<char>>::empty());
    while index < items.len()
        invariant
            index <= items.len(),
            all == text::views(items@),
            text::views(result@) == host_expressions(all.take(index as int)),
            forall|i: int| 0 <= i < index ==> expression_fault((#[trigger] items@[i])@) is None,
        decreases items.len() - index,
    {
        proof {
            assert(all.take(index + 1).drop_last() == all.take(index as int));
            assert(all.take(index + 1).last() == items@[index as int]@);
        }
        let trimmed = text::trim(&items[index]);
        if !trimmed.is_empty() {
            let expression = text::cat3("(?i:", &trimmed, ")");
            if !pattern::compiles(&expression) {
                assert(expression_fault(items@[index as int]@) is Some);
                return Err(text::cat("invalid harpoon host regex ", &text::quoted(&items[index])));
            }
            assert(text::views(result@.push(expression)) == text::views(result@).push(expression@));
            result.push(expression);
        }
        index = index + 1;
    }
    assert(all.take(all.len() as int) == all);
    Ok(result)
}

impl Harpoon {
    /// No targets yet.
    pub fn new(config: settings::Harpoon, policy_key: Vec<u8>) -> (result: Result<Harpoon, String>)
        ensures
            match result {
                Ok(harpoon) => harpoon.wf() && harpoon.targets@.len() == 0 && harpoon.config
                    == config && harpoon.policy_key == policy_key && text::views(
                    harpoon.patterns@,
                ) == host_expressions(text::views(config.hosts_include_regex@)) && forall|i: int|
                    0 <= i < config.hosts_include_regex@.len() ==> expression_fault(
                        (#[trigger] config.hosts_include_regex@[i])@,
                    ) is None,
                Err(reason) => exists|i: int|
                    0 <= i < config.hosts_include_regex@.len() && expression_fault(
                        (#[trigger] config.hosts_include_regex@[i])@,
                    ) == Some(reason@),
            },
    {
        match read_patterns(&config.hosts_include_regex) {
            Ok(patterns) => Ok(
                Harpoon {
                    config,
                    patterns,
                    policy_key,
                    labels: empty_labels(),
                    targets: Vec::new(),
                },
            ),
            Err(reason) => Err(reason),
        }
    }

    /// The largest answer of a target.
    pub open spec fn response_limit_of(self) -> usize {
        match self.config.max_response_bytes {
            Some(limit) => if limit > 0 {
                limit
            } else {
                102400
            },
            None => 102400,
        }
    }

    /// The largest answer of a target.
    pub fn response_limit(&self) -> (result: usize)
        ensures
            result == self.response_limit_of(),
    {
        match self.config.max_response_bytes {
            Some(limit) => if limit > 0 {
                limit
            } else {
                102400
            },
            None => 102400,
        }
    }

    /// Whether some target has a template.
    pub open spec fn templated(self) -> bool {
        exists|i: int| 0 <= i < self.targets@.len() && (#[trigger] self.targets@[i]).template is Some
    }

    /// Whether some target has a template.
    pub fn has_templates(&self) -> (result: bool)
        ensures
            result == self.templated(),
    {
        let mut index: usize = 0;
        while index < self.targets.len()
            invariant
                index <= self.targets.len(),
                forall|i: int|
                    0 <= i < index ==> (#[trigger] self.targets@[i]).template is None,
            decreases self.targets.len() - index,
        {
            if self.targets[index].template.is_some() {
                assert(self.targets@[index as int].template is Some);
                return true;
            }
            index = index + 1;
        }
        false
    }

    /// What is told of how to use the tools.
    pub open spec fn instructions_of(self) -> Seq<char> {
        if self.templated() {
            TEMPLATE_INSTRUCTIONS@
        } else {
            INSTRUCTIONS@
        }
    }

    /// What is told of how to use the tools.
    pub fn instructions(&self) -> (result: &'static str)
        ensures
            result@ == self.instructions_of(),
    {
        if self.has_templates() {
            TEMPLATE_INSTRUCTIONS
        } else {
            INSTRUCTIONS
        }
    }

    /// The answer to a question for tools.
    pub fn tools(&self) -> (result: Json)
        ensures
            result.doc() == schema::tools_doc(
                self.response_limit_of(),
                self.config.max_redirects,
                self.templated(),
            ),
    {
        schema::tools(self.response_limit(), self.config.max_redirects, self.has_templates())
    }

    /// The number of targets.
    pub fn len(&self) -> (result: usize)
        ensures
            result == self.targets@.len(),
    {
        self.targets.len()
    }

    /// Whether there is no target.
    pub fn is_empty(&self) -> (result: bool)
        ensures
            result == (self.targets@.len() == 0),
    {
        self.targets.len() == 0
    }

    /// The target of a label, whatever white space is around it.
    pub fn target(&self, label: &str) -> (result: Result<&Target, String>)
        requires
            self.wf(),
        ensures
            match result {
                Ok(target) => self.targets@.contains(*target) && target.info.label@
                    == text::trim_of(label@),
                Err(reason) => reason@ == "unknown target"@ && !self.has_label(
                    text::trim_of(label@),
                ),
            },
    {
        match self.find(&text::trim(label)) {
            Some(at) => {
                assert(self.targets@.contains(self.targets@[at as int]));
                Ok(&self.targets[at])
            },
            None => Err("unknown target".to_owned()),
        }
    }

    /// The first number with which a base makes a label that no target has, from a number on.
    pub open spec fn free_from(self, base: Seq<char>, index: int) -> Option<Seq<char>>
        decreases 10000 - index,
    {
        if index < 0 || index >= 10000 {
            None
        } else if !self.has_label(candidate(base, index as nat)) {
            Some(candidate(base, index as nat))
        } else {
            self.free_from(base, index + 1)
        }
    }

    /// A label that no target has.
    pub fn label(&self, base: &str) -> (result: Result<String, String>)
        requires
            self.wf(),
        ensures
            match result {
                Ok(label) => self.free_from(base@, 0) == Some(label@) && !self.has_label(label@),
                Err(reason) => self.free_from(base@, 0) is None && reason@
                    == "Harpoon target label namespace is exhausted"@,
            },
    {
        let mut index: u64 = 0;
        while index < 10000
            invariant
                index <= 10000,
                self.wf(),
                self.free_from(base@, 0) == self.free_from(base@, index as int),
            decreases 10000 - index,
        {
            let made = make_candidate(base, index);
            if self.find(&made).is_none() {
                return Ok(made);
            }
            index = index + 1;
        }
        Err("Harpoon target label namespace is exhausted".to_owned())
    }

    /// Whether an exact target has the key.
    pub open spec fn reaches(self, key: Seq<char>, at: int) -> bool {
        self.targets@[at].template is None && key_of(self.targets@[at].original_url@) == Ok::<
            Seq<char>,
            Seq<char>,
        >(key)
    }

    /// The exact target of a URL: the first one with its key.
    pub fn destination(&self, url: &str) -> (result: Result<usize, String>)
        requires
            self.wf(),
        ensures
            match result {
                Ok(at) => at < self.targets@.len() && key_of(url@) is Ok && self.reaches(
                    key_of(url@)->Ok_0,
                    at as int,
                ) && forall|i: int| 0 <= i < at ==> !#[trigger] self.reaches(key_of(url@)->Ok_0, i),
                Err(reason) => match key_of(url@) {
                    Err(expected) => reason@ == expected,
                    Ok(key) => reason@ == "redirect blocked"@ && forall|i: int|
                        0 <= i < self.targets@.len() ==> !#[trigger] self.reaches(key, i),
                },
            },
    {
        let key = match url_key(url) {
            Ok(key) => key,
            Err(reason) => {
                return Err(reason);
            },
        };
        let mut index: usize = 0;
        while index < self.targets.len()
            invariant
                index <= self.targets.len(),
                key_of(url@) == Ok::<Seq<char>, Seq<char>>(key@),
                forall|i: int| 0 <= i < index ==> !#[trigger] self.reaches(key@, i),
            decreases self.targets.len() - index,
        {
            let target = &self.targets[index];
            if target.template.is_none() {
                if let Ok(found) = url_key(&target.original_url) {
                    if text::same(&found, &key) {
                        assert(self.reaches(key@, index as int));
                        return Ok(index);
                    }
                }
            }
            index = index + 1;
        }
        Err("redirect blocked".to_owned())
    }
}

/// How to use the tools, where every target is exact.
pub const INSTRUCTIONS: &'static str = "Harpoon provides a constrained outbound HTTP client. Use list_targets to see allowlisted targets and call_target to make GET/POST/PUT requests with strict size, timeout, and redirect limits. get_oauth_target_audience is a narrow opt-in lookup for OAuth token-endpoint private_key_jwt audiences. Harpoon cannot reach arbitrary hosts or paths outside the configured allowlist.";

/// How to use the tools, where some target has a template.
pub const TEMPLATE_INSTRUCTIONS: &'static str = "Harpoon provides a constrained outbound HTTP client. Use list_targets to see allowlisted targets. For exact targets, use call_target to make GET/POST/PUT requests with strict size, timeout, and redirect limits. For entries with template_version and parameters_schema, use call_target_template with the label and all parameters declared by parameters_schema; each value must satisfy that schema. Templates make GET requests to a fixed destination and do not follow redirects. get_oauth_target_audience is a narrow opt-in lookup for OAuth token-endpoint private_key_jwt audiences. Harpoon cannot reach arbitrary hosts or paths outside the configured allowlist.";

/// The host of a URL as it is compared: without brackets, without dots at its end, without capitals.
pub open spec fn compared_host(host: Option<Seq<char>>) -> Seq<char> {
    text::lowercase_of(
        text::trim_end_char_of(
            text::unbracketed(match host {
                Some(name) => name,
                None => Seq::empty(),
            }),
            '.',
        ),
    )
}

/// Whether a host is one of a configured suffix.
pub open spec fn has_suffix(host: Seq<char>, raw: Seq<char>) -> bool {
    let suffix = text::lowercase_of(text::trim_start_char_of(text::trim_of(raw), '.'));
    suffix.len() > 0 && (host == suffix || ("."@ + suffix).is_suffix_of(host))
}

impl Harpoon {
    /// Whether an address counts as private.
    pub open spec fn private_address(self, host: Seq<char>) -> bool {
        match ip_of(host) {
            Some(address) => {
                ||| (self.config.hosts_include_loopback && address.unmapped().is_loopback())
                ||| (self.config.hosts_include_private && address.unmapped().is_private())
            },
            None => false,
        }
    }

    /// Whether a host counts as private: this host, a private address, a configured suffix, or a
    /// configured expression.
    pub open spec fn is_private(self, url: Parts) -> bool {
        let host = compared_host(url.host);
        ||| (self.config.hosts_include_loopback && host == "localhost"@)
        ||| self.private_address(host)
        ||| exists|i: int|
            0 <= i < self.config.hosts_include_suffix@.len() && has_suffix(
                host,
                (#[trigger] self.config.hosts_include_suffix@[i])@,
            )
        ||| exists|i: int|
            0 <= i < self.patterns@.len() && pattern::regex_found(
                (#[trigger] self.patterns@[i])@,
                host,
            )
    }

    fn suffixed(&self, host: &str) -> (result: bool)
        ensures
            result == exists|i: int|
                0 <= i < self.config.hosts_include_suffix@.len() && has_suffix(
                    host@,
                    (#[trigger] self.config.hosts_include_suffix@[i])@,
                ),
    {
        let items = &self.config.hosts_include_suffix;
        let mut index: usize = 0;
        while index < items.len()
            invariant
                index <= items.len(),
                *items == self.config.hosts_include_suffix,
                forall|i: int| 0 <= i < index ==> !has_suffix(host@, (#[trigger] items@[i])@),
            decreases items.len() - index,
        {
            let suffix = text::lowercase(&text::trim_start_char(&text::trim(&items[index]), '.'));
            if !suffix.is_empty() && (text::same(host, &suffix) || text::ends_with(
                host,
                &text::cat(".", &suffix),
            )) {
                assert(has_suffix(host@, items@[index as int]@));
                return true;
            }
            index = index + 1;
        }
        false
    }

    /// Whether the host of a URL counts as private.
    pub fn private(&self, url: &Address) -> (result: bool)
        ensures
            result == self.is_private(url.parts()),
    {
        let name = match &url.host {
            Some(name) => name.clone(),
            None => String::new(),
        };
        let host = text::lowercase(&text::trim_end_char(&text::unbracket(&name), '.'));
        if self.config.hosts_include_loopback && text::same(&host, "localhost") {
            return true;
        }
        if let Some(address) = host::ip(&host) {
            let address = address.unmap();
            if self.config.hosts_include_loopback && address.loopback() {
                return true;
            }
            if self.config.hosts_include_private && address.private() {
                return true;
            }
        }
        if self.suffixed(&host) {
            return true;
        }
        let mut index: usize = 0;
        while index < self.patterns.len()
            invariant
                index <= self.patterns.len(),
                host@ == compared_host(url.parts().host),
                forall|i: int|
                    0 <= i < index ==> !pattern::regex_found(
                        (#[trigger] self.patterns@[i])@,
                        host@,
                    ),
            decreases self.patterns.len() - index,
        {
            if pattern::found(&self.patterns[index], &host) {
                return true;
            }
            index = index + 1;
        }
        false
    }
}

/// A target is taken only with a label that no other has, and with HTTPS unless plain HTTP is allowed; a URL is
/// reached in one way only.
pub proof fn lemma_target_taken(
    harpoon: Harpoon,
    given: Seq<char>,
    scheme: Seq<char>,
    original_url: Seq<char>,
    socket: Option<Seq<char>>,
    exact: bool,
    at: int,
)
    requires
        harpoon.insert_fault(given, scheme, original_url, socket, exact) is None,
    ensures
        is_label(text::trim_of(given)),
        scheme == "https"@ || (scheme == "http"@ && harpoon.config.allow_plaintext_http),
        key_of(original_url) is Ok,
        0 <= at < harpoon.targets@.len() ==> harpoon.targets@[at].info.label@ != text::trim_of(given),
        harpoon.targets@.len() < 10000,
        exact && 0 <= at < harpoon.targets@.len() && harpoon.targets@[at].template is None && key_of(
            harpoon.targets@[at].original_url@,
        ) == key_of(original_url) ==> text::view_of(harpoon.targets@[at].unix_socket) == tidied(socket),
{
    if 0 <= at < harpoon.targets@.len() {
        assert(!harpoon.conflicts(key_of(original_url)->Ok_0, tidied(socket), at) || !exact);
        assert(harpoon.targets@[at].info.label@ == text::trim_of(given) ==> harpoon.has_label(
            text::trim_of(given),
        ));
    }
}

/// A free label is one that no target has, made from the base that was asked for, and it is the base itself
/// where that is free.
pub proof fn lemma_free_label(harpoon: Harpoon, base: Seq<char>, index: int)
    requires
        0 <= index <= 10000,
    ensures
        harpoon.free_from(base, index) matches Some(label) ==> !harpoon.has_label(label) && exists|i: int|
            index <= i < 10000 && label == #[trigger] candidate(base, i as nat),
        index < 10000 && !harpoon.has_label(candidate(base, index as nat)) ==> harpoon.free_from(
            base,
            index,
        ) == Some(candidate(base, index as nat)),
        harpoon.free_from(base, index) is None ==> forall|i: int|
            index <= i < 10000 ==> #[trigger] harpoon.has_label(candidate(base, i as nat)),
    decreases 10000 - index,
{
    if index < 10000 {
        lemma_free_label(harpoon, base, index + 1);
    }
}

/// A host counts as private where it is this host or a private address and such ones are taken, or where it is
/// one of the listed domains or below one; without any of these settings no host is.
pub proof fn lemma_private_hosts(harpoon: Harpoon, url: Parts, host: Seq<char>, at: int)
    requires
        host == compared_host(url.host),
    ensures
        harpoon.config.hosts_include_loopback && (host == "localhost"@ || (ip_of(host) matches Some(ip)
            && ip.unmapped().is_loopback())) ==> harpoon.is_private(url),
        harpoon.config.hosts_include_private && (ip_of(host) matches Some(ip)
            && ip.unmapped().is_private()) ==> harpoon.is_private(url),
        0 <= at < harpoon.config.hosts_include_suffix@.len() && ({
            let suffix = text::lowercase_of(
                text::trim_start_char_of(
                    text::trim_of(harpoon.config.hosts_include_suffix@[at]@),
                    '.',
                ),
            );
            suffix.len() > 0 && (host == suffix || ("."@ + suffix).is_suffix_of(host))
        }) ==> harpoon.is_private(url),
        0 <= at < harpoon.patterns@.len() && pattern::regex_found(harpoon.patterns@[at]@, host)
            ==> harpoon.is_private(url),
        !harpoon.config.hosts_include_loopback && !harpoon.config.hosts_include_private
            && harpoon.config.hosts_include_suffix@.len() == 0 && harpoon.patterns@.len() == 0
            ==> !harpoon.is_private(url),
        !harpoon.config.hosts_include_private && harpoon.config.hosts_include_suffix@.len() == 0
            && harpoon.patterns@.len() == 0 && host != "localhost"@ && harpoon.is_private(url) ==> (ip_of(
            host,
        ) matches Some(ip) && ip.unmapped().is_loopback()),
{
    if 0 <= at < harpoon.config.hosts_include_suffix@.len() {
        assert(has_suffix(host, harpoon.config.hosts_include_suffix@[at]@) ==> harpoon.is_private(url));
    }
    if 0 <= at < harpoon.patterns@.len() {
        assert(pattern::regex_found(harpoon.patterns@[at]@, host) ==> harpoon.is_private(url));
    }
}

/// An answer is at most as large as is configured, and a hundred kilobytes where nothing is.
pub proof fn lemma_response_limit(harpoon: Harpoon)
    ensures
        harpoon.config.max_response_bytes is None ==> harpoon.response_limit_of() == 102400,
        harpoon.config.max_response_bytes == Some(0usize) ==> harpoon.response_limit_of() == 102400,
        harpoon.config.max_response_bytes matches Some(limit) ==> (limit > 0
            ==> harpoon.response_limit_of() == limit),
{
}

/// The words of a filter are those given, in small letters, without those that are empty.
pub proof fn lemma_cleaned(items: Seq<Seq<char>>, at: int)
    requires
        0 <= at < items.len(),
        text::trim_of(items[at]).len() > 0,
    ensures
        cleaned(items).contains(text::lowercase_of(text::trim_of(items[at]))),
    decreases items.len(),
{
    let word = text::lowercase_of(text::trim_of(items[at]));
    let front = items.drop_last();
    let rest = cleaned(front);
    if at < front.len() {
        lemma_cleaned(front, at);
        let i = choose|i: int| 0 <= i < rest.len() && rest[i] == word;
        assert(cleaned(items)[i] == word);
    } else {
        assert(cleaned(items).last() == word);
    }
}

/// A target is kept as it was given, with its label, its category and its tags tidied.
pub proof fn lemma_target_kept(entry: Target, given: Target)
    requires
        is_entry(entry, given),
    ensures
        entry.info.label@ == text::trim_of(given.info.label@),
        entry.info.description@ == text::trim_of(given.info.description@),
        entry.url == given.url && entry.original_url == given.original_url && entry.template == given.template,
        entry.info.allowed_methods == given.info.allowed_methods,
        text::trim_of(given.info.category@).len() > 0 && text::lowercase_of(
            text::trim_of(given.info.category@),
        ).len() > 0 ==> entry.info.category@ == text::lowercase_of(text::trim_of(given.info.category@)),
        text::trim_of(given.info.category@).len() == 0 ==> entry.info.category@ == text::lowercase_of(
            text::trim_of(given.info.source@),
        ),
        entry.info.source@ == entry.info.category@,
        text::views(entry.info.tags@) == tags_of(text::views(given.info.tags@)),
{
}

/// The tags of a target are in order, and none stands twice in a row.
pub proof fn lemma_tags_deduped(items: Seq<Seq<char>>, last: Seq<char>)
    ensures
        deduped(items).len() > 0 && deduped(items).last() == last ==> deduped(items.push(last)) == deduped(items),
        deduped(items).len() == 0 || deduped(items).last() != last ==> deduped(items.push(last)) == deduped(
            items,
        ).push(last),
        tags_of(items) == deduped(text::sorted_of(cleaned(items))),
{
    assert(items.push(last).drop_last() =~= items);
}

/// An expression for hosts must be a pattern where it is not blank; blank ones do not count.
pub proof fn lemma_host_expressions(items: Seq<Seq<char>>, last: Seq<char>)
    ensures
        text::trim_of(last).len() == 0 ==> expression_fault(last) is None && host_expressions(items.push(last))
            == host_expressions(items),
        text::trim_of(last).len() > 0 ==> host_expressions(items.push(last)) == host_expressions(items).push(
            host_expression(last),
        ),
        text::trim_of(last).len() > 0 && !pattern::regex_valid(host_expression(last)) ==> expression_fault(last)
            is Some,
{
    assert(items.push(last).drop_last() =~= items);
}

} // verus!
