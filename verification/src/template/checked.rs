//! From a definition to a checked template.

use vstd::prelude::*;
use crate::checks::{either, unless};
use crate::config::reference::Sources;
use crate::config::{self, first_unresolved, header_bytes, normalized_headers};
use crate::table::strings_of;
use crate::harpoon::headers;
use crate::table::{self, Table};
use crate::template::body::{self, BodyRules, CompiledBodyPolicy};
use crate::template::parameter::{Constraint, Parameter};
use crate::template::rules::{self, HeaderRule};
use crate::template::{
    check_origin, check_parameters, check_path, check_query, check_used, holds_parameters,
    holds_query, is_use_of, origin_fault, parameters_fault, part_of, part_views, path_fault,
    path_parts, query_fault, table_uses, url_fits, url_of, uses, uses_only, Definition, Part,
    PartView, Template, MAX_URL,
};
use crate::{header, text};

verus! {

/// The methods of templates.
pub open spec fn is_method(method: Seq<char>) -> bool {
    method == "GET"@ || method == "POST"@ || method == "PUT"@
}

impl Definition {
    /// The body policy of the definition, if it has one.
    pub open spec fn policy_view(self) -> Option<body::BodyPolicyView> {
        match self.body_policy {
            Some(policy) => Some(policy@),
            None => None,
        }
    }

    /// What the body policy comes to.
    pub open spec fn body_rules(self) -> Result<Option<BodyRules>, Seq<char>> {
        body::compiled_policy(self.method@, self.policy_view())
    }

    /// The names of the declared parameters.
    pub open spec fn names(self) -> Set<Seq<char>> {
        self.parameters@.dom()
    }

    /// Whether some field of the query names the parameter.
    pub open spec fn query_uses(self, name: Seq<char>) -> bool {
        exists|key: Seq<char>| #[trigger]
            self.query@.dom().contains(key) && part_of(self.query@[key]@, self.names()) == Ok::<
                PartView,
                Seq<char>,
            >(PartView::Parameter(name))
    }

    /// Whether each parameter is named by the path or the query.
    pub open spec fn uses_all(self) -> bool {
        forall|name: Seq<char>| #[trigger]
            self.names().contains(name) ==> uses(
                path_parts(self.path_template@, self.names()),
                name,
            ) || self.query_uses(name)
    }

    /// Why the method, the body policy or the origin is refused, if so.
    pub open spec fn head_fault(self) -> Option<Seq<char>> {
        either(
            unless(self.version == 1, "template version must be 1"@),
            either(
                unless(is_method(self.method@), "template method must be GET, POST, or PUT"@),
                either(
                    match self.body_rules() {
                        Ok(_) => None,
                        Err(reason) => Some(reason),
                    },
                    either(
                        unless(!self.follow_redirects, "template redirects must be disabled"@),
                        origin_fault(self.origin@),
                    ),
                ),
            ),
        )
    }

    /// Why the definition is refused whatever its fixed headers hold, if so.
    pub open spec fn shape_fault(self) -> Option<Seq<char>> {
        either(
            self.head_fault(),
            either(
                parameters_fault(self.parameters.keys(), self.parameters.values()),
                either(
                    path_fault(self.path_template@, self.names()),
                    either(
                        query_fault(self.query.keys(), self.query.values(), self.names()),
                        either(
                            unless(self.uses_all(), "template contains unused parameters"@),
                            either(
                                unless(
                                    !self.both_rules(),
                                    "header_rules and allowed_headers cannot be combined"@,
                                ),
                                unless(
                                    self.headers.keys().len() + self.given_rules().len() + (
                                    if self.method@ == "GET"@ {
                                        0int
                                    } else {
                                        1int
                                    }) <= 32,
                                    "template has too many headers"@,
                                ),
                            ),
                        ),
                    ),
                ),
            ),
        )
    }
}

/// A value of the given length.
pub open spec fn filled(count: nat) -> Seq<char> {
    Seq::new(count, |i: int| 'x')
}

fn fill(count: usize) -> (result: String)
    ensures
        result@ == filled(count as nat),
{
    let mut result = String::new();
    let mut index: usize = 0;
    while index < count
        invariant
            index <= count,
            result@ == filled(index as nat),
        decreases count - index,
    {
        result.push('x');
        assert(result@ =~= filled((index + 1) as nat));
        index = index + 1;
    }
    result
}

/// The longest value of each parameter.
pub open spec fn longest_values(parameters: Map<Seq<char>, Parameter>) -> Map<Seq<char>, Seq<char>> {
    Map::new(
        |name: Seq<char>| parameters.dom().contains(name),
        |name: Seq<char>| filled(parameters[name]@.max_length as nat),
    )
}

fn longest(parameters: &Table<Constraint>, given: Ghost<Map<Seq<char>, Parameter>>) -> (result: Table<
    String,
>)
    requires
        holds_parameters(parameters@, given@),
    ensures
        strings_of(result@) == longest_values(given@),
        result@.dom() == given@.dom(),
{
    let count: usize = parameters.len();
    let mut result: Table<String> = Table::new();
    let mut index: usize = 0;
    while index < count
        invariant
            index <= count,
            count == parameters.keys().len(),
            holds_parameters(parameters@, given@),
            table::ascending(parameters.keys()),
            forall|i: int|
                0 <= i < count ==> parameters@.dom().contains(#[trigger] parameters.keys()[i])
                    && parameters@[parameters.keys()[i]] == parameters.values()[i],
            forall|key: Seq<char>|
                parameters@.dom().contains(key) <==> #[trigger] parameters.keys().contains(key),
            forall|name: Seq<char>| #[trigger]
                result@.dom().contains(name) <==> exists|i: int|
                    0 <= i < index && #[trigger] parameters.keys()[i] == name,
            forall|name: Seq<char>| #[trigger]
                result@.dom().contains(name) ==> result@[name]@ == filled(
                    given@[name]@.max_length as nat,
                ),
        decreases count - index,
    {
        let ghost own = parameters.keys()[index as int];
        let ghost before = result@;
        let constraint = parameters.value(index);
        assert(parameters@.dom().contains(own));
        assert(parameters@[own].definition@ == given@[own]@.normalized());
        let value = fill(constraint.definition.max_length);
        result = result.insert(parameters.key(index).clone(), value);
        proof {
            assert forall|other: Seq<char>| #[trigger] result@.dom().contains(other) implies exists|
                i: int,
            |
                0 <= i < index + 1 && #[trigger] parameters.keys()[i] == other by {
                if other == own {
                    assert(parameters.keys()[index as int] == other);
                } else {
                    assert(before.dom().contains(other));
                    let i = choose|i: int|
                        0 <= i < index && #[trigger] parameters.keys()[i] == other;
                    assert(parameters.keys()[i] == other);
                }
            }
        }
        index = index + 1;
    }
    proof {
        assert forall|name: Seq<char>| result@.dom().contains(name) == given@.dom().contains(
            name,
        ) by {
            if result@.dom().contains(name) {
                let i = choose|i: int| 0 <= i < index && #[trigger] parameters.keys()[i] == name;
                assert(parameters@.dom().contains(parameters.keys()[i]));
            }
            if given@.dom().contains(name) {
                assert(parameters@.dom().contains(name));
                assert(parameters.keys().contains(name));
                let i = choose|i: int|
                    0 <= i < parameters.keys().len() && parameters.keys()[i] == name;
                assert(parameters.keys()[i] == name);
            }
        }
        assert(result@.dom() =~= given@.dom());
        assert(strings_of(result@) =~= longest_values(given@));
    }
    result
}

impl Definition {
    /// The pieces of the query in the order of its keys.
    pub open spec fn query_parts(self) -> Seq<PartView> {
        self.query.values().map_values(|value: String| part_of(value@, self.names())->Ok_0)
    }

    /// The URL of a request for the given values.
    pub open spec fn url_for(self, values: Map<Seq<char>, Seq<char>>) -> Option<Seq<char>> {
        url_of(
            self.origin@,
            path_parts(self.path_template@, self.names()),
            self.query.keys(),
            self.query_parts(),
            values,
        )
    }

    /// Whether the longest URL is short enough.
    pub open spec fn longest_fits(self) -> bool {
        url_fits(self.url_for(longest_values(self.parameters@)))
    }
}

/// Why a fixed header is refused, if so.
pub open spec fn fixed_fault(name: Seq<char>, value: Seq<u8>, write: bool) -> Option<Seq<char>> {
    either(
        headers::template_name_fault(name),
        either(
            unless(
                !(write && rules::is_content_header(name)),
                "template writes require the body policy content type and unencoded body bytes"@,
            ),
            match text::utf8_text(value) {
                None => Some("template header value must be UTF-8"@),
                Some(inner) => headers::template_value_fault(inner),
            },
        ),
    )
}

/// Whether each fixed header is accepted.
pub open spec fn fixed_accepted(entries: Map<Seq<char>, Seq<Seq<u8>>>, write: bool) -> bool {
    forall|name: Seq<char>| #[trigger]
        entries.dom().contains(name) ==> fixed_fault(name, entries[name][0], write) is None
}

/// Whether some fixed header is refused for the reason.
pub open spec fn fixed_refused(
    entries: Map<Seq<char>, Seq<Seq<u8>>>,
    write: bool,
    reason: Seq<char>,
) -> bool {
    exists|name: Seq<char>| #[trigger]
        entries.dom().contains(name) && fixed_fault(name, entries[name][0], write) == Some(reason)
}

/// The resolved headers.
pub open spec fn resolved_entries(given: Map<Seq<char>, Seq<char>>, sources: Sources) -> Map<
    Seq<char>,
    Seq<Seq<u8>>,
> {
    Map::new(
        |name: Seq<char>| given.dom().contains(name),
        |name: Seq<char>| seq![header_bytes(name, given[name], sources)->Ok_0],
    )
}

/// Whether every header can be resolved.
pub open spec fn all_resolved(given: Map<Seq<char>, Seq<char>>, sources: Sources) -> bool {
    forall|name: Seq<char>| #[trigger]
        given.dom().contains(name) ==> header_bytes(name, given[name], sources) is Ok
}

impl Definition {
    /// Why the resolved headers or the longest URL are refused, if so.
    pub open spec fn back_fault(self, entries: Map<Seq<char>, Seq<Seq<u8>>>) -> Option<Seq<char>> {
        either(
            rules::rules_fault(self.given_rules(), entries.dom(), self.method@ != "GET"@),
            either(
                headers::template_size_fault(entries),
                unless(
                    self.longest_fits(),
                    "template maximum rendered URL exceeds size limit"@,
                ),
            ),
        )
    }

    /// Whether the definition is accepted with the given fixed headers.
    pub open spec fn accepted(self, given: Table<String>, sources: Sources) -> bool {
        &&& self.shape_fault() is None
        &&& match normalized_headers(given.keys(), given.values(), given.keys().len() as int) {
            Err(_) => false,
            Ok(map) => {
                let entries = resolved_entries(map, sources);
                &&& all_resolved(map, sources)
                &&& fixed_accepted(entries, self.method@ != "GET"@)
                &&& self.back_fault(entries) is None
            },
        }
    }

    /// Whether the reason tells why the definition is refused with the given fixed headers. Of
    /// several headers that cannot be resolved the first in order counts; of several that are refused
    /// for what they hold, it is left open which counts.
    pub open spec fn refused(self, given: Table<String>, sources: Sources, reason: Seq<char>) -> bool {
        match self.shape_fault() {
            Some(expected) => reason == expected,
            None => match normalized_headers(
                given.keys(),
                given.values(),
                given.keys().len() as int,
            ) {
                Err(expected) => reason == expected,
                Ok(map) => {
                    let entries = resolved_entries(map, sources);
                    let write = self.method@ != "GET"@;
                    if !all_resolved(map, sources) {
                        first_unresolved(map, sources, reason)
                    } else if !fixed_accepted(entries, write) {
                        fixed_refused(entries, write, reason)
                    } else {
                        self.back_fault(entries) == Some(reason)
                    }
                },
            },
        }
    }
}

fn check_fixed(map: &header::Headers, write: bool) -> (result: Result<(), String>)
    requires
        forall|name: Seq<char>| #[trigger]
            header::header_entries(*map).dom().contains(name) ==> header::header_entries(
                *map,
            )[name].len() == 1,
    ensures
        match result {
            Ok(()) => fixed_accepted(header::header_entries(*map), write),
            Err(reason) => fixed_refused(header::header_entries(*map), write, reason@),
        },
{
    let names = header::names(map);
    let ghost entries = header::header_entries(*map);
    let ghost all = text::views(names@);
    let mut index: usize = 0;
    while index < names.len()
        invariant
            index <= names.len(),
            entries == header::header_entries(*map),
            all == text::views(names@),
            header::lists_names(all, entries),
            forall|name: Seq<char>| #[trigger]
                entries.dom().contains(name) ==> entries[name].len() == 1,
            forall|i: int|
                0 <= i < index ==> fixed_fault(#[trigger] all[i], entries[all[i]][0], write) is None,
        decreases names.len() - index,
    {
        let name = &names[index];
        assert(all[index as int] == name@);
        assert(all.contains(name@));
        assert(entries.dom().contains(name@));
        match headers::template_name(name) {
            Ok(_) => {},
            Err(reason) => {
                return Err(reason);
            },
        }
        if write && rules::content_header(name) {
            return Err(
                "template writes require the body policy content type and unencoded body bytes".to_owned(),
            );
        }
        let values = header::values(map, name);
        assert(header::byte_views(values@).len() == 1);
        assert(header::byte_views(values@)[0] == values@[0]@);
        match text::from_utf8(&values[0]) {
            None => {
                return Err("template header value must be UTF-8".to_owned());
            },
            Some(inner) => match headers::template_value(&inner) {
                Ok(()) => {},
                Err(reason) => {
                    return Err(reason);
                },
            },
        }
        index = index + 1;
    }
    proof {
        assert forall|name: Seq<char>| #[trigger] entries.dom().contains(name) implies fixed_fault(
            name,
            entries[name][0],
            write,
        ) is None by {
            assert(all.contains(name));
            let i = choose|i: int| 0 <= i < all.len() && all[i] == name;
            assert(all[i] == name);
        }
    }
    Ok(())
}

/// What holds of a template made from a definition.
pub open spec fn made_from(
    template: Template,
    definition: Definition,
    entries: Map<Seq<char>, Seq<Seq<u8>>>,
) -> bool {
    &&& template.method@ == definition.method@
    &&& template.origin@ == definition.origin@
    &&& template.path_view() == path_parts(definition.path_template@, definition.names())
    &&& template.query.keys() == definition.query.keys()
    &&& template.query_view() == definition.query_parts()
    &&& holds_parameters(template.parameters@, definition.parameters@)
    &&& template.fixed() == entries
    &&& template.has_rules(definition.given_rules())
    &&& match (template.body_policy, definition.body_rules()) {
        (Some(policy), Ok(Some(rules))) => policy.rules() == rules,
        (None, Ok(None)) => true,
        _ => false,
    }
}

proof fn lemma_query_same(query: Table<Part>, definition: Definition)
    requires
        table::ascending(query.keys()),
        table::ascending(definition.query.keys()),
        holds_query(query@, definition.query@, definition.names()),
    ensures
        query.keys() == definition.query.keys(),
        part_views(query.values()) == definition.query_parts(),
        forall|name: Seq<char>| #[trigger] table_uses(query@, name) == definition.query_uses(name),
        uses_only(part_views(query.values()), definition.names()),
{
    query.lemma_entries();
    definition.query.lemma_entries();
    assert forall|key: Seq<char>| #[trigger] query.keys().contains(key) <==> #[trigger]
        definition.query.keys().contains(key) by {
        assert(query@.dom().contains(key) <==> query.keys().contains(key));
        assert(definition.query@.dom().contains(key) <==> definition.query.keys().contains(key));
    }
    table::lemma_ascending_same(query.keys(), definition.query.keys());
    let left = part_views(query.values());
    let right = definition.query_parts();
    assert forall|i: int| 0 <= i < left.len() implies left[i] == right[i] && part_of(
        definition.query.values()[i]@,
        definition.names(),
    ) == Ok::<PartView, Seq<char>>(left[i]) by {
        let key = query.keys()[i];
        assert(query@.dom().contains(key) && query@[key] == query.values()[i]);
        assert(definition.query@.dom().contains(definition.query.keys()[i]));
        assert(definition.query@[key] == definition.query.values()[i]);
    }
    assert(left =~= right);
    assert forall|name: Seq<char>| #[trigger] table_uses(query@, name) == definition.query_uses(
        name,
    ) by {
        if table_uses(query@, name) {
            let key = choose|key: Seq<char>| #[trigger]
                query@.dom().contains(key) && is_use_of(query@[key]@, name);
            assert(definition.query@.dom().contains(key));
        }
        if definition.query_uses(name) {
            let key = choose|key: Seq<char>| #[trigger]
                definition.query@.dom().contains(key) && part_of(
                    definition.query@[key]@,
                    definition.names(),
                ) == Ok::<PartView, Seq<char>>(PartView::Parameter(name));
            assert(query@.dom().contains(key));
            assert(is_use_of(query@[key]@, name));
        }
    }
    assert forall|i: int| 0 <= i < left.len() implies ((#[trigger] left[i]) matches
        PartView::Parameter(name) ==> definition.names().contains(name)) by {
        assert(part_of(definition.query.values()[i]@, definition.names()) == Ok::<
            PartView,
            Seq<char>,
        >(left[i]));
    }
}

impl Template {
    /// Checks the method, the body policy and the origin of a definition.
    fn check_head(definition: &Definition) -> (result: Result<Option<CompiledBodyPolicy>, String>)
        ensures
            match result {
                Ok(policy) => definition.head_fault() is None && crate::address::is_web(
                    definition.origin@,
                ) && text::byte_len(definition.origin@) <= MAX_URL && match (
                    policy,
                    definition.body_rules(),
                ) {
                    (Some(policy), Ok(Some(rules))) => policy.wf() && policy.rules() == rules
                        && policy.content_types@.len() > 0 && definition.method@ != "GET"@,
                    (None, Ok(None)) => definition.method@ == "GET"@,
                    _ => false,
                },
                Err(reason) => definition.head_fault() == Some(reason@),
            },
    {
        if definition.version != 1 {
            return Err("template version must be 1".to_owned());
        }
        if !text::same(&definition.method, "GET") && !text::same(&definition.method, "POST")
            && !text::same(&definition.method, "PUT") {
            return Err("template method must be GET, POST, or PUT".to_owned());
        }
        let policy = match CompiledBodyPolicy::new(
            &definition.method,
            definition.body_policy.as_ref(),
        ) {
            Ok(policy) => policy,
            Err(reason) => {
                return Err(reason);
            },
        };
        proof {
            if policy is Some {
                assert(policy->0.rules().content_types.len() == policy->0.content_types@.len());
            }
        }
        if definition.follow_redirects {
            return Err("template redirects must be disabled".to_owned());
        }
        match check_origin(&definition.origin) {
            Ok(()) => Ok(policy),
            Err(reason) => Err(reason),
        }
    }

    /// Checks a definition, with the given fixed headers in place of its own.
    pub fn build(definition: &Definition, given: &Table<String>, sources: &Sources) -> (result: Result<
        Template,
        String,
    >)
        requires
            given.keys().len() == definition.headers.keys().len(),
        ensures
            match result {
                Ok(template) => definition.accepted(*given, *sources) && template.wf()
                    && made_from(
                    template,
                    *definition,
                    resolved_entries(
                        normalized_headers(
                            given.keys(),
                            given.values(),
                            given.keys().len() as int,
                        )->Ok_0,
                        *sources,
                    ),
                ),
                Err(reason) => definition.refused(*given, *sources, reason@),
            },
    {
        let policy = match Self::check_head(definition) {
            Ok(policy) => policy,
            Err(reason) => {
                return Err(reason);
            },
        };
        let parameters = match check_parameters(&definition.parameters) {
            Ok(parameters) => parameters,
            Err(reason) => {
                return Err(reason);
            },
        };
        let path = match check_path(&definition.path_template, &parameters) {
            Ok(path) => path,
            Err(reason) => {
                return Err(reason);
            },
        };
        let query = match check_query(&definition.query, &parameters) {
            Ok(query) => query,
            Err(reason) => {
                return Err(reason);
            },
        };
        let fields: usize = query.len();
        let given_fields: usize = definition.query.len();
        proof {
            lemma_query_same(query, *definition);
        }
        let used = check_used(&parameters, &path, &query);
        proof {
            assert(used == definition.uses_all()) by {
                if definition.uses_all() {
                    assert forall|name: Seq<char>| #[trigger]
                        parameters@.dom().contains(name) implies uses(part_views(path@), name)
                        || table_uses(query@, name) by {
                        assert(definition.names().contains(name));
                        assert(table_uses(query@, name) == definition.query_uses(name));
                    }
                }
                if used {
                    assert forall|name: Seq<char>| #[trigger]
                        definition.names().contains(name) implies uses(
                        path_parts(definition.path_template@, definition.names()),
                        name,
                    ) || definition.query_uses(name) by {
                        assert(parameters@.dom().contains(name));
                        assert(table_uses(query@, name) == definition.query_uses(name));
                    }
                }
            }
        }
        if !used {
            return Err("template contains unused parameters".to_owned());
        }
        let listed = match definition.rules() {
            Ok(listed) => listed,
            Err(reason) => {
                return Err(reason);
            },
        };
        let none: Vec<HeaderRule> = Vec::new();
        let listed: &Vec<HeaderRule> = match listed {
            Some(listed) => listed,
            None => &none,
        };
        assert(rules::rule_views(listed@) =~= definition.given_rules());
        let count: usize = given.len();
        let extra: usize = if policy.is_some() {
            1
        } else {
            0
        };
        if count > 32 || listed.len() > 32 - count || extra > 32 - count - listed.len() {
            return Err("template has too many headers".to_owned());
        }
        assert(definition.shape_fault() is None);
        let map = match config::headers(given, sources) {
            Ok(map) => map,
            Err(reason) => {
                return Err(reason);
            },
        };
        let ghost normalized = normalized_headers(
            given.keys(),
            given.values(),
            given.keys().len() as int,
        )->Ok_0;
        let ghost entries = resolved_entries(normalized, *sources);
        proof {
            let found = header::header_entries(map);
            assert forall|name: Seq<char>| #[trigger]
                normalized.dom().contains(name) implies header_bytes(
                name,
                normalized[name],
                *sources,
            ) is Ok by {
                assert(found.dom().contains(name));
            }
            assert forall|name: Seq<char>| #[trigger] found.dom().contains(name) implies found[name]
                == entries[name] by {
                assert(found[name] =~= seq![found[name][0]]);
            }
            assert(found =~= entries);
        }
        let write = policy.is_some();
        match check_fixed(&map, write) {
            Ok(()) => {},
            Err(reason) => {
                return Err(reason);
            },
        }
        let table = match rules::compile(listed, &map, write) {
            Ok(table) => table,
            Err(reason) => {
                return Err(reason);
            },
        };
        match headers::template_size(&map) {
            Ok(()) => {},
            Err(reason) => {
                return Err(reason);
            },
        }
        let names = header::names(&map);
        let values = longest(&parameters, Ghost(definition.parameters@));
        let template = Template {
            method: definition.method.clone(),
            body_policy: policy,
            operation: None,
            origin: definition.origin.clone(),
            path,
            query,
            parameters,
            headers: map,
            header_rules: table,
            digest: String::new(),
        };
        let url = template.url(&values);
        assert(text::view_of(url) == definition.url_for(longest_values(definition.parameters@)));
        let short = match &url {
            Some(url) => text::fits(url, MAX_URL),
            None => false,
        };
        if !short {
            return Err("template maximum rendered URL exceeds size limit".to_owned());
        }
        proof {
            assert(template.has_rules(definition.given_rules()));
            assert(made_from(template, *definition, entries));
            assert(template.wf());
        }
        Ok(template)
    }
}

/// An accepted template is of the one known version, reads or writes with GET, POST or PUT, never follows
/// redirects, and has an origin, parameters, a path and a query that are accepted, and no parameter that is
/// not used.
pub proof fn lemma_accepted_shape(definition: Definition, name: Seq<char>)
    requires
        definition.shape_fault() is None,
    ensures
        definition.version == 1,
        definition.method@ == "GET"@ || definition.method@ == "POST"@ || definition.method@ == "PUT"@,
        !definition.follow_redirects,
        body::compiled_policy(definition.method@, body::policy_view(match definition.body_policy {
            Some(policy) => Some(&policy),
            None => None,
        })) is Ok,
        definition.method@ == "GET"@ <==> definition.body_policy is None,
        origin_fault(definition.origin@) is None,
        parameters_fault(definition.parameters.keys(), definition.parameters.values()) is None,
        path_fault(definition.path_template@, definition.names()) is None,
        query_fault(definition.query.keys(), definition.query.values(), definition.names()) is None,
        definition.header_rules is None || definition.allowed_headers is None,
        definition.headers.keys().len() + definition.given_rules().len() <= 32,
        definition.method@ != "GET"@ ==> definition.headers.keys().len() + definition.given_rules().len()
            < 32,
        definition.parameters@.dom().contains(name) ==> (exists|i: int|
            0 <= i < path_parts(definition.path_template@, definition.names()).len() && (
            #[trigger] path_parts(definition.path_template@, definition.names())[i])
                == PartView::Parameter(name)) || definition.query_uses(name),
{
    if definition.parameters@.dom().contains(name) {
        assert(definition.names().contains(name));
        let parts = path_parts(definition.path_template@, definition.names());
        if uses(parts, name) {
            let i = choose|i: int| 0 <= i < parts.len() && is_use_of(#[trigger] parts[i], name);
            assert(parts[i] == PartView::Parameter(name));
        }
    }
}

/// The fixed headers of an accepted template have permitted names and values, and in a write none of them is
/// a header of the body.
pub proof fn lemma_fixed_headers(entries: Map<Seq<char>, Seq<Seq<u8>>>, write: bool, name: Seq<char>)
    requires
        fixed_accepted(entries, write),
        entries.dom().contains(name),
    ensures
        headers::template_name_fault(name) is None,
        write ==> name != "content-type"@ && name != "content-encoding"@,
        text::utf8_text(entries[name][0]) is Some,
        headers::template_value_fault(text::utf8_text(entries[name][0])->0) is None,
{
}

/// A checked template is the one that was defined: its method, origin, path, query and parameters are those of
/// the definition.
pub proof fn lemma_template_as_defined(
    template: Template,
    definition: Definition,
    entries: Map<Seq<char>, Seq<Seq<u8>>>,
    name: Seq<char>,
)
    requires
        made_from(template, definition, entries),
    ensures
        template.method@ == definition.method@,
        template.origin@ == definition.origin@,
        template.parameters@.dom() == definition.parameters@.dom(),
        template.query.keys() == definition.query.keys(),
        header::header_entries(template.headers) == entries,
        definition.parameters@.dom().contains(name) ==> {
            let own = template.parameters@[name].definition@;
            let given = definition.parameters@[name]@;
            &&& own.pattern == given.pattern
            &&& own.max_length == given.max_length
            &&& own.min_length >= given.min_length
            &&& own.values == given.values
            &&& own.reserved_values == given.reserved_values
        },
        template.body_policy matches Some(policy) ==> definition.body_policy is Some && policy.max_bytes
            == definition.body_policy->0.max_bytes && Some(policy.required)
            == definition.body_policy->0.required && definition.body_policy->0.validation is Some
            && policy.validation@ == definition.body_policy->0.validation->0@,
{
}

} // verus!
