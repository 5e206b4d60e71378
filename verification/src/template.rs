//! Requests whose shape an operator has fixed.

use vstd::prelude::*;
use crate::address::{
    self, are_segments, is_web, of_origin, parsed_url, read_path, read_query, url_with_query,
    url_with_segments,
};
use crate::checks::{either, fault_from, first_fault, tells, unless};
use crate::table::strings_of;
use crate::harpoon::headers;
use crate::table::{self, Table};
use crate::template::body::{BodyPolicy, CompiledBodyPolicy};
use crate::template::parameter::{Constraint, Parameter};
use crate::template::rules::{HeaderRule, Rule, RuleView};
use crate::{header, pattern, text};

pub mod body;
pub mod checked;
pub mod invocation;
pub mod parameter;
pub mod policy;
pub mod request;
pub mod rules;
pub mod schema;
pub mod syntax;

verus! {

/// What an operator says of a template.
pub struct Definition {
    pub version: u8,
    pub origin: String,
    pub method: String,
    pub body_policy: Option<BodyPolicy>,
    pub path_template: String,
    pub query: Table<String>,
    pub parameters: Table<Parameter>,
    pub headers: Table<String>,
    pub allowed_headers: Option<Vec<HeaderRule>>,
    pub header_rules: Option<Vec<HeaderRule>>,
    pub follow_redirects: bool,
}

impl Definition {
    /// The rules for caller headers, under whichever name they were given.
    pub open spec fn given_rules(self) -> Seq<RuleView> {
        match self.header_rules {
            Some(items) => rules::rule_views(items@),
            None => match self.allowed_headers {
                Some(items) => rules::rule_views(items@),
                None => Seq::empty(),
            },
        }
    }

    /// Whether the rules were given under both names.
    pub open spec fn both_rules(self) -> bool {
        self.allowed_headers is Some && self.header_rules is Some
    }

    /// The rules for caller headers, under whichever name they were given.
    pub fn rules(&self) -> (result: Result<Option<&Vec<HeaderRule>>, String>)
        ensures
            match result {
                Ok(items) => !self.both_rules() && self.given_rules() == (match items {
                    Some(items) => rules::rule_views(items@),
                    None => Seq::empty(),
                }),
                Err(reason) => self.both_rules() && reason@
                    == "header_rules and allowed_headers cannot be combined"@,
            },
    {
        if self.allowed_headers.is_some() && self.header_rules.is_some() {
            return Err("header_rules and allowed_headers cannot be combined".to_owned());
        }
        match &self.header_rules {
            Some(items) => Ok(Some(items)),
            None => match &self.allowed_headers {
                Some(items) => Ok(Some(items)),
                None => Ok(None),
            },
        }
    }

    /// Whether some rule is more than a bare name.
    pub fn rich(&self) -> (result: bool)
        ensures
            result == (has_full_rule(self.header_rules) || has_full_rule(self.allowed_headers)),
    {
        full_rule(&self.header_rules) || full_rule(&self.allowed_headers)
    }
}

/// Whether some rule of the list is more than a bare name.
pub open spec fn has_full_rule(items: Option<Vec<HeaderRule>>) -> bool {
    match items {
        Some(items) => exists|i: int| 0 <= i < items@.len() && !(#[trigger] items@[i])@.legacy,
        None => false,
    }
}

fn full_rule(items: &Option<Vec<HeaderRule>>) -> (result: bool)
    ensures
        result == has_full_rule(*items),
{
    if let Some(list) = items {
        let mut index: usize = 0;
        while index < list.len()
            invariant
                index <= list.len(),
                *items == Some(*list),
                forall|i: int| 0 <= i < index ==> (#[trigger] list@[i])@.legacy,
            decreases list.len() - index,
        {
            if let HeaderRule::Rule(_) = &list[index] {
                assert(!list@[index as int]@.legacy);
                return true;
            }
            index = index + 1;
        }
    }
    false
}

/// A piece of a path or a query: a fixed text, or the value of a parameter.
pub enum Part {
    Literal(String),
    Parameter(String),
}

/// What a piece means.
#[verifier::ext_equal]
pub enum PartView {
    Literal(Seq<char>),
    Parameter(Seq<char>),
}

impl View for Part {
    type V = PartView;

    open spec fn view(&self) -> PartView {
        match self {
            Part::Literal(value) => PartView::Literal(value@),
            Part::Parameter(name) => PartView::Parameter(name@),
        }
    }
}

/// The pieces of a list.
pub open spec fn part_views(parts: Seq<Part>) -> Seq<PartView> {
    parts.map_values(|part: Part| part@)
}

/// What a piece of a definition means, or why it is refused. A placeholder takes a whole piece.
pub open spec fn part_of(value: Seq<char>, names: Set<Seq<char>>) -> Result<PartView, Seq<char>> {
    if !value.contains('{') && !value.contains('}') {
        Ok(PartView::Literal(value))
    } else if value.len() < 2 || value[0] != '{' || value.last() != '}' {
        Err("placeholder must occupy an entire path segment or query value"@)
    } else {
        let name = value.subrange(1, value.len() - 1);
        if !syntax::is_parameter_name(name) {
            Err("invalid template placeholder"@)
        } else if !names.contains(name) {
            Err("template uses an undeclared parameter"@)
        } else {
            Ok(PartView::Parameter(name))
        }
    }
}

impl Part {
    /// Reads a piece of a definition.
    pub fn parse(value: &str, parameters: &Table<Constraint>) -> (result: Result<Part, String>)
        ensures
            match (result, part_of(value@, parameters@.dom())) {
                (Ok(part), Ok(expected)) => part@ == expected,
                (Err(reason), Err(expected)) => reason@ == expected,
                _ => false,
            },
    {
        if !text::contains_char(value, '{') && !text::contains_char(value, '}') {
            return Ok(Part::Literal(value.to_owned()));
        }
        let all = text::chars(value);
        if all.len() < 2 || all[0] != '{' || all[all.len() - 1] != '}' {
            return Err("placeholder must occupy an entire path segment or query value".to_owned());
        }
        let name = text::piece(&all, 1, all.len() - 1);
        if !syntax::parameter_name(&name) {
            return Err("invalid template placeholder".to_owned());
        }
        if !parameters.contains(&name) {
            return Err("template uses an undeclared parameter".to_owned());
        }
        Ok(Part::Parameter(name))
    }

    /// The text of the piece for the given values.
    pub fn value(&self, values: &Table<String>) -> (result: String)
        requires
            self@ matches PartView::Parameter(name) ==> values@.dom().contains(name),
        ensures
            result@ == part_text(self@, strings_of(values@)),
    {
        match self {
            Part::Literal(value) => value.clone(),
            Part::Parameter(name) => match values.get(name) {
                Some(value) => value.clone(),
                None => String::new(),
            },
        }
    }
}

/// The text of a piece for the given values.
pub open spec fn part_text(part: PartView, values: Map<Seq<char>, Seq<char>>) -> Seq<char> {
    match part {
        PartView::Literal(value) => value,
        PartView::Parameter(name) => values[name],
    }
}

/// A request whose shape is fixed.
pub struct Template {
    pub method: String,
    pub body_policy: Option<CompiledBodyPolicy>,
    pub operation: Option<String>,
    pub origin: String,
    pub path: Vec<Part>,
    pub query: Table<Part>,
    pub parameters: Table<Constraint>,
    pub headers: header::Headers,
    pub header_rules: Table<Rule>,
    pub digest: String,
}

/// Whether a piece names a parameter.
pub open spec fn is_use_of(part: PartView, name: Seq<char>) -> bool {
    part == PartView::Parameter(name)
}

/// Whether some piece names the parameter.
pub open spec fn uses(parts: Seq<PartView>, name: Seq<char>) -> bool {
    exists|i: int| 0 <= i < parts.len() && is_use_of(#[trigger] parts[i], name)
}

/// Whether every parameter that the pieces name is in the set.
pub open spec fn uses_only(parts: Seq<PartView>, names: Set<Seq<char>>) -> bool {
    forall|i: int|
        0 <= i < parts.len() ==> ((#[trigger] parts[i]) matches PartView::Parameter(name)
            ==> names.contains(name))
}

/// The largest URL of a template request.
pub const MAX_URL: usize = 4096;

/// Whether the pieces are those of a path: each fixed one is a segment as it stands, unless the path is
/// the root.
pub open spec fn is_path(parts: Seq<PartView>) -> bool {
    &&& parts.len() > 0
    &&& forall|i: int|
        0 <= i < parts.len() ==> ((#[trigger] parts[i]) matches PartView::Literal(value)
            ==> syntax::is_identifier(value) || (value.len() == 0 && parts.len() == 1))
}

/// The texts of the pieces of a path.
pub open spec fn part_texts(parts: Seq<PartView>, values: Map<Seq<char>, Seq<char>>) -> Seq<Seq<char>> {
    parts.map_values(|part: PartView| part_text(part, values))
}

/// One field of a query.
pub open spec fn field_text(key: Seq<char>, value: Seq<char>) -> Seq<char> {
    pattern::form_of(vstd::utf8::encode_utf8(key)) + "="@ + pattern::form_of(
        vstd::utf8::encode_utf8(value),
    )
}

/// The fields of a query.
pub open spec fn query_fields(
    keys: Seq<Seq<char>>,
    parts: Seq<PartView>,
    values: Map<Seq<char>, Seq<char>>,
) -> Seq<Seq<char>> {
    Seq::new(keys.len(), |i: int| field_text(keys[i], part_text(parts[i], values)))
}

/// The URL of a request, or nothing where a piece of it alone is longer than a URL may be.
pub open spec fn url_of(
    origin: Seq<char>,
    path: Seq<PartView>,
    keys: Seq<Seq<char>>,
    parts: Seq<PartView>,
    values: Map<Seq<char>, Seq<char>>,
) -> Option<Seq<char>> {
    let segments = part_texts(path, values);
    let query = text::joined(query_fields(keys, parts, values), "&"@);
    if segments.len() > MAX_URL || text::total_bytes(segments) > MAX_URL {
        None
    } else {
        match url_with_segments(origin, segments) {
            None => None,
            Some(base) => if keys.len() == 0 {
                Some(base)
            } else if text::byte_len(base) > MAX_URL || text::byte_len(query) > MAX_URL {
                None
            } else {
                url_with_query(base, query)
            },
        }
    }
}

/// Whether there is a URL and it is not too long.
pub open spec fn url_fits(url: Option<Seq<char>>) -> bool {
    url is Some && text::byte_len(url->0) <= MAX_URL
}

impl Template {
    /// The method of the requests.
    pub fn method(&self) -> (result: &str)
        ensures
            result@ == self.method@,
    {
        self.method.as_str()
    }

    pub open spec fn path_view(self) -> Seq<PartView> {
        part_views(self.path@)
    }

    pub open spec fn query_view(self) -> Seq<PartView> {
        part_views(self.query.values())
    }

    pub open spec fn fixed(self) -> Map<Seq<char>, Seq<Seq<u8>>> {
        header::header_entries(self.headers)
    }

    pub open spec fn writes(self) -> bool {
        self.body_policy is Some
    }

    /// Whether the rules are an accepted list.
    pub open spec fn has_rules(self, items: Seq<RuleView>) -> bool {
        &&& items.len() <= 32
        &&& rules::rules_fault(items, self.fixed().dom(), self.writes()) is None
        &&& rules::holds_rules(self.header_rules@, items, items.len() as int)
    }

    /// What holds of every checked template.
    pub open spec fn wf(self) -> bool {
        &&& self.body_policy matches Some(policy) ==> policy.wf() && policy.content_types@.len() > 0
        &&& self.writes() == (self.method@ != "GET"@)
        &&& is_web(self.origin@)
        &&& read_query(self.origin@) is None
        &&& text::byte_len(self.origin@) <= MAX_URL
        &&& is_path(self.path_view())
        &&& uses_only(self.path_view(), self.parameters@.dom())
        &&& uses_only(self.query_view(), self.parameters@.dom())
        &&& forall|name: Seq<char>| #[trigger]
            self.parameters@.dom().contains(name) ==> self.parameters@[name].wf()
        &&& self.fixed().dom().finite()
        &&& self.fixed().dom().len() <= 33
        &&& exists|items: Seq<RuleView>| #[trigger] self.has_rules(items)
    }

    /// The URL for the given values.
    pub open spec fn url_for(self, values: Map<Seq<char>, Seq<char>>) -> Option<Seq<char>> {
        url_of(
            self.origin@,
            self.path_view(),
            self.query.keys(),
            self.query_view(),
            values,
        )
    }

    /// The query for the given values.
    pub open spec fn query_for(self, values: Map<Seq<char>, Seq<char>>) -> Option<Seq<char>> {
        if self.query.keys().len() == 0 {
            None
        } else {
            Some(text::joined(query_fields(self.query.keys(), self.query_view(), values), "&"@))
        }
    }

    /// Whether a URL leads where the template says: its path is made of the pieces, and its query of
    /// the fields.
    pub open spec fn lands(self, values: Map<Seq<char>, Seq<char>>, url: Seq<char>) -> bool {
        &&& of_origin(url, self.origin@)
        &&& read_path(url) == address::path_of(part_texts(self.path_view(), values))
        &&& read_query(url) == self.query_for(values)
    }

    /// The URL for the given values.
    pub fn url(&self, values: &Table<String>) -> (result: Option<String>)
        requires
            is_web(self.origin@),
            read_query(self.origin@) is None,
            text::byte_len(self.origin@) <= MAX_URL,
            uses_only(self.path_view(), values@.dom()),
            uses_only(self.query_view(), values@.dom()),
        ensures
            text::view_of(result) == self.url_for(strings_of(values@)),
            result matches Some(made) ==> of_origin(made@, self.origin@) && (are_segments(
                part_texts(self.path_view(), strings_of(values@)),
            ) ==> self.lands(strings_of(values@), made@)),
    {
        let ghost texts = part_texts(self.path_view(), strings_of(values@));
        let mut segments: Vec<String> = Vec::new();
        let mut index: usize = 0;
        while index < self.path.len()
            invariant
                index <= self.path.len(),
                uses_only(self.path_view(), values@.dom()),
                texts == part_texts(self.path_view(), strings_of(values@)),
                text::views(segments@) == texts.take(index as int),
            decreases self.path.len() - index,
        {
            assert(self.path_view()[index as int] == self.path@[index as int]@);
            let item = self.path[index].value(values);
            proof {
                assert(texts[index as int] == item@);
                assert(text::views(segments@.push(item)) == text::views(segments@).push(item@));
                assert(texts.take(index + 1) == texts.take(index as int).push(item@));
            }
            segments.push(item);
            index = index + 1;
        }
        assert(texts.take(texts.len() as int) == texts);
        assert(segments.len() == texts.len()) by {
            assert(text::views(segments@).len() == segments@.len());
        }
        if segments.len() > MAX_URL || !text::total_fits(&segments, MAX_URL) {
            return None;
        }
        let base = match address::with_segments(&self.origin, &segments) {
            Some(base) => base,
            None => {
                return None;
            },
        };
        let count: usize = self.query.len();
        if count == 0 {
            return Some(base);
        }
        let ghost fields = query_fields(
            self.query.keys(),
            self.query_view(),
            strings_of(values@),
        );
        let mut items: Vec<String> = Vec::new();
        let mut at: usize = 0;
        while at < count
            invariant
                at <= count,
                count == self.query.keys().len(),
                count == self.query.values().len(),
                uses_only(self.query_view(), values@.dom()),
                fields == query_fields(
            self.query.keys(),
            self.query_view(),
            strings_of(values@),
        ),
                text::views(items@) == fields.take(at as int),
            decreases count - at,
        {
            assert(self.query_view()[at as int] == self.query.values()[at as int]@);
            let key = pattern::form_encoded(self.query.key(at));
            let value = pattern::form_encoded(&self.query.value(at).value(values));
            let item = text::cat3(&key, "=", &value);
            proof {
                assert(fields[at as int] == item@);
                assert(text::views(items@.push(item)) == text::views(items@).push(item@));
                assert(fields.take(at + 1) == fields.take(at as int).push(item@));
            }
            items.push(item);
            at = at + 1;
        }
        assert(fields.take(fields.len() as int) == fields);
        let query = text::join(&items, "&");
        proof {
            lemma_query_chars(self.query.keys(), self.query_view(), strings_of(values@));
        }
        if !text::fits(&base, MAX_URL) || !text::fits(&query, MAX_URL) {
            return None;
        }
        address::with_query(&base, &query)
    }
}

proof fn lemma_field_chars(key: Seq<char>, value: Seq<char>)
    ensures
        text::every(field_text(key, value), |ch: char| address::is_query_char(ch)),
{
    let test = |ch: char| pattern::is_form_char(ch);
    let left = pattern::form_of(vstd::utf8::encode_utf8(key));
    let right = pattern::form_of(vstd::utf8::encode_utf8(value));
    let all = field_text(key, value);
    pattern::lemma_form_chars(vstd::utf8::encode_utf8(key));
    pattern::lemma_form_chars(vstd::utf8::encode_utf8(value));
    reveal_strlit("=");
    assert forall|i: int| 0 <= i < all.len() implies address::is_query_char(#[trigger] all[i]) by {
        if i < left.len() {
            assert(all[i] == left[i] && test(left[i]));
        } else if i > left.len() {
            assert(all[i] == right[i - left.len() - 1] && test(right[i - left.len() - 1]));
        }
    }
}

proof fn lemma_query_chars(
    keys: Seq<Seq<char>>,
    parts: Seq<PartView>,
    values: Map<Seq<char>, Seq<char>>,
)
    ensures
        text::every(
            text::joined(query_fields(keys, parts, values), "&"@),
            |ch: char| address::is_query_char(ch),
        ),
{
    let test = |ch: char| address::is_query_char(ch);
    let fields = query_fields(keys, parts, values);
    assert forall|i: int| 0 <= i < fields.len() implies text::every(#[trigger] fields[i], test) by {
        lemma_field_chars(keys[i], part_text(parts[i], values));
    }
    reveal_strlit("&");
    text::lemma_joined_every(fields, "&"@, test);
}

/// Whether the text can be the origin of a template, before it is read as a URL.
pub open spec fn is_origin_text(value: Seq<char>) -> bool {
    &&& value.len() > 0
    &&& text::byte_len(value) <= MAX_URL
    &&& !value.contains('{') && !value.contains('}') && !value.contains('\\') && !value.contains(
        '%',
    ) && !value.contains('#')
    &&& text::every(value, |ch: char| headers::is_printable(ch))
}

/// Whether the URL is an origin: an HTTPS scheme, a host and perhaps a port.
pub open spec fn is_origin(value: Seq<char>, parts: address::Parts) -> bool {
    &&& parts.scheme == "https"@
    &&& parts.host is Some
    &&& parts.path == "/"@
    &&& parts.query is None
    &&& parts.fragment is None
    &&& parts.username.len() == 0
    &&& parts.password is None
    &&& !":"@.is_suffix_of(text::trim_end_char_of(value, '/'))
    &&& parts.port != Some(0u16)
}

/// Why an origin is refused, if so.
pub open spec fn origin_fault(value: Seq<char>) -> Option<Seq<char>> {
    if !is_origin_text(value) {
        Some("invalid template HTTPS origin"@)
    } else {
        match parsed_url(value) {
            Err(reason) => Some(reason),
            Ok(parts) => unless(
                is_origin(value, parts),
                "template origin must contain only an HTTPS scheme, host, and optional port"@,
            ),
        }
    }
}

pub(crate) fn check_origin(value: &str) -> (result: Result<(), String>)
    ensures
        tells(result, origin_fault(value@)),
        result is Ok ==> is_web(value@) && text::byte_len(value@) <= MAX_URL,
{
    if value.is_empty() || !text::fits(value, MAX_URL) || text::contains_char(value, '{')
        || text::contains_char(value, '}') || text::contains_char(value, '\\')
        || text::contains_char(value, '%') || text::contains_char(value, '#')
        || !headers::printable(value) {
        return Err("invalid template HTTPS origin".to_owned());
    }
    let parts = match address::parse(value) {
        Ok(parts) => parts,
        Err(reason) => {
            return Err(reason);
        },
    };
    let port_zero = match parts.port {
        Some(port) => port == 0,
        None => false,
    };
    if !text::same(&parts.scheme, "https") || parts.host.is_none() || !text::same(&parts.path, "/")
        || parts.query.is_some() || parts.fragment.is_some() || !parts.username.is_empty()
        || parts.password.is_some() || text::ends_with(&text::trim_end_char(value, '/'), ":")
        || port_zero {
        return Err(
            "template origin must contain only an HTTPS scheme, host, and optional port".to_owned(),
        );
    }
    Ok(())
}

/// Why one of the declared parameters is refused, if so.
pub open spec fn declared_fault(keys: Seq<Seq<char>>, values: Seq<Parameter>, at: int) -> Option<
    Seq<char>,
> {
    if !syntax::is_parameter_name(keys[at]) {
        Some("invalid template parameter name"@)
    } else if values[at]@.fault() is Some {
        Some("parameter "@ + keys[at])
    } else {
        None
    }
}

/// Why the declared parameters are refused, if so.
pub open spec fn parameters_fault(keys: Seq<Seq<char>>, values: Seq<Parameter>) -> Option<Seq<char>> {
    either(
        unless(1 <= keys.len() <= 16, "template must declare 1 to 16 parameters"@),
        first_fault(keys.len() as int, |i: int| declared_fault(keys, values, i)),
    )
}

/// Whether a table holds the checked form of each declared parameter.
pub open spec fn holds_parameters(
    table: Map<Seq<char>, Constraint>,
    given: Map<Seq<char>, Parameter>,
) -> bool {
    &&& table.dom() == given.dom()
    &&& forall|name: Seq<char>| #[trigger]
        table.dom().contains(name) ==> table[name].wf() && table[name].definition@
            == given[name]@.normalized() && given[name]@.fault() is None
}

pub(crate) fn check_parameters(parameters: &Table<Parameter>) -> (result: Result<Table<Constraint>, String>)
    ensures
        match result {
            Ok(checked) => parameters_fault(parameters.keys(), parameters.values()) is None
                && holds_parameters(checked@, parameters@),
            Err(reason) => parameters_fault(parameters.keys(), parameters.values()) == Some(reason@),
        },
{
    let count: usize = parameters.len();
    if count < 1 || count > 16 {
        return Err("template must declare 1 to 16 parameters".to_owned());
    }
    let ghost keys = parameters.keys();
    let ghost values = parameters.values();
    let ghost fault = |i: int| declared_fault(keys, values, i);
    let mut checked: Table<Constraint> = Table::new();
    let mut index: usize = 0;
    while index < count
        invariant
            index <= count,
            1 <= count <= 16,
            count == keys.len(),
            keys == parameters.keys(),
            values == parameters.values(),
            table::ascending(keys),
            forall|i: int|
                0 <= i < count ==> parameters@.dom().contains(#[trigger] keys[i])
                    && parameters@[keys[i]] == values[i],
            forall|key: Seq<char>| parameters@.dom().contains(key) <==> #[trigger] keys.contains(key),
            fault == (|i: int| declared_fault(keys, values, i)),
            first_fault(count as int, fault) == fault_from(index as int, count as int, fault),
            forall|name: Seq<char>| #[trigger]
                checked@.dom().contains(name) <==> exists|i: int|
                    0 <= i < index && #[trigger] keys[i] == name,
            forall|i: int|
                0 <= i < index ==> checked@[#[trigger] keys[i]].wf() && checked@[keys[i]].definition@
                    == values[i]@.normalized() && values[i]@.fault() is None,
        decreases count - index,
    {
        assert(fault(index as int) == declared_fault(keys, values, index as int));
        let name = parameters.key(index);
        if !syntax::parameter_name(name) {
            return Err("invalid template parameter name".to_owned());
        }
        match Constraint::new(parameters.value(index).clone()) {
            Ok(constraint) => {
                let ghost before = checked@;
                let ghost own = keys[index as int];
                checked = checked.insert(name.clone(), constraint);
                proof {
                    assert forall|i: int| 0 <= i < index implies checked@[#[trigger] keys[i]]
                        == before[keys[i]] by {
                        if keys[i] == own {
                            table::lemma_ascending_distinct(keys, i, index as int);
                        }
                    }
                    assert forall|other: Seq<char>| #[trigger]
                        checked@.dom().contains(other) implies exists|i: int|
                        0 <= i < index + 1 && #[trigger] keys[i] == other by {
                        if other == own {
                            assert(keys[index as int] == other);
                        } else {
                            assert(before.dom().contains(other));
                            let i = choose|i: int| 0 <= i < index && #[trigger] keys[i] == other;
                            assert(keys[i] == other);
                        }
                    }
                }
            },
            Err(_) => {
                return Err(text::cat("parameter ", name));
            },
        }
        index = index + 1;
    }
    proof {
        assert forall|name: Seq<char>| checked@.dom().contains(name) == parameters@.dom().contains(
            name,
        ) by {
            if checked@.dom().contains(name) {
                let i = choose|i: int| 0 <= i < index && #[trigger] keys[i] == name;
                assert(parameters@.dom().contains(keys[i]));
            }
            if parameters@.dom().contains(name) {
                assert(keys.contains(name));
                let i = choose|i: int| 0 <= i < keys.len() && keys[i] == name;
                assert(keys[i] == name);
            }
        }
        assert(checked@.dom() =~= parameters@.dom());
        assert forall|name: Seq<char>| #[trigger]
            checked@.dom().contains(name) implies checked@[name].wf() && checked@[name].definition@
            == parameters@[name]@.normalized() && parameters@[name]@.fault() is None by {
            let i = choose|i: int| 0 <= i < index && #[trigger] keys[i] == name;
            assert(checked@[keys[i]].wf());
        }
    }
    Ok(checked)
}

/// The pieces of a path, before they are read.
pub open spec fn path_pieces(path: Seq<char>) -> Seq<Seq<char>> {
    text::split_of(path.skip(1), '/')
}

/// Why one piece of a path is refused, if so.
pub open spec fn piece_fault(path: Seq<char>, names: Set<Seq<char>>, at: int) -> Option<Seq<char>> {
    let value = path_pieces(path)[at];
    match part_of(value, names) {
        Err(reason) => Some(reason),
        Ok(PartView::Parameter(_)) => None,
        Ok(PartView::Literal(_)) => unless(
            (value.len() == 0 && path == "/"@) || syntax::is_identifier(value),
            "template path contains an invalid literal segment"@,
        ),
    }
}

/// Why a path is refused, if so.
pub open spec fn path_fault(path: Seq<char>, names: Set<Seq<char>>) -> Option<Seq<char>> {
    if text::byte_len(path) > MAX_URL {
        Some("template path exceeds size limit"@)
    } else if path.len() == 0 || path[0] != '/' {
        Some("template path must be absolute and bounded"@)
    } else {
        first_fault(
            path_pieces(path).len() as int,
            |i: int| piece_fault(path, names, i),
        )
    }
}

/// The pieces of an accepted path.
pub open spec fn path_parts(path: Seq<char>, names: Set<Seq<char>>) -> Seq<PartView> {
    path_pieces(path).map_values(|value: Seq<char>| part_of(value, names)->Ok_0)
}

pub(crate) fn check_path(path: &str, parameters: &Table<Constraint>) -> (result: Result<Vec<Part>, String>)
    ensures
        match result {
            Ok(parts) => path_fault(path@, parameters@.dom()) is None && part_views(parts@)
                == path_parts(path@, parameters@.dom()) && uses_only(
                part_views(parts@),
                parameters@.dom(),
            ) && is_path(part_views(parts@)),
            Err(reason) => path_fault(path@, parameters@.dom()) == Some(reason@),
        },
{
    if !text::fits(path, MAX_URL) {
        return Err("template path exceeds size limit".to_owned());
    }
    let all = text::chars(path);
    if all.len() == 0 || all[0] != '/' {
        return Err("template path must be absolute and bounded".to_owned());
    }
    let rest = text::piece(&all, 1, all.len());
    assert(path@.skip(1) == path@.subrange(1, path@.len() as int));
    let pieces = text::split(&rest, '/');
    let ghost names = parameters@.dom();
    let ghost given = path_pieces(path@);
    let ghost fault = |i: int| piece_fault(path@, names, i);
    let root = text::same(path, "/");
    let mut parts: Vec<Part> = Vec::new();
    let mut index: usize = 0;
    assert(pieces@.len() == given.len()) by {
        assert(text::views(pieces@).len() == pieces@.len());
    }
    while index < pieces.len()
        invariant
            index <= pieces.len(),
            names == parameters@.dom(),
            given == path_pieces(path@),
            text::views(pieces@) == given,
            pieces@.len() == given.len(),
            root == (path@ == "/"@),
            fault == (|i: int| piece_fault(path@, names, i)),
            first_fault(given.len() as int, fault) == fault_from(
                index as int,
                given.len() as int,
                fault,
            ),
            path_fault(path@, names) == first_fault(given.len() as int, fault),
            parts.len() == index,
            forall|i: int|
                0 <= i < index ==> part_of(given[i], names) == Ok::<PartView, Seq<char>>(
                    (#[trigger] parts@[i])@,
                ),
            forall|i: int|
                0 <= i < index ==> ((#[trigger] parts@[i])@ matches PartView::Literal(value)
                    ==> syntax::is_identifier(value) || (value.len() == 0 && root)),
        decreases pieces.len() - index,
    {
        assert(fault(index as int) == piece_fault(path@, names, index as int));
        assert(given[index as int] == pieces@[index as int]@);
        let part = match Part::parse(&pieces[index], parameters) {
            Ok(part) => part,
            Err(reason) => {
                return Err(reason);
            },
        };
        if let Part::Literal(_) = &part {
            if !(pieces[index].is_empty() && root) && !syntax::identifier(&pieces[index]) {
                return Err("template path contains an invalid literal segment".to_owned());
            }
        }
        parts.push(part);
        index = index + 1;
    }
    proof {
        assert(part_views(parts@) =~= path_parts(path@, names));
        lemma_parts_declared(parts@, given, names);
        if root {
            reveal_strlit("/");
            assert(path@.skip(1) =~= Seq::<char>::empty());
        }
        let views = part_views(parts@);
        assert forall|i: int| 0 <= i < views.len() implies ((
        #[trigger] views[i]) matches PartView::Literal(value) ==> syntax::is_identifier(value) || (
        value.len() == 0 && views.len() == 1)) by {
            assert(views[i] == parts@[i]@);
        }
    }
    Ok(parts)
}

proof fn lemma_parts_declared(parts: Seq<Part>, given: Seq<Seq<char>>, names: Set<Seq<char>>)
    requires
        parts.len() == given.len(),
        forall|i: int|
            0 <= i < parts.len() ==> part_of(given[i], names) == Ok::<PartView, Seq<char>>(
                (#[trigger] parts[i])@,
            ),
    ensures
        uses_only(part_views(parts), names),
{
    assert forall|i: int| 0 <= i < part_views(parts).len() implies ((#[trigger] part_views(
        parts,
    )[i]) matches PartView::Parameter(name) ==> names.contains(name)) by {
        assert(part_views(parts)[i] == parts[i]@);
    }
}

/// Why one field of a query is refused, if so.
pub open spec fn field_fault(
    keys: Seq<Seq<char>>,
    values: Seq<String>,
    names: Set<Seq<char>>,
    at: int,
) -> Option<Seq<char>> {
    if text::byte_len(keys[at]) > 64 || !syntax::is_identifier(keys[at]) {
        Some("invalid template query field name"@)
    } else {
        match part_of(values[at]@, names) {
            Err(reason) => Some(reason),
            Ok(PartView::Parameter(_)) => None,
            Ok(PartView::Literal(_)) => unless(
                text::byte_len(values[at]@) <= 256 && text::every(
                    values[at]@,
                    |ch: char| headers::is_printable(ch),
                ),
                "invalid template query literal"@,
            ),
        }
    }
}

/// Why a query is refused, if so.
pub open spec fn query_fault(
    keys: Seq<Seq<char>>,
    values: Seq<String>,
    names: Set<Seq<char>>,
) -> Option<Seq<char>> {
    either(
        unless(keys.len() <= 32, "template has too many query fields"@),
        first_fault(keys.len() as int, |i: int| field_fault(keys, values, names, i)),
    )
}

/// Whether a table holds the pieces of a query.
pub open spec fn holds_query(
    table: Map<Seq<char>, Part>,
    given: Map<Seq<char>, String>,
    names: Set<Seq<char>>,
) -> bool {
    &&& table.dom() == given.dom()
    &&& forall|key: Seq<char>| #[trigger]
        table.dom().contains(key) ==> part_of(given[key]@, names) == Ok::<PartView, Seq<char>>(
            table[key]@,
        )
}

pub(crate) fn check_query(query: &Table<String>, parameters: &Table<Constraint>) -> (result: Result<
    Table<Part>,
    String,
>)
    ensures
        match result {
            Ok(parts) => query_fault(query.keys(), query.values(), parameters@.dom()) is None
                && holds_query(parts@, query@, parameters@.dom()),
            Err(reason) => query_fault(query.keys(), query.values(), parameters@.dom()) == Some(
                reason@,
            ),
        },
{
    let count: usize = query.len();
    if count > 32 {
        return Err("template has too many query fields".to_owned());
    }
    let ghost keys = query.keys();
    let ghost values = query.values();
    let ghost names = parameters@.dom();
    let ghost fault = |i: int| field_fault(keys, values, names, i);
    let mut parts: Table<Part> = Table::new();
    let mut index: usize = 0;
    while index < count
        invariant
            index <= count <= 32,
            count == keys.len(),
            keys == query.keys(),
            values == query.values(),
            names == parameters@.dom(),
            table::ascending(keys),
            forall|i: int|
                0 <= i < count ==> query@.dom().contains(#[trigger] keys[i]) && query@[keys[i]]
                    == values[i],
            forall|key: Seq<char>| query@.dom().contains(key) <==> #[trigger] keys.contains(key),
            fault == (|i: int| field_fault(keys, values, names, i)),
            first_fault(count as int, fault) == fault_from(index as int, count as int, fault),
            forall|name: Seq<char>| #[trigger]
                parts@.dom().contains(name) <==> exists|i: int|
                    0 <= i < index && #[trigger] keys[i] == name,
            forall|i: int|
                0 <= i < index ==> part_of(values[i]@, names) == Ok::<PartView, Seq<char>>(
                    parts@[#[trigger] keys[i]]@,
                ),
        decreases count - index,
    {
        assert(fault(index as int) == field_fault(keys, values, names, index as int));
        let key = query.key(index);
        let value = query.value(index);
        if !text::fits(key, 64) || !syntax::identifier(key) {
            return Err("invalid template query field name".to_owned());
        }
        let part = match Part::parse(value, parameters) {
            Ok(part) => part,
            Err(reason) => {
                return Err(reason);
            },
        };
        if let Part::Literal(_) = &part {
            if !text::fits(value, 256) || !headers::printable(value) {
                return Err("invalid template query literal".to_owned());
            }
        }
        let ghost before = parts@;
        let ghost own = keys[index as int];
        parts = parts.insert(key.clone(), part);
        proof {
            assert forall|i: int| 0 <= i < index implies parts@[#[trigger] keys[i]]
                == before[keys[i]] by {
                if keys[i] == own {
                    table::lemma_ascending_distinct(keys, i, index as int);
                }
            }
            assert forall|other: Seq<char>| #[trigger] parts@.dom().contains(other) implies exists|
                i: int,
            |
                0 <= i < index + 1 && #[trigger] keys[i] == other by {
                if other == own {
                    assert(keys[index as int] == other);
                } else {
                    assert(before.dom().contains(other));
                    let i = choose|i: int| 0 <= i < index && #[trigger] keys[i] == other;
                    assert(keys[i] == other);
                }
            }
        }
        index = index + 1;
    }
    proof {
        assert forall|name: Seq<char>| parts@.dom().contains(name) == query@.dom().contains(
            name,
        ) by {
            if parts@.dom().contains(name) {
                let i = choose|i: int| 0 <= i < index && #[trigger] keys[i] == name;
                assert(query@.dom().contains(keys[i]));
            }
            if query@.dom().contains(name) {
                assert(keys.contains(name));
                let i = choose|i: int| 0 <= i < keys.len() && keys[i] == name;
                assert(keys[i] == name);
            }
        }
        assert(parts@.dom() =~= query@.dom());
        assert forall|name: Seq<char>| #[trigger] parts@.dom().contains(name) implies part_of(
            query@[name]@,
            names,
        ) == Ok::<PartView, Seq<char>>(parts@[name]@) by {
            let i = choose|i: int| 0 <= i < index && #[trigger] keys[i] == name;
            assert(part_of(values[i]@, names) == Ok::<PartView, Seq<char>>(parts@[keys[i]]@));
        }
    }
    Ok(parts)
}

/// Whether some value of a table names the parameter.
pub open spec fn table_uses(table: Map<Seq<char>, Part>, name: Seq<char>) -> bool {
    exists|key: Seq<char>| #[trigger] table.dom().contains(key) && is_use_of(table[key]@, name)
}

fn path_names(path: &Vec<Part>, name: &str) -> (result: bool)
    ensures
        result == uses(part_views(path@), name@),
{
    let mut index: usize = 0;
    while index < path.len()
        invariant
            index <= path.len(),
            forall|i: int|
                0 <= i < index ==> !is_use_of(#[trigger] part_views(path@)[i], name@),
        decreases path.len() - index,
    {
        assert(part_views(path@)[index as int] == path@[index as int]@);
        if let Part::Parameter(own) = &path[index] {
            if text::same(own, name) {
                assert(is_use_of(part_views(path@)[index as int], name@));
                return true;
            }
        }
        index = index + 1;
    }
    false
}

fn query_names(query: &Table<Part>, name: &str) -> (result: bool)
    ensures
        result == table_uses(query@, name@),
{
    let count: usize = query.len();
    let mut index: usize = 0;
    while index < count
        invariant
            index <= count,
            count == query.keys().len(),
            forall|i: int|
                0 <= i < count ==> query@.dom().contains(#[trigger] query.keys()[i])
                    && query@[query.keys()[i]] == query.values()[i],
            forall|key: Seq<char>|
                query@.dom().contains(key) <==> #[trigger] query.keys().contains(key),
            forall|i: int|
                0 <= i < index ==> !is_use_of(query@[#[trigger] query.keys()[i]]@, name@),
        decreases count - index,
    {
        if let Part::Parameter(own) = query.value(index) {
            if text::same(own, name) {
                assert(query@.dom().contains(query.keys()[index as int]));
                assert(is_use_of(query@[query.keys()[index as int]]@, name@));
                return true;
            }
        }
        index = index + 1;
    }
    proof {
        if table_uses(query@, name@) {
            let key = choose|key: Seq<char>| #[trigger]
                query@.dom().contains(key) && is_use_of(query@[key]@, name@);
            assert(query.keys().contains(key));
            let i = choose|i: int| 0 <= i < query.keys().len() && query.keys()[i] == key;
            assert(!is_use_of(query@[query.keys()[i]]@, name@));
        }
    }
    false
}

/// Whether each parameter is named by the path or the query.
pub open spec fn all_used(
    names: Set<Seq<char>>,
    path: Seq<PartView>,
    query: Map<Seq<char>, Part>,
) -> bool {
    forall|name: Seq<char>| #[trigger]
        names.contains(name) ==> uses(path, name) || table_uses(query, name)
}

pub(crate) fn check_used(parameters: &Table<Constraint>, path: &Vec<Part>, query: &Table<Part>) -> (result:
    bool)
    ensures
        result == all_used(parameters@.dom(), part_views(path@), query@),
{
    let count: usize = parameters.len();
    let mut index: usize = 0;
    while index < count
        invariant
            index <= count,
            count == parameters.keys().len(),
            forall|i: int|
                0 <= i < count ==> parameters@.dom().contains(#[trigger] parameters.keys()[i]),
            forall|key: Seq<char>|
                parameters@.dom().contains(key) <==> #[trigger] parameters.keys().contains(key),
            forall|i: int|
                0 <= i < index ==> uses(part_views(path@), #[trigger] parameters.keys()[i])
                    || table_uses(query@, parameters.keys()[i]),
        decreases count - index,
    {
        let name = parameters.key(index);
        if !path_names(path, name) && !query_names(query, name) {
            assert(parameters@.dom().contains(parameters.keys()[index as int]));
            return false;
        }
        index = index + 1;
    }
    proof {
        assert forall|name: Seq<char>| #[trigger] parameters@.dom().contains(name) implies uses(
            part_views(path@),
            name,
        ) || table_uses(query@, name) by {
            assert(parameters.keys().contains(name));
            let i = choose|i: int| 0 <= i < parameters.keys().len() && parameters.keys()[i] == name;
            assert(parameters.keys()[i] == name);
        }
    }
    true
}

/// The origin of a template is an HTTPS host with an optional port, and nothing else.
pub proof fn lemma_origin_only(value: Seq<char>)
    requires
        origin_fault(value) is None,
    ensures
        parsed_url(value) is Ok,
        parsed_url(value)->Ok_0.scheme == "https"@,
        parsed_url(value)->Ok_0.host is Some,
        parsed_url(value)->Ok_0.path == "/"@,
        parsed_url(value)->Ok_0.query is None,
        parsed_url(value)->Ok_0.fragment is None,
        parsed_url(value)->Ok_0.username.len() == 0,
        parsed_url(value)->Ok_0.password is None,
        parsed_url(value)->Ok_0.port != Some(0u16),
        0 < value.len(),
        text::byte_len(value) <= 4096,
        !value.contains('{') && !value.contains('}') && !value.contains('\\') && !value.contains('%')
            && !value.contains('#'),
{
}

/// A part without braces stands for itself, and one in braces for the value of a declared parameter.
pub proof fn lemma_part_stands(value: Seq<char>, names: Set<Seq<char>>, values: Map<Seq<char>, Seq<char>>)
    ensures
        !value.contains('{') && !value.contains('}') ==> part_of(value, names) is Ok && part_text(
            part_of(value, names)->Ok_0,
            values,
        ) == value,
        value.len() >= 2 && value[0] == '{' && value.last() == '}' && syntax::is_parameter_name(
            value.subrange(1, value.len() - 1),
        ) && names.contains(value.subrange(1, value.len() - 1)) ==> part_of(value, names) is Ok && part_text(
            part_of(value, names)->Ok_0,
            values,
        ) == values[value.subrange(1, value.len() - 1)],
        part_of(value, names) is Ok && (value.contains('{') || value.contains('}')) ==> value[0] == '{'
            && value.last() == '}' && names.contains(value.subrange(1, value.len() - 1)),
{
    if value.len() >= 2 && value[0] == '{' {
        assert(value.contains('{'));
    }
}

/// The path of a template starts with a slash, and each of its segments is a placeholder or a plain segment
/// that cannot step out of the path.
pub proof fn lemma_path_safe(path: Seq<char>, names: Set<Seq<char>>, at: int)
    requires
        path_fault(path, names) is None,
    ensures
        path.len() > 0,
        path[0] == '/',
        text::byte_len(path) <= 4096,
        0 <= at < text::split_of(path.skip(1), '/').len() ==> {
            let piece = text::split_of(path.skip(1), '/')[at];
            &&& piece != "."@
            &&& piece != ".."@
            &&& piece.len() == 0 ==> path == "/"@
            &&& part_of(piece, names) is Ok
        },
{
    reveal_strlit(".");
    reveal_strlit("..");
    let faults = |i: int| piece_fault(path, names, i);
    crate::checks::lemma_first_fault(0, path_pieces(path).len() as int, faults);
    if 0 <= at < path_pieces(path).len() {
        assert(faults(at) is None);
        let piece = path_pieces(path)[at];
        if piece == "."@ || piece == ".."@ {
            assert(!piece.contains('{') && !piece.contains('}'));
        }
    }
}

/// The fields of a query have plain names, and their values are placeholders or bounded text without control
/// characters; there are at most thirty-two.
pub proof fn lemma_query_safe(keys: Seq<Seq<char>>, values: Seq<String>, names: Set<Seq<char>>, at: int)
    requires
        query_fault(keys, values, names) is None,
        0 <= at < keys.len(),
    ensures
        keys.len() <= 32,
        text::byte_len(keys[at]) <= 64,
        syntax::is_identifier(keys[at]),
        part_of(values[at]@, names) is Ok,
        !values[at]@.contains('{') && !values[at]@.contains('}') ==> text::byte_len(values[at]@) <= 256,
{
    let faults = |i: int| field_fault(keys, values, names, i);
    crate::checks::lemma_first_fault(0, keys.len() as int, faults);
    assert(faults(at) is None);
}

/// A template declares one to sixteen parameters, each under a proper name and each one that can be declared.
pub proof fn lemma_parameters_declared(keys: Seq<Seq<char>>, values: Seq<Parameter>, at: int)
    requires
        parameters_fault(keys, values) is None,
    ensures
        1 <= keys.len() <= 16,
        0 <= at < keys.len() ==> values[at]@.fault() is None && 0 < keys[at].len() <= 64
            && text::is_letter(keys[at][0]),
{
    let faults = |i: int| declared_fault(keys, values, i);
    crate::checks::lemma_first_fault(0, keys.len() as int, faults);
    if 0 <= at < keys.len() {
        assert(faults(at) is None);
    }
}

/// A URL of a template is that of its origin with the segments of its path, and the query behind it where it
/// has fields; it fits in four kilobytes.
pub proof fn lemma_rendered_url(template: Template, values: Map<Seq<char>, Seq<char>>)
    requires
        url_fits(template.url_for(values)),
    ensures
        ({
            let base = url_with_segments(template.origin@, part_texts(template.path_view(), values));
            &&& text::byte_len(template.url_for(values)->0) <= 4096
            &&& base is Some
            &&& template.query.keys().len() == 0 ==> template.url_for(values) == base
            &&& template.query.keys().len() > 0 ==> template.url_for(values) == url_with_query(
                base->0,
                text::joined(
                    query_fields(template.query.keys(), template.query_view(), values),
                    "&"@,
                ),
            )
        }),
{
}

/// A URL for given values stays at the origin, with the path and the query that the template says.
pub proof fn lemma_url_lands(template: Template, values: Map<Seq<char>, Seq<char>>, url: Seq<char>)
    requires
        template.lands(values, url),
    ensures
        of_origin(url, template.origin@),
        read_path(url) == address::path_of(part_texts(template.path_view(), values)),
        read_query(url) == template.query_for(values),
{
}

} // verus!
