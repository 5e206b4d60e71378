//! The identity of a template: the digest of its canonical text.

use vstd::prelude::*;
use crate::config::reference::Sources;
use crate::harpoon::headers;
use crate::json::assembly::{
    append,
    bool_text,
    boolean,
    keyed_members,
    list,
    list_text,
    object,
    object_text,
    quote,
    string_text,
    string_texts,
    quotes,
    with_member,
};
use crate::json::json_text;
use crate::table::{self, Table};
use crate::template::body::{BodyPolicy, BodyPolicyView, BodyRules, BodyValidationView};
use crate::config::normalized_headers;
use crate::template::checked::{fixed_accepted, made_from, resolved_entries};
use crate::template::parameter::{Parameter, ParameterView};
use crate::template::request::is_rich;
use crate::template::rules::{HeaderRule, HeaderValidationView, HeaderView, Rule, RuleView};
use crate::template::{Definition, Template};
use crate::{digest, header, json, text};

verus! {

/// What a character becomes in an encoded document: what HTML or a script could read becomes an
/// escape.
pub open spec fn encoded_char(ch: char) -> Seq<char> {
    if ch == '&' {
        "\\u0026"@
    } else if ch == '<' {
        "\\u003c"@
    } else if ch == '>' {
        "\\u003e"@
    } else if ch == '\u{2028}' {
        "\\u2028"@
    } else if ch == '\u{2029}' {
        "\\u2029"@
    } else {
        seq![ch]
    }
}

/// A document text with the escapes.
pub open spec fn encoded_of(value: Seq<char>) -> Seq<char>
    decreases value.len(),
{
    if value.len() == 0 {
        Seq::empty()
    } else {
        encoded_of(value.drop_last()) + encoded_char(value.last())
    }
}

/// A document text with the escapes.
pub fn encode(value: &str) -> (result: String)
    ensures
        result@ == encoded_of(value@),
{
    let all = text::chars(value);
    let mut result = String::new();
    let mut index: usize = 0;
    while index < all.len()
        invariant
            index <= all.len(),
            all@ == value@,
            result@ == encoded_of(value@.take(index as int)),
        decreases all.len() - index,
    {
        let ch = all[index];
        proof {
            assert(value@.take(index + 1).drop_last() == value@.take(index as int));
            assert(value@.take(index + 1).last() == ch);
        }
        if ch == '&' {
            result.append("\\u0026");
        } else if ch == '<' {
            result.append("\\u003c");
        } else if ch == '>' {
            result.append("\\u003e");
        } else if ch == '\u{2028}' {
            result.append("\\u2028");
        } else if ch == '\u{2029}' {
            result.append("\\u2029");
        } else {
            let ghost before = result@;
            result.push(ch);
            assert(result@ == before + seq![ch]);
        }
        index = index + 1;
    }
    assert(value@.take(value@.len() as int) == value@);
    result
}

/// The digest of a document text.
pub open spec fn identity_of(value: Seq<char>) -> Seq<char> {
    digest::hex_of(digest::sha256_of(vstd::utf8::encode_utf8(encoded_of(value))))
}

/// The digest of a document text.
pub fn identity(value: &str) -> (result: String)
    ensures
        result@ == identity_of(value@),
{
    let bytes = text::bytes(&encode(value));
    digest::hex(&digest::sha256(&bytes))
}

impl BodyValidationView {
    pub open spec fn canonical_text(self) -> Seq<char> {
        let first = with_member(Seq::empty(), self.json, "json"@, "true"@);
        let second = with_member(
            first,
            self.pattern.len() > 0,
            "pattern"@,
            string_text(self.pattern),
        );
        let third = with_member(
            second,
            self.values.len() > 0,
            "enum"@,
            list_text(string_texts(self.values)),
        );
        object_text(third)
    }
}

impl BodyPolicyView {
    pub open spec fn canonical_text(self) -> Seq<char> {
        let first = with_member(
            Seq::empty(),
            true,
            "content_types"@,
            list_text(string_texts(self.content_types)),
        );
        let second = with_member(
            first,
            true,
            "max_bytes"@,
            text::decimal_of(self.max_bytes as nat),
        );
        let third = with_member(
            second,
            true,
            "required"@,
            match self.required {
                Some(value) => bool_text(value),
                None => "null"@,
            },
        );
        object_text(
            with_member(
                third,
                true,
                "validation"@,
                match self.validation {
                    Some(value) => value.canonical_text(),
                    None => "null"@,
                },
            ),
        )
    }
}

fn body_text(policy: &BodyPolicy) -> (result: String)
    ensures
        result@ == policy@.canonical_text(),
{
    let mut members: Vec<String> = Vec::new();
    assert(text::views(members@) == Seq::<Seq<char>>::empty());
    append(&mut members, true, "content_types", &quotes(&policy.content_types));
    append(&mut members, true, "max_bytes", &text::decimal(policy.max_bytes as u64));
    let required = match policy.required {
        Some(value) => boolean(value),
        None => "null".to_owned(),
    };
    append(&mut members, true, "required", &required);
    let validation = match &policy.validation {
        Some(value) => {
            let mut inner: Vec<String> = Vec::new();
            assert(text::views(inner@) == Seq::<Seq<char>>::empty());
            append(&mut inner, value.json, "json", "true");
            append(&mut inner, !value.pattern.is_empty(), "pattern", &quote(&value.pattern));
            append(&mut inner, value.values.len() > 0, "enum", &quotes(&value.values));
            object(&inner)
        },
        None => "null".to_owned(),
    };
    append(&mut members, true, "validation", &validation);
    object(&members)
}

impl ParameterView {
    /// The parameter with its lists in order and its reserved values without capitals.
    pub open spec fn canonical(self) -> ParameterView {
        ParameterView {
            values: text::sorted_of(self.values),
            reserved_values: text::sorted_of(lowercased(self.reserved_values)),
            ..self
        }
    }

    pub open spec fn canonical_text(self) -> Seq<char> {
        let first = with_member(Seq::empty(), true, "type"@, string_text(self.kind));
        let second = with_member(first, true, "required"@, bool_text(self.required));
        let third = with_member(
            second,
            self.description.len() > 0,
            "description"@,
            string_text(self.description),
        );
        let fourth = with_member(
            third,
            self.examples.len() > 0,
            "examples"@,
            list_text(string_texts(self.examples)),
        );
        let fifth = with_member(
            fourth,
            self.pattern.len() > 0,
            "pattern"@,
            string_text(self.pattern),
        );
        let sixth = with_member(
            fifth,
            self.values.len() > 0,
            "enum"@,
            list_text(string_texts(self.values)),
        );
        let seventh = with_member(
            sixth,
            true,
            "min_length"@,
            text::decimal_of(self.min_length as nat),
        );
        let eighth = with_member(
            seventh,
            true,
            "max_length"@,
            text::decimal_of(self.max_length as nat),
        );
        object_text(
            with_member(
                eighth,
                self.reserved_values.len() > 0,
                "reserved_values"@,
                list_text(string_texts(self.reserved_values)),
            ),
        )
    }
}

/// The strings without capitals.
pub open spec fn lowercased(items: Seq<Seq<char>>) -> Seq<Seq<char>> {
    items.map_values(|item: Seq<char>| text::lowercase_of(item))
}

fn lowercase_all(items: &Vec<String>) -> (result: Vec<String>)
    ensures
        text::views(result@) == lowercased(text::views(items@)),
{
    let ghost all = lowercased(text::views(items@));
    let mut result: Vec<String> = Vec::new();
    let mut index: usize = 0;
    while index < items.len()
        invariant
            index <= items.len(),
            all == lowercased(text::views(items@)),
            text::views(result@) == all.take(index as int),
        decreases items.len() - index,
    {
        let item = text::lowercase(&items[index]);
        proof {
            assert(all[index as int] == item@);
            assert(text::views(result@.push(item)) == text::views(result@).push(item@));
            assert(all.take(index + 1) == all.take(index as int).push(item@));
        }
        result.push(item);
        index = index + 1;
    }
    assert(all.take(all.len() as int) == all);
    result
}

fn parameter_text(parameter: &Parameter) -> (result: String)
    ensures
        result@ == parameter@.canonical().canonical_text(),
{
    let values = text::sorted(&parameter.values);
    let reserved = text::sorted(&lowercase_all(&parameter.reserved_values));
    proof {
        assert(text::views(values@).len() == values@.len());
        assert(text::views(reserved@).len() == reserved@.len());
    }
    let mut members: Vec<String> = Vec::new();
    assert(text::views(members@) == Seq::<Seq<char>>::empty());
    append(&mut members, true, "type", &quote(&parameter.kind));
    append(&mut members, true, "required", &boolean(parameter.required));
    append(
        &mut members,
        !parameter.description.is_empty(),
        "description",
        &quote(&parameter.description),
    );
    append(
        &mut members,
        parameter.examples.len() > 0,
        "examples",
        &quotes(&parameter.examples),
    );
    append(&mut members, !parameter.pattern.is_empty(), "pattern", &quote(&parameter.pattern));
    append(&mut members, values.len() > 0, "enum", &quotes(&values));
    append(&mut members, true, "min_length", &text::decimal(parameter.min_length as u64));
    append(&mut members, true, "max_length", &text::decimal(parameter.max_length as u64));
    append(&mut members, reserved.len() > 0, "reserved_values", &quotes(&reserved));
    object(&members)
}

/// A length that is there or not.
pub open spec fn length_text(value: Option<usize>) -> Seq<char> {
    match value {
        Some(value) => text::decimal_of(value as nat),
        None => "null"@,
    }
}

fn length(value: Option<usize>) -> (result: String)
    ensures
        result@ == length_text(value),
{
    match value {
        Some(value) => text::decimal(value as u64),
        None => "null".to_owned(),
    }
}

impl HeaderValidationView {
    pub open spec fn canonical_text(self) -> Seq<char> {
        let first = with_member(
            Seq::empty(),
            self.pattern.len() > 0,
            "pattern"@,
            string_text(self.pattern),
        );
        let second = with_member(
            first,
            self.values is Some,
            "enum"@,
            match self.values {
                Some(items) => list_text(string_texts(items)),
                None => "null"@,
            },
        );
        let third = with_member(
            second,
            self.min_length is Some,
            "min_length"@,
            length_text(self.min_length),
        );
        object_text(
            with_member(
                third,
                self.max_length is Some,
                "max_length"@,
                length_text(self.max_length),
            ),
        )
    }
}

impl HeaderView {
    pub open spec fn canonical_text(self) -> Seq<char> {
        let first = with_member(Seq::empty(), true, "name"@, string_text(self.name));
        let second = with_member(
            first,
            self.description.len() > 0,
            "description"@,
            string_text(self.description),
        );
        let third = with_member(second, self.required, "required"@, "true"@);
        let fourth = with_member(third, self.credential, "credential"@, "true"@);
        let fifth = with_member(
            fourth,
            self.forward_as.len() > 0,
            "forward_as"@,
            string_text(self.forward_as),
        );
        object_text(
            with_member(
                fifth,
                self.validation is Some,
                "validation"@,
                match self.validation {
                    Some(validation) => validation.canonical_text(),
                    None => "null"@,
                },
            ),
        )
    }

    /// The header with its list of values in order.
    pub open spec fn canonical(self) -> HeaderView {
        HeaderView {
            validation: match self.validation {
                Some(validation) => Some(
                    HeaderValidationView {
                        values: match validation.values {
                            Some(items) => Some(text::sorted_of(items)),
                            None => None,
                        },
                        ..validation
                    },
                ),
                None => None,
            },
            ..self
        }
    }
}

impl RuleView {
    pub open spec fn canonical_text(self) -> Seq<char> {
        if self.legacy {
            string_text(self.schema.name)
        } else {
            self.schema.canonical().canonical_text()
        }
    }
}

fn rule_text(rule: &Rule) -> (result: String)
    ensures
        result@ == rule.declared().canonical_text(),
{
    match rule.canonical() {
        HeaderRule::Name(name) => quote(&name),
        HeaderRule::Rule(schema) => {
            let mut members: Vec<String> = Vec::new();
            assert(text::views(members@) == Seq::<Seq<char>>::empty());
            append(&mut members, true, "name", &quote(&schema.name));
            append(
                &mut members,
                !schema.description.is_empty(),
                "description",
                &quote(&schema.description),
            );
            append(&mut members, schema.required, "required", "true");
            append(&mut members, schema.credential, "credential", "true");
            append(
                &mut members,
                !schema.forward_as.is_empty(),
                "forward_as",
                &quote(&schema.forward_as),
            );
            let validation = match &schema.validation {
                Some(validation) => {
                    let mut inner: Vec<String> = Vec::new();
                    assert(text::views(inner@) == Seq::<Seq<char>>::empty());
                    append(
                        &mut inner,
                        !validation.pattern.is_empty(),
                        "pattern",
                        &quote(&validation.pattern),
                    );
                    let values = match &validation.values {
                        Some(items) => quotes(items),
                        None => "null".to_owned(),
                    };
                    append(&mut inner, validation.values.is_some(), "enum", &values);
                    append(
                        &mut inner,
                        validation.min_length.is_some(),
                        "min_length",
                        &length(validation.min_length),
                    );
                    append(
                        &mut inner,
                        validation.max_length.is_some(),
                        "max_length",
                        &length(validation.max_length),
                    );
                    object(&inner)
                },
                None => "null".to_owned(),
            };
            append(&mut members, schema.validation.is_some(), "validation", &validation);
            object(&members)
        },
    }
}

/// The object of a table of strings.
pub open spec fn strings_text(keys: Seq<Seq<char>>, values: Seq<Seq<char>>) -> Seq<char> {
    object_text(keyed_members(keys, |i: int| string_text(values[i])))
}

fn string_table(items: &Table<String>) -> (result: String)
    ensures
        result@ == strings_text(items.keys(), text::views(items.values())),
{
    let count: usize = items.len();
    let ghost values = text::views(items.values());
    let ghost all = keyed_members(items.keys(), |i: int| string_text(values[i]));
    let mut members: Vec<String> = Vec::new();
    let mut index: usize = 0;
    while index < count
        invariant
            index <= count,
            count == items.keys().len(),
            count == items.values().len(),
            values == text::views(items.values()),
            all == keyed_members(items.keys(), |i: int| string_text(values[i])),
            text::views(members@) == all.take(index as int),
        decreases count - index,
    {
        proof {
            assert(values[index as int] == items.values()[index as int]@);
            assert(all.take(index + 1) == all.take(index as int).push(all[index as int]));
        }
        append(&mut members, true, items.key(index), &quote(items.value(index)));
        index = index + 1;
    }
    assert(all.take(all.len() as int) == all);
    object(&members)
}

/// The fixed headers under their canonical names.
pub open spec fn canonical_fixed(entries: Map<Seq<char>, Seq<Seq<u8>>>) -> Map<
    Seq<char>,
    Seq<char>,
> {
    Map::new(
        |name: Seq<char>|
            entries.dom().contains(text::lowercase_of(name)) && name == headers::canonical_of(
                text::lowercase_of(name),
            ),
        |name: Seq<char>| text::utf8_text(entries[text::lowercase_of(name)][0])->0,
    )
}

/// The object of a map of strings, in the order of its keys.
pub open spec fn map_text(map: Map<Seq<char>, Seq<char>>) -> Seq<char> {
    let keys = table::ordered_keys(map.dom());
    strings_text(keys, keys.map_values(|key: Seq<char>| map[key]))
}

impl Template {
    fn fixed_table(&self) -> (result: Table<String>)
        requires
            fixed_accepted(self.fixed(), self.writes()),
            single_valued(self.fixed()),
        ensures
            table::strings_of(result@) == canonical_fixed(self.fixed()),
    {
        let names = header::names(&self.headers);
        let ghost entries = self.fixed();
        let ghost all = text::views(names@);
        let mut result: Table<String> = Table::new();
        let mut index: usize = 0;
        while index < names.len()
            invariant
                index <= names.len(),
                entries == self.fixed(),
                all == text::views(names@),
                all.len() == names@.len(),
                fixed_accepted(entries, self.writes()),
                single_valued(entries),
                header::lists_names(all, entries),
                forall|name: Seq<char>| #[trigger]
                    result@.dom().contains(name) ==> canonical_fixed(entries).dom().contains(name)
                        && result@[name]@ == canonical_fixed(entries)[name],
                forall|i: int|
                    0 <= i < index ==> result@.dom().contains(
                        headers::canonical_of(#[trigger] all[i]),
                    ),
            decreases names.len() - index,
        {
            let name = &names[index];
            let ghost own = name@;
            proof {
                assert(all[index as int] == own);
                assert(all.contains(own));
                assert(entries.dom().contains(own));
                headers::lemma_canonical_small(own);
                assert(text::lowercase_of(headers::canonical_of(own)) == own);
            }
            let values = header::values(&self.headers, name);
            assert(header::byte_views(values@).len() == 1);
            assert(header::byte_views(values@)[0] == values@[0]@);
            if let Some(value) = text::from_utf8(&values[0]) {
                let canonical = headers::canonical(name);
                result = result.insert(canonical, value);
            }
            index = index + 1;
        }
        proof {
            let left = table::strings_of(result@);
            let right = canonical_fixed(entries);
            assert forall|name: Seq<char>| left.dom().contains(name) == right.dom().contains(name) by {
                if right.dom().contains(name) {
                    let small = text::lowercase_of(name);
                    assert(all.contains(small));
                    let i = choose|i: int| 0 <= i < all.len() && all[i] == small;
                    assert(result@.dom().contains(headers::canonical_of(all[i])));
                }
            }
            assert(left =~= right);
        }
        result
    }

    /// The canonical texts of the rules.
    pub open spec fn rule_texts(self) -> Seq<Seq<char>> {
        self.header_rules.values().map_values(|rule: Rule| rule.declared().canonical_text())
    }

    fn rules_list(&self) -> (result: String)
        ensures
            result@ == list_text(self.rule_texts()),
    {
        let count: usize = self.header_rules.len();
        let ghost all = self.rule_texts();
        let mut parts: Vec<String> = Vec::new();
        let mut index: usize = 0;
        while index < count
            invariant
                index <= count,
                count == self.header_rules.keys().len(),
                count == self.header_rules.values().len(),
                all == self.rule_texts(),
                text::views(parts@) == all.take(index as int),
            decreases count - index,
        {
            let part = rule_text(self.header_rules.value(index));
            proof {
                assert(all[index as int] == part@);
                assert(text::views(parts@.push(part)) == text::views(parts@).push(part@));
                assert(all.take(index + 1) == all.take(index as int).push(part@));
            }
            parts.push(part);
            index = index + 1;
        }
        assert(all.take(all.len() as int) == all);
        list(&parts)
    }

    fn rule_names(&self) -> (result: String)
        ensures
            result@ == list_text(string_texts(self.header_rules.keys())),
    {
        let count: usize = self.header_rules.len();
        let mut names: Vec<String> = Vec::new();
        let mut index: usize = 0;
        while index < count
            invariant
                index <= count,
                count == self.header_rules.keys().len(),
                text::views(names@) == self.header_rules.keys().take(index as int),
            decreases count - index,
        {
            let own = self.header_rules.key(index).clone();
            proof {
                assert(text::views(names@.push(own)) == text::views(names@).push(own@));
                assert(self.header_rules.keys().take(index + 1) == self.header_rules.keys().take(
                    index as int,
                ).push(own@));
            }
            names.push(own);
            index = index + 1;
        }
        assert(self.header_rules.keys().take(count as int) == self.header_rules.keys());
        quotes(&names)
    }

    /// The entries of the parameters.
    pub open spec fn parameter_members(self) -> Seq<Seq<char>> {
        let values = self.parameters.values();
        keyed_members(
            self.parameters.keys(),
            |i: int| values[i].definition@.canonical().canonical_text(),
        )
    }

    fn parameters_object(&self) -> (result: String)
        ensures
            result@ == object_text(self.parameter_members()),
    {
        let count: usize = self.parameters.len();
        let ghost all = self.parameter_members();
        let mut members: Vec<String> = Vec::new();
        let mut index: usize = 0;
        while index < count
            invariant
                index <= count,
                count == self.parameters.keys().len(),
                count == self.parameters.values().len(),
                all == self.parameter_members(),
                text::views(members@) == all.take(index as int),
            decreases count - index,
        {
            assert(all.take(index + 1) == all.take(index as int).push(all[index as int]));
            append(
                &mut members,
                true,
                self.parameters.key(index),
                &parameter_text(&self.parameters.value(index).definition),
            );
            index = index + 1;
        }
        assert(all.take(all.len() as int) == all);
        object(&members)
    }

    /// The entries of the canonical text up to the parameters.
    pub open spec fn policy_front(self, definition: Definition) -> Seq<Seq<char>> {
        let first = with_member(Seq::empty(), true, "version"@, "1"@);
        let second = with_member(
            first,
            true,
            "origin"@,
            string_text(
                match text::before_suffix(definition.origin@, "/"@) {
                    Some(front) => front,
                    None => definition.origin@,
                },
            ),
        );
        let third = with_member(second, true, "method"@, string_text(self.method@));
        let fourth = with_member(
            third,
            self.body_policy is Some,
            "body_policy"@,
            self.body_canonical(),
        );
        let fifth = with_member(
            fourth,
            true,
            "path_template"@,
            string_text(definition.path_template@),
        );
        with_member(
            fifth,
            definition.query.keys().len() > 0,
            "query"@,
            strings_text(definition.query.keys(), text::views(definition.query.values())),
        )
    }

    /// The canonical text of the body policy.
    pub open spec fn body_canonical(self) -> Seq<char> {
        match self.body_policy {
            Some(policy) => policy.rules().canonical().canonical_text(),
            None => "null"@,
        }
    }

    /// The canonical text of the template.
    pub open spec fn policy_text(self, definition: Definition) -> Seq<char> {
        let front = self.policy_front(definition);
        let first = with_member(front, true, "parameters"@, object_text(self.parameter_members()));
        let second = with_member(
            first,
            table::ordered_keys(canonical_fixed(self.fixed()).dom()).len() > 0,
            "headers"@,
            map_text(canonical_fixed(self.fixed())),
        );
        let third = with_member(
            second,
            !is_rich(self.header_rules@) && self.header_rules.keys().len() > 0,
            "allowed_headers"@,
            list_text(string_texts(self.header_rules.keys())),
        );
        let fourth = with_member(third, true, "follow_redirects"@, "false"@);
        object_text(
            with_member(
                fourth,
                is_rich(self.header_rules@),
                "header_rules"@,
                list_text(self.rule_texts()),
            ),
        )
    }

    fn body_part(&self) -> (result: String)
        ensures
            result@ == self.body_canonical(),
    {
        match &self.body_policy {
            Some(policy) => body_text(&policy.canonical()),
            None => "null".to_owned(),
        }
    }

    /// The digest of the canonical text.
    pub fn policy(&self, definition: &Definition) -> (result: String)
        requires
            fixed_accepted(self.fixed(), self.writes()),
            single_valued(self.fixed()),
        ensures
            result@ == identity_of(self.policy_text(*definition)),
    {
        let mut members: Vec<String> = Vec::new();
        assert(text::views(members@) == Seq::<Seq<char>>::empty());
        append(&mut members, true, "version", "1");
        let origin = match text::strip_suffix(&definition.origin, "/") {
            Some(front) => front,
            None => definition.origin.clone(),
        };
        append(&mut members, true, "origin", &quote(&origin));
        append(&mut members, true, "method", &quote(&self.method));
        append(&mut members, self.body_policy.is_some(), "body_policy", &self.body_part());
        append(&mut members, true, "path_template", &quote(&definition.path_template));
        append(
            &mut members,
            definition.query.len() > 0,
            "query",
            &string_table(&definition.query),
        );
        assert(text::views(members@) == self.policy_front(*definition));
        append(&mut members, true, "parameters", &self.parameters_object());
        let fixed = self.fixed_table();
        let count: usize = fixed.len();
        proof {
            let map = canonical_fixed(self.fixed());
            assert(map.dom() =~= fixed@.dom());
            assert forall|key: Seq<char>| #[trigger] fixed.keys().contains(key) <==> map.dom().contains(
                key,
            ) by {
                assert(fixed@.dom().contains(key) <==> fixed.keys().contains(key));
            }
            assert(table::lists_in_order(fixed.keys(), map.dom()));
            table::lemma_ordered_keys(fixed.keys(), map.dom());
            assert(text::views(fixed.values()) =~= fixed.keys().map_values(
                |key: Seq<char>| map[key],
            )) by {
                assert forall|i: int| 0 <= i < fixed.keys().len() implies (
                #[trigger] fixed.values()[i])@ == map[fixed.keys()[i]] by {
                    assert(fixed@[fixed.keys()[i]] == fixed.values()[i]);
                }
            }
        }
        append(&mut members, count > 0, "headers", &string_table(&fixed));
        let rich = self.rich();
        append(
            &mut members,
            !rich && self.header_rules.len() > 0,
            "allowed_headers",
            &self.rule_names(),
        );
        append(&mut members, true, "follow_redirects", "false");
        append(&mut members, rich, "header_rules", &self.rules_list());
        identity(&object(&members))
    }

    /// The canonical text of what a write does.
    pub open spec fn operation_text(self) -> Seq<char> {
        let first = with_member(Seq::empty(), true, "method"@, string_text(self.method@));
        let second = with_member(first, true, "body_policy"@, self.body_canonical());
        object_text(
            with_member(second, true, "parameters_schema"@, json_text(self.schema_doc())),
        )
    }

    /// The name of the operation that a write has to give.
    pub open spec fn operation_name(self) -> Option<Seq<char>> {
        if self.body_policy is Some {
            Some("write-v1:"@ + identity_of(self.operation_text()))
        } else {
            None
        }
    }

    fn name_operation(&self) -> (result: Option<String>)
        ensures
            text::view_of(result) == self.operation_name(),
    {
        if self.body_policy.is_none() {
            return None;
        }
        let mut members: Vec<String> = Vec::new();
        assert(text::views(members@) == Seq::<Seq<char>>::empty());
        append(&mut members, true, "method", &quote(&self.method));
        append(&mut members, true, "body_policy", &self.body_part());
        append(&mut members, true, "parameters_schema", &json::write(self.schema()));
        Some(text::cat("write-v1:", &identity(&object(&members))))
    }
}

impl Template {
    /// Checks a definition, and gives the template its identity.
    pub fn new(definition: &Definition, sources: &Sources) -> (result: Result<Template, String>)
        ensures
            match result {
                Ok(template) => definition.accepted(definition.headers, *sources) && template.wf()
                    && made_from(
                    template,
                    *definition,
                    resolved_entries(
                        normalized_headers(
                            definition.headers.keys(),
                            definition.headers.values(),
                            definition.headers.keys().len() as int,
                        )->Ok_0,
                        *sources,
                    ),
                ) && template.digest@ == identity_of(template.policy_text(*definition))
                    && text::view_of(template.operation) == template.operation_name(),
                Err(reason) => definition.refused(definition.headers, *sources, reason@),
            },
    {
        let draft = match Self::build(definition, &definition.headers, sources) {
            Ok(draft) => draft,
            Err(reason) => {
                return Err(reason);
            },
        };
        let digest = draft.policy(definition);
        let operation = draft.name_operation();
        let ghost before = draft;
        let mut template = draft;
        template.digest = digest;
        template.operation = operation;
        proof {
            let items = choose|items: Seq<RuleView>| #[trigger] before.has_rules(items);
            assert(template.has_rules(items));
            assert(template.has_rules(definition.given_rules()));
            assert(template.policy_text(*definition) == before.policy_text(*definition));
            assert(template.operation_name() == before.operation_name());
        }
        Ok(template)
    }
}

/// Whether each name has one value.
pub open spec fn single_valued(entries: Map<Seq<char>, Seq<Seq<u8>>>) -> bool {
    forall|name: Seq<char>| #[trigger] entries.dom().contains(name) ==> entries[name].len() == 1
}

impl BodyRules {
    /// The policy with its lists in order.
    pub open spec fn canonical(self) -> BodyPolicyView {
        BodyPolicyView {
            content_types: text::sorted_of(self.content_types),
            max_bytes: self.max_bytes,
            required: Some(self.required),
            validation: Some(
                BodyValidationView {
                    values: text::sorted_of(self.validation.values),
                    ..self.validation
                },
            ),
        }
    }
}

/// What could be taken for markup is written by its number; every other character stands for itself.
pub proof fn lemma_marks_encoded(value: Seq<char>, ch: char)
    ensures
        encoded_of(value.push('&')) == encoded_of(value) + "\\u0026"@,
        encoded_of(value.push('<')) == encoded_of(value) + "\\u003c"@,
        encoded_of(value.push('>')) == encoded_of(value) + "\\u003e"@,
        encoded_of(value.push('\u{2028}')) == encoded_of(value) + "\\u2028"@,
        encoded_of(value.push('\u{2029}')) == encoded_of(value) + "\\u2029"@,
        ch != '&' && ch != '<' && ch != '>' && ch != '\u{2028}' && ch != '\u{2029}' ==> encoded_of(value.push(ch))
            == encoded_of(value) + seq![ch],
        encoded_of(Seq::empty()).len() == 0,
{
    assert(value.push('&').drop_last() =~= value);
    assert(value.push('<').drop_last() =~= value);
    assert(value.push('>').drop_last() =~= value);
    assert(value.push('\u{2028}').drop_last() =~= value);
    assert(value.push('\u{2029}').drop_last() =~= value);
    assert(value.push(ch).drop_last() =~= value);
}

/// The identity of a policy is the digest of its text as it is encoded.
pub proof fn lemma_policy_identity(value: Seq<char>)
    ensures
        identity_of(value) == digest::hex_of(
            digest::sha256_of(vstd::utf8::encode_utf8(encoded_of(value))),
        ),
{
}

/// The canonical form of a parameter: what it accepts and what it reserves in order, and all else as declared.
pub proof fn lemma_parameter_canonical(parameter: ParameterView)
    ensures
        ({
            let made = parameter.canonical();
            &&& made.values == text::sorted_of(parameter.values)
            &&& made.reserved_values == text::sorted_of(
                parameter.reserved_values.map_values(|item: Seq<char>| text::lowercase_of(item)),
            )
            &&& made.kind == parameter.kind
            &&& made.required == parameter.required
            &&& made.description == parameter.description
            &&& made.examples == parameter.examples
            &&& made.pattern == parameter.pattern
            &&& made.min_length == parameter.min_length
            &&& made.max_length == parameter.max_length
        }),
{
}

/// The canonical form of a header: what it accepts in order, and all else as declared.
pub proof fn lemma_header_canonical(declared: HeaderView)
    ensures
        ({
            let made = declared.canonical();
            &&& made.name == declared.name
            &&& made.required == declared.required
            &&& made.credential == declared.credential
            &&& made.forward_as == declared.forward_as
            &&& made.description == declared.description
            &&& made.validation is Some <==> declared.validation is Some
            &&& declared.validation matches Some(validation) ==> made.validation->0.pattern == validation.pattern
                && made.validation->0.min_length == validation.min_length && made.validation->0.max_length
                == validation.max_length
        }),
{
}

/// A member is written where it is there, and only there.
pub proof fn lemma_parameter_written(parameter: ParameterView)
    ensures
        parameter.description.len() == 0 && parameter.examples.len() == 0 && parameter.pattern.len() == 0
            && parameter.values.len() == 0 && parameter.reserved_values.len() == 0
            ==> parameter.canonical_text() == object_text(
            Seq::empty().push(crate::json::assembly::member_text("type"@, string_text(parameter.kind))).push(crate::json::assembly::member_text("required"@, bool_text(parameter.required))).push(crate::json::assembly::member_text("min_length"@, text::decimal_of(parameter.min_length as nat))).push(crate::json::assembly::member_text("max_length"@, text::decimal_of(parameter.max_length as nat))),
        ),
        parameter.description.len() > 0 && parameter.examples.len() > 0 && parameter.pattern.len() > 0
            && parameter.values.len() > 0 && parameter.reserved_values.len() > 0
            ==> parameter.canonical_text() == object_text(
            Seq::empty().push(crate::json::assembly::member_text("type"@, string_text(parameter.kind))).push(crate::json::assembly::member_text("required"@, bool_text(parameter.required))).push(crate::json::assembly::member_text("description"@, string_text(parameter.description))).push(crate::json::assembly::member_text("examples"@, list_text(string_texts(parameter.examples)))).push(crate::json::assembly::member_text("pattern"@, string_text(parameter.pattern))).push(crate::json::assembly::member_text("enum"@, list_text(string_texts(parameter.values)))).push(crate::json::assembly::member_text("min_length"@, text::decimal_of(parameter.min_length as nat))).push(crate::json::assembly::member_text("max_length"@, text::decimal_of(parameter.max_length as nat))).push(crate::json::assembly::member_text("reserved_values"@, list_text(string_texts(parameter.reserved_values)))),
        ),
{
}

/// How a header and its checks are written.
pub proof fn lemma_header_written(declared: HeaderView, validation: HeaderValidationView, low: usize, high: usize)
    ensures
        declared.description.len() > 0 && declared.required && declared.credential && declared.forward_as.len()
            > 0 && declared.validation == Some(validation) ==> declared.canonical_text() == object_text(
            Seq::empty().push(crate::json::assembly::member_text("name"@, string_text(declared.name))).push(crate::json::assembly::member_text("description"@, string_text(declared.description))).push(crate::json::assembly::member_text("required"@, "true"@)).push(crate::json::assembly::member_text("credential"@, "true"@)).push(crate::json::assembly::member_text("forward_as"@, string_text(declared.forward_as))).push(crate::json::assembly::member_text("validation"@, validation.canonical_text())),
        ),
        declared.description.len() == 0 && !declared.required && !declared.credential
            && declared.forward_as.len() == 0 && declared.validation is None ==> declared.canonical_text()
            == object_text(
            Seq::empty().push(crate::json::assembly::member_text("name"@, string_text(declared.name))),
        ),
        validation.pattern.len() > 0 && validation.values is None && validation.min_length == Some(low)
            && validation.max_length == Some(high) ==> validation.canonical_text() == object_text(
            Seq::empty().push(crate::json::assembly::member_text("pattern"@, string_text(validation.pattern))).push(crate::json::assembly::member_text("min_length"@, text::decimal_of(low as nat))).push(crate::json::assembly::member_text("max_length"@, text::decimal_of(high as nat))),
        ),
{
}

/// The canonical form of what a body may hold.
pub proof fn lemma_body_canonical(rules: BodyRules)
    ensures
        ({
            let made = rules.canonical();
            &&& made.content_types == text::sorted_of(rules.content_types)
            &&& made.max_bytes == rules.max_bytes
            &&& made.required == Some(rules.required)
            &&& made.validation matches Some(validation) && validation.values == text::sorted_of(
                rules.validation.values,
            ) && validation.pattern == rules.validation.pattern && validation.json == rules.validation.json
        }),
{
}

/// How a policy for a body and its checks are written.
pub proof fn lemma_body_written(policy: BodyPolicyView, validation: BodyValidationView, required: bool)
    ensures
        policy.required == Some(required) && policy.validation == Some(validation) ==> policy.canonical_text()
            == object_text(
            Seq::empty().push(crate::json::assembly::member_text("content_types"@, list_text(string_texts(policy.content_types)))).push(crate::json::assembly::member_text("max_bytes"@, text::decimal_of(policy.max_bytes as nat))).push(crate::json::assembly::member_text("required"@, bool_text(required))).push(crate::json::assembly::member_text("validation"@, validation.canonical_text())),
        ),
        validation.json && validation.pattern.len() > 0 && validation.values.len() > 0
            ==> validation.canonical_text() == object_text(
            Seq::empty().push(crate::json::assembly::member_text("json"@, "true"@)).push(crate::json::assembly::member_text("pattern"@, string_text(validation.pattern))).push(crate::json::assembly::member_text("enum"@, list_text(string_texts(validation.values)))),
        ),
{
}

/// An operation that writes is named by the identity of what it does; one that reads has no name.
pub proof fn lemma_operation_named(template: Template)
    ensures
        template.body_policy is Some ==> template.operation_name() == Some(
            "write-v1:"@ + identity_of(template.operation_text()),
        ),
        template.body_policy is None ==> template.operation_name() is None,
        template.operation_text() == object_text(
            Seq::empty().push(crate::json::assembly::member_text("method"@, string_text(template.method@))).push(crate::json::assembly::member_text("body_policy"@, template.body_canonical())).push(crate::json::assembly::member_text("parameters_schema"@, json_text(template.schema_doc()))),
        ),
{
}

/// What a policy holds of a template that reads with plain headers, fixed or not.
pub proof fn lemma_policy_written(template: Template, definition: Definition)
    requires
        template.body_policy is None,
        definition.query.keys().len() == 0,
        !is_rich(template.header_rules@),
        template.header_rules.keys().len() > 0,
        table::ordered_keys(canonical_fixed(template.fixed()).dom()).len() > 0,
        text::before_suffix(definition.origin@, "/"@) is None,
    ensures
        template.policy_text(definition) == object_text(
            Seq::empty().push(crate::json::assembly::member_text("version"@, "1"@)).push(crate::json::assembly::member_text("origin"@, string_text(definition.origin@))).push(crate::json::assembly::member_text("method"@, string_text(template.method@))).push(crate::json::assembly::member_text("path_template"@, string_text(definition.path_template@))).push(crate::json::assembly::member_text("parameters"@, object_text(template.parameter_members()))).push(crate::json::assembly::member_text("headers"@, map_text(canonical_fixed(template.fixed())))).push(crate::json::assembly::member_text("allowed_headers"@, list_text(string_texts(template.header_rules.keys())))).push(crate::json::assembly::member_text("follow_redirects"@, "false"@)),
        ),
{
}

/// A policy with rules for headers holds them in full.
pub proof fn lemma_policy_rules_written(template: Template, definition: Definition)
    requires
        template.body_policy is Some,
        definition.query.keys().len() > 0,
        is_rich(template.header_rules@),
        table::ordered_keys(canonical_fixed(template.fixed()).dom()).len() == 0,
    ensures
        template.policy_text(definition) == object_text(
            Seq::empty().push(crate::json::assembly::member_text("version"@, "1"@)).push(crate::json::assembly::member_text(
                    "origin"@,
                    string_text(
                        match text::before_suffix(definition.origin@, "/"@) {
                            Some(front) => front,
                            None => definition.origin@,
                        },
                    ),
                )).push(crate::json::assembly::member_text("method"@, string_text(template.method@))).push(crate::json::assembly::member_text("body_policy"@, template.body_canonical())).push(crate::json::assembly::member_text("path_template"@, string_text(definition.path_template@))).push(crate::json::assembly::member_text(
                    "query"@,
                    strings_text(definition.query.keys(), text::views(definition.query.values())),
                )).push(crate::json::assembly::member_text("parameters"@, object_text(template.parameter_members()))).push(crate::json::assembly::member_text("follow_redirects"@, "false"@)).push(crate::json::assembly::member_text("header_rules"@, list_text(template.rule_texts()))),
        ),
{
}

} // verus!
