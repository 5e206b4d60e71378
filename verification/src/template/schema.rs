//! What a template publishes of itself.

use vstd::prelude::*;
use crate::json::{self, Doc, Json};
use crate::template::parameter::{Parameter, ParameterView};
use crate::template::Template;
use crate::{pattern, text};

verus! {

/// The pattern of a character, whatever its case.
pub open spec fn any_case(ch: char) -> Seq<char> {
    let small = text::lower_of(ch);
    if text::is_lower(small) {
        seq!['[', small, text::upper_of(small), ']']
    } else {
        pattern::regex_escaped(seq![small])
    }
}

/// The pattern of a text, whatever its case.
pub open spec fn folded_pattern(value: Seq<char>) -> Seq<char>
    decreases value.len(),
{
    if value.len() == 0 {
        Seq::empty()
    } else {
        folded_pattern(value.drop_last()) + any_case(value.last())
    }
}

fn fold_pattern(value: &str) -> (result: String)
    ensures
        result@ == folded_pattern(value@),
{
    let all = text::chars(value);
    let mut result = String::new();
    let mut index: usize = 0;
    while index < all.len()
        invariant
            index <= all.len(),
            all@ == value@,
            result@ == folded_pattern(value@.take(index as int)),
        decreases all.len() - index,
    {
        proof {
            assert(value@.take(index + 1).drop_last() == value@.take(index as int));
            assert(value@.take(index + 1).last() == all@[index as int]);
        }
        let small = text::lower(all[index]);
        if text::small(small) {
            let ghost before = result@;
            result.push('[');
            result.push(small);
            result.push(text::upper(small));
            result.push(']');
            assert(result@ == before + seq!['[', small, text::upper_of(small), ']']);
        } else {
            let mut one: Vec<char> = Vec::new();
            one.push(small);
            assert(one@ == seq![small]);
            let escaped = pattern::escaped(&text::text(&one));
            result.append(&escaped);
        }
        index = index + 1;
    }
    assert(value@.take(value@.len() as int) == value@);
    result
}

/// The patterns of the texts, whatever their case.
pub open spec fn folded_patterns(values: Seq<Seq<char>>) -> Seq<Seq<char>> {
    values.map_values(|value: Seq<char>| folded_pattern(value))
}

fn fold_patterns(values: &Vec<String>) -> (result: Vec<String>)
    ensures
        text::views(result@) == folded_patterns(text::views(values@)),
{
    let ghost all = folded_patterns(text::views(values@));
    let mut result: Vec<String> = Vec::new();
    let mut index: usize = 0;
    while index < values.len()
        invariant
            index <= values.len(),
            all == folded_patterns(text::views(values@)),
            text::views(result@) == all.take(index as int),
        decreases values.len() - index,
    {
        let item = fold_pattern(&values[index]);
        proof {
            assert(all[index as int] == item@);
            assert(text::views(result@.push(item)) == text::views(result@).push(item@));
            assert(all.take(index + 1) == all.take(index as int).push(item@));
        }
        result.push(item);
        index = index + 1;
    }
    assert(all.take(all.len() as int) == all);
    result
}

/// The schema of the characters and segments that every parameter refuses.
pub open spec fn segment_doc() -> Doc {
    Doc::List(
        seq![
            Doc::object().with("not"@, Doc::object().with("pattern"@, Doc::Text("[^A-Za-z0-9_.~-]"@))),
            Doc::object().with("not"@, Doc::object().with("enum"@, json::texts(seq!["."@, ".."@]))),
        ],
    )
}

fn segment() -> (result: Json)
    ensures
        result.doc() == segment_doc(),
{
    let mut dots: Vec<String> = Vec::new();
    dots.push(".".to_owned());
    dots.push("..".to_owned());
    assert(text::views(dots@) == seq!["."@, ".."@]);
    let first = Json::object().with(
        "not",
        Json::object().with("pattern", Json::text("[^A-Za-z0-9_.~-]")),
    );
    let second = Json::object().with("not", Json::object().with("enum", Json::texts(&dots)));
    let mut items: Vec<Json> = Vec::new();
    proof {
        json::lemma_docs_push(items@, first);
        json::lemma_docs_push(items@.push(first), second);
        assert(json::docs(items@) == Seq::<Doc>::empty());
    }
    items.push(first);
    items.push(second);
    assert(json::docs(items@) == segment_doc()->List_0);
    Json::List(items)
}

impl ParameterView {
    /// The schema of the parameter.
    pub open spec fn schema(self) -> Doc {
        let base = Doc::object().with("type"@, Doc::Text("string"@)).with(
            "minLength"@,
            Doc::number(self.min_length as nat),
        ).with("maxLength"@, Doc::number(self.max_length as nat)).with("allOf"@, segment_doc());
        let described = base.with_if(
            self.description.len() > 0,
            "description"@,
            Doc::Text(self.description),
        );
        let matched = described.with_if(
            self.pattern.len() > 0,
            "pattern"@,
            Doc::Text("^(?:"@ + self.pattern + ")$"@),
        );
        let listed = matched.with_if( self.values.len() > 0, "enum"@, json::texts(self.values));
        let shown = listed.with_if(
            self.examples.len() > 0,
            "examples"@,
            json::texts(self.examples),
        );
        shown.with_if(
            self.reserved_values.len() > 0,
            "not"@,
            Doc::object().with(
                "pattern"@,
                Doc::Text(
                    "^(?:"@ + text::joined(folded_patterns(self.reserved_values), "|"@) + ")$"@,
                ),
            ),
        )
    }
}

fn parameter_schema(parameter: &Parameter) -> (result: Json)
    ensures
        result.doc() == parameter@.schema(),
{
    let base = Json::object().with("type", Json::text("string")).with(
        "minLength",
        Json::number(parameter.min_length as u64),
    ).with("maxLength", Json::number(parameter.max_length as u64)).with("allOf", segment());
    let described = base.with_if(
        !parameter.description.is_empty(),
        "description",
        Json::text(&parameter.description),
    );
    let matched = described.with_if(
        !parameter.pattern.is_empty(),
        "pattern",
        Json::text(&text::cat3("^(?:", &parameter.pattern, ")$")),
    );
    let listed = matched.with_if( parameter.values.len() > 0, "enum", Json::texts(&parameter.values));
    let shown = listed.with_if(
        parameter.examples.len() > 0,
        "examples",
        Json::texts(&parameter.examples),
    );
    let reserved = text::join(&fold_patterns(&parameter.reserved_values), "|");
    shown.with_if(
        parameter.reserved_values.len() > 0,
        "not",
        Json::object().with("pattern", Json::text(&text::cat3("^(?:", &reserved, ")$"))),
    )
}

impl Template {
    /// The schemas of the parameters.
    pub open spec fn properties(self, count: int) -> Doc {
        let values = self.parameters.values();
        json::object_of(self.parameters.keys(), count, |i: int| values[i].definition@.schema())
    }

    /// The schema of the parameters of a call.
    pub open spec fn schema_doc(self) -> Doc {
        Doc::object().with("type"@, Doc::Text("object"@)).with(
            "properties"@,
            self.properties(self.parameters.keys().len() as int),
        ).with("required"@, json::texts(self.parameters.keys())).with(
            "additionalProperties"@,
            Doc::Bool(false),
        )
    }

    /// The schema of the parameters of a call.
    pub fn schema(&self) -> (result: Json)
        ensures
            result.doc() == self.schema_doc(),
    {
        let count: usize = self.parameters.len();
        let mut properties = Json::object();
        let mut names: Vec<String> = Vec::new();
        let mut index: usize = 0;
        while index < count
            invariant
                index <= count,
                count == self.parameters.keys().len(),
                properties.doc() == self.properties(index as int),
                text::views(names@) == self.parameters.keys().take(index as int),
            decreases count - index,
        {
            let name = self.parameters.key(index);
            let schema = parameter_schema(&self.parameters.value(index).definition);
            properties = properties.with(name, schema);
            let own = name.clone();
            proof {
                assert(text::views(names@.push(own)) == text::views(names@).push(own@));
                assert(self.parameters.keys().take(index + 1) == self.parameters.keys().take(
                    index as int,
                ).push(own@));
            }
            names.push(own);
            index = index + 1;
        }
        assert(self.parameters.keys().take(count as int) == self.parameters.keys());
        Json::object().with("type", Json::text("object")).with("properties", properties).with(
            "required",
            Json::texts(&names),
        ).with("additionalProperties", Json::Bool(false))
    }
}

/// A pattern for a reserved value takes each letter in both cases; every other character stands for itself.
pub proof fn lemma_folded_pattern(value: Seq<char>, ch: char)
    ensures
        'a' <= ch <= 'z' ==> folded_pattern(value.push(ch)) == folded_pattern(value) + seq![
            '[',
            ch,
            text::upper_of(ch),
            ']',
        ],
        !text::is_letter(ch) ==> folded_pattern(value.push(ch)) == folded_pattern(value)
            + pattern::regex_escaped(seq![ch]),
        folded_pattern(Seq::empty()).len() == 0,
{
    assert(value.push(ch).drop_last() =~= value);
}

/// The schema of a parameter tells each of its bounds.
pub proof fn lemma_parameter_schema(parameter: ParameterView)
    ensures
        ({
            let doc = parameter.schema();
            &&& doc.at("type"@) == Doc::Text("string"@)
            &&& doc.at("minLength"@) == Doc::number(parameter.min_length as nat)
            &&& doc.at("maxLength"@) == Doc::number(parameter.max_length as nat)
            &&& doc.at("allOf"@) == segment_doc()
            &&& parameter.description.len() > 0 ==> doc.at("description"@) == Doc::Text(parameter.description)
            &&& parameter.pattern.len() > 0 ==> doc.at("pattern"@) == Doc::Text(
                "^(?:"@ + parameter.pattern + ")$"@,
            )
            &&& parameter.pattern.len() == 0 ==> doc.at("pattern"@) == Doc::Null
            &&& parameter.values.len() > 0 ==> doc.at("enum"@) == json::texts(parameter.values)
            &&& parameter.values.len() == 0 ==> doc.at("enum"@) == Doc::Null
            &&& parameter.examples.len() > 0 ==> doc.at("examples"@) == json::texts(parameter.examples)
            &&& parameter.reserved_values.len() > 0 ==> doc.at("not"@).at("pattern"@) == Doc::Text(
                "^(?:"@ + text::joined(folded_patterns(parameter.reserved_values), "|"@) + ")$"@,
            )
            &&& parameter.reserved_values.len() == 0 ==> doc.at("not"@) == Doc::Null
        }),
        segment_doc() matches Doc::List(items) && items.len() == 2 && items[0].at("not"@).at("pattern"@)
            == Doc::Text("[^A-Za-z0-9_.~-]"@) && items[1].at("not"@).at("enum"@) == json::texts(
            seq!["."@, ".."@],
        ),
{
    reveal_strlit("type");
    reveal_strlit("minLength");
    reveal_strlit("maxLength");
    reveal_strlit("allOf");
    reveal_strlit("description");
    reveal_strlit("pattern");
    reveal_strlit("enum");
    reveal_strlit("examples");
    reveal_strlit("not");
    assert("type"@.len() == 4 && "type"@[0] == 't');
    assert("minLength"@.len() == 9 && "minLength"@[1] == 'i');
    assert("maxLength"@.len() == 9 && "maxLength"@[1] == 'a');
    assert("allOf"@.len() == 5);
    assert("description"@.len() == 11);
    assert("pattern"@.len() == 7);
    assert("enum"@.len() == 4 && "enum"@[0] == 'e');
    assert("examples"@.len() == 8);
    assert("not"@.len() == 3);
}

/// The schema of the parameters asks for all of them, and for no others.
pub proof fn lemma_parameters_schema(template: Template)
    ensures
        template.schema_doc().at("type"@) == Doc::Text("object"@),
        template.schema_doc().at("required"@) == json::texts(template.parameters.keys()),
        template.schema_doc().at("additionalProperties"@) == Doc::Bool(false),
        template.schema_doc().at("properties"@) == template.properties(
            template.parameters.keys().len() as int,
        ),
{
    reveal_strlit("type");
    reveal_strlit("properties");
    reveal_strlit("required");
    reveal_strlit("additionalProperties");
    assert("type"@.len() == 4);
    assert("properties"@.len() == 10);
    assert("required"@.len() == 8);
    assert("additionalProperties"@.len() == 20);
}

} // verus!
