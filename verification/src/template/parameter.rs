//! The parameters of a template and what they accept.

use vstd::prelude::*;
use crate::checks::{either, fault_from, first_fault, tells, unless};
use crate::template::syntax;
use crate::{pattern, text};

verus! {

/// What an operator says of a parameter.
pub struct Parameter {
    pub kind: String,
    pub required: bool,
    pub description: String,
    pub examples: Vec<String>,
    pub pattern: String,
    pub values: Vec<String>,
    pub min_length: usize,
    pub max_length: usize,
    pub reserved_values: Vec<String>,
}

/// The contents of a parameter.
#[verifier::ext_equal]
pub struct ParameterView {
    pub kind: Seq<char>,
    pub required: bool,
    pub description: Seq<char>,
    pub examples: Seq<Seq<char>>,
    pub pattern: Seq<char>,
    pub values: Seq<Seq<char>>,
    pub min_length: usize,
    pub max_length: usize,
    pub reserved_values: Seq<Seq<char>>,
}

impl View for Parameter {
    type V = ParameterView;

    open spec fn view(&self) -> ParameterView {
        ParameterView {
            kind: self.kind@,
            required: self.required,
            description: self.description@,
            examples: text::views(self.examples@),
            pattern: self.pattern@,
            values: text::views(self.values@),
            min_length: self.min_length,
            max_length: self.max_length,
            reserved_values: text::views(self.reserved_values@),
        }
    }
}

impl Clone for Parameter {
    fn clone(&self) -> (result: Parameter)
        ensures
            result@ == self@,
    {
        Parameter {
            kind: self.kind.clone(),
            required: self.required,
            description: self.description.clone(),
            examples: text::copies(&self.examples),
            pattern: self.pattern.clone(),
            values: text::copies(&self.values),
            min_length: self.min_length,
            max_length: self.max_length,
            reserved_values: text::copies(&self.reserved_values),
        }
    }
}

impl ParameterView {
    /// The parameter with a least length of one.
    pub open spec fn normalized(self) -> ParameterView {
        ParameterView {
            min_length: if self.min_length < 1 {
                1
            } else {
                self.min_length
            },
            ..self
        }
    }

    /// The expression that the values have to match.
    pub open spec fn expression(self) -> Option<Seq<char>> {
        if self.pattern.len() == 0 {
            None
        } else {
            Some(syntax::anchored(self.pattern))
        }
    }

    /// Why a value is refused, if so.
    pub open spec fn value_fault(self, value: Seq<char>) -> Option<Seq<char>> {
        if !(self.min_length <= text::byte_len(value) <= self.max_length) {
            Some("identifier length is outside its bounds"@)
        } else if !syntax::is_identifier(value) {
            Some("identifier contains forbidden characters or path segments"@)
        } else if self.reserves(value) {
            Some("identifier is reserved"@)
        } else if self.expression() is Some && !pattern::regex_found(
            self.expression()->0,
            value,
        ) {
            Some("identifier does not match its pattern"@)
        } else if self.values.len() > 0 && !self.values.contains(value) {
            Some("identifier is outside its enum"@)
        } else {
            None
        }
    }

    /// Whether the value is reserved, whatever its case.
    pub open spec fn reserves(self, value: Seq<char>) -> bool {
        exists|i: int|
            0 <= i < self.reserved_values.len() && text::same_folded(
                #[trigger] self.reserved_values[i],
                value,
            )
    }

    /// Why a reserved value is refused, if so.
    pub open spec fn reserved_fault(self, at: int) -> Option<Seq<char>> {
        let value = self.reserved_values[at];
        if text::byte_len(value) > 256 || !syntax::is_identifier(value) {
            Some("invalid reserved identifier"@)
        } else if exists|j: int|
            0 <= j < at && text::same_folded(#[trigger] self.reserved_values[j], value) {
            Some("duplicate reserved identifier"@)
        } else {
            None
        }
    }

    /// Why one of the listed values is refused, if so.
    pub open spec fn listed_fault(self, items: Seq<Seq<char>>, at: int, kind: Seq<char>) -> Option<
        Seq<char>,
    > {
        if self.value_fault(items[at]) is Some {
            Some(kind + " value violates parameter constraints"@)
        } else if text::repeats(items, at) {
            Some("duplicate "@ + kind + " identifier"@)
        } else {
            None
        }
    }

    /// Why the sizes of the definition are refused, if so.
    pub open spec fn size_fault(self) -> Option<Seq<char>> {
        if self.kind != "string"@ || !self.required {
            Some("only required string parameters are supported"@)
        } else if text::byte_len(self.description) > 1024 {
            Some("parameter description exceeds 1024 bytes"@)
        } else if self.examples.len() > 8 {
            Some("parameter examples exceed size limit"@)
        } else if self.normalized().min_length > self.max_length || self.max_length > 256 {
            Some("length bounds must be within 1 to 256"@)
        } else if self.pattern.len() == 0 && self.values.len() == 0 {
            Some("a pattern or enum is required"@)
        } else if text::byte_len(self.pattern) > 512 || self.values.len() > 64
            || self.reserved_values.len() > 64 {
            Some("parameter constraints exceed size limits"@)
        } else {
            None
        }
    }

    /// Why the pattern of the definition is refused, if so.
    pub open spec fn pattern_fault(self) -> Option<Seq<char>> {
        if self.pattern.len() == 0 {
            None
        } else {
            either(
                syntax::pattern_fault(self.pattern),
                unless(
                    pattern::regex_valid(syntax::anchored(self.pattern)),
                    "invalid parameter pattern"@,
                ),
            )
        }
    }

    /// Why the definition is refused, if so.
    pub open spec fn fault(self) -> Option<Seq<char>> {
        let own = self.normalized();
        either(
            self.size_fault(),
            either(
                self.pattern_fault(),
                either(
                    first_fault(own.reserved_values.len() as int, |i: int| own.reserved_fault(i)),
                    either(
                        first_fault(
                            own.values.len() as int,
                            |i: int| own.listed_fault(own.values, i, "enum"@),
                        ),
                        first_fault(
                            own.examples.len() as int,
                            |i: int| own.listed_fault(own.examples, i, "example"@),
                        ),
                    ),
                ),
            ),
        )
    }
}

fn reserved_before(items: &Vec<String>, at: usize) -> (result: bool)
    requires
        at < items.len(),
    ensures
        result == exists|j: int|
            0 <= j < at && text::same_folded(
                #[trigger] text::views(items@)[j],
                text::views(items@)[at as int],
            ),
{
    let ghost all = text::views(items@);
    let mut index: usize = 0;
    while index < at
        invariant
            index <= at < items.len(),
            all == text::views(items@),
            forall|j: int|
                0 <= j < index ==> !text::same_folded(#[trigger] all[j], all[at as int]),
        decreases at - index,
    {
        assert(all[index as int] == items@[index as int]@);
        if text::same_ignoring_case(&items[index], &items[at]) {
            return true;
        }
        index = index + 1;
    }
    false
}

/// A checked parameter.
pub struct Constraint {
    pub definition: Parameter,
    pub pattern: Option<String>,
}

impl Constraint {
    /// Whether the compiled expression is the one of the definition.
    pub open spec fn wf(self) -> bool {
        text::view_of(self.pattern) == self.definition@.expression()
    }

    /// Checks a definition.
    pub fn new(definition: Parameter) -> (result: Result<Constraint, String>)
        ensures
            match result {
                Ok(constraint) => definition@.fault() is None && constraint.wf()
                    && constraint.definition@ == definition@.normalized(),
                Err(reason) => definition@.fault() == Some(reason@),
            },
    {
        let ghost given = definition@;
        let ghost own = given.normalized();
        let mut definition = definition;
        if !text::same(&definition.kind, "string") || !definition.required {
            return Err("only required string parameters are supported".to_owned());
        }
        if !text::fits(&definition.description, 1024) {
            return Err("parameter description exceeds 1024 bytes".to_owned());
        }
        if definition.examples.len() > 8 {
            return Err("parameter examples exceed size limit".to_owned());
        }
        if definition.min_length < 1 {
            definition.min_length = 1;
        }
        assert(definition@ == own);
        if definition.min_length > definition.max_length || definition.max_length > 256 {
            return Err("length bounds must be within 1 to 256".to_owned());
        }
        if definition.pattern.is_empty() && definition.values.len() == 0 {
            return Err("a pattern or enum is required".to_owned());
        }
        if !text::fits(&definition.pattern, 512) || definition.values.len() > 64
            || definition.reserved_values.len() > 64 {
            return Err("parameter constraints exceed size limits".to_owned());
        }
        let compiled = if definition.pattern.is_empty() {
            None
        } else {
            match syntax::validate_pattern(&definition.pattern) {
                Ok(()) => {},
                Err(reason) => {
                    return Err(reason);
                },
            }
            match syntax::compile_pattern(&definition.pattern) {
                Some(compiled) => Some(compiled),
                None => {
                    return Err("invalid parameter pattern".to_owned());
                },
            }
        };
        let constraint = Constraint { definition, pattern: compiled };
        match constraint.check_reserved() {
            Ok(()) => {},
            Err(reason) => {
                return Err(reason);
            },
        }
        match constraint.check_listed(&constraint.definition.values, "enum") {
            Ok(()) => {},
            Err(reason) => {
                return Err(reason);
            },
        }
        match constraint.check_listed(&constraint.definition.examples, "example") {
            Ok(()) => {},
            Err(reason) => {
                return Err(reason);
            },
        }
        Ok(constraint)
    }

    fn check_reserved(&self) -> (result: Result<(), String>)
        ensures
            tells(
                result,
                first_fault(
                    self.definition@.reserved_values.len() as int,
                    |i: int| self.definition@.reserved_fault(i),
                ),
            ),
    {
        let items = &self.definition.reserved_values;
        let ghost own = self.definition@;
        let ghost fault = |i: int| own.reserved_fault(i);
        let mut index: usize = 0;
        while index < items.len()
            invariant
                index <= items.len(),
                own == self.definition@,
                text::views(items@) == own.reserved_values,
                fault == (|i: int| own.reserved_fault(i)),
                first_fault(items.len() as int, fault) == fault_from(
                    index as int,
                    items.len() as int,
                    fault,
                ),
            decreases items.len() - index,
        {
            assert(fault(index as int) == own.reserved_fault(index as int));
            assert(own.reserved_values[index as int] == items@[index as int]@);
            if !text::fits(&items[index], 256) || !syntax::identifier(&items[index]) {
                return Err("invalid reserved identifier".to_owned());
            }
            if reserved_before(items, index) {
                return Err("duplicate reserved identifier".to_owned());
            }
            index = index + 1;
        }
        Ok(())
    }

    fn check_listed(&self, items: &Vec<String>, kind: &str) -> (result: Result<(), String>)
        requires
            self.wf(),
        ensures
            tells(
                result,
                first_fault(
                    items@.len() as int,
                    |i: int| self.definition@.listed_fault(text::views(items@), i, kind@),
                ),
            ),
    {
        let ghost own = self.definition@;
        let ghost all = text::views(items@);
        let ghost fault = |i: int| own.listed_fault(all, i, kind@);
        let mut index: usize = 0;
        while index < items.len()
            invariant
                index <= items.len(),
                self.wf(),
                own == self.definition@,
                all == text::views(items@),
                fault == (|i: int| own.listed_fault(all, i, kind@)),
                first_fault(items.len() as int, fault) == fault_from(
                    index as int,
                    items.len() as int,
                    fault,
                ),
            decreases items.len() - index,
        {
            assert(fault(index as int) == own.listed_fault(all, index as int, kind@));
            assert(all[index as int] == items@[index as int]@);
            match self.validate(&items[index]) {
                Ok(()) => {},
                Err(_) => {
                    return Err(text::cat(kind, " value violates parameter constraints"));
                },
            }
            if text::repeated(items, index) {
                return Err(text::cat3("duplicate ", kind, " identifier"));
            }
            index = index + 1;
        }
        Ok(())
    }

    /// Checks a value.
    pub fn validate(&self, value: &str) -> (result: Result<(), String>)
        requires
            self.wf(),
        ensures
            tells(result, self.definition@.value_fault(value@)),
    {
        let definition = &self.definition;
        let length: usize = text::bytes(value).len();
        if length < definition.min_length || length > definition.max_length {
            return Err("identifier length is outside its bounds".to_owned());
        }
        if !syntax::identifier(value) {
            return Err("identifier contains forbidden characters or path segments".to_owned());
        }
        let mut index: usize = 0;
        while index < definition.reserved_values.len()
            invariant
                index <= definition.reserved_values.len(),
                *definition == self.definition,
                definition@.min_length <= text::byte_len(value@) <= definition@.max_length,
                syntax::is_identifier(value@),
                forall|i: int|
                    0 <= i < index ==> !text::same_folded(
                        #[trigger] definition@.reserved_values[i],
                        value@,
                    ),
            decreases definition.reserved_values.len() - index,
        {
            assert(definition@.reserved_values[index as int]
                == definition.reserved_values@[index as int]@);
            if text::same_ignoring_case(&definition.reserved_values[index], value) {
                return Err("identifier is reserved".to_owned());
            }
            index = index + 1;
        }
        if let Some(expression) = &self.pattern {
            if !pattern::found(expression, value) {
                return Err("identifier does not match its pattern".to_owned());
            }
        }
        if definition.values.len() > 0 && !text::contained(&definition.values, value) {
            return Err("identifier is outside its enum".to_owned());
        }
        Ok(())
    }
}

/// A value that a parameter accepts is one segment of a path as it stands: it has no slash, percent
/// sign, question mark or number sign, and is neither `.` nor `..`.
pub proof fn lemma_accepted_is_segment(parameter: ParameterView, value: Seq<char>, at: int)
    requires
        parameter.value_fault(value) is None,
        0 <= at < value.len(),
    ensures
        syntax::is_identifier(value),
        value[at] != '/' && value[at] != '%' && value[at] != '?' && value[at] != '#' && value[at]
            != '\\',
{
    let test = |ch: char| syntax::is_identifier_char(ch);
    assert(test(value[at]));
}

/// The values that an accepted definition lists are accepted.
pub proof fn lemma_listed_accepted(parameter: ParameterView, at: int)
    requires
        parameter.fault() is None,
        0 <= at < parameter.values.len(),
    ensures
        parameter.normalized().value_fault(parameter.values[at]) is None,
{
    let own = parameter.normalized();
    let fault = |i: int| own.listed_fault(own.values, i, "enum"@);
    crate::checks::lemma_first_fault(0, own.values.len() as int, fault);
    assert(fault(at) is None);
}

/// An accepted value keeps the bounds of its parameter, is one segment, is not reserved in any case, matches
/// the whole pattern where there is one, and is one of the listed values where some are listed.
pub proof fn lemma_accepted_value(parameter: ParameterView, value: Seq<char>, at: int)
    requires
        parameter.value_fault(value) is None,
    ensures
        parameter.min_length <= vstd::utf8::encode_utf8(value).len() <= parameter.max_length,
        value.len() > 0,
        value != "."@,
        value != ".."@,
        0 <= at < value.len() ==> text::is_alnum(value[at]) || value[at] == '_' || value[at] == '.'
            || value[at] == '~' || value[at] == '-',
        0 <= at < parameter.reserved_values.len() ==> text::lowercase_of(parameter.reserved_values[at])
            != text::lowercase_of(value),
        parameter.pattern.len() > 0 ==> pattern::regex_found(
            "\\A(?:"@ + syntax::normalized_from(parameter.pattern, 0, false) + ")\\z"@,
            value,
        ),
        parameter.values.len() > 0 ==> parameter.values.contains(value),
{
    text::lemma_byte_len_utf8(value);
    if 0 <= at < value.len() {
        let test = |ch: char| syntax::is_identifier_char(ch);
        assert(text::every(value, test));
        assert(test(value[at]));
    }
    if 0 <= at < parameter.reserved_values.len() {
        assert(!text::same_folded(parameter.reserved_values[at], value));
    }
}

/// A value that meets every constraint of its parameter is accepted.
pub proof fn lemma_value_within(parameter: ParameterView, value: Seq<char>)
    requires
        parameter.min_length <= vstd::utf8::encode_utf8(value).len() <= parameter.max_length,
        value.len() > 0,
        value != "."@,
        value != ".."@,
        forall|i: int|
            0 <= i < value.len() ==> text::is_alnum(#[trigger] value[i]) || value[i] == '_' || value[i]
                == '.' || value[i] == '~' || value[i] == '-',
        forall|i: int|
            0 <= i < parameter.reserved_values.len() ==> text::lowercase_of(
                #[trigger] parameter.reserved_values[i],
            ) != text::lowercase_of(value),
        parameter.pattern.len() > 0 ==> pattern::regex_found(
            "\\A(?:"@ + syntax::normalized_from(parameter.pattern, 0, false) + ")\\z"@,
            value,
        ),
        parameter.values.len() > 0 ==> parameter.values.contains(value),
    ensures
        parameter.value_fault(value) is None,
{
    text::lemma_byte_len_utf8(value);
    let test = |ch: char| syntax::is_identifier_char(ch);
    assert forall|i: int| 0 <= i < value.len() implies test(#[trigger] value[i]) by {}
    assert(text::every(value, test));
}

/// A parameter that can be declared is a required string of bounded length with a pattern or a list; its
/// listed values and examples are ones that it accepts, and its reserved values are segments.
pub proof fn lemma_declared_parameter(parameter: ParameterView, at: int)
    requires
        parameter.fault() is None,
    ensures
        parameter.kind == "string"@,
        parameter.required,
        parameter.max_length <= 256,
        parameter.min_length <= parameter.max_length,
        1 <= parameter.max_length,
        parameter.pattern.len() > 0 || parameter.values.len() > 0,
        parameter.values.len() <= 64,
        parameter.reserved_values.len() <= 64,
        parameter.examples.len() <= 8,
        text::byte_len(parameter.description) <= 1024,
        text::byte_len(parameter.pattern) <= 512,
        parameter.normalized().min_length >= 1,
        parameter.min_length >= 1 ==> parameter.normalized() == parameter,
        0 <= at < parameter.values.len() ==> parameter.normalized().value_fault(parameter.values[at])
            is None,
        0 <= at < parameter.examples.len() ==> parameter.normalized().value_fault(parameter.examples[at])
            is None,
        0 <= at < parameter.reserved_values.len() ==> syntax::is_identifier(
            parameter.reserved_values[at],
        ) && text::byte_len(parameter.reserved_values[at]) <= 256,
        parameter.pattern.len() > 0 ==> syntax::pattern_fault(parameter.pattern) is None
            && pattern::regex_valid(
            "\\A(?:"@ + syntax::normalized_from(parameter.pattern, 0, false) + ")\\z"@,
        ),
{
    let own = parameter.normalized();
    let reserved = |i: int| own.reserved_fault(i);
    let listed = |i: int| own.listed_fault(own.values, i, "enum"@);
    let shown = |i: int| own.listed_fault(own.examples, i, "example"@);
    crate::checks::lemma_first_fault(0, own.reserved_values.len() as int, reserved);
    crate::checks::lemma_first_fault(0, own.values.len() as int, listed);
    crate::checks::lemma_first_fault(0, own.examples.len() as int, shown);
    if 0 <= at < own.reserved_values.len() {
        assert(reserved(at) is None);
    }
    if 0 <= at < own.values.len() {
        assert(listed(at) is None);
    }
    if 0 <= at < own.examples.len() {
        assert(shown(at) is None);
    }
}

/// Which reason a value of a parameter is refused for.
pub proof fn lemma_parameter_reasons(parameter: ParameterView, value: Seq<char>)
    ensures
        text::byte_len(value) < parameter.min_length || text::byte_len(value) > parameter.max_length
            ==> parameter.value_fault(value) == Some("identifier length is outside its bounds"@),
        parameter.min_length <= text::byte_len(value) <= parameter.max_length ==> {
            &&& !syntax::is_identifier(value) ==> parameter.value_fault(value) == Some(
                "identifier contains forbidden characters or path segments"@,
            )
            &&& syntax::is_identifier(value) && parameter.reserves(value) ==> parameter.value_fault(value)
                == Some("identifier is reserved"@)
            &&& syntax::is_identifier(value) && !parameter.reserves(value) && parameter.pattern.len() == 0
                && parameter.values.len() > 0 && !parameter.values.contains(value) ==> parameter.value_fault(
                value,
            ) == Some("identifier is outside its enum"@)
            &&& syntax::is_identifier(value) && !parameter.reserves(value) && parameter.pattern.len() > 0
                && !pattern::regex_found(syntax::anchored(parameter.pattern), value) ==> parameter.value_fault(
                value,
            ) == Some("identifier does not match its pattern"@)
        },
{
}

/// A value is reserved in whatever capitals it is written.
pub proof fn lemma_reserved_values(parameter: ParameterView, value: Seq<char>, at: int)
    ensures
        0 <= at < parameter.reserved_values.len() && text::lowercase_of(parameter.reserved_values[at])
            == text::lowercase_of(value) ==> parameter.reserves(value),
        parameter.reserved_values.len() == 0 ==> !parameter.reserves(value),
{
    if 0 <= at < parameter.reserved_values.len() && text::lowercase_of(parameter.reserved_values[at])
        == text::lowercase_of(value) {
        assert(text::same_folded(parameter.reserved_values[at], value));
    }
}

} // verus!
