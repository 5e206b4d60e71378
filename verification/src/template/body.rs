//! What a template accepts as the body of a write.

use vstd::prelude::*;
use crate::checks::{either, fault_from, first_fault, tells, unless};
use crate::template::syntax;
use crate::{json, pattern, text};

verus! {

/// The checks on the text of a body.
pub struct BodyValidation {
    pub json: bool,
    pub pattern: String,
    pub values: Vec<String>,
}

/// The contents of the checks.
#[verifier::ext_equal]
pub struct BodyValidationView {
    pub json: bool,
    pub pattern: Seq<char>,
    pub values: Seq<Seq<char>>,
}

impl View for BodyValidation {
    type V = BodyValidationView;

    open spec fn view(&self) -> BodyValidationView {
        BodyValidationView {
            json: self.json,
            pattern: self.pattern@,
            values: text::views(self.values@),
        }
    }
}

impl Clone for BodyValidation {
    fn clone(&self) -> (result: BodyValidation)
        ensures
            result@ == self@,
    {
        BodyValidation {
            json: self.json,
            pattern: self.pattern.clone(),
            values: text::copies(&self.values),
        }
    }
}

/// What an operator says of the body of a write.
pub struct BodyPolicy {
    pub content_types: Vec<String>,
    pub max_bytes: usize,
    pub required: Option<bool>,
    pub validation: Option<BodyValidation>,
}

/// The contents of a body policy.
#[verifier::ext_equal]
pub struct BodyPolicyView {
    pub content_types: Seq<Seq<char>>,
    pub max_bytes: usize,
    pub required: Option<bool>,
    pub validation: Option<BodyValidationView>,
}

impl View for BodyPolicy {
    type V = BodyPolicyView;

    open spec fn view(&self) -> BodyPolicyView {
        BodyPolicyView {
            content_types: text::views(self.content_types@),
            max_bytes: self.max_bytes,
            required: self.required,
            validation: match self.validation {
                Some(inner) => Some(inner@),
                None => None,
            },
        }
    }
}

/// The largest body of a template request.
pub const MAX_BODY: usize = 102400;

/// Whether a media type is one of JSON.
pub open spec fn is_json_type(value: Seq<char>) -> bool {
    value == "application/json"@ || "+json"@.is_suffix_of(value)
}

/// A policy with every setting given.
#[verifier::ext_equal]
pub struct BodyRules {
    pub content_types: Seq<Seq<char>>,
    pub max_bytes: usize,
    pub required: bool,
    pub validation: BodyValidationView,
}

impl BodyRules {
    /// The expression that a body has to match.
    pub open spec fn expression(self) -> Option<Seq<char>> {
        if self.validation.pattern.len() == 0 {
            None
        } else {
            Some(syntax::anchored(self.validation.pattern))
        }
    }

    /// Why a body is refused, if so.
    pub open spec fn value_fault(self, body: Option<Seq<char>>, content_type: Option<Seq<char>>) -> Option<
        Seq<char>,
    > {
        match (body, content_type) {
            (Some(body), Some(content_type)) => if !self.content_types.contains(content_type) {
                Some("template content type is not permitted"@)
            } else if text::byte_len(body) > self.max_bytes || (self.required && body.len() == 0) {
                Some("template body violates its byte limit or required-body policy"@)
            } else if self.validation.json && json::parsed_json(body) is None {
                Some("template body must be valid JSON"@)
            } else if self.expression() is Some && !pattern::regex_found(
                self.expression()->0,
                body,
            ) {
                Some("template body does not match its pattern"@)
            } else if self.validation.values.len() > 0 && !self.validation.values.contains(body) {
                Some("template body is outside its enum"@)
            } else {
                None
            },
            (None, None) => if self.required {
                Some("template body and content_type must be supplied together"@)
            } else {
                None
            },
            _ => Some("template body and content_type must be supplied together"@),
        }
    }

    /// Why the sizes of the policy are refused, if so.
    pub open spec fn size_fault(self) -> Option<Seq<char>> {
        if !(1 <= self.max_bytes <= MAX_BODY) {
            Some("template body byte limit must be within 1 to 102400"@)
        } else if !(1 <= self.content_types.len() <= 16) {
            Some("template body policy must allow 1 to 16 content types"@)
        } else if !self.validation.json && self.validation.pattern.len() == 0
            && self.validation.values.len() == 0 {
            Some("template body policy requires JSON, pattern, or enum validation"@)
        } else if text::byte_len(self.validation.pattern) > 512 || self.validation.values.len()
            > 64 {
            Some("template body validation exceeds size limits"@)
        } else {
            None
        }
    }

    /// Why one of the media types is refused, if so.
    pub open spec fn type_fault(self, at: int) -> Option<Seq<char>> {
        let value = self.content_types[at];
        match pattern::media_type_of(value) {
            None => Some("invalid template content type"@),
            Some((written, parameters)) => if text::byte_len(value) > 128 || !value.contains('/')
                || value.contains('*') || parameters || written != value {
                Some(
                    "template content types must be canonical media types without parameters or wildcards"@,
                )
            } else if is_json_type(value) && !self.validation.json {
                Some("JSON content types require JSON body validation"@)
            } else if text::repeats(self.content_types, at) {
                Some("duplicate template content type"@)
            } else {
                None
            },
        }
    }

    /// Why the pattern is refused, if so.
    pub open spec fn pattern_fault(self) -> Option<Seq<char>> {
        if self.validation.pattern.len() == 0 {
            None
        } else {
            either(
                syntax::body_pattern_fault(self.validation.pattern),
                unless(
                    pattern::regex_valid(syntax::anchored(self.validation.pattern)),
                    "invalid template body pattern"@,
                ),
            )
        }
    }

    /// Why one of the listed bodies is refused, if so.
    pub open spec fn listed_fault(self, at: int) -> Option<Seq<char>> {
        let items = self.validation.values;
        if text::total_bytes(items.take(at + 1)) > MAX_BODY || self.value_fault(
            Some(items[at]),
            Some(self.content_types[0]),
        ) is Some {
            Some("template body enum violates body policy or size limits"@)
        } else if text::repeats(items, at) {
            Some("duplicate template body enum value"@)
        } else {
            None
        }
    }

    /// Why the policy is refused, if so.
    pub open spec fn fault(self) -> Option<Seq<char>> {
        either(
            self.size_fault(),
            either(
                first_fault(self.content_types.len() as int, |i: int| self.type_fault(i)),
                either(
                    self.pattern_fault(),
                    first_fault(self.validation.values.len() as int, |i: int| self.listed_fault(i)),
                ),
            ),
        )
    }
}

/// The policy of a write with every setting given, or why there is none.
pub open spec fn write_rules(policy: Option<BodyPolicyView>) -> Result<BodyRules, Seq<char>> {
    match policy {
        None => Err("template writes require an explicit body policy"@),
        Some(policy) => match (policy.required, policy.validation) {
            (None, _) => Err("template writes require an explicit required setting"@),
            (_, None) => Err("template writes require explicit body validation"@),
            (Some(required), Some(validation)) => Ok(
                BodyRules {
                    content_types: policy.content_types,
                    max_bytes: policy.max_bytes,
                    required,
                    validation,
                },
            ),
        },
    }
}

/// What the body policy of a template comes to: none for GET, and else a checked one.
pub open spec fn compiled_policy(method: Seq<char>, policy: Option<BodyPolicyView>) -> Result<
    Option<BodyRules>,
    Seq<char>,
> {
    if method == "GET"@ {
        if policy is Some {
            Err("template GET cannot configure a body policy"@)
        } else {
            Ok(None)
        }
    } else {
        match write_rules(policy) {
            Err(reason) => Err(reason),
            Ok(rules) => match rules.fault() {
                Some(reason) => Err(reason),
                None => Ok(Some(rules)),
            },
        }
    }
}

/// A checked body policy.
pub struct CompiledBodyPolicy {
    pub content_types: Vec<String>,
    pub max_bytes: usize,
    pub required: bool,
    pub validation: BodyValidation,
    pub pattern: Option<String>,
}

/// The view of an optional body policy.
pub open spec fn policy_view(policy: Option<&BodyPolicy>) -> Option<BodyPolicyView> {
    match policy {
        Some(inner) => Some(inner@),
        None => None,
    }
}

impl CompiledBodyPolicy {
    /// The settings of the policy.
    pub open spec fn rules(self) -> BodyRules {
        BodyRules {
            content_types: text::views(self.content_types@),
            max_bytes: self.max_bytes,
            required: self.required,
            validation: self.validation@,
        }
    }

    /// Whether the compiled expression is the one of the policy.
    pub open spec fn wf(self) -> bool {
        text::view_of(self.pattern) == self.rules().expression()
    }

    /// Checks the body policy of a template.
    pub fn new(method: &str, definition: Option<&BodyPolicy>) -> (result: Result<
        Option<CompiledBodyPolicy>,
        String,
    >)
        ensures
            match (result, compiled_policy(method@, policy_view(definition))) {
                (Ok(None), Ok(None)) => true,
                (Ok(Some(policy)), Ok(Some(rules))) => policy.wf() && policy.rules() == rules
                    && rules.content_types.len() > 0,
                (Err(reason), Err(expected)) => reason@ == expected,
                _ => false,
            },
    {
        if text::same(method, "GET") {
            if definition.is_some() {
                return Err("template GET cannot configure a body policy".to_owned());
            }
            return Ok(None);
        }
        let definition = match definition {
            Some(definition) => definition,
            None => {
                return Err("template writes require an explicit body policy".to_owned());
            },
        };
        let required = match definition.required {
            Some(required) => required,
            None => {
                return Err("template writes require an explicit required setting".to_owned());
            },
        };
        let validation = match &definition.validation {
            Some(validation) => validation.clone(),
            None => {
                return Err("template writes require explicit body validation".to_owned());
            },
        };
        let mut result = CompiledBodyPolicy {
            content_types: text::copies(&definition.content_types),
            max_bytes: definition.max_bytes,
            required,
            validation,
            pattern: None,
        };
        let ghost rules = result.rules();
        if result.max_bytes < 1 || result.max_bytes > MAX_BODY {
            return Err("template body byte limit must be within 1 to 102400".to_owned());
        }
        if result.content_types.len() < 1 || result.content_types.len() > 16 {
            return Err("template body policy must allow 1 to 16 content types".to_owned());
        }
        if !result.validation.json && result.validation.pattern.is_empty()
            && result.validation.values.len() == 0 {
            return Err(
                "template body policy requires JSON, pattern, or enum validation".to_owned(),
            );
        }
        if !text::fits(&result.validation.pattern, 512) || result.validation.values.len() > 64 {
            return Err("template body validation exceeds size limits".to_owned());
        }
        match result.check_types() {
            Ok(()) => {},
            Err(reason) => {
                return Err(reason);
            },
        }
        if !result.validation.pattern.is_empty() {
            match syntax::validate_body_pattern(&result.validation.pattern) {
                Ok(()) => {},
                Err(reason) => {
                    return Err(reason);
                },
            }
            match syntax::compile_pattern(&result.validation.pattern) {
                Some(compiled) => {
                    result.pattern = Some(compiled);
                },
                None => {
                    return Err("invalid template body pattern".to_owned());
                },
            }
        }
        assert(result.rules() == rules);
        match result.check_listed() {
            Ok(()) => {},
            Err(reason) => {
                return Err(reason);
            },
        }
        Ok(Some(result))
    }

    fn check_types(&self) -> (result: Result<(), String>)
        ensures
            tells(
                result,
                first_fault(
                    self.rules().content_types.len() as int,
                    |i: int| self.rules().type_fault(i),
                ),
            ),
    {
        let items = &self.content_types;
        let ghost rules = self.rules();
        let ghost fault = |i: int| rules.type_fault(i);
        let mut index: usize = 0;
        while index < items.len()
            invariant
                index <= items.len(),
                rules == self.rules(),
                text::views(items@) == rules.content_types,
                fault == (|i: int| rules.type_fault(i)),
                first_fault(items.len() as int, fault) == fault_from(
                    index as int,
                    items.len() as int,
                    fault,
                ),
            decreases items.len() - index,
        {
            let value = &items[index];
            assert(fault(index as int) == rules.type_fault(index as int));
            assert(rules.content_types[index as int] == value@);
            match pattern::media_type(value) {
                None => {
                    return Err("invalid template content type".to_owned());
                },
                Some(parsed) => {
                    if !text::fits(value, 128) || !text::contains_char(value, '/')
                        || text::contains_char(value, '*') || parsed.parameters || !text::same(
                        &parsed.text,
                        value,
                    ) {
                        return Err(
                            "template content types must be canonical media types without parameters or wildcards".to_owned(),
                        );
                    }
                    if (text::same(value, "application/json") || text::ends_with(value, "+json"))
                        && !self.validation.json {
                        return Err("JSON content types require JSON body validation".to_owned());
                    }
                    if text::repeated(items, index) {
                        return Err("duplicate template content type".to_owned());
                    }
                },
            }
            index = index + 1;
        }
        Ok(())
    }

    fn check_listed(&self) -> (result: Result<(), String>)
        requires
            self.wf(),
            self.content_types.len() > 0,
        ensures
            tells(
                result,
                first_fault(
                    self.rules().validation.values.len() as int,
                    |i: int| self.rules().listed_fault(i),
                ),
            ),
    {
        let items = &self.validation.values;
        let ghost rules = self.rules();
        let ghost all = rules.validation.values;
        let ghost fault = |i: int| rules.listed_fault(i);
        let mut total: usize = 0;
        let mut index: usize = 0;
        while index < items.len()
            invariant
                index <= items.len(),
                self.wf(),
                self.content_types.len() > 0,
                rules == self.rules(),
                all == rules.validation.values,
                text::views(items@) == all,
                total == text::total_bytes(all.take(index as int)),
                total <= MAX_BODY,
                fault == (|i: int| rules.listed_fault(i)),
                first_fault(items.len() as int, fault) == fault_from(
                    index as int,
                    items.len() as int,
                    fault,
                ),
            decreases items.len() - index,
        {
            let value = &items[index];
            assert(fault(index as int) == rules.listed_fault(index as int));
            assert(all[index as int] == value@);
            proof {
                assert(all.take(index + 1).drop_last() == all.take(index as int));
                assert(all.take(index + 1).last() == value@);
                assert(rules.content_types[0] == self.content_types@[0]@);
            }
            if !text::fits(value, MAX_BODY - total) {
                return Err("template body enum violates body policy or size limits".to_owned());
            }
            total = total + text::bytes(value).len();
            match self.validate(Some(value), Some(&self.content_types[0])) {
                Ok(()) => {},
                Err(_) => {
                    return Err(
                        "template body enum violates body policy or size limits".to_owned(),
                    );
                },
            }
            if text::repeated(items, index) {
                return Err("duplicate template body enum value".to_owned());
            }
            index = index + 1;
        }
        Ok(())
    }

    /// Checks the body of a request.
    pub fn validate(&self, body: Option<&str>, content_type: Option<&str>) -> (result: Result<
        (),
        String,
    >)
        requires
            self.wf(),
        ensures
            tells(result, self.rules().value_fault(text::str_view(body), text::str_view(content_type))),
    {
        if body.is_none() && content_type.is_none() && !self.required {
            return Ok(());
        }
        let (body, content_type) = match (body, content_type) {
            (Some(body), Some(content_type)) => (body, content_type),
            _ => {
                return Err("template body and content_type must be supplied together".to_owned());
            },
        };
        if !text::contained(&self.content_types, content_type) {
            return Err("template content type is not permitted".to_owned());
        }
        if !text::fits(body, self.max_bytes) || (self.required && body.is_empty()) {
            return Err("template body violates its byte limit or required-body policy".to_owned());
        }
        if self.validation.json && json::parse(body).is_none() {
            return Err("template body must be valid JSON".to_owned());
        }
        if let Some(expression) = &self.pattern {
            if !pattern::found(expression, body) {
                return Err("template body does not match its pattern".to_owned());
            }
        }
        if self.validation.values.len() > 0 && !text::contained(&self.validation.values, body) {
            return Err("template body is outside its enum".to_owned());
        }
        Ok(())
    }

    /// The policy with its lists in order.
    pub fn canonical(&self) -> (result: BodyPolicy)
        ensures
            result@ == (BodyPolicyView {
                content_types: text::sorted_of(self.rules().content_types),
                max_bytes: self.max_bytes,
                required: Some(self.required),
                validation: Some(
                    BodyValidationView {
                        values: text::sorted_of(self.rules().validation.values),
                        ..self.rules().validation
                    },
                ),
            }),
    {
        BodyPolicy {
            content_types: text::sorted(&self.content_types),
            max_bytes: self.max_bytes,
            required: Some(self.required),
            validation: Some(
                BodyValidation {
                    json: self.validation.json,
                    pattern: self.validation.pattern.clone(),
                    values: text::sorted(&self.validation.values),
                },
            ),
        }
    }
}

/// A template that reads takes no body policy, and one that writes takes an explicit one.
pub proof fn lemma_policy_by_method(method: Seq<char>, policy: Option<BodyPolicyView>)
    requires
        compiled_policy(method, policy) is Ok,
    ensures
        compiled_policy(method, policy)->Ok_0 is None <==> method == "GET"@,
        policy is None <==> method == "GET"@,
{
}

/// An accepted body has a permitted media type, fits the limit, is not missing where one is required, is
/// JSON where that is asked for, matches the whole pattern where there is one, and is one of the listed
/// bodies where some are listed.
pub proof fn lemma_accepted_body(policy: CompiledBodyPolicy, body: Seq<char>, kind: Seq<char>)
    requires
        policy.rules().value_fault(Some(body), Some(kind)) is None,
    ensures
        exists|i: int|
            0 <= i < policy.content_types@.len() && (#[trigger] policy.content_types@[i])@ == kind,
        vstd::utf8::encode_utf8(body).len() <= policy.max_bytes,
        policy.required ==> body.len() > 0,
        policy.validation.json ==> json::parsed_json(body) is Some,
        policy.validation.pattern@.len() > 0 ==> pattern::regex_found(
            "\\A(?:"@ + syntax::normalized_from(policy.validation.pattern@, 0, false) + ")\\z"@,
            body,
        ),
        policy.validation.values@.len() > 0 ==> exists|i: int|
            0 <= i < policy.validation.values@.len() && (#[trigger] policy.validation.values@[i])@
                == body,
{
    text::lemma_byte_len_utf8(body);
    let types = text::views(policy.content_types@);
    assert(types.contains(kind));
    let i = choose|i: int| 0 <= i < types.len() && types[i] == kind;
    assert(policy.content_types@[i]@ == kind);
    if policy.validation.values@.len() > 0 {
        let values = text::views(policy.validation.values@);
        assert(values.len() == policy.validation.values@.len());
        assert(values.contains(body));
        let j = choose|j: int| 0 <= j < values.len() && values[j] == body;
        assert(policy.validation.values@[j]@ == body);
    }
}

/// A body that meets every setting of the policy is accepted.
pub proof fn lemma_body_within_policy(
    policy: CompiledBodyPolicy,
    body: Seq<char>,
    kind: Seq<char>,
    at: int,
    listed: int,
)
    requires
        0 <= at < policy.content_types@.len(),
        policy.content_types@[at]@ == kind,
        vstd::utf8::encode_utf8(body).len() <= policy.max_bytes,
        policy.required ==> body.len() > 0,
        policy.validation.json ==> json::parsed_json(body) is Some,
        policy.validation.pattern@.len() > 0 ==> pattern::regex_found(
            "\\A(?:"@ + syntax::normalized_from(policy.validation.pattern@, 0, false) + ")\\z"@,
            body,
        ),
        policy.validation.values@.len() > 0 ==> 0 <= listed < policy.validation.values@.len()
            && policy.validation.values@[listed]@ == body,
    ensures
        policy.rules().value_fault(Some(body), Some(kind)) is None,
{
    text::lemma_byte_len_utf8(body);
    assert(text::views(policy.content_types@)[at] == kind);
    if policy.validation.values@.len() > 0 {
        assert(text::views(policy.validation.values@)[listed] == body);
    }
}

/// A body and its media type come together, and neither may be missing where a body is required.
pub proof fn lemma_body_with_type(policy: CompiledBodyPolicy, body: Seq<char>, kind: Seq<char>)
    ensures
        policy.rules().value_fault(Some(body), None) is Some,
        policy.rules().value_fault(None, Some(kind)) is Some,
        policy.rules().value_fault(None, None) is None <==> !policy.required,
{
}

/// A checked policy is the one that was given: nothing in it is changed, and its limits are kept.
pub proof fn lemma_policy_as_given(method: Seq<char>, given: BodyPolicy, rules: BodyRules)
    requires
        compiled_policy(method, Some(given@)) == Ok::<Option<BodyRules>, Seq<char>>(Some(rules)),
    ensures
        method != "GET"@,
        given.required == Some(rules.required),
        given.validation is Some,
        rules.validation.json == given.validation->0.json,
        rules.validation.pattern == given.validation->0.pattern@,
        rules.validation.values == text::views(given.validation->0.values@),
        rules.content_types == text::views(given.content_types@),
        rules.max_bytes == given.max_bytes,
        1 <= given.max_bytes <= 102400,
        1 <= given.content_types@.len() <= 16,
        given.validation->0.values@.len() <= 64,
        given.validation->0.json || given.validation->0.pattern@.len() > 0
            || given.validation->0.values@.len() > 0,
        text::byte_len(given.validation->0.pattern@) <= 512,
{
    assert(rules.content_types.len() == given.content_types@.len());
    assert(rules.validation.values.len() == given.validation->0.values@.len());
}

/// Each media type of a checked policy is written as it is read, without parameters and wildcards, and one
/// of JSON comes with JSON validation; each listed body is one that the policy accepts.
pub proof fn lemma_policy_items(method: Seq<char>, policy: Option<BodyPolicyView>, rules: BodyRules, at: int)
    requires
        compiled_policy(method, policy) == Ok::<Option<BodyRules>, Seq<char>>(Some(rules)),
    ensures
        0 <= at < rules.content_types.len() ==> pattern::media_type_of(rules.content_types[at]) == Some(
            (rules.content_types[at], false),
        ) && !rules.content_types[at].contains('*') && rules.content_types[at].contains('/')
            && text::byte_len(rules.content_types[at]) <= 128,
        0 <= at < rules.content_types.len() && (rules.content_types[at] == "application/json"@
            || "+json"@.is_suffix_of(rules.content_types[at])) ==> rules.validation.json,
        forall|i: int|
            0 <= i < at < rules.content_types.len() ==> #[trigger] rules.content_types[i]
                != rules.content_types[at],
        0 <= at < rules.validation.values.len() ==> rules.value_fault(
            Some(rules.validation.values[at]),
            Some(rules.content_types[0]),
        ) is None,
        forall|i: int|
            0 <= i < at < rules.validation.values.len() ==> #[trigger] rules.validation.values[i]
                != rules.validation.values[at],
        rules.validation.pattern.len() > 0 ==> pattern::regex_valid(
            "\\A(?:"@ + syntax::normalized_from(rules.validation.pattern, 0, false) + ")\\z"@,
        ) && syntax::body_pattern_fault(rules.validation.pattern) is None,
{
    let types = |i: int| rules.type_fault(i);
    let listed = |i: int| rules.listed_fault(i);
    crate::checks::lemma_first_fault(0, rules.content_types.len() as int, types);
    crate::checks::lemma_first_fault(0, rules.validation.values.len() as int, listed);
    assert(rules.fault() is None);
    if 0 <= at < rules.content_types.len() {
        assert(types(at) is None);
    }
    if 0 <= at < rules.validation.values.len() {
        assert(listed(at) is None);
    }
}

/// Which reason a body is refused for.
pub proof fn lemma_body_reasons(rules: BodyRules, body: Seq<char>, content_type: Seq<char>)
    ensures
        rules.value_fault(Some(body), None) == Some("template body and content_type must be supplied together"@),
        rules.value_fault(None, Some(content_type)) == Some(
            "template body and content_type must be supplied together"@,
        ),
        rules.required ==> rules.value_fault(None, None) == Some(
            "template body and content_type must be supplied together"@,
        ),
        !rules.content_types.contains(content_type) ==> rules.value_fault(Some(body), Some(content_type)) == Some(
            "template content type is not permitted"@,
        ),
        rules.content_types.contains(content_type) ==> {
            &&& text::byte_len(body) > rules.max_bytes ==> rules.value_fault(Some(body), Some(content_type))
                == Some("template body violates its byte limit or required-body policy"@)
            &&& rules.required && body.len() == 0 ==> rules.value_fault(Some(body), Some(content_type)) == Some(
                "template body violates its byte limit or required-body policy"@,
            )
            &&& text::byte_len(body) <= rules.max_bytes && body.len() > 0 ==> {
                &&& rules.validation.json && json::parsed_json(body) is None ==> rules.value_fault(
                    Some(body),
                    Some(content_type),
                ) == Some("template body must be valid JSON"@)
                &&& !rules.validation.json && rules.validation.pattern.len() > 0 && !pattern::regex_found(
                    syntax::anchored(rules.validation.pattern),
                    body,
                ) ==> rules.value_fault(Some(body), Some(content_type)) == Some(
                    "template body does not match its pattern"@,
                )
                &&& !rules.validation.json && rules.validation.pattern.len() == 0 && rules.validation.values.len()
                    > 0 && !rules.validation.values.contains(body) ==> rules.value_fault(
                    Some(body),
                    Some(content_type),
                ) == Some("template body is outside its enum"@)
            }
        },
{
}

/// Which reason a policy for a body is refused for.
pub proof fn lemma_policy_reasons(rules: BodyRules, policy: BodyPolicyView)
    ensures
        rules.max_bytes < 1 || rules.max_bytes > 102400 ==> rules.fault() == Some(
            "template body byte limit must be within 1 to 102400"@,
        ),
        1 <= rules.max_bytes <= 102400 && (rules.content_types.len() < 1 || rules.content_types.len() > 16)
            ==> rules.fault() == Some("template body policy must allow 1 to 16 content types"@),
        1 <= rules.max_bytes <= 102400 && 1 <= rules.content_types.len() <= 16 && !rules.validation.json
            && rules.validation.pattern.len() == 0 && rules.validation.values.len() == 0 ==> rules.fault() == Some(
            "template body policy requires JSON, pattern, or enum validation"@,
        ),
        compiled_policy("GET"@, Some(policy)) == Err::<Option<BodyRules>, Seq<char>>(
            "template GET cannot configure a body policy"@,
        ),
        compiled_policy("GET"@, None) == Ok::<Option<BodyRules>, Seq<char>>(None),
        write_rules(None) == Err::<BodyRules, Seq<char>>("template writes require an explicit body policy"@),
        policy.required is None ==> write_rules(Some(policy)) == Err::<BodyRules, Seq<char>>(
            "template writes require an explicit required setting"@,
        ),
        policy.required is Some && policy.validation is None ==> write_rules(Some(policy)) == Err::<
            BodyRules,
            Seq<char>,
        >("template writes require explicit body validation"@),
{
}

} // verus!
