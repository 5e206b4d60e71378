//! Which headers the caller of a template may send.

use vstd::prelude::*;
use crate::checks::{either, fault_from, first_fault, tells, unless};
use crate::harpoon::headers;
use crate::json::{Doc, Json};
use crate::table::Table;
use crate::template::syntax;
use crate::{header, json, pattern, text};

verus! {

/// The checks on the value of a caller header.
pub struct HeaderValidation {
    pub pattern: String,
    pub values: Option<Vec<String>>,
    pub min_length: Option<usize>,
    pub max_length: Option<usize>,
}

/// The contents of the checks.
#[verifier::ext_equal]
pub struct HeaderValidationView {
    pub pattern: Seq<char>,
    pub values: Option<Seq<Seq<char>>>,
    pub min_length: Option<usize>,
    pub max_length: Option<usize>,
}

impl View for HeaderValidation {
    type V = HeaderValidationView;

    open spec fn view(&self) -> HeaderValidationView {
        HeaderValidationView {
            pattern: self.pattern@,
            values: match self.values {
                Some(items) => Some(text::views(items@)),
                None => None,
            },
            min_length: self.min_length,
            max_length: self.max_length,
        }
    }
}

impl Clone for HeaderValidation {
    fn clone(&self) -> (result: HeaderValidation)
        ensures
            result@ == self@,
    {
        HeaderValidation {
            pattern: self.pattern.clone(),
            values: match &self.values {
                Some(items) => Some(text::copies(items)),
                None => None,
            },
            min_length: self.min_length,
            max_length: self.max_length,
        }
    }
}

/// A caller header and what it becomes.
pub struct Header {
    pub name: String,
    pub description: String,
    pub required: bool,
    pub credential: bool,
    pub forward_as: String,
    pub validation: Option<HeaderValidation>,
}

/// The contents of a caller header.
#[verifier::ext_equal]
pub struct HeaderView {
    pub name: Seq<char>,
    pub description: Seq<char>,
    pub required: bool,
    pub credential: bool,
    pub forward_as: Seq<char>,
    pub validation: Option<HeaderValidationView>,
}

impl View for Header {
    type V = HeaderView;

    open spec fn view(&self) -> HeaderView {
        HeaderView {
            name: self.name@,
            description: self.description@,
            required: self.required,
            credential: self.credential,
            forward_as: self.forward_as@,
            validation: match self.validation {
                Some(inner) => Some(inner@),
                None => None,
            },
        }
    }
}

impl Clone for Header {
    fn clone(&self) -> (result: Header)
        ensures
            result@ == self@,
    {
        Header {
            name: self.name.clone(),
            description: self.description.clone(),
            required: self.required,
            credential: self.credential,
            forward_as: self.forward_as.clone(),
            validation: match &self.validation {
                Some(inner) => Some(inner.clone()),
                None => None,
            },
        }
    }
}

/// A header that a caller may send: by its name alone, or with a rule.
pub enum HeaderRule {
    Name(String),
    Rule(Header),
}

/// The contents of a rule: the header, and whether it came by its name alone.
#[verifier::ext_equal]
pub struct RuleView {
    pub schema: HeaderView,
    pub legacy: bool,
}

impl View for HeaderRule {
    type V = RuleView;

    open spec fn view(&self) -> RuleView {
        match self {
            HeaderRule::Name(name) => RuleView {
                schema: HeaderView {
                    name: name@,
                    description: Seq::empty(),
                    required: false,
                    credential: false,
                    forward_as: Seq::empty(),
                    validation: None,
                },
                legacy: true,
            },
            HeaderRule::Rule(schema) => RuleView { schema: schema@, legacy: false },
        }
    }
}

impl HeaderRule {
    /// The header of the rule, and whether it came by its name alone.
    pub fn schema(&self) -> (result: (Header, bool))
        ensures
            result.0@ == self@.schema,
            result.1 == self@.legacy,
    {
        match self {
            HeaderRule::Name(name) => (
                Header {
                    name: name.clone(),
                    description: String::new(),
                    required: false,
                    credential: false,
                    forward_as: String::new(),
                    validation: None,
                },
                true,
            ),
            HeaderRule::Rule(schema) => (schema.clone(), false),
        }
    }
}

/// A credential header that a caller may supply.
pub open spec fn is_supported(name: Seq<char>) -> bool {
    name == "authorization"@ || name == "x-api-key"@ || name == "api-key"@
}

/// Whether a caller may supply the credential header.
pub fn credential(name: &str) -> (result: bool)
    ensures
        result == is_supported(name@),
{
    text::same(name, "authorization") || text::same(name, "x-api-key") || text::same(
        name,
        "api-key",
    )
}

/// A name that transports and identities use.
pub open spec fn is_reserved(name: Seq<char>) -> bool {
    ||| "proxy-"@.is_prefix_of(name)
    ||| "mcp-"@.is_prefix_of(name)
    ||| "x-mcp-"@.is_prefix_of(name)
    ||| "x-tunnel-"@.is_prefix_of(name)
    ||| "x-openai-"@.is_prefix_of(name)
}

fn reserved(name: &str) -> (result: bool)
    ensures
        result == is_reserved(name@),
{
    text::starts_with(name, "proxy-") || text::starts_with(name, "mcp-") || text::starts_with(
        name,
        "x-mcp-",
    ) || text::starts_with(name, "x-tunnel-") || text::starts_with(name, "x-openai-")
}

/// A header that the body policy of a write decides.
pub open spec fn is_content_header(name: Seq<char>) -> bool {
    name == "content-type"@ || name == "content-encoding"@
}

/// Whether the body policy of a write decides the header.
pub fn content_header(name: &str) -> (result: bool)
    ensures
        result == is_content_header(name@),
{
    text::same(name, "content-type") || text::same(name, "content-encoding")
}

impl HeaderValidationView {
    /// Why the settings are refused, if so.
    pub open spec fn fault(self) -> Option<Seq<char>> {
        let minimum = match self.min_length {
            Some(value) => value as int,
            None => 0,
        };
        let maximum = match self.max_length {
            Some(value) => value as int,
            None => 8192,
        };
        if self.values is Some && self.values->0.len() == 0 {
            Some("template header enum must not be empty"@)
        } else if minimum > maximum || maximum > 8192 {
            Some("template header length bounds must be within 0 to 8192"@)
        } else if text::byte_len(self.pattern) > 512 || (self.values is Some && self.values->0.len()
            > 64) {
            Some("template header constraints exceed size limits"@)
        } else if self.pattern.len() == 0 {
            None
        } else if syntax::body_pattern_fault(self.pattern) is Some {
            Some("unsupported template header pattern"@)
        } else if !pattern::regex_valid(syntax::anchored(self.pattern)) {
            Some("invalid template header pattern"@)
        } else {
            None
        }
    }

    /// Whether a length is within the bounds.
    pub open spec fn admits(self, length: int) -> bool {
        &&& self.min_length is Some ==> length >= self.min_length->0
        &&& self.max_length is Some ==> length <= self.max_length->0
    }
}

impl HeaderView {
    /// The expression that the values have to match.
    pub open spec fn expression(self) -> Option<Seq<char>> {
        if self.validation is Some && self.validation->0.pattern.len() > 0 {
            Some(syntax::anchored(self.validation->0.pattern))
        } else {
            None
        }
    }

    /// Why a value is refused, if so.
    pub open spec fn value_fault(self, value: Seq<char>) -> Option<Seq<char>> {
        if !text::every(value, |ch: char| headers::is_printable(ch)) {
            Some("invalid caller header value"@)
        } else {
            match self.validation {
                None => None,
                Some(validation) => if !validation.admits(value.len() as int) {
                    Some("caller header length is outside its bounds"@)
                } else if self.expression() is Some && !text::every(
                    value,
                    |ch: char| syntax::is_visible(ch),
                ) {
                    Some("caller header pattern requires printable ASCII"@)
                } else if self.expression() is Some && !pattern::regex_found(
                    self.expression()->0,
                    value,
                ) {
                    Some("caller header does not match its pattern"@)
                } else if validation.values is Some && !validation.values->0.contains(value) {
                    Some("caller header is outside its enum"@)
                } else {
                    None
                },
            }
        }
    }

    /// The name that the caller sends, without capitals.
    pub open spec fn source(self) -> Seq<char> {
        text::lowercase_of(self.name)
    }

    /// The name that goes out, without capitals.
    pub open spec fn destination(self) -> Seq<char> {
        if self.forward_as.len() == 0 {
            self.source()
        } else {
            text::lowercase_of(self.forward_as)
        }
    }

    /// Why a credential rule is refused, if so.
    pub open spec fn credential_fault(self) -> Option<Seq<char>> {
        if !self.credential {
            None
        } else if self.validation is Some && self.validation->0.values is Some {
            Some("template credential rules cannot configure enum values"@)
        } else if !(self.validation is Some && self.validation->0.min_length is Some
            && self.validation->0.min_length->0 > 0 && self.validation->0.max_length is Some
            && self.validation->0.max_length->0 > 0 && self.validation->0.pattern.len() > 0) {
            Some("template credential rules require positive length bounds and a pattern"@)
        } else {
            None
        }
    }

    /// Why one of the listed values is refused, if so.
    pub open spec fn listed_fault(self, items: Seq<Seq<char>>, at: int) -> Option<Seq<char>> {
        if text::total_bytes(items.take(at + 1)) > 8192 || self.value_fault(items[at]) is Some {
            Some("template header enum violates its constraints or size limits"@)
        } else if text::repeats(items, at) {
            Some("duplicate template header enum value"@)
        } else {
            None
        }
    }

    /// Why one of the listed values is refused, if there is a list and one is.
    pub open spec fn list_fault(self) -> Option<Seq<char>> {
        match self.validation {
            Some(validation) => match validation.values {
                Some(items) => first_fault(
                    items.len() as int,
                    |i: int| self.listed_fault(items, i),
                ),
                None => None,
            },
            None => None,
        }
    }
}

impl RuleView {
    /// The rule under its canonical names.
    pub open spec fn compiled(self) -> RuleView {
        RuleView {
            schema: HeaderView {
                name: headers::canonical_of(self.schema.source()),
                forward_as: headers::canonical_of(self.schema.destination()),
                ..self.schema
            },
            legacy: self.legacy,
        }
    }

    /// Why one of the names of the rule is refused, if so.
    pub open spec fn name_fault(self, name: Seq<char>, fixed: Set<Seq<char>>, write: bool) -> Option<
        Seq<char>,
    > {
        if !self.legacy && is_reserved(name) {
            Some("reserved transport or identity header cannot be a runtime rule"@)
        } else if write && is_content_header(name) {
            Some("template writes require the body policy content type and unencoded body bytes"@)
        } else if fixed.contains(name) {
            Some("template caller header conflicts with a fixed header"@)
        } else if headers::is_credential(name) && !(self.schema.credential && is_supported(name)) {
            Some(
                "template authentication headers must be fixed by the operator or explicitly supported by a credential rule"@,
            )
        } else {
            None
        }
    }

    /// Why the names and the description of the rule are refused, if so.
    pub open spec fn front_fault(self, fixed: Set<Seq<char>>, write: bool) -> Option<Seq<char>> {
        either(
            headers::template_name_fault(self.schema.name),
            either(
                if self.schema.forward_as.len() == 0 {
                    None
                } else {
                    headers::template_name_fault(self.schema.forward_as)
                },
                either(
                    unless(
                        self.legacy || (text::trim_of(self.schema.description).len() > 0
                            && text::byte_len(self.schema.description) <= 1024 && text::every(
                            self.schema.description,
                            |ch: char| headers::is_printable(ch),
                        )),
                        "template header rules require a bounded nonempty description"@,
                    ),
                    either(
                        self.name_fault(self.schema.source(), fixed, write),
                        either(
                            self.name_fault(self.schema.destination(), fixed, write),
                            unless(
                                !self.schema.credential || is_supported(self.schema.source())
                                    || is_supported(self.schema.destination()),
                                "template credential rule must use a supported credential header"@,
                            ),
                        ),
                    ),
                ),
            ),
        )
    }

    /// Why the checks of the rule are refused, if so.
    pub open spec fn back_fault(self) -> Option<Seq<char>> {
        either(
            self.schema.credential_fault(),
            either(
                match self.schema.validation {
                    Some(validation) => validation.fault(),
                    None => None,
                },
                self.schema.list_fault(),
            ),
        )
    }
}

/// Whether an earlier rule has the same caller name.
pub open spec fn same_source(rules: Seq<RuleView>, at: int) -> bool {
    exists|j: int|
        0 <= j < at && (#[trigger] rules[j]).compiled().schema.name
            == rules[at].compiled().schema.name
}

/// Whether an earlier rule has the same outgoing name.
pub open spec fn same_destination(rules: Seq<RuleView>, at: int) -> bool {
    exists|j: int|
        0 <= j < at && (#[trigger] rules[j]).compiled().schema.forward_as
            == rules[at].compiled().schema.forward_as
}

/// Why a rule is refused, if so.
pub open spec fn rule_fault(rules: Seq<RuleView>, fixed: Set<Seq<char>>, write: bool, at: int) -> Option<
    Seq<char>,
> {
    either(
        rules[at].front_fault(fixed, write),
        either(
            unless(!same_source(rules, at), "duplicate template caller header name"@),
            either(
                unless(!same_destination(rules, at), "duplicate template outgoing header name"@),
                rules[at].back_fault(),
            ),
        ),
    )
}

/// Whether the outgoing name of a rule is the caller name of another.
pub open spec fn overlapping(rules: Seq<RuleView>) -> bool {
    exists|i: int, j: int|
        0 <= i < rules.len() && 0 <= j < rules.len() && (#[trigger] rules[i]).compiled().schema.name
            != rules[i].compiled().schema.forward_as && (
        #[trigger] rules[j]).compiled().schema.name == rules[i].compiled().schema.forward_as
}

/// Why the rules are refused, if so.
pub open spec fn rules_fault(rules: Seq<RuleView>, fixed: Set<Seq<char>>, write: bool) -> Option<
    Seq<char>,
> {
    either(
        first_fault(rules.len() as int, |i: int| rule_fault(rules, fixed, write, i)),
        unless(
            !overlapping(rules),
            "template header source and destination names overlap"@,
        ),
    )
}

/// The contents of a list of rules.
pub open spec fn rule_views(rules: Seq<HeaderRule>) -> Seq<RuleView> {
    rules.map_values(|rule: HeaderRule| rule@)
}

/// A checked rule.
pub struct Rule {
    pub schema: Header,
    pub legacy: bool,
    pub pattern: Option<String>,
}

impl Rule {
    /// The rule as it was declared. The compiled expression follows from it.
    pub open spec fn declared(self) -> RuleView {
        RuleView { schema: self.schema@, legacy: self.legacy }
    }
}

/// The constraints that the published form of a rule adds to a string.
pub open spec fn public_validation(doc: Doc, header: HeaderView) -> Doc {
    match header.validation {
        None => doc,
        Some(validation) => {
            let first = match validation.min_length {
                Some(value) => doc.with("minLength"@, Doc::number(value as nat)),
                None => doc,
            };
            let second = match validation.max_length {
                Some(value) => first.with("maxLength"@, Doc::number(value as nat)),
                None => first,
            };
            let third = match validation.values {
                Some(items) => if header.credential {
                    second
                } else {
                    second.with("enum"@, json::texts(items))
                },
                None => second,
            };
            if validation.pattern.len() == 0 {
                third
            } else {
                third.with("pattern"@, Doc::Text("^(?:"@ + validation.pattern + ")$"@)).with(
                    "not"@,
                    Doc::object().with("pattern"@, Doc::Text("[^ -~]"@)),
                )
            }
        },
    }
}

/// The published form of a rule: a schema of its values, without the values of a credential.
pub open spec fn public_of(header: HeaderView) -> Doc {
    let doc = Doc::object().with("type"@, Doc::Text("string"@)).with(
        "maxLength"@,
        Doc::number(8192),
    ).with(
        "not"@,
        Doc::object().with("pattern"@, Doc::Text("[\u{0}-\u{1f}\u{7f}]"@)),
    );
    public_validation(
        if header.description.len() == 0 {
            doc
        } else {
            doc.with("description"@, Doc::Text(header.description))
        },
        header,
    )
}

impl Rule {
    /// Whether the compiled expression is the one of the rule.
    pub open spec fn wf(self) -> bool {
        text::view_of(self.pattern) == self.schema@.expression()
    }

    /// Checks a value.
    pub fn validate(&self, value: &str) -> (result: Result<(), String>)
        requires
            self.wf(),
        ensures
            tells(result, self.schema@.value_fault(value@)),
    {
        if !headers::printable(value) {
            return Err("invalid caller header value".to_owned());
        }
        let validation = match &self.schema.validation {
            Some(validation) => validation,
            None => {
                return Ok(());
            },
        };
        let length: usize = text::chars(value).len();
        let long = match validation.min_length {
            Some(minimum) => length >= minimum,
            None => true,
        };
        let short = match validation.max_length {
            Some(maximum) => length <= maximum,
            None => true,
        };
        if !long || !short {
            return Err("caller header length is outside its bounds".to_owned());
        }
        if let Some(expression) = &self.pattern {
            if !syntax::visible(value) {
                return Err("caller header pattern requires printable ASCII".to_owned());
            }
            if !pattern::found(expression, value) {
                return Err("caller header does not match its pattern".to_owned());
            }
        }
        if let Some(items) = &validation.values {
            if !text::contained(items, value) {
                return Err("caller header is outside its enum".to_owned());
            }
        }
        Ok(())
    }

    /// The published form of the rule.
    pub fn public(&self) -> (result: Json)
        ensures
            result.doc() == public_of(self.schema@),
    {
        let mut result = Json::object().with("type", Json::text("string")).with(
            "maxLength",
            Json::number(8192),
        ).with(
            "not",
            Json::object().with("pattern", Json::text("[\u{0}-\u{1f}\u{7f}]")),
        );
        if !self.schema.description.is_empty() {
            result = result.with("description", Json::text(&self.schema.description));
        }
        if let Some(validation) = &self.schema.validation {
            if let Some(minimum) = validation.min_length {
                result = result.with("minLength", Json::number(minimum as u64));
            }
            if let Some(maximum) = validation.max_length {
                result = result.with("maxLength", Json::number(maximum as u64));
            }
            if let Some(items) = &validation.values {
                if !self.schema.credential {
                    result = result.with("enum", Json::texts(items));
                }
            }
            if !validation.pattern.is_empty() {
                let whole = text::cat3("^(?:", &validation.pattern, ")$");
                result = result.with("pattern", Json::text(&whole)).with(
                    "not",
                    Json::object().with("pattern", Json::text("[^ -~]")),
                );
            }
        }
        result
    }

    /// The rule as it counts for the identity of a policy: a bare name, or the header with its list
    /// of values in order.
    pub fn canonical(&self) -> (result: HeaderRule)
        ensures
            self.legacy ==> (result matches HeaderRule::Name(name) && name@ == self.schema.name@),
            !self.legacy ==> (result matches HeaderRule::Rule(schema) && schema@ == (HeaderView {
                validation: match self.schema@.validation {
                    Some(validation) => Some(
                        HeaderValidationView {
                            values: match validation.values {
                                Some(items) => Some(text::sorted_of(items)),
                                None => None,
                            },
                            ..validation
                        },
                    ),
                    None => None,
                },
                ..self.schema@
            })),
    {
        if self.legacy {
            return HeaderRule::Name(self.schema.name.clone());
        }
        let mut schema = self.schema.clone();
        schema.validation = match &self.schema.validation {
            Some(validation) => Some(
                HeaderValidation {
                    pattern: validation.pattern.clone(),
                    values: match &validation.values {
                        Some(items) => Some(text::sorted(items)),
                        None => None,
                    },
                    min_length: validation.min_length,
                    max_length: validation.max_length,
                },
            ),
            None => None,
        };
        HeaderRule::Rule(schema)
    }

    fn check_name(&self, name: &str, fixed: &header::Headers, write: bool) -> (result: Result<
        (),
        String,
    >)
        requires
            text::lowercase_of(name@) == name@,
        ensures
            tells(
                result,
                self.declared().name_fault(name@, header::header_entries(*fixed).dom(), write),
            ),
    {
        if !self.legacy && reserved(name) {
            return Err(
                "reserved transport or identity header cannot be a runtime rule".to_owned(),
            );
        }
        if write && content_header(name) {
            return Err(
                "template writes require the body policy content type and unencoded body bytes".to_owned(),
            );
        }
        if header::has(fixed, name) {
            return Err("template caller header conflicts with a fixed header".to_owned());
        }
        if headers::credential(name) && !(self.schema.credential && credential(name)) {
            return Err(
                "template authentication headers must be fixed by the operator or explicitly supported by a credential rule".to_owned(),
            );
        }
        Ok(())
    }

    fn check_front(&self, fixed: &header::Headers, write: bool) -> (result: Result<
        (String, String),
        String,
    >)
        ensures
            match result {
                Ok((source, destination)) => self.declared().front_fault(
                    header::header_entries(*fixed).dom(),
                    write,
                ) is None && source@ == self.schema@.source() && destination@
                    == self.schema@.destination(),
                Err(reason) => self.declared().front_fault(header::header_entries(*fixed).dom(), write)
                    == Some(reason@),
            },
    {
        let source = match headers::template_name(&self.schema.name) {
            Ok(source) => source,
            Err(reason) => {
                return Err(reason);
            },
        };
        let destination = if self.schema.forward_as.is_empty() {
            source.clone()
        } else {
            match headers::template_name(&self.schema.forward_as) {
                Ok(destination) => destination,
                Err(reason) => {
                    return Err(reason);
                },
            }
        };
        if !self.legacy && (text::trim(&self.schema.description).is_empty() || !text::fits(
            &self.schema.description,
            1024,
        ) || !headers::printable(&self.schema.description)) {
            return Err("template header rules require a bounded nonempty description".to_owned());
        }
        proof {
            lemma_small_again(self.schema.name@);
            lemma_small_again(self.schema.forward_as@);
        }
        match self.check_name(&source, fixed, write) {
            Ok(()) => {},
            Err(reason) => {
                return Err(reason);
            },
        }
        match self.check_name(&destination, fixed, write) {
            Ok(()) => {},
            Err(reason) => {
                return Err(reason);
            },
        }
        if self.schema.credential && !credential(&source) && !credential(&destination) {
            return Err("template credential rule must use a supported credential header".to_owned());
        }
        Ok((source, destination))
    }

    fn check_credential(&self) -> (result: Result<(), String>)
        ensures
            tells(result, self.schema@.credential_fault()),
    {
        if !self.schema.credential {
            return Ok(());
        }
        match &self.schema.validation {
            None => Err(
                "template credential rules require positive length bounds and a pattern".to_owned(),
            ),
            Some(validation) => {
                if validation.values.is_some() {
                    return Err(
                        "template credential rules cannot configure enum values".to_owned(),
                    );
                }
                let lower = match validation.min_length {
                    Some(value) => value > 0,
                    None => false,
                };
                let upper = match validation.max_length {
                    Some(value) => value > 0,
                    None => false,
                };
                if !lower || !upper || validation.pattern.is_empty() {
                    return Err(
                        "template credential rules require positive length bounds and a pattern".to_owned(),
                    );
                }
                Ok(())
            },
        }
    }

    fn check_listed(&self, items: &Vec<String>) -> (result: Result<(), String>)
        requires
            self.wf(),
        ensures
            tells(
                result,
                first_fault(
                    items@.len() as int,
                    |i: int| self.schema@.listed_fault(text::views(items@), i),
                ),
            ),
    {
        let ghost own = self.schema@;
        let ghost all = text::views(items@);
        let ghost fault = |i: int| own.listed_fault(all, i);
        let mut total: usize = 0;
        let mut index: usize = 0;
        while index < items.len()
            invariant
                index <= items.len(),
                self.wf(),
                own == self.schema@,
                all == text::views(items@),
                total == text::total_bytes(all.take(index as int)),
                total <= 8192,
                fault == (|i: int| own.listed_fault(all, i)),
                first_fault(items.len() as int, fault) == fault_from(
                    index as int,
                    items.len() as int,
                    fault,
                ),
            decreases items.len() - index,
        {
            let value = &items[index];
            assert(fault(index as int) == own.listed_fault(all, index as int));
            proof {
                assert(all[index as int] == value@);
                assert(all.take(index + 1).drop_last() == all.take(index as int));
                assert(all.take(index + 1).last() == value@);
            }
            if !text::fits(value, 8192 - total) {
                return Err(
                    "template header enum violates its constraints or size limits".to_owned(),
                );
            }
            total = total + text::bytes(value).len();
            match self.validate(value) {
                Ok(()) => {},
                Err(_) => {
                    return Err(
                        "template header enum violates its constraints or size limits".to_owned(),
                    );
                },
            }
            if text::repeated(items, index) {
                return Err("duplicate template header enum value".to_owned());
            }
            index = index + 1;
        }
        Ok(())
    }
}

proof fn lemma_small_again(value: Seq<char>)
    ensures
        text::lowercase_of(text::lowercase_of(value)) == text::lowercase_of(value),
{
    assert(text::lowercase_of(text::lowercase_of(value)) =~= text::lowercase_of(value));
}

/// Checks the settings of a validation, and gives the compiled expression.
fn check_validation(validation: &HeaderValidation) -> (result: Result<Option<String>, String>)
    ensures
        match result {
            Ok(compiled) => validation@.fault() is None && text::view_of(compiled) == (
            if validation@.pattern.len() == 0 {
                None
            } else {
                Some(syntax::anchored(validation@.pattern))
            }),
            Err(reason) => validation@.fault() == Some(reason@),
        },
{
    if let Some(items) = &validation.values {
        if items.len() == 0 {
            return Err("template header enum must not be empty".to_owned());
        }
    }
    let minimum: usize = match validation.min_length {
        Some(value) => value,
        None => 0,
    };
    let maximum: usize = match validation.max_length {
        Some(value) => value,
        None => 8192,
    };
    if minimum > maximum || maximum > 8192 {
        return Err("template header length bounds must be within 0 to 8192".to_owned());
    }
    let many = match &validation.values {
        Some(items) => items.len() > 64,
        None => false,
    };
    if !text::fits(&validation.pattern, 512) || many {
        return Err("template header constraints exceed size limits".to_owned());
    }
    if validation.pattern.is_empty() {
        return Ok(None);
    }
    if syntax::validate_body_pattern(&validation.pattern).is_err() {
        return Err("unsupported template header pattern".to_owned());
    }
    match syntax::compile_pattern(&validation.pattern) {
        Some(compiled) => Ok(Some(compiled)),
        None => Err("invalid template header pattern".to_owned()),
    }
}

/// Whether a table holds exactly the first rules, each under its canonical caller name.
pub open spec fn holds_rules(table: Map<Seq<char>, Rule>, rules: Seq<RuleView>, count: int) -> bool {
    &&& forall|i: int|
        0 <= i < count ==> table.dom().contains((#[trigger] rules[i]).compiled().schema.name)
            && table[rules[i].compiled().schema.name].declared() == rules[i].compiled()
            && table[rules[i].compiled().schema.name].wf()
    &&& forall|name: Seq<char>| #[trigger]
        table.dom().contains(name) ==> exists|i: int|
            0 <= i < count && (#[trigger] rules[i]).compiled().schema.name == name
}

/// Checks the rules for caller headers beside the fixed headers of a template.
pub fn compile(rules: &Vec<HeaderRule>, fixed: &header::Headers, write: bool) -> (result: Result<
    Table<Rule>,
    String,
>)
    ensures
        match result {
            Ok(table) => rules_fault(
                rule_views(rules@),
                header::header_entries(*fixed).dom(),
                write,
            ) is None && holds_rules(table@, rule_views(rules@), rules@.len() as int),
            Err(reason) => rules_fault(
                rule_views(rules@),
                header::header_entries(*fixed).dom(),
                write,
            ) == Some(reason@),
        },
{
    let ghost all = rule_views(rules@);
    let ghost names_taken = header::header_entries(*fixed).dom();
    let ghost fault = |i: int| rule_fault(all, names_taken, write, i);
    let mut table: Table<Rule> = Table::new();
    let mut names: Vec<String> = Vec::new();
    let mut targets: Vec<String> = Vec::new();
    let mut index: usize = 0;
    while index < rules.len()
        invariant
            index <= rules.len(),
            all == rule_views(rules@),
            names_taken == header::header_entries(*fixed).dom(),
            fault == (|i: int| rule_fault(all, names_taken, write, i)),
            first_fault(rules.len() as int, fault) == fault_from(
                index as int,
                rules.len() as int,
                fault,
            ),
            names.len() == index,
            targets.len() == index,
            forall|j: int|
                0 <= j < index ==> #[trigger] names@[j]@ == all[j].compiled().schema.name,
            forall|j: int|
                0 <= j < index ==> #[trigger] targets@[j]@ == all[j].compiled().schema.forward_as,
            holds_rules(table@, all, index as int),
        decreases rules.len() - index,
    {
        let (schema, legacy) = rules[index].schema();
        let ghost given = all[index as int];
        assert(given == rules@[index as int]@);
        assert(fault(index as int) == rule_fault(all, names_taken, write, index as int));
        let rule = Rule { schema, legacy, pattern: None };
        assert(rule.declared() == given);
        let (source, destination) = match rule.check_front(fixed, write) {
            Ok(pair) => pair,
            Err(reason) => {
                return Err(reason);
            },
        };
        let name = headers::canonical(&source);
        let target = headers::canonical(&destination);
        let taken = text::contains_string(&names, &name);
        proof {
            if taken {
                let j = choose|j: int| 0 <= j < names@.len() && #[trigger] names@[j]@ == name@;
                assert(all[j].compiled().schema.name == name@);
            } else if same_source(all, index as int) {
                let j = choose|j: int|
                    0 <= j < index && (#[trigger] all[j]).compiled().schema.name
                        == given.compiled().schema.name;
                assert(names@[j]@ == name@);
            }
        }
        if taken {
            return Err("duplicate template caller header name".to_owned());
        }
        let used = text::contains_string(&targets, &target);
        proof {
            if used {
                let j = choose|j: int| 0 <= j < targets@.len() && #[trigger] targets@[j]@ == target@;
                assert(all[j].compiled().schema.forward_as == target@);
            } else if same_destination(all, index as int) {
                let j = choose|j: int|
                    0 <= j < index && (#[trigger] all[j]).compiled().schema.forward_as
                        == given.compiled().schema.forward_as;
                assert(targets@[j]@ == target@);
            }
        }
        if used {
            return Err("duplicate template outgoing header name".to_owned());
        }
        match rule.check_credential() {
            Ok(()) => {},
            Err(reason) => {
                return Err(reason);
            },
        }
        let mut rule = rule;
        let compiled = match &rule.schema.validation {
            Some(validation) => match check_validation(validation) {
                Ok(compiled) => compiled,
                Err(reason) => {
                    return Err(reason);
                },
            },
            None => None,
        };
        rule.pattern = compiled;
        assert(rule.declared() == given);
        assert(rule.wf());
        if let Some(validation) = &rule.schema.validation {
            if let Some(items) = &validation.values {
                proof {
                    let view = given.schema;
                    let listed = text::views(items@);
                    assert(view.validation->0.values == Some(listed));
                    assert((|i: int| view.listed_fault(view.validation->0.values->0, i)) =~= (|i: int|
                        view.listed_fault(listed, i)));
                }
                match rule.check_listed(items) {
                    Ok(()) => {},
                    Err(reason) => {
                        return Err(reason);
                    },
                }
            }
        }
        rule.schema.name = name.clone();
        rule.schema.forward_as = target.clone();
        assert(rule.declared() == given.compiled());
        assert(rule.wf());
        let ghost before = table@;
        names.push(name.clone());
        targets.push(target);
        table = table.insert(name, rule);
        proof {
            let own = given.compiled().schema.name;
            assert forall|i: int| 0 <= i < index + 1 implies table@.dom().contains(
                (#[trigger] all[i]).compiled().schema.name,
            ) && table@[all[i].compiled().schema.name].declared() == all[i].compiled()
                && table@[all[i].compiled().schema.name].wf() by {
                if i < index {
                    assert(all[i].compiled().schema.name != own);
                }
            }
            assert forall|key: Seq<char>| #[trigger] table@.dom().contains(key) implies exists|
                i: int,
            |
                0 <= i < index + 1 && (#[trigger] all[i]).compiled().schema.name == key by {
                if key == own {
                    assert(all[index as int].compiled().schema.name == key);
                } else {
                    assert(before.dom().contains(key));
                    let i = choose|i: int|
                        0 <= i < index && (#[trigger] all[i]).compiled().schema.name == key;
                    assert(all[i].compiled().schema.name == key);
                }
            }
        }
        index = index + 1;
    }
    let mut at: usize = 0;
    while at < names.len()
        invariant
            at <= names.len(),
            names.len() == rules.len(),
            targets.len() == rules.len(),
            all == rule_views(rules@),
            names_taken == header::header_entries(*fixed).dom(),
            rules_fault(all, names_taken, write) == unless(
                !overlapping(all),
                "template header source and destination names overlap"@,
            ),
            forall|j: int|
                0 <= j < names@.len() ==> #[trigger] names@[j]@ == all[j].compiled().schema.name,
            forall|j: int|
                0 <= j < targets@.len() ==> #[trigger] targets@[j]@
                    == all[j].compiled().schema.forward_as,
            forall|i: int, j: int|
                0 <= i < at && 0 <= j < all.len() && (
                #[trigger] all[i]).compiled().schema.name != all[i].compiled().schema.forward_as
                    ==> (#[trigger] all[j]).compiled().schema.name
                    != all[i].compiled().schema.forward_as,
        decreases names.len() - at,
    {
        let renamed = !text::same(&names[at], &targets[at]);
        let known = text::contains_string(&names, &targets[at]);
        proof {
            assert(names@[at as int]@ == all[at as int].compiled().schema.name);
            assert(targets@[at as int]@ == all[at as int].compiled().schema.forward_as);
            if known {
                let j = choose|j: int|
                    0 <= j < names@.len() && #[trigger] names@[j]@ == targets@[at as int]@;
                assert(all[j].compiled().schema.name == all[at as int].compiled().schema.forward_as);
            } else {
                assert forall|j: int| 0 <= j < all.len() implies (
                #[trigger] all[j]).compiled().schema.name
                    != all[at as int].compiled().schema.forward_as by {
                    assert(names@[j]@ == all[j].compiled().schema.name);
                }
            }
        }
        if renamed && known {
            return Err("template header source and destination names overlap".to_owned());
        }
        at = at + 1;
    }
    Ok(table)
}

/// No rule that was accepted sends anything under the name of a fixed header, and no two send under
/// the same name.
pub proof fn lemma_rules_apart(rules: Seq<RuleView>, fixed: Set<Seq<char>>, write: bool, at: int)
    requires
        rules_fault(rules, fixed, write) is None,
        0 <= at < rules.len(),
    ensures
        !fixed.contains(rules[at].schema.source()),
        !fixed.contains(rules[at].schema.destination()),
        !same_source(rules, at),
        !same_destination(rules, at),
{
    let fault = |i: int| rule_fault(rules, fixed, write, i);
    crate::checks::lemma_first_fault(0, rules.len() as int, fault);
    assert(fault(at) is None);
}

/// Of the headers that carry credentials, a caller can only send those that are supported, and only
/// by a credential rule.
pub proof fn lemma_credentials_ruled(rules: Seq<RuleView>, fixed: Set<Seq<char>>, write: bool, at: int)
    requires
        rules_fault(rules, fixed, write) is None,
        0 <= at < rules.len(),
        headers::is_credential(rules[at].schema.destination()),
    ensures
        rules[at].schema.credential,
        is_supported(rules[at].schema.destination()),
{
    let fault = |i: int| rule_fault(rules, fixed, write, i);
    crate::checks::lemma_first_fault(0, rules.len() as int, fault);
    assert(fault(at) is None);
}

/// An accepted header of a caller has no control characters, keeps its bounds, matches its whole pattern
/// where there is one, and is one of the listed values where some are listed.
pub proof fn lemma_accepted_header(header: HeaderView, value: Seq<char>, at: int)
    requires
        header.value_fault(value) is None,
    ensures
        0 <= at < value.len() ==> value[at] >= ' ' && value[at] != '\u{7f}',
        header.validation matches Some(validation) ==> {
            &&& validation.min_length matches Some(least) ==> value.len() >= least
            &&& validation.max_length matches Some(most) ==> value.len() <= most
            &&& validation.pattern.len() > 0 ==> pattern::regex_found(
                "\\A(?:"@ + syntax::normalized_from(validation.pattern, 0, false) + ")\\z"@,
                value,
            )
            &&& validation.pattern.len() > 0 && 0 <= at < value.len() ==> ' ' <= value[at] <= '~'
            &&& validation.values matches Some(items) ==> items.contains(value)
        },
{
    if 0 <= at < value.len() {
        let printable = |ch: char| headers::is_printable(ch);
        assert(text::every(value, printable));
        assert(printable(value[at]));
        if header.expression() is Some {
            let visible = |ch: char| syntax::is_visible(ch);
            assert(text::every(value, visible));
            assert(visible(value[at]));
        }
    }
}

/// A header without any checks is accepted where it has no control characters.
pub proof fn lemma_plain_header(header: HeaderView, value: Seq<char>)
    requires
        header.validation is None,
        forall|i: int| 0 <= i < value.len() ==> #[trigger] value[i] >= ' ' && value[i] != '\u{7f}',
    ensures
        header.value_fault(value) is None,
{
    let printable = |ch: char| headers::is_printable(ch);
    assert(text::every(value, printable));
}

/// A header that meets every check of its rule is accepted.
pub proof fn lemma_checked_header(header: HeaderView, value: Seq<char>)
    requires
        header.validation is Some,
        forall|i: int| 0 <= i < value.len() ==> ' ' <= #[trigger] value[i] <= '~',
        header.validation->0.min_length matches Some(least) ==> value.len() >= least,
        header.validation->0.max_length matches Some(most) ==> value.len() <= most,
        header.validation->0.pattern.len() > 0 ==> pattern::regex_found(
            "\\A(?:"@ + syntax::normalized_from(header.validation->0.pattern, 0, false) + ")\\z"@,
            value,
        ),
        header.validation->0.values matches Some(items) ==> items.contains(value),
    ensures
        header.value_fault(value) is None,
{
    let printable = |ch: char| headers::is_printable(ch);
    assert forall|i: int| 0 <= i < value.len() implies printable(#[trigger] value[i]) by {}
    assert(text::every(value, printable));
    let visible = |ch: char| syntax::is_visible(ch);
    assert(text::every(value, visible));
}

/// No rule that is no legacy one takes or makes a header of the transport or of an identity, and no rule of
/// a write takes or makes the headers of the body.
pub proof fn lemma_rule_names(rules: Seq<RuleView>, fixed: Set<Seq<char>>, write: bool, at: int, name: Seq<char>)
    requires
        rules_fault(rules, fixed, write) is None,
        0 <= at < rules.len(),
        name == text::lowercase_of(rules[at].schema.name) || (rules[at].schema.forward_as.len() > 0 && name
            == text::lowercase_of(rules[at].schema.forward_as)),
    ensures
        !rules[at].legacy ==> !"proxy-"@.is_prefix_of(name) && !"mcp-"@.is_prefix_of(name)
            && !"x-mcp-"@.is_prefix_of(name) && !"x-tunnel-"@.is_prefix_of(name)
            && !"x-openai-"@.is_prefix_of(name),
        write ==> name != "content-type"@ && name != "content-encoding"@,
        !fixed.contains(name),
        headers::is_credential(name) ==> rules[at].schema.credential && (name == "authorization"@ || name
            == "x-api-key"@ || name == "api-key"@),
        headers::template_name_fault(rules[at].schema.name) is None,
        rules[at].schema.forward_as.len() > 0 ==> headers::template_name_fault(
            rules[at].schema.forward_as,
        ) is None,
{
    let faults = |i: int| rule_fault(rules, fixed, write, i);
    crate::checks::lemma_first_fault(0, rules.len() as int, faults);
    assert(faults(at) is None);
}

/// A rule for a credential bounds its length, has a pattern and lists no values; no other rule needs them.
pub proof fn lemma_rule_checks(rules: Seq<RuleView>, fixed: Set<Seq<char>>, write: bool, at: int)
    requires
        rules_fault(rules, fixed, write) is None,
        0 <= at < rules.len(),
    ensures
        ({
            let schema = rules[at].schema;
            &&& schema.credential ==> schema.validation is Some && schema.validation->0.values is None
                && schema.validation->0.min_length is Some && schema.validation->0.min_length->0 > 0
                && schema.validation->0.max_length is Some && schema.validation->0.pattern.len() > 0
            &&& !rules[at].legacy ==> text::trim_of(schema.description).len() > 0 && text::byte_len(
                schema.description,
            ) <= 1024
            &&& schema.validation matches Some(validation) ==> {
                &&& validation.max_length matches Some(most) ==> most <= 8192
                &&& validation.max_length is Some && validation.min_length is Some
                    ==> validation.min_length->0 <= validation.max_length->0
                &&& validation.min_length matches Some(least) ==> least <= 8192
                &&& text::byte_len(validation.pattern) <= 512
                &&& validation.values matches Some(items) ==> 0 < items.len() <= 64
                &&& validation.pattern.len() > 0 ==> syntax::body_pattern_fault(validation.pattern) is None
                    && pattern::regex_valid(
                    "\\A(?:"@ + syntax::normalized_from(validation.pattern, 0, false) + ")\\z"@,
                )
            }
        }),
{
    let faults = |i: int| rule_fault(rules, fixed, write, i);
    crate::checks::lemma_first_fault(0, rules.len() as int, faults);
    assert(faults(at) is None);
}

/// The headers of two rules stay apart: no two take or make the same one, whatever its case.
pub proof fn lemma_rules_distinct(rules: Seq<RuleView>, fixed: Set<Seq<char>>, write: bool, first: int, second: int)
    requires
        rules_fault(rules, fixed, write) is None,
        0 <= first < second < rules.len(),
    ensures
        text::lowercase_of(rules[first].schema.name) != text::lowercase_of(rules[second].schema.name),
{
    lemma_rules_apart(rules, fixed, write, second);
    assert(rules[first].compiled().schema.name != rules[second].compiled().schema.name);
}

/// Which reason a value of a header is refused for.
pub proof fn lemma_value_reasons(declared: HeaderView, validation: HeaderValidationView, value: Seq<char>)
    ensures
        !text::every(value, |ch: char| headers::is_printable(ch)) ==> declared.value_fault(value) == Some(
            "invalid caller header value"@,
        ),
        text::every(value, |ch: char| headers::is_printable(ch)) && declared.validation == Some(validation) ==> {
            &&& (validation.min_length matches Some(low) && value.len() < low) ==> declared.value_fault(value)
                == Some("caller header length is outside its bounds"@)
            &&& (validation.max_length matches Some(high) && value.len() > high) ==> declared.value_fault(value)
                == Some("caller header length is outside its bounds"@)
            &&& validation.min_length is None && validation.max_length is None && validation.pattern.len() == 0 ==> (
            validation.values matches Some(items) ==> (!items.contains(value) ==> declared.value_fault(value)
                == Some("caller header is outside its enum"@)))
            &&& validation.min_length is None && validation.max_length is None && validation.pattern.len() > 0
                && text::every(value, |ch: char| syntax::is_visible(ch)) && !pattern::regex_found(
                syntax::anchored(validation.pattern),
                value,
            ) ==> declared.value_fault(value) == Some("caller header does not match its pattern"@)
        },
{
}

/// What a caller is told of a header: its bounds and its pattern, and its values unless it is a credential.
pub proof fn lemma_header_told(declared: HeaderView, validation: HeaderValidationView)
    ensures
        declared.validation is None ==> public_of(declared).at("maxLength"@) == Doc::number(8192) && public_of(
            declared,
        ).at("minLength"@) == Doc::Null,
        public_of(declared).at("type"@) == Doc::Text("string"@),
        declared.description.len() > 0 ==> public_of(declared).at("description"@) == Doc::Text(
            declared.description,
        ),
        declared.validation == Some(validation) ==> {
            let doc = public_of(declared);
            &&& validation.min_length matches Some(low) ==> doc.at("minLength"@) == Doc::number(low as nat)
            &&& validation.max_length matches Some(high) ==> doc.at("maxLength"@) == Doc::number(high as nat)
            &&& validation.values matches Some(items) ==> (!declared.credential ==> doc.at("enum"@) == json::texts(
                items,
            ))
            &&& declared.credential ==> doc.at("enum"@) == Doc::Null
            &&& validation.pattern.len() > 0 ==> doc.at("pattern"@) == Doc::Text(
                "^(?:"@ + validation.pattern + ")$"@,
            )
            &&& validation.pattern.len() == 0 ==> doc.at("pattern"@) == Doc::Null
        },
{
    reveal_strlit("type");
    reveal_strlit("maxLength");
    reveal_strlit("not");
    reveal_strlit("description");
    reveal_strlit("minLength");
    reveal_strlit("enum");
    reveal_strlit("pattern");
    assert("type"@.len() == 4 && "type"@[0] == 't');
    assert("maxLength"@.len() == 9 && "maxLength"@[1] == 'a');
    assert("not"@.len() == 3);
    assert("description"@.len() == 11);
    assert("minLength"@.len() == 9 && "minLength"@[1] == 'i');
    assert("enum"@.len() == 4 && "enum"@[0] == 'e');
    assert("pattern"@.len() == 7);
}

/// Which reason a rule is refused for.
pub proof fn lemma_rule_reasons(validation: HeaderValidationView, declared: HeaderView)
    ensures
        (validation.values matches Some(items) && items.len() == 0) ==> validation.fault() == Some(
            "template header enum must not be empty"@,
        ),
        validation.values is None && (validation.max_length matches Some(high) && high > 8192)
            ==> validation.fault() == Some("template header length bounds must be within 0 to 8192"@),
        declared.credential && (declared.validation matches Some(inner) && inner.values is Some)
            ==> declared.credential_fault() == Some("template credential rules cannot configure enum values"@),
        declared.credential && declared.validation is None ==> declared.credential_fault() == Some(
            "template credential rules require positive length bounds and a pattern"@,
        ),
        !declared.credential ==> declared.credential_fault() is None,
{
}

} // verus!
