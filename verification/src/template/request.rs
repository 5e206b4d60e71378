//! From arguments to the request of a template.

use vstd::prelude::*;
use crate::address::{are_segments, is_path_char, is_segment, of_origin, read_path, read_query};
use crate::checks::{either, fault_from, first_fault, tells, unless};
use crate::config::reference::Sources;
use crate::config::{header_bytes, name_fault, normalized_headers};
use crate::table::strings_of;
use crate::harpoon::headers;
use crate::table::{self, Table};
use crate::template::checked::{all_resolved, resolved_entries};
use crate::template::rules::{self, Rule, RuleView};
use crate::template::{
    field_text, part_text, part_texts, path_pieces, query_fields, syntax, url_fits, Definition,
    PartView, Template, MAX_URL,
};
use crate::{header, pattern, text};

verus! {

/// Whether some rule is more than a bare name.
pub open spec fn is_rich(table: Map<Seq<char>, Rule>) -> bool {
    exists|name: Seq<char>| #[trigger] table.dom().contains(name) && !table[name].legacy
}

impl Template {
    /// Whether some rule is more than a bare name.
    pub fn rich(&self) -> (result: bool)
        ensures
            result == is_rich(self.header_rules@),
    {
        let count: usize = self.header_rules.len();
        let mut index: usize = 0;
        while index < count
            invariant
                index <= count,
                count == self.header_rules.keys().len(),
                forall|i: int|
                    0 <= i < count ==> self.header_rules@.dom().contains(
                        #[trigger] self.header_rules.keys()[i],
                    ) && self.header_rules@[self.header_rules.keys()[i]]
                        == self.header_rules.values()[i],
                forall|key: Seq<char>|
                    self.header_rules@.dom().contains(key)
                        <==> #[trigger] self.header_rules.keys().contains(key),
                forall|i: int|
                    0 <= i < index ==> self.header_rules@[#[trigger] self.header_rules.keys()[i]].legacy,
            decreases count - index,
        {
            if !self.header_rules.value(index).legacy {
                assert(self.header_rules@.dom().contains(self.header_rules.keys()[index as int]));
                return true;
            }
            index = index + 1;
        }
        proof {
            if is_rich(self.header_rules@) {
                let name = choose|name: Seq<char>| #[trigger]
                    self.header_rules@.dom().contains(name) && !self.header_rules@[name].legacy;
                assert(self.header_rules.keys().contains(name));
                let i = choose|i: int|
                    0 <= i < self.header_rules.keys().len() && self.header_rules.keys()[i] == name;
                assert(self.header_rules@[self.header_rules.keys()[i]].legacy);
            }
        }
        false
    }

    /// How a refused header is told: with its code where some rule is more than a bare name.
    pub open spec fn header_message(self, code: Seq<char>, reason: Seq<char>) -> Seq<char> {
        if is_rich(self.header_rules@) {
            code + ": "@ + reason
        } else {
            reason
        }
    }

    /// How a refused header is told.
    pub fn header_error(&self, code: &str, reason: &str) -> (result: String)
        ensures
            result@ == self.header_message(code@, reason@),
    {
        if self.rich() {
            text::cat3(code, ": ", reason)
        } else {
            reason.to_owned()
        }
    }

    /// The name of the rule for a caller header.
    pub open spec fn rule_name(name: Seq<char>) -> Seq<char> {
        headers::canonical_of(name)
    }

    /// The name under which a caller header goes out.
    pub open spec fn destination(self, name: Seq<char>) -> Seq<char> {
        text::lowercase_of(self.header_rules@[Self::rule_name(name)].schema@.forward_as)
    }

    /// Why a caller header is refused, if so.
    pub open spec fn caller_fault(self, name: Seq<char>, values: Seq<Seq<u8>>) -> Option<Seq<char>> {
        if headers::template_name_fault(name) is Some {
            Some(
                self.header_message("header_invalid"@, headers::template_name_fault(name)->0),
            )
        } else if !self.header_rules@.dom().contains(Self::rule_name(name)) {
            Some(
                self.header_message(
                    "header_not_allowed"@,
                    "caller header is not permitted by the target"@,
                ),
            )
        } else if values.len() != 1 {
            Some(self.header_message("header_duplicate"@, "duplicate caller header name"@))
        } else {
            match text::utf8_text(values[0]) {
                None => Some(
                    self.header_message("header_invalid"@, "invalid caller header value"@),
                ),
                Some(value) => match self.header_rules@[Self::rule_name(
                    name,
                )].schema@.value_fault(value) {
                    Some(reason) => Some(self.header_message("header_invalid"@, reason)),
                    None => None,
                },
            }
        }
    }

    /// Whether each caller header is accepted.
    pub open spec fn callers_accepted(self, caller: Map<Seq<char>, Seq<Seq<u8>>>) -> bool {
        forall|name: Seq<char>| #[trigger]
            caller.dom().contains(name) ==> self.caller_fault(name, caller[name]) is None
    }

    /// Whether each required caller header is there.
    pub open spec fn required_present(self, caller: Map<Seq<char>, Seq<Seq<u8>>>) -> bool {
        forall|name: Seq<char>| #[trigger]
            self.header_rules@.dom().contains(name) && self.header_rules@[name].schema.required
                ==> caller.dom().contains(
                text::lowercase_of(self.header_rules@[name].schema.name@),
            )
    }

    /// Whether the header goes out for one of the caller.
    pub open spec fn is_forwarded(self, caller: Map<Seq<char>, Seq<Seq<u8>>>, name: Seq<char>) -> bool {
        exists|source: Seq<char>| #[trigger]
            caller.dom().contains(source) && self.destination(source) == name
    }

    /// The caller header that goes out under a name.
    pub open spec fn source_of(self, caller: Map<Seq<char>, Seq<Seq<u8>>>, name: Seq<char>) -> Seq<char> {
        choose|source: Seq<char>| #[trigger]
            caller.dom().contains(source) && self.destination(source) == name
    }

    /// The headers that go out: the fixed ones, and those of the caller under their outgoing names.
    pub open spec fn forwarded(self, caller: Map<Seq<char>, Seq<Seq<u8>>>) -> Map<
        Seq<char>,
        Seq<Seq<u8>>,
    > {
        Map::new(
            |name: Seq<char>| self.fixed().dom().contains(name) || self.is_forwarded(caller, name),
            |name: Seq<char>|
                if self.is_forwarded(caller, name) {
                    caller[self.source_of(caller, name)]
                } else {
                    self.fixed()[name]
                },
        )
    }

    /// The headers under the names by which they were given.
    pub open spec fn supplied(self, caller: Map<Seq<char>, Seq<Seq<u8>>>) -> Map<
        Seq<char>,
        Seq<Seq<u8>>,
    > {
        self.fixed().union_prefer_right(caller)
    }

    /// Why the number or the size of the headers is refused, if so.
    pub open spec fn budget_fault(self, caller: Map<Seq<char>, Seq<Seq<u8>>>) -> Option<Seq<char>> {
        match either(
            headers::template_size_fault(self.supplied(caller)),
            headers::template_size_fault(self.forwarded(caller)),
        ) {
            Some(reason) => Some(self.header_message("header_budget_exceeded"@, reason)),
            None => None,
        }
    }

    /// Whether the caller headers are accepted.
    pub open spec fn caller_accepted(self, caller: Map<Seq<char>, Seq<Seq<u8>>>) -> bool {
        &&& caller.dom().len() <= 32
        &&& self.callers_accepted(caller)
        &&& self.required_present(caller)
        &&& self.budget_fault(caller) is None
    }

    /// Whether the reason tells why the caller headers are refused. Of several refused headers it is
    /// left open which counts.
    pub open spec fn caller_refused(
        self,
        caller: Map<Seq<char>, Seq<Seq<u8>>>,
        reason: Seq<char>,
    ) -> bool {
        if caller.dom().len() > 32 {
            reason == self.header_message("header_budget_exceeded"@, "too many template headers"@)
        } else if !self.callers_accepted(caller) {
            exists|name: Seq<char>| #[trigger]
                caller.dom().contains(name) && self.caller_fault(name, caller[name]) == Some(reason)
        } else if !self.required_present(caller) {
            reason == self.header_message(
                "header_required"@,
                "required caller header is missing"@,
            )
        } else {
            self.budget_fault(caller) == Some(reason)
        }
    }

    /// Two caller headers with a rule go out under different names, and neither under the name of a
    /// fixed header.
    pub proof fn lemma_destinations(self, left: Seq<char>, right: Seq<char>)
        requires
            self.wf(),
            text::lowercase_of(left) == left,
            text::lowercase_of(right) == right,
            self.header_rules@.dom().contains(Self::rule_name(left)),
            self.header_rules@.dom().contains(Self::rule_name(right)),
        ensures
            self.destination(left) == self.destination(right) ==> left == right,
            !self.fixed().dom().contains(self.destination(left)),
            !self.fixed().dom().contains(left),
            header::is_name(self.destination(left)),
            header::is_name(self.header_rules@[Self::rule_name(left)].schema@.forward_as),
    {
        let items = choose|items: Seq<RuleView>| #[trigger] self.has_rules(items);
        let a = Self::rule_name(left);
        let b = Self::rule_name(right);
        let i = choose|i: int|
            0 <= i < items.len() && (#[trigger] items[i]).compiled().schema.name == a;
        let j = choose|j: int|
            0 <= j < items.len() && (#[trigger] items[j]).compiled().schema.name == b;
        assert(self.header_rules@[a].declared() == items[i].compiled());
        assert(self.header_rules@[b].declared() == items[j].compiled());
        let to_left = items[i].schema.destination();
        let to_right = items[j].schema.destination();
        headers::lemma_canonical_small(to_left);
        headers::lemma_canonical_small(to_right);
        assert(text::lowercase_of(to_left) =~= to_left);
        assert(text::lowercase_of(to_right) =~= to_right);
        rules::lemma_rules_apart(items, self.fixed().dom(), self.writes(), i);
        rules::lemma_rules_apart(items, self.fixed().dom(), self.writes(), j);
        if self.destination(left) == self.destination(right) {
            if i < j {
                assert(items[i].compiled().schema.forward_as
                    == items[j].compiled().schema.forward_as);
                assert(rules::same_destination(items, j));
            } else if j < i {
                assert(items[i].compiled().schema.forward_as
                    == items[j].compiled().schema.forward_as);
                assert(rules::same_destination(items, i));
            }
            assert(a == b);
            headers::lemma_canonical_folds(left, right);
        }
        let source = items[i].schema.source();
        assert(text::lowercase_of(source) =~= source);
        headers::lemma_canonical_folds(source, left);
        assert(source == left);
        let fault = |k: int| rules::rule_fault(items, self.fixed().dom(), self.writes(), k);
        crate::checks::lemma_first_fault(0, items.len() as int, fault);
        assert(fault(i) is None);
        assert(items[i].front_fault(self.fixed().dom(), self.writes()) is None);
        let raw = if items[i].schema.forward_as.len() == 0 {
            items[i].schema.name
        } else {
            items[i].schema.forward_as
        };
        assert(header::is_name(raw));
        assert(to_left == text::lowercase_of(raw));
        lemma_small_name(raw);
        lemma_canonical_name(to_left);
    }
}

proof fn lemma_small_name(name: Seq<char>)
    requires
        header::is_name(name),
    ensures
        header::is_name(text::lowercase_of(name)),
{
    let small = text::lowercase_of(name);
    let test = |ch: char| header::is_token(ch);
    assert forall|i: int| 0 <= i < small.len() implies test(#[trigger] small[i]) by {
        assert(test(name[i]));
        assert(small[i] == text::lower_of(name[i]));
    }
}

proof fn lemma_canonical_name(name: Seq<char>)
    requires
        header::is_name(name),
    ensures
        header::is_name(headers::canonical_of(name)),
{
    let whole = headers::canonical_of(name);
    let test = |ch: char| header::is_token(ch);
    assert forall|i: int| 0 <= i < whole.len() implies test(#[trigger] whole[i]) by {
        assert(test(name[i]));
    }
}

/// The part of a map whose names come before an index of a list.
pub open spec fn first_of(
    map: Map<Seq<char>, Seq<Seq<u8>>>,
    names: Seq<Seq<char>>,
    count: int,
) -> Map<Seq<char>, Seq<Seq<u8>>> {
    map.restrict(names.take(count).to_set())
}

impl Template {
    proof fn lemma_forward_step(
        self,
        caller: Map<Seq<char>, Seq<Seq<u8>>>,
        before: Map<Seq<char>, Seq<Seq<u8>>>,
        after: Map<Seq<char>, Seq<Seq<u8>>>,
        name: Seq<char>,
    )
        requires
            self.wf(),
            caller.dom().contains(name),
            after == before.insert(name, caller[name]),
            !before.dom().contains(name),
            text::lowercase_of(name) == name,
            self.header_rules@.dom().contains(Self::rule_name(name)),
            forall|other: Seq<char>| #[trigger]
                before.dom().contains(other) ==> text::lowercase_of(other) == other
                    && self.header_rules@.dom().contains(Self::rule_name(other)),
        ensures
            self.forwarded(after) == self.forwarded(before).insert(
                self.destination(name),
                caller[name],
            ),
            self.supplied(after) == self.supplied(before).insert(name, caller[name]),
    {
        let out = self.destination(name);
        let left = self.forwarded(after);
        let right = self.forwarded(before).insert(out, caller[name]);
        self.lemma_destinations(name, name);
        assert forall|other: Seq<char>| left.dom().contains(other) == right.dom().contains(other) by {
            if self.is_forwarded(after, other) {
                let source = choose|source: Seq<char>| #[trigger]
                    after.dom().contains(source) && self.destination(source) == other;
                if source != name {
                    assert(before.dom().contains(source));
                }
            }
            if self.is_forwarded(before, other) {
                let source = choose|source: Seq<char>| #[trigger]
                    before.dom().contains(source) && self.destination(source) == other;
                assert(after.dom().contains(source));
            }
            if other == out {
                assert(after.dom().contains(name));
            }
        }
        assert forall|other: Seq<char>| #[trigger] left.dom().contains(other) implies left[other]
            == right[other] by {
            if self.is_forwarded(after, other) {
                let source = self.source_of(after, other);
                assert(after.dom().contains(source) && self.destination(source) == other);
                if other == out {
                    if source != name {
                        self.lemma_destinations(source, name);
                    }
                } else {
                    assert(source != name);
                    assert(before.dom().contains(source));
                    assert(self.is_forwarded(before, other));
                    let earlier = self.source_of(before, other);
                    assert(before.dom().contains(earlier) && self.destination(earlier) == other);
                    self.lemma_destinations(source, earlier);
                }
            } else {
                assert(other != out) by {
                    assert(after.dom().contains(name));
                }
                if self.is_forwarded(before, other) {
                    let earlier = self.source_of(before, other);
                    assert(after.dom().contains(earlier));
                }
            }
        }
        assert(left =~= right);
        assert(self.supplied(after) =~= self.supplied(before).insert(name, caller[name]));
    }

    /// The headers that go out for the headers of a caller.
    pub fn caller_headers(&self, caller: &header::Headers) -> (result: Result<
        header::Headers,
        String,
    >)
        requires
            self.wf(),
        ensures
            match result {
                Ok(map) => self.caller_accepted(header::header_entries(*caller))
                    && header::header_entries(map) == self.forwarded(
                    header::header_entries(*caller),
                ) && header::header_entries(map).dom().finite() && header::header_entries(
                    map,
                ).dom().len() <= 33,
                Err(reason) => self.caller_refused(header::header_entries(*caller), reason@),
            },
    {
        let names = header::names(caller);
        let ghost entries = header::header_entries(*caller);
        let ghost all = text::views(names@);
        assert(all.len() == names@.len());
        if names.len() > 32 {
            return Err(self.header_error("header_budget_exceeded", "too many template headers"));
        }
        let mut out = header::duplicate(&self.headers);
        let mut given = header::duplicate(&self.headers);
        let mut index: usize = 0;
        proof {
            let none = first_of(entries, all, 0);
            assert(all.take(0).to_set() =~= Set::<Seq<char>>::empty());
            assert(none =~= header::no_entries());
            assert(self.forwarded(none) =~= self.fixed());
            assert(self.supplied(none) =~= self.fixed());
        }
        while index < names.len()
            invariant
                self.wf(),
                index <= names.len() <= 32,
                entries == header::header_entries(*caller),
                all == text::views(names@),
                all.len() == names@.len(),
                header::lists_names(all, entries),
                header::header_entries(out) == self.forwarded(first_of(entries, all, index as int)),
                header::header_entries(given) == self.supplied(
                    first_of(entries, all, index as int),
                ),
                header::header_entries(out).dom().finite(),
                header::header_entries(out).dom().len() <= 33 + index,
                header::header_entries(given).dom().finite(),
                header::header_entries(given).dom().len() <= 33 + index,
                forall|i: int|
                    0 <= i < index ==> self.caller_fault(#[trigger] all[i], entries[all[i]]) is None,
            decreases names.len() - index,
        {
            let name = &names[index];
            let ghost own = name@;
            assert(all[index as int] == own);
            assert(all.contains(own));
            assert(entries.dom().contains(own));
            assert(header::is_name(own) && text::lowercase_of(own) == own);
            match headers::template_name(name) {
                Ok(_) => {},
                Err(reason) => {
                    return Err(self.header_error("header_invalid", &reason));
                },
            }
            let canonical = headers::canonical(name);
            let rule = match self.header_rules.get(&canonical) {
                Some(rule) => rule,
                None => {
                    return Err(
                        self.header_error(
                            "header_not_allowed",
                            "caller header is not permitted by the target",
                        ),
                    );
                },
            };
            proof {
                self.lemma_rule_wf(Self::rule_name(own));
            }
            let values = header::values(caller, name);
            assert(header::byte_views(values@).len() == values@.len());
            if values.len() != 1 {
                return Err(self.header_error("header_duplicate", "duplicate caller header name"));
            }
            assert(header::byte_views(values@)[0] == values@[0]@);
            let value = match text::from_utf8(&values[0]) {
                Some(value) => value,
                None => {
                    return Err(self.header_error("header_invalid", "invalid caller header value"));
                },
            };
            match rule.validate(&value) {
                Ok(()) => {},
                Err(reason) => {
                    return Err(self.header_error("header_invalid", &reason));
                },
            }
            proof {
                let before = first_of(entries, all, index as int);
                let after = first_of(entries, all, index + 1);
                assert(!before.dom().contains(own)) by {
                    if all.take(index as int).to_set().contains(own) {
                        let i = choose|i: int|
                            0 <= i < all.take(index as int).len() && all.take(index as int)[i]
                                == own;
                        assert(all[i] == own);
                    }
                }
                assert(after =~= before.insert(own, entries[own])) by {
                    assert(all.take(index + 1) =~= all.take(index as int).push(own));
                    assert forall|other: Seq<char>| all.take(index + 1).to_set().contains(other) == (
                    other == own || all.take(index as int).to_set().contains(other)) by {
                        let longer = all.take(index + 1);
                        let shorter = all.take(index as int);
                        if longer.contains(other) && other != own {
                            let i = choose|i: int| 0 <= i < longer.len() && longer[i] == other;
                            assert(shorter[i] == other);
                        }
                        if shorter.contains(other) {
                            let i = choose|i: int| 0 <= i < shorter.len() && shorter[i] == other;
                            assert(longer[i] == other);
                        }
                        assert(longer[index as int] == own);
                    }
                }
                assert forall|other: Seq<char>| #[trigger]
                    before.dom().contains(other) implies text::lowercase_of(other) == other
                    && self.header_rules@.dom().contains(Self::rule_name(other)) by {
                    assert(all.take(index as int).contains(other));
                    let i = choose|i: int|
                        0 <= i < all.take(index as int).len() && all.take(index as int)[i] == other;
                    assert(all[i] == other);
                    assert(self.caller_fault(all[i], entries[all[i]]) is None);
                }
                self.lemma_forward_step(entries, before, after, own);
                self.lemma_destinations(own, own);
                assert(entries[own] =~= seq![values@[0]@]);
            }
            header::put(&mut given, name, values[0].clone());
            header::put(&mut out, &rule.schema.forward_as, values[0].clone());
            index = index + 1;
        }
        proof {
            let whole = first_of(entries, all, index as int);
            assert(all.take(index as int) =~= all);
            assert(whole =~= entries) by {
                assert forall|name: Seq<char>| whole.dom().contains(name) == entries.dom().contains(
                    name,
                ) by {
                    if entries.dom().contains(name) {
                        assert(all.contains(name));
                    }
                }
            }
            assert forall|name: Seq<char>| #[trigger]
                entries.dom().contains(name) implies self.caller_fault(name, entries[name]) is None by {
                assert(all.contains(name));
                let i = choose|i: int| 0 <= i < all.len() && all[i] == name;
                assert(all[i] == name);
            }
        }
        if !self.check_required(caller) {
            return Err(self.header_error("header_required", "required caller header is missing"));
        }
        match headers::template_size(&given) {
            Ok(()) => {},
            Err(reason) => {
                return Err(self.header_error("header_budget_exceeded", &reason));
            },
        }
        match headers::template_size(&out) {
            Ok(()) => {},
            Err(reason) => {
                return Err(self.header_error("header_budget_exceeded", &reason));
            },
        }
        Ok(out)
    }

    proof fn lemma_rule_wf(self, name: Seq<char>)
        requires
            self.wf(),
            self.header_rules@.dom().contains(name),
        ensures
            self.header_rules@[name].wf(),
    {
        let items = choose|items: Seq<RuleView>| #[trigger] self.has_rules(items);
        let i = choose|i: int|
            0 <= i < items.len() && (#[trigger] items[i]).compiled().schema.name == name;
        assert(items[i].compiled().schema.name == name);
    }

    fn check_required(&self, caller: &header::Headers) -> (result: bool)
        ensures
            result == self.required_present(header::header_entries(*caller)),
    {
        let count: usize = self.header_rules.len();
        let mut index: usize = 0;
        let ghost entries = header::header_entries(*caller);
        while index < count
            invariant
                index <= count,
                count == self.header_rules.keys().len(),
                entries == header::header_entries(*caller),
                forall|i: int|
                    0 <= i < count ==> self.header_rules@.dom().contains(
                        #[trigger] self.header_rules.keys()[i],
                    ) && self.header_rules@[self.header_rules.keys()[i]]
                        == self.header_rules.values()[i],
                forall|key: Seq<char>|
                    self.header_rules@.dom().contains(key)
                        <==> #[trigger] self.header_rules.keys().contains(key),
                forall|i: int|
                    0 <= i < index && self.header_rules@[
                        #[trigger] self.header_rules.keys()[i]].schema.required
                        ==> entries.dom().contains(
                        text::lowercase_of(
                            self.header_rules@[self.header_rules.keys()[i]].schema.name@,
                        ),
                    ),
            decreases count - index,
        {
            let rule = self.header_rules.value(index);
            if rule.schema.required && !header::has(caller, &rule.schema.name) {
                assert(self.header_rules@.dom().contains(self.header_rules.keys()[index as int]));
                return false;
            }
            index = index + 1;
        }
        proof {
            assert forall|name: Seq<char>| #[trigger]
                self.header_rules@.dom().contains(name)
                && self.header_rules@[name].schema.required implies entries.dom().contains(
                text::lowercase_of(self.header_rules@[name].schema.name@),
            ) by {
                assert(self.header_rules.keys().contains(name));
                let i = choose|i: int|
                    0 <= i < self.header_rules.keys().len() && self.header_rules.keys()[i] == name;
                assert(self.header_rules.keys()[i] == name);
            }
        }
        true
    }

    /// Why the value of a parameter is refused, if so.
    pub open spec fn argument_fault(self, values: Map<Seq<char>, Seq<char>>, at: int) -> Option<
        Seq<char>,
    > {
        let name = self.parameters.keys()[at];
        if !values.dom().contains(name) {
            Some("parameter "@ + name + " must be a string"@)
        } else if self.parameters.values()[at].definition@.value_fault(values[name]) is Some {
            Some("parameter "@ + name)
        } else {
            None
        }
    }

    /// Why the values of the parameters are refused, if so.
    pub open spec fn arguments_fault(self, values: Map<Seq<char>, Seq<char>>, count: int) -> Option<
        Seq<char>,
    > {
        either(
            unless(
                count == self.parameters.keys().len(),
                "template parameter keys must match the declared schema"@,
            ),
            either(
                first_fault(
                    self.parameters.keys().len() as int,
                    |i: int| self.argument_fault(values, i),
                ),
                unless(url_fits(self.url_for(values)), "rendered URL exceeds size limit"@),
            ),
        )
    }

    /// The headers of a rendered request.
    pub open spec fn rendered(self, caller: Map<Seq<char>, Seq<Seq<u8>>>) -> Map<
        Seq<char>,
        Seq<Seq<u8>>,
    > {
        self.forwarded(caller).insert(
            "user-agent"@,
            seq![vstd::utf8::encode_utf8(headers::USER_AGENT@)],
        )
    }

    /// Whether the values are those of the parameters, and each is accepted.
    pub open spec fn takes(self, values: Map<Seq<char>, Seq<char>>) -> bool {
        &&& values.dom() == self.parameters@.dom()
        &&& forall|name: Seq<char>| #[trigger]
            self.parameters@.dom().contains(name)
                ==> self.parameters@[name].definition@.value_fault(values[name]) is None
    }

    proof fn lemma_segments(self, values: Map<Seq<char>, Seq<char>>)
        requires
            self.wf(),
            self.takes(values),
        ensures
            are_segments(part_texts(self.path_view(), values)),
            forall|i: int|
                0 <= i < self.path_view().len() ==> !(#[trigger] part_texts(
                    self.path_view(),
                    values,
                )[i]).contains('/'),
    {
        let parts = self.path_view();
        let texts = part_texts(parts, values);
        let test = |ch: char| syntax::is_identifier_char(ch);
        assert forall|i: int| 0 <= i < parts.len() implies (is_segment(#[trigger] texts[i]) || (
        texts[i].len() == 0 && parts.len() == 1)) && !texts[i].contains('/') by {
            match parts[i] {
                PartView::Parameter(name) => {
                    assert(self.parameters@.dom().contains(name));
                    assert(syntax::is_identifier(values[name]));
                },
                PartView::Literal(_) => {},
            }
            assert forall|at: int| 0 <= at < texts[i].len() implies is_path_char(
                #[trigger] texts[i][at],
            ) by {
                assert(test(texts[i][at]));
            }
        }
        if !(is_segment(texts[0])) {
            assert(texts[0] =~= Seq::<char>::empty());
            assert(texts =~= seq![Seq::<char>::empty()]);
        }
    }

    /// Whatever values are accepted, a request goes to the origin of the template, its path has the
    /// pieces of the template in their order, and its query the fields of the template.
    pub proof fn lemma_destination_kept(self, values: Map<Seq<char>, Seq<char>>, url: Seq<char>)
        requires
            self.wf(),
            self.takes(values),
            self.lands(values, url),
        ensures
            of_origin(url, self.origin@),
            path_pieces(read_path(url)) == part_texts(self.path_view(), values),
            path_pieces(read_path(url)).len() == self.path@.len(),
            self.query.keys().len() == 0 ==> read_query(url) is None,
            self.query.keys().len() > 0 ==> read_query(url) is Some && text::split_of(
                read_query(url)->0,
                '&',
            ) == query_fields(self.query.keys(), self.query_view(), values),
            forall|i: int|
                0 <= i < self.query.keys().len() ==> text::split_once_of(
                    #[trigger] query_fields(self.query.keys(), self.query_view(), values)[i],
                    '=',
                ) == Some(
                    (
                        pattern::form_of(vstd::utf8::encode_utf8(self.query.keys()[i])),
                        pattern::form_of(
                            vstd::utf8::encode_utf8(part_text(self.query_view()[i], values)),
                        ),
                    ),
                ),
    {
        let texts = part_texts(self.path_view(), values);
        self.lemma_segments(values);
        text::lemma_split_joined(texts, '/');
        assert(read_path(url).skip(1) =~= text::joined(texts, seq!['/']));
        let keys = self.query.keys();
        let fields = query_fields(keys, self.query_view(), values);
        assert forall|i: int| 0 <= i < keys.len() implies !(#[trigger] fields[i]).contains('&')
            && text::split_once_of(fields[i], '=') == Some(
            (
                pattern::form_of(vstd::utf8::encode_utf8(keys[i])),
                pattern::form_of(
                    vstd::utf8::encode_utf8(part_text(self.query_view()[i], values)),
                ),
            ),
        ) by {
            lemma_field_split(keys[i], part_text(self.query_view()[i], values));
        }
        if keys.len() > 0 {
            reveal_strlit("&");
            assert("&"@ =~= seq!['&']);
            text::lemma_split_joined(fields, '&');
        }
    }

    /// The URL and the headers for the given values and caller headers.
    pub fn render(&self, values: &Table<String>, caller: &header::Headers) -> (result: Result<
        (String, header::Headers),
        String,
    >)
        requires
            self.wf(),
        ensures
            match result {
                Ok((url, map)) => self.arguments_fault(
                    strings_of(values@),
                    values.keys().len() as int,
                ) is None && self.caller_accepted(header::header_entries(*caller)) && Some(url@)
                    == self.url_for(strings_of(values@)) && header::header_entries(map)
                    == self.rendered(header::header_entries(*caller)) && header::header_entries(
                    map,
                ).dom().finite() && header::header_entries(map).dom().len() <= 34,
                Err(reason) => match self.arguments_fault(
                    strings_of(values@),
                    values.keys().len() as int,
                ) {
                    Some(expected) => reason@ == expected,
                    None => self.caller_refused(header::header_entries(*caller), reason@),
                },
            },
            result matches Ok((url, _)) ==> self.takes(strings_of(values@)) && self.lands(
                strings_of(values@),
                url@,
            ),
    {
        let count: usize = self.parameters.len();
        let total: usize = values.len();
        if total != count {
            return Err("template parameter keys must match the declared schema".to_owned());
        }
        let ghost given = strings_of(values@);
        let ghost fault = |i: int| self.argument_fault(given, i);
        let mut index: usize = 0;
        while index < count
            invariant
                self.wf(),
                index <= count,
                count == self.parameters.keys().len(),
                count == values.keys().len(),
                given == strings_of(values@),
                forall|i: int|
                    0 <= i < count ==> self.parameters@.dom().contains(
                        #[trigger] self.parameters.keys()[i],
                    ) && self.parameters@[self.parameters.keys()[i]] == self.parameters.values()[i],
                forall|key: Seq<char>|
                    self.parameters@.dom().contains(key)
                        <==> #[trigger] self.parameters.keys().contains(key),
                fault == (|i: int| self.argument_fault(given, i)),
                first_fault(count as int, fault) == fault_from(index as int, count as int, fault),
                forall|i: int|
                    0 <= i < index ==> values@.dom().contains(#[trigger] self.parameters.keys()[i])
                        && self.parameters.values()[i].definition@.value_fault(
                        given[self.parameters.keys()[i]],
                    ) is None,
            decreases count - index,
        {
            let name = self.parameters.key(index);
            assert(fault(index as int) == self.argument_fault(given, index as int));
            assert(self.parameters@.dom().contains(self.parameters.keys()[index as int]));
            match values.get(name) {
                None => {
                    return Err(text::cat3("parameter ", name, " must be a string"));
                },
                Some(value) => match self.parameters.value(index).validate(value) {
                    Ok(()) => {},
                    Err(_) => {
                        return Err(text::cat("parameter ", name));
                    },
                },
            }
            index = index + 1;
        }
        proof {
            assert forall|name: Seq<char>| #[trigger]
                self.parameters@.dom().contains(name) implies values@.dom().contains(name)
                && self.parameters@[name].definition@.value_fault(given[name]) is None by {
                assert(self.parameters.keys().contains(name));
                let i = choose|i: int|
                    0 <= i < self.parameters.keys().len() && self.parameters.keys()[i] == name;
                assert(values@.dom().contains(self.parameters.keys()[i]));
            }
            table::lemma_same_names(self.parameters.keys(), values.keys());
            assert(values@.dom() =~= self.parameters@.dom()) by {
                assert forall|name: Seq<char>| values@.dom().contains(name) implies #[trigger]
                    self.parameters@.dom().contains(name) by {
                    assert(values.keys().contains(name));
                    assert(self.parameters.keys().contains(name));
                }
            }
            assert(given.dom() =~= values@.dom());
            self.lemma_segments(given);
            assert forall|i: int| 0 <= i < self.path_view().len() implies ((
            #[trigger] self.path_view()[i]) matches PartView::Parameter(name)
                ==> values@.dom().contains(name)) by {
                if let PartView::Parameter(name) = self.path_view()[i] {
                    assert(self.parameters@.dom().contains(name));
                }
            }
            assert forall|i: int| 0 <= i < self.query_view().len() implies ((
            #[trigger] self.query_view()[i]) matches PartView::Parameter(name)
                ==> values@.dom().contains(name)) by {
                if let PartView::Parameter(name) = self.query_view()[i] {
                    assert(self.parameters@.dom().contains(name));
                }
            }
        }
        let url = match self.url(values) {
            Some(url) => url,
            None => {
                return Err("rendered URL exceeds size limit".to_owned());
            },
        };
        if !text::fits(&url, MAX_URL) {
            return Err("rendered URL exceeds size limit".to_owned());
        }
        let mut map = match self.caller_headers(caller) {
            Ok(map) => map,
            Err(reason) => {
                return Err(reason);
            },
        };
        proof {
            reveal_strlit("user-agent");
            assert(text::lowercase_of("user-agent"@) =~= "user-agent"@);
        }
        header::put(&mut map, "user-agent", text::bytes(headers::USER_AGENT));
        Ok((url, map))
    }
}

proof fn lemma_field_split(key: Seq<char>, value: Seq<char>)
    ensures
        !field_text(key, value).contains('&'),
        text::split_once_of(field_text(key, value), '=') == Some(
            (
                pattern::form_of(vstd::utf8::encode_utf8(key)),
                pattern::form_of(vstd::utf8::encode_utf8(value)),
            ),
        ),
{
    let test = |ch: char| pattern::is_form_char(ch);
    let left = pattern::form_of(vstd::utf8::encode_utf8(key));
    let right = pattern::form_of(vstd::utf8::encode_utf8(value));
    let all = field_text(key, value);
    pattern::lemma_form_chars(vstd::utf8::encode_utf8(key));
    pattern::lemma_form_chars(vstd::utf8::encode_utf8(value));
    reveal_strlit("=");
    assert forall|i: int| 0 <= i < all.len() implies #[trigger] all[i] != '&' && (i < left.len()
        ==> all[i] != '=') by {
        if i < left.len() {
            assert(all[i] == left[i] && test(left[i]));
        } else if i > left.len() {
            assert(all[i] == right[i - left.len() - 1] && test(right[i - left.len() - 1]));
        }
    }
    text::lemma_index_is(all, '=', left.len() as int);
    assert(all.take(left.len() as int) =~= left);
    assert(all.skip(left.len() as int + 1) =~= right);
}

/// A request that is ready to be sent.
pub struct Request {
    pub method: String,
    pub url: String,
    pub headers: header::Headers,
    pub body: Vec<u8>,
}

impl Template {
    /// Why the operation, the body or its type is refused, if so.
    pub open spec fn body_fault(
        self,
        operation: Option<Seq<char>>,
        body: Option<Seq<char>>,
        content_type: Option<Seq<char>>,
    ) -> Option<Seq<char>> {
        match self.body_policy {
            Some(policy) => either(
                unless(
                    operation == text::view_of(self.operation),
                    "write operation must match the discovered invocation schema"@,
                ),
                policy.rules().value_fault(body, content_type),
            ),
            None => either(
                unless(operation is None, "GET templates do not accept a write operation"@),
                unless(
                    body is None && content_type is None,
                    "template GET requests cannot contain body or content_type arguments"@,
                ),
            ),
        }
    }

    /// The headers of a request.
    pub open spec fn sent(
        self,
        caller: Map<Seq<char>, Seq<Seq<u8>>>,
        content_type: Option<Seq<char>>,
    ) -> Map<Seq<char>, Seq<Seq<u8>>> {
        match content_type {
            Some(value) => self.rendered(caller).insert(
                "content-type"@,
                seq![vstd::utf8::encode_utf8(value)],
            ),
            None => self.rendered(caller),
        }
    }

    /// Why the type of the body is refused as a header, if so.
    pub open spec fn type_fault(
        self,
        caller: Map<Seq<char>, Seq<Seq<u8>>>,
        content_type: Option<Seq<char>>,
    ) -> Option<Seq<char>> {
        match content_type {
            Some(value) => either(
                unless(
                    header::is_value(vstd::utf8::encode_utf8(value)),
                    "failed to parse header value"@,
                ),
                headers::template_size_fault(self.sent(caller, content_type)),
            ),
            None => None,
        }
    }

    /// Whether a request can be made of the arguments.
    pub open spec fn request_accepted(
        self,
        values: Map<Seq<char>, Seq<char>>,
        count: int,
        caller: Map<Seq<char>, Seq<Seq<u8>>>,
        operation: Option<Seq<char>>,
        body: Option<Seq<char>>,
        content_type: Option<Seq<char>>,
    ) -> bool {
        &&& self.body_fault(operation, body, content_type) is None
        &&& self.arguments_fault(values, count) is None
        &&& self.caller_accepted(caller)
        &&& self.type_fault(caller, content_type) is None
    }

    /// Whether the reason tells why no request can be made of the arguments.
    pub open spec fn request_refused(
        self,
        values: Map<Seq<char>, Seq<char>>,
        count: int,
        caller: Map<Seq<char>, Seq<Seq<u8>>>,
        operation: Option<Seq<char>>,
        body: Option<Seq<char>>,
        content_type: Option<Seq<char>>,
        reason: Seq<char>,
    ) -> bool {
        match either(
            self.body_fault(operation, body, content_type),
            self.arguments_fault(values, count),
        ) {
            Some(expected) => reason == expected,
            None => if !self.caller_accepted(caller) {
                self.caller_refused(caller, reason)
            } else {
                self.type_fault(caller, content_type) == Some(reason)
            },
        }
    }

    fn check_body(
        &self,
        operation: Option<&str>,
        body: Option<&str>,
        content_type: Option<&str>,
    ) -> (result: Result<(), String>)
        requires
            self.wf(),
        ensures
            tells(
                result,
                self.body_fault(
                    text::str_view(operation),
                    text::str_view(body),
                    text::str_view(content_type),
                ),
            ),
    {
        match &self.body_policy {
            Some(policy) => {
                let matching = match (operation, &self.operation) {
                    (Some(given), Some(own)) => text::same(given, own),
                    (None, None) => true,
                    _ => false,
                };
                if !matching {
                    return Err(
                        "write operation must match the discovered invocation schema".to_owned(),
                    );
                }
                policy.validate(body, content_type)
            },
            None => {
                if operation.is_some() {
                    return Err("GET templates do not accept a write operation".to_owned());
                }
                if body.is_some() || content_type.is_some() {
                    return Err(
                        "template GET requests cannot contain body or content_type arguments".to_owned(),
                    );
                }
                Ok(())
            },
        }
    }

    /// Puts the type of the body into the headers of a request.
    fn put_type(
        &self,
        map: &mut header::Headers,
        content_type: Option<&str>,
        Ghost(caller): Ghost<Map<Seq<char>, Seq<Seq<u8>>>>,
    ) -> (result: Result<(), String>)
        requires
            header::header_entries(*old(map)) == self.rendered(caller),
            header::header_entries(*old(map)).dom().finite(),
            header::header_entries(*old(map)).dom().len() <= 34,
        ensures
            tells(result, self.type_fault(caller, text::str_view(content_type))),
            result is Ok ==> header::header_entries(*final(map)) == self.sent(
                caller,
                text::str_view(content_type),
            ),
    {
        if let Some(value) = content_type {
            let bytes = text::bytes(value);
            if !header::valid_value(&bytes) {
                return Err("failed to parse header value".to_owned());
            }
            proof {
                reveal_strlit("content-type");
                assert(text::lowercase_of("content-type"@) =~= "content-type"@);
            }
            header::put(map, "content-type", bytes);
            return headers::template_size(map);
        }
        Ok(())
    }

    /// The request for the given arguments.
    pub fn request(
        &self,
        values: &Table<String>,
        caller: &header::Headers,
        operation: Option<&str>,
        body: Option<&str>,
        content_type: Option<&str>,
    ) -> (result: Result<Request, String>)
        requires
            self.wf(),
        ensures
            match result {
                Ok(request) => self.request_accepted(
                    strings_of(values@),
                    values.keys().len() as int,
                    header::header_entries(*caller),
                    text::str_view(operation),
                    text::str_view(body),
                    text::str_view(content_type),
                ) && request.method@ == self.method@ && Some(request.url@) == self.url_for(
                    strings_of(values@),
                ) && header::header_entries(request.headers) == self.sent(
                    header::header_entries(*caller),
                    text::str_view(content_type),
                ) && request.body@ == (match body {
                    Some(inner) => vstd::utf8::encode_utf8(inner@),
                    None => Seq::empty(),
                }),
                Err(reason) => self.request_refused(
                    strings_of(values@),
                    values.keys().len() as int,
                    header::header_entries(*caller),
                    text::str_view(operation),
                    text::str_view(body),
                    text::str_view(content_type),
                    reason@,
                ),
            },
            result matches Ok(request) ==> self.takes(strings_of(values@)) && self.lands(
                strings_of(values@),
                request.url@,
            ),
    {
        match self.check_body(operation, body, content_type) {
            Ok(()) => {},
            Err(reason) => {
                return Err(reason);
            },
        }
        let (url, mut map) = match self.render(values, caller) {
            Ok(pair) => pair,
            Err(reason) => {
                proof {
                    self.lemma_refused_not_accepted(header::header_entries(*caller), reason@);
                }
                return Err(reason);
            },
        };
        match self.put_type(&mut map, content_type, Ghost(header::header_entries(*caller))) {
            Ok(()) => {},
            Err(reason) => {
                return Err(reason);
            },
        }
        let bytes = match body {
            Some(inner) => text::bytes(inner),
            None => Vec::new(),
        };
        Ok(Request { method: self.method.clone(), url, headers: map, body: bytes })
    }

    proof fn lemma_refused_not_accepted(
        self,
        caller: Map<Seq<char>, Seq<Seq<u8>>>,
        reason: Seq<char>,
    )
        ensures
            self.caller_refused(caller, reason) ==> !self.caller_accepted(caller),
    {
        if self.caller_refused(caller, reason) && self.caller_accepted(caller) {
            assert(self.budget_fault(caller) is None);
        }
    }

    /// Whatever a caller sends, each fixed header goes out as the operator has set it.
    pub proof fn lemma_fixed_kept(self, caller: Map<Seq<char>, Seq<Seq<u8>>>, name: Seq<char>)
        requires
            self.wf(),
            self.caller_accepted(caller),
            forall|other: Seq<char>| #[trigger]
                caller.dom().contains(other) ==> text::lowercase_of(other) == other,
            self.fixed().dom().contains(name),
        ensures
            self.forwarded(caller).dom().contains(name),
            self.forwarded(caller)[name] == self.fixed()[name],
    {
        if self.is_forwarded(caller, name) {
            let source = self.source_of(caller, name);
            assert(caller.dom().contains(source) && self.destination(source) == name);
            assert(self.caller_fault(source, caller[source]) is None);
            self.lemma_destinations(source, source);
        }
    }

    /// Nothing goes out but the fixed headers and the headers of rules that the caller has sent.
    pub proof fn lemma_nothing_else(self, caller: Map<Seq<char>, Seq<Seq<u8>>>, name: Seq<char>)
        requires
            self.wf(),
            self.caller_accepted(caller),
            self.forwarded(caller).dom().contains(name),
            !self.fixed().dom().contains(name),
        ensures
            exists|source: Seq<char>| #[trigger]
                caller.dom().contains(source) && self.header_rules@.dom().contains(
                    Self::rule_name(source),
                ) && self.destination(source) == name && self.forwarded(caller)[name]
                    == caller[source],
    {
        let source = self.source_of(caller, name);
        assert(caller.dom().contains(source) && self.destination(source) == name);
        assert(self.caller_fault(source, caller[source]) is None);
    }
}

/// Whether the value of a header is a reference to an environment variable or a file, in capitals or
/// not.
pub open spec fn is_reference(value: Seq<char>) -> bool {
    match text::split_once_of(text::trim_of(value), ':') {
        Some((kind, _)) => text::same_folded(kind, "env"@) || text::same_folded(kind, "file"@),
        None => false,
    }
}

fn reference(value: &str) -> (result: bool)
    ensures
        result == is_reference(value@),
{
    match text::split_once(&text::trim(value), ':') {
        Some((kind, _)) => text::same_ignoring_case(&kind, "env") || text::same_ignoring_case(
            &kind,
            "file",
        ),
        None => false,
    }
}

/// The value of a header, with a stand-in for a reference.
pub open spec fn masked(value: Seq<char>) -> Seq<char> {
    if is_reference(value) {
        "x"@
    } else {
        value
    }
}

fn mask(values: &Table<String>) -> (result: Table<String>)
    ensures
        is_masked(result, *values),
{
    let count: usize = values.len();
    let mut result: Table<String> = Table::new();
    let mut index: usize = 0;
    while index < count
        invariant
            index <= count,
            count == values.keys().len(),
            table::ascending(values.keys()),
            forall|i: int|
                0 <= i < count ==> values@.dom().contains(#[trigger] values.keys()[i])
                    && values@[values.keys()[i]] == values.values()[i],
            forall|key: Seq<char>| values@.dom().contains(key) <==> #[trigger] values.keys().contains(key),
            forall|name: Seq<char>| #[trigger]
                result@.dom().contains(name) <==> exists|i: int|
                    0 <= i < index && #[trigger] values.keys()[i] == name,
            forall|i: int|
                0 <= i < index ==> result@[#[trigger] values.keys()[i]]@ == masked(
                    values.values()[i]@,
                ),
        decreases count - index,
    {
        let ghost own = values.keys()[index as int];
        let ghost before = result@;
        let value = values.value(index);
        let item = if reference(value) {
            "x".to_owned()
        } else {
            value.clone()
        };
        result = result.insert(values.key(index).clone(), item);
        proof {
            assert forall|i: int| 0 <= i < index implies result@[#[trigger] values.keys()[i]]
                == before[values.keys()[i]] by {
                if values.keys()[i] == own {
                    table::lemma_ascending_distinct(values.keys(), i, index as int);
                }
            }
            assert forall|other: Seq<char>| #[trigger] result@.dom().contains(other) implies exists|
                i: int,
            |
                0 <= i < index + 1 && #[trigger] values.keys()[i] == other by {
                if other == own {
                    assert(values.keys()[index as int] == other);
                } else {
                    assert(before.dom().contains(other));
                    let i = choose|i: int| 0 <= i < index && #[trigger] values.keys()[i] == other;
                    assert(values.keys()[i] == other);
                }
            }
        }
        index = index + 1;
    }
    let total: usize = result.len();
    proof {
        assert forall|key: Seq<char>| #[trigger] result.keys().contains(key) <==> #[trigger]
            values.keys().contains(key) by {
            assert(result@.dom().contains(key) <==> result.keys().contains(key));
            assert(values@.dom().contains(key) <==> values.keys().contains(key));
            if values.keys().contains(key) {
                let i = choose|i: int| 0 <= i < values.keys().len() && values.keys()[i] == key;
                assert(values.keys()[i] == key);
            }
            if result@.dom().contains(key) {
                let i = choose|i: int| 0 <= i < index && #[trigger] values.keys()[i] == key;
                assert(values@.dom().contains(values.keys()[i]));
            }
        }
        table::lemma_ascending_same(result.keys(), values.keys());
        assert forall|i: int| 0 <= i < values.keys().len() implies (#[trigger] result.values()[i])@
            == masked(values.values()[i]@) by {
            assert(result@[result.keys()[i]] == result.values()[i]);
            assert(result@[values.keys()[i]]@ == masked(values.values()[i]@));
        }
    }
    result
}

proof fn lemma_normalized_same(
    keys: Seq<Seq<char>>,
    left: Seq<String>,
    right: Seq<String>,
    count: int,
)
    requires
        forall|i: int| 0 <= i < count ==> (#[trigger] left[i])@ == right[i]@,
    ensures
        normalized_headers(keys, left, count) == normalized_headers(keys, right, count),
    decreases count,
{
    if count > 0 {
        lemma_normalized_same(keys, left, right, count - 1);
        assert(left[count - 1]@ == right[count - 1]@);
        assert(name_fault(keys, left, count - 1) == name_fault(keys, right, count - 1));
    }
}

/// Whether the table holds the given headers with a stand-in for each reference.
pub open spec fn is_masked(masked_headers: Table<String>, given: Table<String>) -> bool {
    &&& masked_headers.keys() == given.keys()
    &&& forall|i: int|
        0 <= i < given.keys().len() ==> (#[trigger] masked_headers.values()[i])@ == masked(
            given.values()[i]@,
        )
}

impl Definition {
    /// Whether the profile passes or fails the check with the given stand-ins.
    pub open spec fn judged(
        self,
        given: Table<String>,
        sources: Sources,
        result: Result<(), String>,
    ) -> bool {
        match result {
            Ok(()) => self.accepted(given, sources),
            Err(reason) => self.refused(given, sources, reason@),
        }
    }

    /// Whether the profile passes the check with stand-ins for the references of its headers.
    pub open spec fn is_valid(self, sources: Sources) -> bool {
        exists|given: Table<String>| #[trigger]
            is_masked(given, self.headers) && self.accepted(given, sources)
    }

    proof fn lemma_same_stand_ins(self, left: Table<String>, right: Table<String>, sources: Sources)
        requires
            is_masked(left, self.headers),
            is_masked(right, self.headers),
        ensures
            self.accepted(left, sources) == self.accepted(right, sources),
    {
        let count = left.keys().len() as int;
        assert forall|i: int| 0 <= i < count implies (#[trigger] left.values()[i])@
            == right.values()[i]@ by {
            assert(right.values()[i]@ == masked(self.headers.values()[i]@));
        }
        lemma_normalized_same(left.keys(), left.values(), right.values(), count);
    }

    /// Checks a profile without reading the references of its headers.
    pub fn validate(&self, sources: &Sources) -> (result: Result<(), String>)
        ensures
            result is Ok <==> self.is_valid(*sources),
            exists|given: Table<String>| #[trigger]
                is_masked(given, self.headers) && self.judged(given, *sources, result),
    {
        let given = mask(&self.headers);
        assert(is_masked(given, self.headers));
        match Template::build(self, &given, sources) {
            Ok(_) => {
                assert(self.judged(given, *sources, Ok(())));
                Ok(())
            },
            Err(reason) => {
                proof {
                    assert(self.judged(given, *sources, Err(reason)));
                    if self.is_valid(*sources) {
                        let other = choose|other: Table<String>| #[trigger]
                            is_masked(other, self.headers) && self.accepted(other, *sources);
                        self.lemma_same_stand_ins(given, other, *sources);
                    }
                }
                Err(reason)
            },
        }
    }
}

proof fn lemma_stand_in()
    ensures
        !is_reference("x"@),
{
    reveal_strlit("x");
    reveal_with_fuel(text::trim_start_of, 2);
    reveal_with_fuel(text::trim_end_of, 2);
    let all = "x"@;
    assert(all =~= seq!['x']);
    assert(text::trim_of(all) =~= all);
    text::lemma_index_in(all, ':');
}

proof fn lemma_normalized_from(
    keys: Seq<Seq<char>>,
    values: Seq<String>,
    count: int,
    name: Seq<char>,
) -> (at: int)
    requires
        normalized_headers(keys, values, count) is Ok,
        normalized_headers(keys, values, count)->Ok_0.dom().contains(name),
    ensures
        0 <= at < count,
        normalized_headers(keys, values, count)->Ok_0[name] == values[at]@,
    decreases count,
{
    if text::lowercase_of(keys[count - 1]) == name {
        count - 1
    } else {
        lemma_normalized_from(keys, values, count - 1, name)
    }
}

impl Definition {
    proof fn lemma_accepted_unread(self, given: Table<String>, left: Sources, right: Sources)
        requires
            is_masked(given, self.headers),
        ensures
            self.accepted(given, left) == self.accepted(given, right),
    {
        let count = given.keys().len() as int;
        if let Ok(map) = normalized_headers(given.keys(), given.values(), count) {
            assert forall|name: Seq<char>| map.dom().contains(name) implies #[trigger] header_bytes(
                name,
                map[name],
                left,
            ) == header_bytes(name, map[name], right) by {
                let at = lemma_normalized_from(given.keys(), given.values(), count, name);
                assert(given.values()[at]@ == masked(self.headers.values()[at]@));
                lemma_stand_in();
                assert(!is_reference(map[name]));
            }
            assert(resolved_entries(map, left) =~= resolved_entries(map, right));
            assert(all_resolved(map, left) == all_resolved(map, right));
        }
    }
}

/// Whether a profile passes its check does not depend on what its headers refer to.
pub proof fn lemma_references_unread(definition: Definition, left: Sources, right: Sources)
    ensures
        definition.is_valid(left) == definition.is_valid(right),
{
    if definition.is_valid(left) {
        let given = choose|given: Table<String>| #[trigger]
            is_masked(given, definition.headers) && definition.accepted(given, left);
        definition.lemma_accepted_unread(given, left, right);
        assert(is_masked(given, definition.headers) && definition.accepted(given, right));
    }
    if definition.is_valid(right) {
        let given = choose|given: Table<String>| #[trigger]
            is_masked(given, definition.headers) && definition.accepted(given, right);
        definition.lemma_accepted_unread(given, left, right);
        assert(is_masked(given, definition.headers) && definition.accepted(given, left));
    }
}

/// A request is accepted only where every header of the caller has a rule and one value that the rule
/// accepts, and every required header is there.
pub proof fn lemma_caller_headers_ruled(template: Template, caller: Map<Seq<char>, Seq<Seq<u8>>>, name: Seq<char>)
    requires
        template.caller_accepted(caller),
    ensures
        caller.dom().len() <= 32,
        caller.dom().contains(name) ==> {
            let rule = headers::canonical_of(name);
            &&& template.header_rules@.dom().contains(rule)
            &&& caller[name].len() == 1
            &&& text::utf8_text(caller[name][0]) is Some
            &&& template.header_rules@[rule].schema@.value_fault(text::utf8_text(caller[name][0])->0) is None
            &&& headers::template_name_fault(name) is None
        },
        template.header_rules@.dom().contains(name) && template.header_rules@[name].schema.required
            ==> caller.dom().contains(text::lowercase_of(template.header_rules@[name].schema.name@)),
        headers::template_size_fault(template.forwarded(caller)) is None,
        headers::template_size_fault(template.supplied(caller)) is None,
{
}

/// An accepted header goes out under the name that its rule gives, with the value of the caller, and never in
/// place of a fixed one.
pub proof fn lemma_caller_header_sent(template: Template, caller: Map<Seq<char>, Seq<Seq<u8>>>, name: Seq<char>)
    requires
        template.wf(),
        template.caller_accepted(caller),
        forall|other: Seq<char>| #[trigger]
            caller.dom().contains(other) ==> text::lowercase_of(other) == other,
        caller.dom().contains(name),
    ensures
        ({
            let made = text::lowercase_of(
                template.header_rules@[headers::canonical_of(name)].schema@.forward_as,
            );
            &&& template.forwarded(caller).dom().contains(made)
            &&& template.forwarded(caller)[made] == caller[name]
            &&& !header::header_entries(template.headers).dom().contains(made)
        }),
{
    let made = template.destination(name);
    assert(template.caller_fault(name, caller[name]) is None);
    assert(template.is_forwarded(caller, made));
    let source = template.source_of(caller, made);
    assert(caller.dom().contains(source) && template.destination(source) == made);
    assert(template.caller_fault(source, caller[source]) is None);
    template.lemma_destinations(name, source);
}

/// Every request of a template tells the same user agent, and one with a body its media type.
pub proof fn lemma_request_agent(template: Template, caller: Map<Seq<char>, Seq<Seq<u8>>>, content_type: Seq<char>)
    ensures
        template.rendered(caller).dom().contains("user-agent"@),
        template.rendered(caller)["user-agent"@] == seq![vstd::utf8::encode_utf8("otunnel/0.1.0"@)],
        template.sent(caller, Some(content_type)).dom().contains("content-type"@),
        template.sent(caller, Some(content_type))["content-type"@] == seq![
            vstd::utf8::encode_utf8(content_type),
        ],
        template.sent(caller, None) == template.rendered(caller),
{
}

/// A template that reads takes no operation, no body and no media type; one that writes takes exactly its own
/// operation, and a body that its policy accepts.
pub proof fn lemma_write_as_discovered(
    template: Template,
    operation: Option<Seq<char>>,
    body: Option<Seq<char>>,
    content_type: Option<Seq<char>>,
)
    requires
        template.body_fault(operation, body, content_type) is None,
    ensures
        template.body_policy is None ==> operation is None && body is None && content_type is None,
        template.body_policy matches Some(policy) ==> operation == text::view_of(template.operation)
            && policy.rules().value_fault(body, content_type) is None,
{
}

/// A request is accepted only with exactly the declared parameters, each with a value that it accepts, and a URL
/// that fits.
pub proof fn lemma_arguments_declared(template: Template, values: Map<Seq<char>, Seq<char>>, count: int, at: int)
    requires
        template.arguments_fault(values, count) is None,
    ensures
        count == template.parameters.keys().len(),
        0 <= at < template.parameters.keys().len() ==> values.dom().contains(
            template.parameters.keys()[at],
        ) && template.parameters.values()[at].definition@.value_fault(
            values[template.parameters.keys()[at]],
        ) is None,
        template.url_for(values) is Some,
        text::byte_len(template.url_for(values)->0) <= 4096,
{
    let faults = |i: int| template.argument_fault(values, i);
    crate::checks::lemma_first_fault(0, template.parameters.keys().len() as int, faults);
    if 0 <= at < template.parameters.keys().len() {
        assert(faults(at) is None);
    }
}

/// A request is sent only where its body, its parameters and its headers are all accepted.
pub proof fn lemma_request_checked(
    template: Template,
    values: Map<Seq<char>, Seq<char>>,
    count: int,
    caller: Map<Seq<char>, Seq<Seq<u8>>>,
    operation: Option<Seq<char>>,
    body: Option<Seq<char>>,
    content_type: Option<Seq<char>>,
    reason: Seq<char>,
)
    ensures
        template.request_accepted(values, count, caller, operation, body, content_type)
            ==> template.body_fault(operation, body, content_type) is None && template.arguments_fault(
            values,
            count,
        ) is None && template.caller_accepted(caller) && (content_type matches Some(kind)
            ==> headers::template_size_fault(template.sent(caller, Some(kind))) is None
            && header::is_value(vstd::utf8::encode_utf8(kind))),
        template.request_accepted(values, count, caller, operation, body, content_type)
            ==> !template.request_refused(
            values,
            count,
            caller,
            operation,
            body,
            content_type,
            reason,
        ),
{
}

/// A setting that names a variable or a file is a reference, whatever the case of the word in front.
pub proof fn lemma_references_masked(kind: Seq<char>, name: Seq<char>, value: Seq<char>)
    requires
        text::split_once_of(text::trim_of(value), ':') == Some((kind, name)),
    ensures
        text::lowercase_of(kind) == text::lowercase_of("env"@) || text::lowercase_of(kind)
            == text::lowercase_of("file"@) <==> is_reference(value),
        is_reference(value) ==> masked(value) == "x"@,
        !is_reference(value) ==> masked(value) == value,
{
}

/// Which reason the headers of a caller are refused for, and with which code where the target has rules.
pub proof fn lemma_caller_reasons(template: Template, name: Seq<char>, values: Seq<Seq<u8>>, caller: Map<Seq<char>, Seq<Seq<u8>>>, reason: Seq<char>)
    ensures
        is_rich(template.header_rules@) ==> template.header_message(name, reason) == name + ": "@ + reason,
        !is_rich(template.header_rules@) ==> template.header_message(name, reason) == reason,
        headers::template_name_fault(name) is None && !template.header_rules@.dom().contains(
            Template::rule_name(name),
        ) ==> template.caller_fault(name, values) == Some(
            template.header_message(
                "header_not_allowed"@,
                "caller header is not permitted by the target"@,
            ),
        ),
        headers::template_name_fault(name) is None && template.header_rules@.dom().contains(
            Template::rule_name(name),
        ) && values.len() != 1 ==> template.caller_fault(name, values) == Some(
            template.header_message("header_duplicate"@, "duplicate caller header name"@),
        ),
        headers::template_name_fault(name) is Some ==> template.caller_fault(name, values) == Some(
            template.header_message("header_invalid"@, headers::template_name_fault(name)->0),
        ),
        caller.dom().len() > 32 && template.caller_refused(caller, reason) ==> reason == template.header_message(
            "header_budget_exceeded"@,
            "too many template headers"@,
        ),
        caller.dom().len() <= 32 && template.callers_accepted(caller) && !template.required_present(caller)
            && template.caller_refused(caller, reason) ==> reason == template.header_message(
            "header_required"@,
            "required caller header is missing"@,
        ),
{
}

/// Which reason a body, an operation or an argument is refused for.
pub proof fn lemma_request_reasons(
    template: Template,
    operation: Seq<char>,
    body: Seq<char>,
    values: Map<Seq<char>, Seq<char>>,
    at: int,
)
    ensures
        template.body_policy is None ==> template.body_fault(Some(operation), None, None) == Some(
            "GET templates do not accept a write operation"@,
        ) && template.body_fault(None, Some(body), None) == Some(
            "template GET requests cannot contain body or content_type arguments"@,
        ) && template.body_fault(None, None, None) is None,
        template.body_policy is Some && text::view_of(template.operation) != Some(operation)
            ==> template.body_fault(Some(operation), Some(body), None) == Some(
            "write operation must match the discovered invocation schema"@,
        ),
        0 <= at < template.parameters.keys().len() && !values.dom().contains(template.parameters.keys()[at])
            ==> template.argument_fault(values, at) == Some(
            "parameter "@ + template.parameters.keys()[at] + " must be a string"@,
        ),
{
}

} // verus!
