//! Rewriting the URLs of targets into their labels.

use vstd::prelude::*;
use crate::harpoon::label::{key_of, url_key};
use crate::harpoon::registry::{Harpoon, Target};
use crate::json::{self, Doc, Json};
use crate::protocol::lists_of;
use crate::table::Table;
use crate::{pattern, text};

verus! {

/// The tag of the targets that an entry of OAuth metadata means.
pub open spec fn role_of(key: Seq<char>) -> Seq<char> {
    if key == "authorization_servers"@ {
        "authorization-server"@
    } else if key == "introspection_endpoint"@ {
        "introspection-endpoint"@
    } else if key == "issuer"@ {
        "issuer"@
    } else if key == "jwks_uri"@ {
        "jwks-uri"@
    } else if key == "registration_endpoint"@ {
        "registration-endpoint"@
    } else if key == "revocation_endpoint"@ {
        "revocation-endpoint"@
    } else if key == "token_endpoint"@ {
        "token-endpoint"@
    } else {
        ""@
    }
}

fn role(key: &str) -> (result: &'static str)
    ensures
        result@ == role_of(key@),
{
    if text::same(key, "authorization_servers") {
        "authorization-server"
    } else if text::same(key, "introspection_endpoint") {
        "introspection-endpoint"
    } else if text::same(key, "issuer") {
        "issuer"
    } else if text::same(key, "jwks_uri") {
        "jwks-uri"
    } else if text::same(key, "registration_endpoint") {
        "registration-endpoint"
    } else if text::same(key, "revocation_endpoint") {
        "revocation-endpoint"
    } else if text::same(key, "token_endpoint") {
        "token-endpoint"
    } else {
        ""
    }
}

impl Target {
    /// Whether the target has the tag.
    pub open spec fn tagged(self, tag: Seq<char>) -> bool {
        text::views(self.info.tags@).contains(tag)
    }

    /// Whether the target stands for a protected resource itself.
    pub open spec fn is_resource(self) -> bool {
        self.tagged("protected-resource-metadata"@) && self.tagged("resource"@)
    }
}

impl Harpoon {
    /// Whether the target is an exact one with the key and the tag.
    pub open spec fn plays(self, key: Seq<char>, tag: Seq<char>, at: int) -> bool {
        self.reaches(key, at) && self.targets@[at].tagged(tag)
    }

    /// The first target, from one on, that is an exact one with the key and the tag.
    pub open spec fn player_from(self, key: Seq<char>, tag: Seq<char>, at: int) -> Option<int>
        decreases self.targets@.len() - at,
    {
        if at < 0 || at >= self.targets@.len() {
            None
        } else if self.plays(key, tag, at) {
            Some(at)
        } else {
            self.player_from(key, tag, at + 1)
        }
    }

    /// The first exact target, from one on, with the key.
    pub open spec fn reached_from(self, key: Seq<char>, at: int) -> Option<int>
        decreases self.targets@.len() - at,
    {
        if at < 0 || at >= self.targets@.len() {
            None
        } else if self.reaches(key, at) {
            Some(at)
        } else {
            self.reached_from(key, at + 1)
        }
    }

    /// Whether an exact target with the key stands for a protected resource itself.
    pub open spec fn is_own_resource(self, key: Seq<char>) -> bool {
        exists|i: int|
            0 <= i < self.targets@.len() && #[trigger] self.reaches(key, i)
                && self.targets@[i].is_resource()
    }

    /// The target that a URL under an entry means: the first one with the tag of the entry, or the
    /// first one.
    pub open spec fn meant(self, key: Seq<char>, entry: Seq<char>) -> Option<int> {
        match self.player_from(key, role_of(entry), 0) {
            Some(at) => Some(at),
            None => self.reached_from(key, 0),
        }
    }

    /// What a URL under an entry becomes, where it is the one of a target. The identity of a protected
    /// resource stays as it is.
    pub open spec fn rewritten(self, value: Seq<char>, entry: Seq<char>) -> Option<Seq<char>> {
        match key_of(value) {
            Err(_) => None,
            Ok(key) => if entry == "resource"@ && self.is_own_resource(key) {
                None
            } else {
                match self.meant(key, entry) {
                    Some(at) => Some("harpoon://"@ + self.targets@[at].info.label@),
                    None => None,
                }
            },
        }
    }

    fn reach(&self, key: &str, at: usize) -> (result: bool)
        requires
            at < self.targets@.len(),
        ensures
            result == self.reaches(key@, at as int),
    {
        let target = &self.targets[at];
        if target.template.is_some() {
            return false;
        }
        match url_key(&target.original_url) {
            Ok(found) => text::same(&found, key),
            Err(_) => false,
        }
    }

    /// What a URL under an entry becomes, where it is the one of a target.
    pub fn rewrite_url(&self, value: &str, entry: &str) -> (result: Option<String>)
        ensures
            text::view_of(result) == self.rewritten(value@, entry@),
    {
        let key = match url_key(value) {
            Ok(key) => key,
            Err(_) => {
                return None;
            },
        };
        let resource = text::same(entry, "resource");
        let tag = role(entry);
        let mut first: Option<usize> = None;
        let mut chosen: Option<usize> = None;
        let mut index: usize = 0;
        while index < self.targets.len()
            invariant
                index <= self.targets.len(),
                key_of(value@) == Ok::<Seq<char>, Seq<char>>(key@),
                resource == (entry@ == "resource"@),
                tag@ == role_of(entry@),
                resource ==> forall|i: int|
                    0 <= i < index && #[trigger] self.reaches(key@, i)
                        ==> !self.targets@[i].is_resource(),
                match first {
                    Some(at) => at < index && self.reached_from(key@, 0) == Some(at as int),
                    None => self.reached_from(key@, 0) == self.reached_from(key@, index as int),
                },
                match chosen {
                    Some(at) => at < index && self.player_from(key@, tag@, 0) == Some(at as int),
                    None => self.player_from(key@, tag@, 0) == self.player_from(
                        key@,
                        tag@,
                        index as int,
                    ),
                },
            decreases self.targets.len() - index,
        {
            if self.reach(&key, index) {
                let tags = &self.targets[index].info.tags;
                if resource && text::contained(tags, "protected-resource-metadata")
                    && text::contained(tags, "resource") {
                    assert(self.reaches(key@, index as int) && self.targets@[index as int].is_resource());
                    return None;
                }
                if first.is_none() {
                    first = Some(index);
                }
                if chosen.is_none() && text::contained(tags, tag) {
                    chosen = Some(index);
                }
            }
            index = index + 1;
        }
        let meant: Option<usize> = match chosen {
            Some(at) => Some(at),
            None => first,
        };
        match meant {
            Some(at) => Some(text::cat("harpoon://", &self.targets[at].info.label)),
            None => None,
        }
    }

    /// What a document under an entry becomes: each of its strings that is the URL of a target is
    /// rewritten under its own entry.
    pub open spec fn rewritten_doc(self, value: Json, entry: Seq<char>) -> Doc
        decreases value,
    {
        match value {
            Json::Text(inner) => match self.rewritten(inner@, entry) {
                Some(found) => Doc::Text(found),
                None => Doc::Text(inner@),
            },
            Json::List(items) => Doc::List(self.rewritten_docs(items@, entry)),
            Json::Object(entries) => Doc::Object(self.rewritten_fields(entries@)),
            _ => value.doc(),
        }
    }

    /// What a list of documents under an entry becomes.
    pub open spec fn rewritten_docs(self, items: Seq<Json>, entry: Seq<char>) -> Seq<Doc>
        decreases items,
    {
        if items.len() == 0 {
            Seq::empty()
        } else {
            self.rewritten_docs(items.subrange(0, items.len() - 1), entry).push(
                self.rewritten_doc(items[items.len() - 1], entry),
            )
        }
    }

    /// What the entries of an object become.
    pub open spec fn rewritten_fields(self, entries: Seq<(String, Json)>) -> Map<Seq<char>, Doc>
        decreases entries,
    {
        if entries.len() == 0 {
            Map::empty()
        } else {
            let last = entries[entries.len() - 1];
            self.rewritten_fields(entries.subrange(0, entries.len() - 1)).insert(
                last.0@,
                self.rewritten_doc(last.1, last.0@),
            )
        }
    }

    /// Whether some string of a document under an entry is rewritten.
    pub open spec fn touches(self, value: Json, entry: Seq<char>) -> bool
        decreases value,
    {
        match value {
            Json::Text(inner) => self.rewritten(inner@, entry) is Some,
            Json::List(items) => self.touches_item(items@, entry),
            Json::Object(entries) => self.touches_field(entries@),
            _ => false,
        }
    }

    /// Whether some string of the documents under an entry is rewritten.
    pub open spec fn touches_item(self, items: Seq<Json>, entry: Seq<char>) -> bool
        decreases items,
    {
        if items.len() == 0 {
            false
        } else {
            self.touches_item(items.subrange(0, items.len() - 1), entry) || self.touches(
                items[items.len() - 1],
                entry,
            )
        }
    }

    /// Whether some string of the entries is rewritten.
    pub open spec fn touches_field(self, entries: Seq<(String, Json)>) -> bool
        decreases entries,
    {
        if entries.len() == 0 {
            false
        } else {
            let last = entries[entries.len() - 1];
            self.touches_field(entries.subrange(0, entries.len() - 1)) || self.touches(
                last.1,
                last.0@,
            )
        }
    }

    fn rewrite_value(&self, value: &Json, entry: &str) -> (result: (Json, bool))
        ensures
            result.0.doc() == self.rewritten_doc(*value, entry@),
            result.1 == self.touches(*value, entry@),
        decreases value,
    {
        match value {
            Json::Text(inner) => match self.rewrite_url(inner, entry) {
                Some(found) => (Json::Text(found), true),
                None => (Json::Text(inner.clone()), false),
            },
            Json::List(items) => {
                let mut result: Vec<Json> = Vec::new();
                let mut changed = false;
                let mut index: usize = 0;
                assert(items@.take(0) == Seq::<Json>::empty());
                while index < items.len()
                    invariant
                        index <= items.len(),
                        *value == Json::List(*items),
                        json::docs(result@) == self.rewritten_docs(
                            items@.take(index as int),
                            entry@,
                        ),
                        changed == self.touches_item(items@.take(index as int), entry@),
                    decreases items.len() - index,
                {
                    assert(decreases_to!(*value => value->List_0));
                    assert(decreases_to!(*items => items@));
                    assert(decreases_to!(items@ => items@[index as int]));
                    let (item, touched) = self.rewrite_value(&items[index], entry);
                    proof {
                        let next = items@.take(index + 1);
                        assert(next.subrange(0, next.len() - 1) == items@.take(index as int));
                        json::lemma_docs_push(result@, item);
                    }
                    result.push(item);
                    changed = changed || touched;
                    index = index + 1;
                }
                assert(items@.take(items@.len() as int) == items@);
                (Json::List(result), changed)
            },
            Json::Object(entries) => {
                let mut result: Vec<(String, Json)> = Vec::new();
                let mut changed = false;
                let mut index: usize = 0;
                assert(entries@.take(0) == Seq::<(String, Json)>::empty());
                while index < entries.len()
                    invariant
                        index <= entries.len(),
                        *value == Json::Object(*entries),
                        json::fields(result@) == self.rewritten_fields(entries@.take(index as int)),
                        changed == self.touches_field(entries@.take(index as int)),
                    decreases entries.len() - index,
                {
                    let ghost last = entries@[index as int];
                    assert(decreases_to!(*value => value->Object_0));
                    assert(decreases_to!(*entries => entries@));
                    assert(decreases_to!(entries@ => last));
                    assert(decreases_to!(last => last.1));
                    let name = entries[index].0.clone();
                    let (item, touched) = self.rewrite_value(&entries[index].1, &name);
                    proof {
                        let next = entries@.take(index + 1);
                        assert(next.subrange(0, next.len() - 1) == entries@.take(index as int));
                        json::lemma_fields_push(result@, (name, item));
                    }
                    result.push((name, item));
                    changed = changed || touched;
                    index = index + 1;
                }
                assert(entries@.take(entries@.len() as int) == entries@);
                (Json::Object(result), changed)
            },
            _ => (json::copy(value), false),
        }
    }

    /// Rewrites the URLs of targets in a document, and tells whether there were any.
    pub fn rewrite(&self, value: &mut Json) -> (result: bool)
        ensures
            final(value).doc() == self.rewritten_doc(*old(value), Seq::empty()),
            result == self.touches(*old(value), Seq::empty()),
    {
        proof {
            reveal_strlit("");
            assert(""@ =~= Seq::<char>::empty());
        }
        let (made, changed) = self.rewrite_value(value, "");
        *value = made;
        changed
    }

    /// A document in which no string is rewritten stays as it is.
    pub proof fn lemma_untouched(self, value: Json, entry: Seq<char>)
        requires
            !self.touches(value, entry),
        ensures
            self.rewritten_doc(value, entry) == value.doc(),
        decreases value,
    {
        match value {
            Json::List(items) => {
                self.lemma_untouched_items(items@, entry);
            },
            Json::Object(entries) => {
                self.lemma_untouched_fields(entries@);
            },
            _ => {},
        }
    }

    proof fn lemma_untouched_items(self, items: Seq<Json>, entry: Seq<char>)
        requires
            !self.touches_item(items, entry),
        ensures
            self.rewritten_docs(items, entry) == json::docs(items),
        decreases items,
    {
        if items.len() > 0 {
            self.lemma_untouched_items(items.subrange(0, items.len() - 1), entry);
            self.lemma_untouched(items[items.len() - 1], entry);
        }
    }

    proof fn lemma_untouched_fields(self, entries: Seq<(String, Json)>)
        requires
            !self.touches_field(entries),
        ensures
            self.rewritten_fields(entries) == json::fields(entries),
        decreases entries,
    {
        if entries.len() > 0 {
            let last = entries[entries.len() - 1];
            self.lemma_untouched_fields(entries.subrange(0, entries.len() - 1));
            self.lemma_untouched(last.1, last.0@);
        }
    }
}

/// The expression of a URL in a header.
pub const URLS: &'static str = "https?://[^\\s<>\\\"']+";

/// Whether a header holds URLs.
pub open spec fn holds_urls(name: Seq<char>) -> bool {
    let small = text::lowercase_of(name);
    small == "location"@ || small == "content-location"@ || small == "link"@
}

impl Harpoon {
    /// What a URL in a header becomes.
    pub open spec fn rewritten_url(self, url: Seq<char>) -> Seq<char> {
        match self.rewritten(url, Seq::empty()) {
            Some(found) => found,
            None => url,
        }
    }

    /// What URLs in a header become.
    pub open spec fn rewritten_urls(self, urls: Seq<Seq<char>>) -> Seq<Seq<char>> {
        urls.map_values(|url: Seq<char>| self.rewritten_url(url))
    }

    /// What the value of a header becomes: each URL in it is rewritten.
    pub open spec fn rewritten_value(self, value: Seq<char>) -> Seq<char> {
        pattern::woven(
            pattern::regex_gaps(URLS@, value),
            self.rewritten_urls(pattern::regex_matches(URLS@, value)),
        )
    }

    /// What the values of a header become.
    pub open spec fn rewritten_values(self, values: Seq<Seq<char>>) -> Seq<Seq<char>> {
        values.map_values(|value: Seq<char>| self.rewritten_value(value))
    }

    /// What headers become: those that hold URLs are rewritten.
    pub open spec fn rewritten_headers(self, map: Map<Seq<char>, Seq<Seq<char>>>) -> Map<
        Seq<char>,
        Seq<Seq<char>>,
    > {
        Map::new(
            |name: Seq<char>| map.dom().contains(name),
            |name: Seq<char>|
                if holds_urls(name) {
                    self.rewritten_values(map[name])
                } else {
                    map[name]
                },
        )
    }

    fn rewrite_text(&self, value: &str) -> (result: String)
        ensures
            result@ == self.rewritten_value(value@),
    {
        proof {
            reveal_strlit("");
            assert(""@ =~= Seq::<char>::empty());
        }
        let gaps = pattern::gaps_in(URLS, value);
        let found = pattern::matches_in(URLS, value);
        let ghost outer = text::views(gaps@);
        let ghost urls = text::views(found@);
        let ghost inner = self.rewritten_urls(urls);
        assert(outer.len() == gaps@.len() && urls.len() == found@.len());
        let mut result = gaps[0].clone();
        let mut index: usize = 0;
        assert(outer.take(1).last() == outer[0]);
        while index < found.len()
            invariant
                index <= found.len(),
                gaps@.len() == found@.len() + 1,
                ""@ == Seq::<char>::empty(),
                outer == text::views(gaps@),
                urls == text::views(found@),
                inner == self.rewritten_urls(urls),
                result@ == pattern::woven(outer.take(index + 1), inner.take(index as int)),
            decreases found.len() - index,
        {
            let url = match self.rewrite_url(&found[index], "") {
                Some(url) => url,
                None => found[index].clone(),
            };
            proof {
                assert(url@ == inner[index as int]);
                assert(outer.take(index + 2).drop_last() == outer.take(index + 1));
                assert(inner.take(index + 1).drop_last() == inner.take(index as int));
                assert(outer.take(index + 2).last() == gaps@[index + 1]@);
                assert(inner.take(index + 1).last() == url@);
            }
            result = text::cat3(&result, &url, &gaps[index + 1]);
            index = index + 1;
        }
        proof {
            assert(outer.take(outer.len() as int) == outer);
            assert(inner.take(inner.len() as int) == inner);
        }
        result
    }

    /// Rewrites the URLs of targets in headers.
    pub fn rewrite_headers(&self, headers: Table<Vec<String>>) -> (result: Table<Vec<String>>)
        ensures
            lists_of(result@) == self.rewritten_headers(lists_of(headers@)),
    {
        let count: usize = headers.len();
        let mut result: Table<Vec<String>> = Table::new();
        let mut index: usize = 0;
        let ghost keys = headers.keys();
        let ghost map = lists_of(headers@);
        while index < count
            invariant
                index <= count,
                count == keys.len(),
                keys == headers.keys(),
                map == lists_of(headers@),
                forall|i: int|
                    0 <= i < count ==> headers@.dom().contains(#[trigger] keys[i]),
                forall|name: Seq<char>|
                    headers@.dom().contains(name) <==> #[trigger] keys.contains(name),
                forall|name: Seq<char>| #[trigger]
                    result@.dom().contains(name) ==> headers@.dom().contains(name) && text::views(
                        result@[name]@,
                    ) == self.rewritten_headers(map)[name],
                forall|i: int| 0 <= i < index ==> result@.dom().contains(#[trigger] keys[i]),
            decreases count - index,
        {
            let name = headers.key(index);
            let values = headers.value(index);
            let small = text::lowercase(name);
            let kept = if text::same(&small, "location") || text::same(&small, "content-location")
                || text::same(&small, "link") {
                self.rewrite_list(values)
            } else {
                text::copies(values)
            };
            assert(map[name@] == text::views(values@));
            result = result.insert(name.clone(), kept);
            index = index + 1;
        }
        proof {
            let left = lists_of(result@);
            let right = self.rewritten_headers(map);
            assert forall|name: Seq<char>| left.dom().contains(name) == right.dom().contains(name) by {
                if right.dom().contains(name) {
                    assert(keys.contains(name));
                    let i = choose|i: int| 0 <= i < keys.len() && keys[i] == name;
                    assert(result@.dom().contains(keys[i]));
                }
            }
            assert(left =~= right);
        }
        result
    }

    fn rewrite_list(&self, values: &Vec<String>) -> (result: Vec<String>)
        ensures
            text::views(result@) == self.rewritten_values(text::views(values@)),
    {
        let ghost all = self.rewritten_values(text::views(values@));
        let mut result: Vec<String> = Vec::new();
        let mut index: usize = 0;
        assert(text::views(result@) == Seq::<Seq<char>>::empty());
        while index < values.len()
            invariant
                index <= values.len(),
                all == self.rewritten_values(text::views(values@)),
                text::views(result@) == all.take(index as int),
            decreases values.len() - index,
        {
            let made = self.rewrite_text(&values[index]);
            proof {
                assert(all[index as int] == made@);
                assert(all.take(index + 1) == all.take(index as int).push(made@));
                assert(text::views(result@.push(made)) == text::views(result@).push(made@));
            }
            result.push(made);
            index = index + 1;
        }
        assert(all.take(all.len() as int) == all);
        result
    }
}

proof fn lemma_player_first(harpoon: Harpoon, key: Seq<char>, tag: Seq<char>, at: int)
    requires
        0 <= at <= harpoon.targets@.len(),
    ensures
        match harpoon.player_from(key, tag, at) {
            Some(found) => at <= found < harpoon.targets@.len() && harpoon.reaches(key, found)
                && harpoon.targets@[found].tagged(tag),
            None => forall|i: int|
                at <= i < harpoon.targets@.len() && #[trigger] harpoon.reaches(key, i)
                    ==> !harpoon.targets@[i].tagged(tag),
        },
    decreases harpoon.targets@.len() - at,
{
    if at < harpoon.targets@.len() {
        lemma_player_first(harpoon, key, tag, at + 1);
    }
}

proof fn lemma_reached_first(harpoon: Harpoon, key: Seq<char>, at: int)
    requires
        0 <= at <= harpoon.targets@.len(),
    ensures
        match harpoon.reached_from(key, at) {
            Some(found) => at <= found < harpoon.targets@.len() && harpoon.reaches(key, found)
                && forall|i: int| at <= i < found ==> !#[trigger] harpoon.reaches(key, i),
            None => forall|i: int|
                at <= i < harpoon.targets@.len() ==> !#[trigger] harpoon.reaches(key, i),
        },
    decreases harpoon.targets@.len() - at,
{
    if at < harpoon.targets@.len() {
        lemma_reached_first(harpoon, key, at + 1);
    }
}

/// A URL of a target becomes the name of a target with that URL, any other text stays; only the resource that a
/// description is about keeps its own URL.
pub proof fn lemma_urls_named(harpoon: Harpoon, value: Seq<char>, entry: Seq<char>)
    ensures
        harpoon.rewritten(value, entry) matches Some(found) ==> exists|i: int|
            0 <= i < harpoon.targets@.len() && harpoon.targets@[i].template is None && key_of(value) is Ok
                && key_of(harpoon.targets@[i].original_url@) == key_of(value) && found == "harpoon://"@
                + (#[trigger] harpoon.targets@[i]).info.label@,
        entry != "resource"@ && key_of(value) is Ok && (exists|i: int|
            0 <= i < harpoon.targets@.len() && (#[trigger] harpoon.targets@[i]).template is None && key_of(
                harpoon.targets@[i].original_url@,
            ) == key_of(value)) ==> harpoon.rewritten(value, entry) is Some,
        key_of(value) is Err ==> harpoon.rewritten(value, entry) is None,
{
    if key_of(value) is Ok {
        let key = key_of(value)->Ok_0;
        lemma_player_first(harpoon, key, role_of(entry), 0);
        lemma_reached_first(harpoon, key, 0);
        if exists|i: int|
            0 <= i < harpoon.targets@.len() && (#[trigger] harpoon.targets@[i]).template is None && key_of(
                harpoon.targets@[i].original_url@,
            ) == key_of(value) {
            let i = choose|i: int|
                0 <= i < harpoon.targets@.len() && (#[trigger] harpoon.targets@[i]).template is None
                    && key_of(harpoon.targets@[i].original_url@) == key_of(value);
            assert(harpoon.reaches(key, i));
        }
        if harpoon.rewritten(value, entry) is Some {
            let at = harpoon.meant(key, entry)->0;
            assert(harpoon.reaches(key, at));
            assert(harpoon.targets@[at].template is None);
        }
    }
}

/// Of several targets with one URL, an entry of a description becomes the one that plays its part, where there is
/// one.
pub proof fn lemma_parts_played(harpoon: Harpoon, key: Seq<char>, entry: Seq<char>, part: Seq<char>, at: int)
    requires
        (entry == "authorization_servers"@ && part == "authorization-server"@) || (entry
            == "introspection_endpoint"@ && part == "introspection-endpoint"@) || (entry == "issuer"@ && part
            == "issuer"@) || (entry == "jwks_uri"@ && part == "jwks-uri"@) || (entry
            == "registration_endpoint"@ && part == "registration-endpoint"@) || (entry
            == "revocation_endpoint"@ && part == "revocation-endpoint"@) || (entry == "token_endpoint"@ && part
            == "token-endpoint"@),
        0 <= at < harpoon.targets@.len(),
        harpoon.reaches(key, at),
        text::views(harpoon.targets@[at].info.tags@).contains(part),
    ensures
        harpoon.meant(key, entry) is Some,
        0 <= harpoon.meant(key, entry)->0 < harpoon.targets@.len(),
        text::views(harpoon.targets@[harpoon.meant(key, entry)->0].info.tags@).contains(part),
{
    reveal_strlit("authorization_servers");
    reveal_strlit("introspection_endpoint");
    reveal_strlit("issuer");
    reveal_strlit("jwks_uri");
    reveal_strlit("registration_endpoint");
    reveal_strlit("revocation_endpoint");
    reveal_strlit("token_endpoint");
    assert("authorization_servers"@.len() == 21 && "authorization_servers"@[0] == 'a');
    assert("introspection_endpoint"@.len() == 22);
    assert("issuer"@.len() == 6);
    assert("jwks_uri"@.len() == 8);
    assert("registration_endpoint"@.len() == 21 && "registration_endpoint"@[0] == 'r');
    assert("revocation_endpoint"@.len() == 19);
    assert("token_endpoint"@.len() == 14);
    assert(role_of(entry) == part);
    lemma_player_first(harpoon, key, part, 0);
    assert(harpoon.targets@[at].tagged(part));
}

/// Only the headers with URLs are rewritten, whatever their case, and none is lost.
pub proof fn lemma_headers_rewritten(harpoon: Harpoon, map: Map<Seq<char>, Seq<Seq<char>>>, name: Seq<char>)
    ensures
        harpoon.rewritten_headers(map).dom() =~= map.dom(),
        map.dom().contains(name) && (text::lowercase_of(name) == "location"@ || text::lowercase_of(name)
            == "content-location"@ || text::lowercase_of(name) == "link"@) ==> harpoon.rewritten_headers(
            map,
        )[name] == map[name].map_values(|value: Seq<char>| harpoon.rewritten_value(value)),
        map.dom().contains(name) && text::lowercase_of(name) != "location"@ && text::lowercase_of(name)
            != "content-location"@ && text::lowercase_of(name) != "link"@ ==> harpoon.rewritten_headers(
            map,
        )[name] == map[name],
{
    if map.dom().contains(name) && holds_urls(name) {
        assert(harpoon.rewritten_values(map[name]) =~= map[name].map_values(
            |value: Seq<char>| harpoon.rewritten_value(value),
        ));
    }
}

} // verus!
