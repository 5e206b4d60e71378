//! Maps from strings to values, walked in the order of their keys.

use vstd::prelude::*;
use crate::text;

verus! {

/// A map from strings to values, kept in the order of its keys.
pub struct Table<V> {
    entries: Vec<(String, V)>,
}

/// Whether each string comes before the ones behind it.
pub open spec fn ascending(keys: Seq<Seq<char>>) -> bool {
    forall|i: int, j: int| 0 <= i < j < keys.len() ==> text::precedes(#[trigger] keys[i], #[trigger] keys[j])
}

/// The keys of a list of entries.
pub open spec fn entry_keys<V>(entries: Seq<(String, V)>) -> Seq<Seq<char>> {
    entries.map_values(|entry: (String, V)| entry.0@)
}

/// The contents of a map of strings.
pub open spec fn strings_of(map: Map<Seq<char>, String>) -> Map<Seq<char>, Seq<char>> {
    Map::new(|name: Seq<char>| map.dom().contains(name), |name: Seq<char>| map[name]@)
}

/// The keys of a set in order.
pub open spec fn ordered_keys(names: Set<Seq<char>>) -> Seq<Seq<char>> {
    choose|keys: Seq<Seq<char>>| #[trigger] lists_in_order(keys, names)
}

/// Whether the keys are those of the set, in order.
pub open spec fn lists_in_order(keys: Seq<Seq<char>>, names: Set<Seq<char>>) -> bool {
    &&& ascending(keys)
    &&& forall|key: Seq<char>| #[trigger] keys.contains(key) <==> names.contains(key)
}

/// There is one way to list a set in order.
pub proof fn lemma_ordered_keys(keys: Seq<Seq<char>>, names: Set<Seq<char>>)
    requires
        lists_in_order(keys, names),
    ensures
        ordered_keys(names) == keys,
{
    let other = ordered_keys(names);
    assert(lists_in_order(other, names));
    assert forall|key: Seq<char>| #[trigger] keys.contains(key) <==> #[trigger] other.contains(key) by {
        assert(keys.contains(key) <==> names.contains(key));
        assert(other.contains(key) <==> names.contains(key));
    }
    lemma_ascending_same(keys, other);
}

impl<V> Table<V> {
    #[verifier::type_invariant]
    spec fn ordered(self) -> bool {
        ascending(self.keys())
    }

    /// The keys in order.
    pub closed spec fn keys(self) -> Seq<Seq<char>> {
        self.entries@.map_values(|entry: (String, V)| entry.0@)
    }

    /// The values in the order of their keys.
    pub closed spec fn values(self) -> Seq<V> {
        self.entries@.map_values(|entry: (String, V)| entry.1)
    }

    /// Whether the key is in the table.
    pub open spec fn has(self, key: Seq<char>) -> bool {
        self.keys().contains(key)
    }

    /// The value of a key in the table.
    pub open spec fn value_of(self, key: Seq<char>) -> V {
        self.values()[self.keys().index_of(key)]
    }
}

impl<V> View for Table<V> {
    type V = Map<Seq<char>, V>;

    open spec fn view(&self) -> Map<Seq<char>, V> {
        Map::new(|key: Seq<char>| self.has(key), |key: Seq<char>| self.value_of(key))
    }
}

/// Ascending strings are all different.
pub proof fn lemma_ascending_distinct(keys: Seq<Seq<char>>, i: int, j: int)
    requires
        ascending(keys),
        0 <= i < keys.len(),
        0 <= j < keys.len(),
        keys[i] == keys[j],
    ensures
        i == j,
{
    if i < j {
        text::lemma_precedes_irreflexive(keys[i]);
    } else if j < i {
        text::lemma_precedes_irreflexive(keys[j]);
    }
}

proof fn lemma_index(keys: Seq<Seq<char>>, at: int)
    requires
        ascending(keys),
        0 <= at < keys.len(),
    ensures
        keys.contains(keys[at]),
        keys.index_of(keys[at]) == at,
{
    let found = keys.index_of(keys[at]);
    assert(keys[at] == keys[at]);
    lemma_ascending_distinct(keys, found, at);
}

/// As many ascending names as there are of others that hold them all are the same names.
pub proof fn lemma_same_names(left: Seq<Seq<char>>, right: Seq<Seq<char>>)
    requires
        ascending(left),
        ascending(right),
        left.len() == right.len(),
        forall|i: int| 0 <= i < left.len() ==> right.contains(#[trigger] left[i]),
    ensures
        forall|name: Seq<char>| #[trigger] right.contains(name) ==> left.contains(name),
{
    assert forall|i: int, j: int| 0 <= i < left.len() && 0 <= j < left.len() && i != j implies left[i]
        != left[j] by {
        if left[i] == left[j] {
            lemma_ascending_distinct(left, i, j);
        }
    }
    assert forall|i: int, j: int| 0 <= i < right.len() && 0 <= j < right.len() && i != j implies right[i]
        != right[j] by {
        if right[i] == right[j] {
            lemma_ascending_distinct(right, i, j);
        }
    }
    left.unique_seq_to_set();
    right.unique_seq_to_set();
    assert(left.to_set().subset_of(right.to_set()));
    vstd::set_lib::lemma_subset_equality(left.to_set(), right.to_set());
    assert forall|name: Seq<char>| #[trigger] right.contains(name) implies left.contains(name) by {
        assert(right.to_set().contains(name));
        assert(left.to_set().contains(name));
    }
}


/// Two ascending lists of the same strings are the same list.
pub proof fn lemma_ascending_same(left: Seq<Seq<char>>, right: Seq<Seq<char>>)
    requires
        ascending(left),
        ascending(right),
        forall|key: Seq<char>| #[trigger] left.contains(key) <==> #[trigger] right.contains(key),
    ensures
        left == right,
    decreases left.len(),
{
    if left.len() == 0 {
        if right.len() > 0 {
            assert(right.contains(right[0]));
            assert(left.contains(right[0]));
        }
        assert(left =~= right);
    } else {
        assert(left.contains(left[0]));
        assert(right.contains(left[0]));
        let a = left.last();
        let b = right.last();
        assert(left.contains(a));
        assert(right.contains(b));
        assert(right.contains(a));
        assert(left.contains(b));
        let i = choose|i: int| 0 <= i < right.len() && right[i] == a;
        let j = choose|j: int| 0 <= j < left.len() && left[j] == b;
        if i < right.len() - 1 && j < left.len() - 1 {
            assert(text::precedes(right[i], right[right.len() - 1]));
            assert(text::precedes(left[j], left[left.len() - 1]));
            text::lemma_precedes_transitive(a, b, a);
            text::lemma_precedes_irreflexive(a);
        }
        assert(a == b);
        let front = left.drop_last();
        let other = right.drop_last();
        assert forall|key: Seq<char>| #[trigger] front.contains(key) <==> #[trigger] other.contains(
            key,
        ) by {
            if front.contains(key) {
                let x = choose|x: int| 0 <= x < front.len() && front[x] == key;
                assert(left[x] == key);
                assert(left.contains(key));
                assert(right.contains(key));
                let y = choose|y: int| 0 <= y < right.len() && right[y] == key;
                if y == right.len() - 1 {
                    lemma_ascending_distinct(left, x, left.len() - 1);
                }
                assert(other[y] == key);
            }
            if other.contains(key) {
                let y = choose|y: int| 0 <= y < other.len() && other[y] == key;
                assert(right[y] == key);
                assert(right.contains(key));
                assert(left.contains(key));
                let x = choose|x: int| 0 <= x < left.len() && left[x] == key;
                if x == left.len() - 1 {
                    lemma_ascending_distinct(right, y, right.len() - 1);
                }
                assert(front[x] == key);
            }
        }
        assert(ascending(front)) by {
            assert forall|x: int, y: int| 0 <= x < y < front.len() implies text::precedes(
                #[trigger] front[x],
                #[trigger] front[y],
            ) by {
                assert(front[x] == left[x] && front[y] == left[y]);
            }
        }
        assert(ascending(other)) by {
            assert forall|x: int, y: int| 0 <= x < y < other.len() implies text::precedes(
                #[trigger] other[x],
                #[trigger] other[y],
            ) by {
                assert(other[x] == right[x] && other[y] == right[y]);
            }
        }
        lemma_ascending_same(front, other);
        assert(left =~= front.push(a));
        assert(right =~= other.push(b));
    }
}

impl<V> Table<V> {
    /// The keys are in order, there are as many values, and each value is the one of its key.
    pub proof fn lemma_entries(&self)
        requires
            ascending(self.keys()),
        ensures
            self.keys().len() == self.values().len(),
            forall|i: int|
                0 <= i < self.keys().len() ==> self@.dom().contains(#[trigger] self.keys()[i])
                    && self@[self.keys()[i]] == self.values()[i],
            forall|key: Seq<char>|
                self@.dom().contains(key) <==> #[trigger] self.keys().contains(key),
    {
        assert forall|i: int| 0 <= i < self.keys().len() implies self@.dom().contains(
            #[trigger] self.keys()[i],
        ) && self@[self.keys()[i]] == self.values()[i] by {
            lemma_index(self.keys(), i);
        }
    }

    /// The empty table.
    pub fn new() -> (result: Table<V>)
        ensures
            result@ == Map::<Seq<char>, V>::empty(),
            result.keys() == Seq::<Seq<char>>::empty(),
    {
        let result = Table { entries: Vec::new() };
        assert(result.keys() =~= Seq::<Seq<char>>::empty());
        assert(result@ =~= Map::<Seq<char>, V>::empty());
        result
    }

    /// The table of entries that are in order.
    pub fn from_sorted(entries: Vec<(String, V)>) -> (result: Table<V>)
        requires
            ascending(entry_keys(entries@)),
        ensures
            result.keys() == entry_keys(entries@),
            result.values() == entries@.map_values(|entry: (String, V)| entry.1),
    {
        Table { entries }
    }

    /// The number of keys.
    pub fn len(&self) -> (result: usize)
        ensures
            result == self.keys().len(),
            ascending(self.keys()),
            self.keys().len() == self.values().len(),
            forall|i: int|
                0 <= i < result ==> self@.dom().contains(#[trigger] self.keys()[i])
                    && self@[self.keys()[i]] == self.values()[i],
            forall|key: Seq<char>|
                self@.dom().contains(key) <==> #[trigger] self.keys().contains(key),
    {
        proof {
            use_type_invariant(self);
            self.lemma_entries();
        }
        self.entries.len()
    }

    /// The key at an index in the order of keys.
    pub fn key(&self, index: usize) -> (result: &String)
        requires
            index < self.keys().len(),
        ensures
            result@ == self.keys()[index as int],
    {
        &self.entries[index].0
    }

    /// The value at an index in the order of keys.
    pub fn value(&self, index: usize) -> (result: &V)
        requires
            index < self.keys().len(),
        ensures
            *result == self.values()[index as int],
            self@.dom().contains(self.keys()[index as int]),
            self@[self.keys()[index as int]] == *result,
    {
        proof {
            use_type_invariant(self);
            self.lemma_entries();
            assert(self@.dom().contains(self.keys()[index as int]));
        }
        &self.entries[index].1
    }

    fn position(&self, key: &str) -> (result: usize)
        ensures
            result <= self.keys().len(),
            forall|i: int| 0 <= i < result ==> text::precedes(#[trigger] self.keys()[i], key@),
            result < self.keys().len() ==> self.keys()[result as int] == key@ || text::precedes(
                key@,
                self.keys()[result as int],
            ),
    {
        let mut index: usize = 0;
        while index < self.entries.len() && text::before(&self.entries[index].0, key)
            invariant
                index <= self.entries.len(),
                forall|i: int| 0 <= i < index ==> text::precedes(#[trigger] self.keys()[i], key@),
            decreases self.entries.len() - index,
        {
            assert(self.keys()[index as int] == self.entries@[index as int].0@);
            index = index + 1;
        }
        proof {
            if index < self.entries.len() {
                text::lemma_precedes_total(self.keys()[index as int], key@);
            }
        }
        index
    }

    proof fn lemma_absent(&self, key: Seq<char>, at: int)
        requires
            ascending(self.keys()),
            0 <= at <= self.keys().len(),
            forall|i: int| 0 <= i < at ==> text::precedes(#[trigger] self.keys()[i], key),
            at < self.keys().len() ==> text::precedes(key, self.keys()[at]),
        ensures
            !self.keys().contains(key),
    {
        if self.keys().contains(key) {
            let i = choose|i: int| 0 <= i < self.keys().len() && self.keys()[i] == key;
            if i < at {
                assert(text::precedes(self.keys()[i], key));
            } else if i > at {
                text::lemma_precedes_transitive(key, self.keys()[at], self.keys()[i]);
            }
            text::lemma_precedes_irreflexive(key);
        }
    }

    /// The value of a key.
    pub fn get(&self, key: &str) -> (result: Option<&V>)
        ensures
            match result {
                Some(value) => self@.dom().contains(key@) && self@[key@] == *value,
                None => !self@.dom().contains(key@),
            },
    {
        let at: usize = self.position(key);
        proof {
            use_type_invariant(self);
            self.lemma_entries();
        }
        if at < self.entries.len() && text::same(&self.entries[at].0, key) {
            assert(self.keys()[at as int] == key@);
            Some(&self.entries[at].1)
        } else {
            proof {
                if at < self.entries.len() {
                    assert(self.keys()[at as int] == self.entries@[at as int].0@);
                }
                self.lemma_absent(key@, at as int);
            }
            None
        }
    }

    /// Whether the key is in the table.
    pub fn contains(&self, key: &str) -> (result: bool)
        ensures
            result == self@.dom().contains(key@),
    {
        self.get(key).is_some()
    }

    /// The table with the key set to the value.
    pub fn insert(self, key: String, value: V) -> (result: Table<V>)
        ensures
            result@ == self@.insert(key@, value),
    {
        let at: usize = self.position(&key);
        proof {
            use_type_invariant(&self);
            self.lemma_entries();
        }
        let ghost before = self;
        let replace: bool = at < self.entries.len() && text::same(&self.entries[at].0, &key);
        let Table { entries } = self;
        let mut entries = entries;
        let ghost old_entries = entries@;
        let ghost added = (key, value);
        if replace {
            entries.set(at, (key, value));
            proof {
                assert(before.keys()[at as int] == added.0@);
                assert(entries@.map_values(|entry: (String, V)| entry.0@) =~= before.keys());
            }
            let result = Table { entries };
            proof {
                result.lemma_entries();
                assert(result.values() =~= before.values().update(at as int, added.1));
                assert forall|k: Seq<char>| #[trigger]
                    result@.dom().contains(k) implies result@[k] == before@.insert(
                    added.0@,
                    added.1,
                )[k] by {
                    let i = result.keys().index_of(k);
                    assert(result.keys()[i] == k);
                    if k == added.0@ {
                        lemma_ascending_distinct(result.keys(), i, at as int);
                    } else {
                        assert(i != at);
                        assert(before@[before.keys()[i]] == before.values()[i]);
                    }
                    assert(result@[result.keys()[i]] == result.values()[i]);
                }
                assert forall|k: Seq<char>| before@.insert(added.0@, added.1).dom().contains(
                    k,
                ) == result@.dom().contains(k) by {
                    assert(result.keys() =~= before.keys());
                    if k == added.0@ {
                        assert(result.keys()[at as int] == k);
                        assert(result.keys().contains(k));
                    }
                    assert(before@.dom().contains(k) <==> before.keys().contains(k));
                    assert(result@.dom().contains(k) <==> result.keys().contains(k));
                }
                assert(result@ =~= before@.insert(added.0@, added.1));
            }
            result
        } else {
            proof {
                if at < entries.len() {
                    assert(before.keys()[at as int] == old_entries[at as int].0@);
                }
                before.lemma_absent(added.0@, at as int);
            }
            entries.insert(at, (key, value));
            proof {
                let keys = entries@.map_values(|entry: (String, V)| entry.0@);
                assert(keys =~= before.keys().insert(at as int, added.0@));
                assert forall|i: int, j: int| 0 <= i < j < keys.len() implies text::precedes(
                    #[trigger] keys[i],
                    #[trigger] keys[j],
                ) by {
                    if j == at {
                        assert(keys[i] == before.keys()[i]);
                    } else if i == at {
                        assert(keys[j] == before.keys()[j - 1]);
                        if j - 1 > at {
                            text::lemma_precedes_transitive(
                                added.0@,
                                before.keys()[at as int],
                                before.keys()[j - 1],
                            );
                        }
                    } else {
                        let x = if i < at { i } else { i - 1 };
                        let y = if j < at { j } else { j - 1 };
                        assert(keys[i] == before.keys()[x]);
                        assert(keys[j] == before.keys()[y]);
                    }
                }
            }
            let result = Table { entries };
            proof {
                result.lemma_entries();
                assert(result.keys() =~= before.keys().insert(at as int, added.0@));
                assert(result.values() =~= before.values().insert(at as int, added.1));
                assert forall|k: Seq<char>| #[trigger]
                    result@.dom().contains(k) implies before@.insert(
                    added.0@,
                    added.1,
                ).dom().contains(k) && result@[k] == before@.insert(added.0@, added.1)[k] by {
                    let i = result.keys().index_of(k);
                    assert(result.keys().contains(k));
                    assert(result.keys()[i] == k);
                    assert(result@[result.keys()[i]] == result.values()[i]);
                    if i == at {
                        assert(k == added.0@);
                    } else {
                        let x = if i < at { i } else { i - 1 };
                        assert(before.keys()[x] == k);
                        assert(before@[before.keys()[x]] == before.values()[x]);
                        if k == added.0@ {
                            lemma_ascending_distinct(result.keys(), i, at as int);
                        }
                    }
                }
                assert forall|k: Seq<char>| #[trigger]
                    before@.insert(added.0@, added.1).dom().contains(
                    k,
                ) implies result@.dom().contains(k) by {
                    if k == added.0@ {
                        assert(result.keys()[at as int] == k);
                    } else {
                        assert(before.keys().contains(k));
                        let x = before.keys().index_of(k);
                        let i = if x < at { x } else { x + 1 };
                        assert(result.keys()[i] == k);
                    }
                    assert(result.keys().contains(k));
                }
                assert(result@ =~= before@.insert(added.0@, added.1));
            }
            result
        }
    }

    /// The table without the key.
    pub fn remove(self, key: &str) -> (result: Table<V>)
        ensures
            result@ == self@.remove(key@),
    {
        let at: usize = self.position(key);
        proof {
            use_type_invariant(&self);
            self.lemma_entries();
        }
        let ghost before = self;
        let found: bool = at < self.entries.len() && text::same(&self.entries[at].0, key);
        if !found {
            proof {
                if at < self.entries.len() {
                    assert(self.keys()[at as int] == self.entries@[at as int].0@);
                }
                self.lemma_absent(key@, at as int);
                assert(self@.remove(key@) =~= self@);
            }
            return self;
        }
        let Table { entries } = self;
        let mut entries = entries;
        entries.remove(at);
        proof {
            let keys = entries@.map_values(|entry: (String, V)| entry.0@);
            assert(keys =~= before.keys().remove(at as int));
            assert forall|i: int, j: int| 0 <= i < j < keys.len() implies text::precedes(
                #[trigger] keys[i],
                #[trigger] keys[j],
            ) by {
                let x = if i < at { i } else { i + 1 };
                let y = if j < at { j } else { j + 1 };
                assert(keys[i] == before.keys()[x]);
                assert(keys[j] == before.keys()[y]);
            }
        }
        let result = Table { entries };
        proof {
            result.lemma_entries();
            assert(before.keys()[at as int] == key@);
            assert(result.keys() =~= before.keys().remove(at as int));
            assert(result.values() =~= before.values().remove(at as int));
            assert forall|k: Seq<char>| #[trigger]
                result@.dom().contains(k) implies before@.remove(key@).dom().contains(k)
                && result@[k] == before@.remove(key@)[k] by {
                assert(result.keys().contains(k));
                let i = result.keys().index_of(k);
                let x = if i < at { i } else { i + 1 };
                assert(before.keys()[x] == k);
                assert(result@[result.keys()[i]] == result.values()[i]);
                assert(before@[before.keys()[x]] == before.values()[x]);
                if k == key@ {
                    lemma_ascending_distinct(before.keys(), x, at as int);
                }
            }
            assert forall|k: Seq<char>| #[trigger]
                before@.remove(key@).dom().contains(k) implies result@.dom().contains(k) by {
                assert(before.keys().contains(k));
                let x = before.keys().index_of(k);
                assert(x != at);
                let i = if x < at { x } else { x - 1 };
                assert(result.keys()[i] == k);
                assert(result.keys().contains(k));
            }
            assert(result@ =~= before@.remove(key@));
        }
        result
    }
}

} // verus!
