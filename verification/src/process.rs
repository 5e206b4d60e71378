//! The processes of services.

use vstd::prelude::*;
use crate::config::reference::{self, resolved_of, Sources};
use crate::table::{strings_of, Table};

verus! {

/// The first variables of a process with what their values stand for, or why one stands for nothing.
pub open spec fn environment_of(
    keys: Seq<Seq<char>>,
    values: Seq<String>,
    sources: Sources,
    count: int,
) -> Result<Map<Seq<char>, Seq<char>>, Seq<char>>
    decreases count,
{
    if count <= 0 {
        Ok(Map::empty())
    } else {
        match environment_of(keys, values, sources, count - 1) {
            Err(reason) => Err(reason),
            Ok(before) => match resolved_of(
                "configuration value"@,
                values[count - 1]@,
                sources,
            ) {
                Err(reason) => Err(reason),
                Ok(value) => Ok(before.insert(keys[count - 1], value)),
            },
        }
    }
}

proof fn lemma_environment_fails(
    keys: Seq<Seq<char>>,
    values: Seq<String>,
    sources: Sources,
    at: int,
    count: int,
)
    requires
        0 <= at <= count,
        environment_of(keys, values, sources, at) is Err,
    ensures
        environment_of(keys, values, sources, count) == environment_of(keys, values, sources, at),
    decreases count - at,
{
    if at < count {
        lemma_environment_fails(keys, values, sources, at, count - 1);
    }
}

/// The variables of a process with what their values stand for, or why one stands for nothing.
pub fn environment(given: &Table<String>, sources: &Sources) -> (result: Result<Table<String>, String>)
    ensures
        match (
            result,
            environment_of(given.keys(), given.values(), *sources, given.keys().len() as int),
        ) {
            (Ok(found), Ok(expected)) => strings_of(found@) == expected,
            (Err(reason), Err(expected)) => reason@ == expected,
            _ => false,
        },
{
    let count: usize = given.len();
    let ghost keys = given.keys();
    let ghost values = given.values();
    let mut result: Table<String> = Table::new();
    let mut index: usize = 0;
    assert(strings_of(result@) =~= Map::<Seq<char>, Seq<char>>::empty());
    while index < count
        invariant
            index <= count,
            count == keys.len(),
            keys == given.keys(),
            values == given.values(),
            environment_of(keys, values, *sources, index as int) == Ok::<
                Map<Seq<char>, Seq<char>>,
                Seq<char>,
            >(strings_of(result@)),
        decreases count - index,
    {
        match reference::resolve(given.value(index), sources) {
            Ok(value) => {
                let key = given.key(index).clone();
                let ghost before = strings_of(result@);
                result = result.insert(key, value);
                assert(strings_of(result@) =~= before.insert(key@, value@));
            },
            Err(reason) => {
                proof {
                    lemma_environment_fails(keys, values, *sources, index + 1, count as int);
                }
                return Err(reason);
            },
        }
        index = index + 1;
    }
    Ok(result)
}

/// The environment of a command holds each variable that is set for it, resolved; one that cannot be resolved has the
/// command refused.
pub proof fn lemma_environment_set(keys: Seq<Seq<char>>, values: Seq<String>, sources: Sources, count: int, at: int)
    requires
        0 <= at < count <= keys.len(),
        keys.len() == values.len(),
    ensures
        resolved_of("configuration value"@, values[at]@, sources) is Err ==> environment_of(
            keys,
            values,
            sources,
            count,
        ) is Err,
        environment_of(keys, values, sources, count) matches Ok(map) ==> map.dom().contains(keys[at]),
        (forall|i: int| at < i < count ==> #[trigger] keys[i] != keys[at]) ==> (environment_of(
            keys,
            values,
            sources,
            count,
        ) matches Ok(map) ==> resolved_of("configuration value"@, values[at]@, sources) == Ok::<
            Seq<char>,
            Seq<char>,
        >(map[keys[at]])),
    decreases count,
{
    if at < count - 1 {
        lemma_environment_set(keys, values, sources, count - 1, at);
        if forall|i: int| at < i < count ==> #[trigger] keys[i] != keys[at] {
            assert(keys[count - 1] != keys[at]);
        }
    }
}

} // verus!
