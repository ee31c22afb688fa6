//! Named entries: a mapping from names to values, kept as a list in the order
//! in which the entries were written. A name is looked up from the front, so
//! the first entry of a name is the one that counts.

use vstd::prelude::*;
use super::text::str_eq;

verus! {

/// Whether some entry of `entries` has the name `name`.
pub open spec fn has_name<T>(entries: Seq<(Seq<char>, T)>, name: Seq<char>) -> bool {
    exists|i: int| 0 <= i < entries.len() && (#[trigger] entries[i]).0 == name
}

/// Whether the entry at `i` is the first of `entries` with the name `name`.
pub open spec fn is_first_at<T>(entries: Seq<(Seq<char>, T)>, name: Seq<char>, i: int) -> bool {
    &&& 0 <= i < entries.len()
    &&& entries[i].0 == name
    &&& forall|j: int| 0 <= j < i ==> (#[trigger] entries[j]).0 != name
}

/// The position of the first entry with the name `name`.
pub open spec fn position<T>(entries: Seq<(Seq<char>, T)>, name: Seq<char>) -> Option<int> {
    if has_name(entries, name) {
        Some(choose|i: int| is_first_at(entries, name, i))
    } else {
        None
    }
}

/// The value that `entries` gives to `name`.
pub open spec fn lookup<T>(entries: Seq<(Seq<char>, T)>, name: Seq<char>) -> Option<T> {
    match position(entries, name) {
        Some(i) => Some(entries[i].1),
        None => None,
    }
}

/// The names of `entries`, in order.
pub open spec fn names<T>(entries: Seq<(Seq<char>, T)>) -> Seq<Seq<char>> {
    Seq::new(entries.len(), |i: int| entries[i].0)
}

/// Whether no name occurs twice in `entries`.
pub open spec fn distinct_names<T>(entries: Seq<(Seq<char>, T)>) -> bool {
    forall|i: int, j: int|
        0 <= i < j < entries.len() ==> (#[trigger] entries[i]).0 != (#[trigger] entries[j]).0
}

/// A name has at most one first entry.
pub proof fn lemma_first_is_unique<T>(entries: Seq<(Seq<char>, T)>, name: Seq<char>, i: int, j: int)
    requires
        is_first_at(entries, name, i),
        is_first_at(entries, name, j),
    ensures
        i == j,
{
    if i < j {
        assert(entries[i].0 == name);
    } else if j < i {
        assert(entries[j].0 == name);
    }
}

/// A name that occurs has a first entry.
pub proof fn lemma_has_first<T>(entries: Seq<(Seq<char>, T)>, name: Seq<char>, k: int)
    requires
        0 <= k < entries.len(),
        entries[k].0 == name,
    ensures
        exists|i: int| 0 <= i <= k && is_first_at(entries, name, i),
    decreases k,
{
    if exists|j: int| 0 <= j < k && (#[trigger] entries[j]).0 == name {
        let j = choose|j: int| 0 <= j < k && (#[trigger] entries[j]).0 == name;
        lemma_has_first(entries, name, j);
    } else {
        assert(is_first_at(entries, name, k));
    }
}

/// The first entry of a name is its position.
pub proof fn lemma_position_is_first<T>(entries: Seq<(Seq<char>, T)>, name: Seq<char>, i: int)
    requires
        is_first_at(entries, name, i),
    ensures
        position(entries, name) == Some(i),
        lookup(entries, name) == Some(entries[i].1),
{
    assert(has_name(entries, name));
    let c = choose|c: int| is_first_at(entries, name, c);
    lemma_first_is_unique(entries, name, i, c);
}

/// The position of a name is where its first entry stands.
pub proof fn lemma_position_some<T>(entries: Seq<(Seq<char>, T)>, name: Seq<char>)
    requires
        has_name(entries, name),
    ensures
        position(entries, name) is Some,
        is_first_at(entries, name, position(entries, name).unwrap()),
{
    let k = choose|k: int| 0 <= k < entries.len() && (#[trigger] entries[k]).0 == name;
    lemma_has_first(entries, name, k);
}

/// Finds the first entry of `entries` with the name `name`.
pub fn find<V: DeepView>(entries: &Vec<(String, V)>, name: &str) -> (r: Option<usize>)
    ensures
        match r {
            Some(i) => i < entries.len() && is_first_at(entries.deep_view(), name@, i as int),
            None => !has_name(entries.deep_view(), name@),
        },
        r.is_some() == has_name(entries.deep_view(), name@),
        match r {
            Some(i) => position(entries.deep_view(), name@) == Some(i as int),
            None => position(entries.deep_view(), name@) is None,
        },
{
    let mut i: usize = 0;
    while i < entries.len()
        invariant
            i <= entries.len(),
            forall|j: int| 0 <= j < i ==> (#[trigger] entries.deep_view()[j]).0 != name@,
        decreases entries.len() - i,
    {
        if str_eq(entries[i].0.as_str(), name) {
            proof {
                assert(entries.deep_view()[i as int].0 == name@);
                lemma_position_is_first(entries.deep_view(), name@, i as int);
            }
            return Some(i);
        }
        assert(entries.deep_view()[i as int].0 != name@);
        i += 1;
    }
    None
}

/// Whether `names` holds `name`.
pub fn contains_name(names: &Vec<String>, name: &str) -> (r: bool)
    ensures
        r == names.deep_view().contains(name@),
{
    let mut i: usize = 0;
    while i < names.len()
        invariant
            i <= names.len(),
            forall|j: int| 0 <= j < i ==> (#[trigger] names.deep_view()[j]) != name@,
        decreases names.len() - i,
    {
        if str_eq(names[i].as_str(), name) {
            assert(names.deep_view()[i as int] == name@);
            return true;
        }
        assert(names.deep_view()[i as int] != name@);
        i += 1;
    }
    false
}

} // verus!
