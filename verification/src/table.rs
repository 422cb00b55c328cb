//! Tables keyed by numeric ids.

use std::collections::{HashMap, HashSet};

use vstd::prelude::*;
use vstd::std_specs::iter::IteratorSpec;

verus! {

broadcast use vstd::std_specs::hash::group_hash_axioms;

/// The ids that a table has entries for, in no particular order.
pub fn ids_of<V>(table: &HashMap<u64, V>) -> (ids: Vec<u64>)
    ensures
        ids@.no_duplicates(),
        forall|id: u64| ids@.contains(id) <==> #[trigger] table@.contains_key(id),
{
    let ghost keys = table.keys().remaining();
    let mut ids: Vec<u64> = Vec::new();
    for id in it: table.keys()
        invariant
            it.seq() == keys,
            ids@.len() == it.index(),
            forall|i: int| 0 <= i < ids@.len() ==> ids@[i] == *#[trigger] it.seq()[i],
    {
        ids.push(*id);
    }
    assert(ids@ =~= keys.unref());
    assert forall|i: int, j: int| 0 <= i < ids@.len() && 0 <= j < ids@.len() && i != j implies ids@[i]
        != ids@[j] by {
        assert(keys[i] != keys[j]);
    }
    assert forall|id: u64| ids@.contains(id) <==> #[trigger] table@.contains_key(id) by {
        assert(ids@.contains(id) == ids@.to_set().contains(id));
    }
    ids
}

/// The set of the ids in a list.
pub fn set_of(ids: &Vec<u64>) -> (set: HashSet<u64>)
    ensures
        set@ == ids@.to_set(),
{
    let mut set: HashSet<u64> = HashSet::new();
    let mut i: usize = 0;
    while i < ids.len()
        invariant
            i <= ids.len(),
            set@ == ids@.take(i as int).to_set(),
        decreases ids.len() - i,
    {
        set.insert(ids[i]);
        assert(ids@.take(i + 1) =~= ids@.take(i as int).push(ids@[i as int]));
        assert forall|id: u64| #[trigger] set@.contains(id) == ids@.take(i + 1).to_set().contains(
            id,
        ) by {
            let before = ids@.take(i as int);
            if before.contains(id) {
                let j = choose|j: int| 0 <= j < before.len() && before[j] == id;
                assert(ids@.take(i + 1)[j] == id);
            }
            if id == ids@[i as int] {
                assert(ids@.take(i + 1)[i as int] == id);
            }
        }
        assert(set@ =~= ids@.take(i + 1).to_set());
        i += 1;
    }
    assert(ids@.take(i as int) =~= ids@);
    set
}

} // verus!
