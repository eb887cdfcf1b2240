//! The keys of hash maps.

use std::collections::HashMap;
use vstd::prelude::*;
use vstd::std_specs::iter::IteratorSpec;

verus! {

broadcast use vstd::std_specs::hash::group_hash_axioms;

/// The keys of a map, each once, in whatever order the map has them.
pub fn keys_of<V>(map: &HashMap<u64, V>) -> (listed: Vec<u64>)
    ensures
        listed@.no_duplicates(),
        listed@.to_set() == map@.dom(),
{
    let mut listed: Vec<u64> = Vec::new();
    let ghost all = vstd::std_specs::hash::spec_keys_iter(map).remaining().unref();
    for key in keys: map.keys()
        invariant
            keys.seq().unref() == all,
            listed@ == all.take(keys.index() as int),
        ensures
            listed@ == all,
    {
        listed.push(*key);
        assert(listed@ =~= all.take(keys.index() + 1));
    }
    listed
}

} // verus!
