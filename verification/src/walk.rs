//! Walks over the keys of a hash map.

use crate::internal::sd_core::Id;
use std::collections::HashMap;
use vstd::prelude::*;
use vstd::std_specs::iter::IteratorSpec;

verus! {

/// An order in which all keys of a map are visited, each once.
pub open spec fn is_walk<V>(map: Map<Id, V>, walk: Seq<Id>) -> bool {
    walk.no_duplicates() && walk.to_set() == map.dom()
}

/// The keys of a map, in the order in which the map is iterated.
pub(crate) fn keys_of<V>(map: &HashMap<Id, V>) -> (r: Vec<Id>)
    ensures
        is_walk(map@, r@),
{
    let mut ids: Vec<Id> = Vec::new();
    for id in it: map.keys()
        invariant
            ids@.len() == it.index(),
            forall|i: int| 0 <= i < ids@.len() ==> ids@[i] == *it.seq()[i],
    {
        ids.push(*id);
    }
    proof {
        let order = vstd::std_specs::hash::spec_keys_iter(map).remaining();
        assert(ids@ =~= order.unref());
        assert forall|i: int, j: int| 0 <= i < j < ids@.len() implies ids@[i] != ids@[j] by {
            assert(order[i] != order[j]);
        }
    }
    ids
}

} // verus!
