//! The members of standard collections, as vectors.

use std::collections::{BTreeMap, HashMap, HashSet};

use vstd::prelude::*;
use vstd::std_specs::cmp::OrdSpec;
use vstd::std_specs::iter::IteratorSpec;

verus! {

broadcast use {
    vstd::std_specs::hash::group_hash_axioms,
    vstd::std_specs::btree::group_btree_axioms,
};

/// Copies the members of a set into a vector, in no particular order.
pub fn set_members(set: &HashSet<u64>) -> (r: Vec<u64>)
    ensures
        r@.no_duplicates(),
        r@.to_set() == set@,
        r@.len() == set@.len(),
{
    let mut ids: Vec<u64> = Vec::new();
    let ghost all = vstd::std_specs::hash::spec_hash_keys_iter(set).remaining();
    for id in it: set.iter()
        invariant
            it.seq() == all,
            ids@ =~= all.unref().take(it.index()),
    {
        ids.push(*id);
    }
    assert(ids@ =~= all.unref());
    ids
}

/// Copies the keys of a map into a vector, in no particular order.
pub fn map_keys<V>(map: &HashMap<u64, V>) -> (r: Vec<u64>)
    ensures
        r@.no_duplicates(),
        r@.to_set() == map@.dom(),
        r@.len() == map@.len(),
{
    let mut ids: Vec<u64> = Vec::new();
    let ghost all = vstd::std_specs::hash::spec_keys_iter(map).remaining();
    for id in it: map.keys()
        invariant
            it.seq() == all,
            ids@ =~= all.unref().take(it.index()),
    {
        ids.push(*id);
    }
    assert(ids@ =~= all.unref());
    ids
}

/// Copies the small keys of a map into a vector, in no particular order.
pub fn small_map_keys<V>(map: &HashMap<u8, V>) -> (r: Vec<u8>)
    ensures
        r@.no_duplicates(),
        r@.to_set() == map@.dom(),
        r@.len() == map@.len(),
{
    let mut ids: Vec<u8> = Vec::new();
    let ghost all = vstd::std_specs::hash::spec_keys_iter(map).remaining();
    for id in it: map.keys()
        invariant
            it.seq() == all,
            ids@ =~= all.unref().take(it.index()),
    {
        ids.push(*id);
    }
    assert(ids@ =~= all.unref());
    ids
}

/// Copies the keys of an ordered map into a vector, in ascending order.
pub fn sorted_map_keys<V>(map: &BTreeMap<u64, V>) -> (r: Vec<u64>)
    ensures
        forall|i: int, j: int| 0 <= i < j < r@.len() ==> r@[i] < r@[j],
        r@.to_set() == map@.dom(),
        r@.len() == map@.len(),
{
    let mut ids: Vec<u64> = Vec::new();
    let ghost all = vstd::std_specs::btree::spec_keys_iter(map).remaining();
    for id in it: map.keys()
        invariant
            it.seq() == all,
            ids@ =~= all.unref().take(it.index()),
    {
        ids.push(*id);
    }
    assert(ids@ =~= all.unref());
    assert forall|i: int, j: int| 0 <= i < j < ids@.len() implies ids@[i] < ids@[j] by {
        broadcast use vstd::laws_cmp::group_laws_cmp;

        assert(vstd::laws_cmp::obeys_cmp::<&u64>());
        assert(vstd::std_specs::btree::increasing_seq(all));
        assert(OrdSpec::cmp_spec(&all[i], &all[j]) is Less);
    }
    ids
}

} // verus!
