//! Walking sets of handles in increasing order.

use crate::ascending::ascending;
use crate::ascending::lemma_ascending_is;
use crate::cabin::Entity;
use std::collections::BTreeMap;
use std::collections::BTreeSet;
use vstd::laws_cmp::obeys_cmp;
use vstd::prelude::*;
use vstd::std_specs::cmp::OrdSpec;
use vstd::std_specs::iter::IteratorSpec;

verus! {

/// References to handles are ordered as the handles are.
proof fn lemma_handle_refs_are_ordered()
    ensures
        obeys_cmp::<&Entity>(),
{
    broadcast use vstd::laws_eq::group_laws_eq;
    broadcast use vstd::laws_cmp::group_laws_cmp;
    reveal(vstd::laws_eq::obeys_eq_spec_properties);
    reveal(vstd::laws_cmp::obeys_partial_cmp_spec_properties);
    reveal(vstd::laws_cmp::obeys_cmp_partial_ord);
    reveal(vstd::laws_cmp::obeys_cmp_ord);
    assert(obeys_cmp::<Entity>());
}

/// The members of `set` in increasing order.
pub fn ordered(set: &BTreeSet<Entity>) -> (members: Vec<Entity>)
    ensures
        members@ == ascending(set@),
{
    let mut members: Vec<Entity> = Vec::new();
    for member in it: set.iter()
        invariant
            members@.len() == it.index(),
            forall|j: int| 0 <= j < members@.len() ==> members@[j] == *it.seq()[j],
    {
        members.push(*member);
    }
    proof {
        let walked = vstd::std_specs::btree::spec_btree_keys_iter(set).remaining();
        assert(members@ =~= walked.unref());
        assert forall|i: int, j: int|
            0 <= i < members@.len() && 0 <= j < members@.len() && i != j implies members@[i]
            != members@[j] by {
            assert(walked[i] != walked[j]);
        }
        lemma_handle_refs_are_ordered();
        vstd::std_specs::btree::axiom_increasing_seq_meaning::<&Entity>(walked);
        assert forall|i: int, j: int| 0 <= i < j < members@.len() implies members@[i]
            < members@[j] by {
            let earlier: &Entity = walked[i];
            let later: &Entity = walked[j];
            assert((&earlier).cmp_spec(&later) is Less);
        }
        assert(members@.to_set() == set@);
        lemma_ascending_is(set@, members@);
    }
    members
}

/// The keys of `map` in increasing order.
pub fn ordered_keys<V>(map: &BTreeMap<Entity, V>) -> (keys: Vec<Entity>)
    ensures
        keys@ == ascending(map@.dom()),
{
    let mut keys: Vec<Entity> = Vec::new();
    for key in it: map.keys()
        invariant
            keys@.len() == it.index(),
            forall|j: int| 0 <= j < keys@.len() ==> keys@[j] == *it.seq()[j],
    {
        keys.push(*key);
    }
    proof {
        let walked = vstd::std_specs::btree::spec_keys_iter(map).remaining();
        assert(keys@ =~= walked.unref());
        assert forall|i: int, j: int|
            0 <= i < keys@.len() && 0 <= j < keys@.len() && i != j implies keys@[i]
            != keys@[j] by {
            assert(walked[i] != walked[j]);
        }
        lemma_handle_refs_are_ordered();
        vstd::std_specs::btree::axiom_increasing_seq_meaning::<&Entity>(walked);
        assert forall|i: int, j: int| 0 <= i < j < keys@.len() implies keys@[i] < keys@[j] by {
            let earlier: &Entity = walked[i];
            let later: &Entity = walked[j];
            assert((&earlier).cmp_spec(&later) is Less);
        }
        assert(keys@.to_set() == map@.dom());
        lemma_ascending_is(map@.dom(), keys@);
    }
    keys
}

} // verus!
