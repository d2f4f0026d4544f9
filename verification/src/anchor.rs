//! Anchors and the ledger of what depends on them.
//!
//! An anchor is a point that other elements are laid out from. Whatever uses
//! an anchor is entered among the anchor's dependents; an anchor with no
//! dependent is unassigned, and one with a dependent must not go away.

use crate::cabin::Entity;
use std::collections::BTreeSet;
use vstd::prelude::*;
use vstd::std_specs::iter::IteratorSpec;

verus! {

/// The entities that depend on an entity. These are references back to the
/// users of the entity: it does not own them.
#[derive(Clone, Debug, PartialEq, Eq)]
pub struct Dependents(pub BTreeSet<Entity>);

impl View for Dependents {
    type V = Set<Entity>;

    open spec fn view(&self) -> Set<Entity> {
        self.0@
    }
}

impl Dependents {
    pub fn new() -> (dependents: Self)
        ensures
            dependents@ == Set::<Entity>::empty(),
    {
        Dependents(BTreeSet::new())
    }

    /// The dependents of an entity that `dependent` alone uses.
    pub fn single(dependent: Entity) -> (dependents: Self)
        ensures
            dependents@ == set![dependent],
    {
        let mut users = BTreeSet::new();
        users.insert(dependent);
        assert(users@ =~= set![dependent]);
        Dependents(users)
    }

    /// Enters `dependent`; says whether it was new.
    pub fn insert(&mut self, dependent: Entity) -> (added: bool)
        ensures
            final(self)@ == old(self)@.insert(dependent),
            added == !old(self)@.contains(dependent),
    {
        self.0.insert(dependent)
    }

    /// Strikes `dependent`; says whether it was entered.
    pub fn remove(&mut self, dependent: Entity) -> (removed: bool)
        ensures
            final(self)@ == old(self)@.remove(dependent),
            removed == old(self)@.contains(dependent),
    {
        self.0.remove(&dependent)
    }

    pub fn contains(&self, dependent: Entity) -> (found: bool)
        ensures
            found == self@.contains(dependent),
    {
        self.0.contains(&dependent)
    }

    pub fn is_empty(&self) -> (empty: bool)
        ensures
            empty == self@.is_empty(),
    {
        self.0.is_empty()
    }

    /// Whether nothing but `dependent` is entered.
    pub fn only(&self, dependent: Entity) -> (alone: bool)
        ensures
            alone == self@.subset_of(set![dependent]),
    {
        let mut alone = true;
        for user in it: self.0.iter()
            invariant
                alone == (forall|j: int| 0 <= j < it.index() ==> *it.seq()[j] == dependent),
        {
            if *user != dependent {
                alone = false;
            }
        }
        proof {
            let users = vstd::std_specs::btree::spec_btree_keys_iter(&self.0).remaining();
            assert(users.unref().to_set() == self@);
            if alone {
                assert forall|e: Entity| self@.contains(e) implies set![dependent].contains(e) by {
                    let j = choose|j: int| 0 <= j < users.unref().len() && users.unref()[j] == e;
                    assert(*users[j] == dependent);
                }
            } else {
                let j = choose|j: int| 0 <= j < users.len() && *users[j] != dependent;
                assert(users.unref()[j] != dependent);
                assert(users.unref().to_set().contains(users.unref()[j]));
            }
        }
        alone
    }

    /// The dependents in increasing order of handle.
    pub fn to_vec(&self) -> (users: Vec<Entity>)
        ensures
            users@ == crate::ascending::ascending(self@),
    {
        crate::order::ordered(&self.0)
    }

    pub fn copy(&self) -> (dependents: Self)
        ensures
            dependents@ == self@,
    {
        Dependents(self.0.clone())
    }
}

/// An anchor as the ledger sees it.
#[derive(Clone, Debug, PartialEq, Eq)]
pub struct Anchor {
    /// What depends on the anchor.
    pub dependents: Dependents,
    /// The lift that the anchor belongs to, if it is part of a lift and
    /// lives and dies with it.
    pub subordinate: Option<Entity>,
}

/// What an anchor is, with its dependents as a set.
pub struct AnchorView {
    pub dependents: Set<Entity>,
    pub subordinate: Option<Entity>,
}

impl View for Anchor {
    type V = AnchorView;

    open spec fn view(&self) -> AnchorView {
        AnchorView { dependents: self.dependents@, subordinate: self.subordinate }
    }
}

impl Anchor {
    /// An anchor that nothing uses yet.
    pub fn new(subordinate: Option<Entity>) -> (anchor: Self)
        ensures
            anchor@ == (AnchorView { dependents: Set::<Entity>::empty(), subordinate }),
    {
        Anchor { dependents: Dependents::new(), subordinate }
    }

    /// Whether nothing depends on the anchor.
    pub fn is_unassigned(&self) -> (unassigned: bool)
        ensures
            unassigned == self@.dependents.is_empty(),
    {
        self.dependents.is_empty()
    }
}

} // verus!
