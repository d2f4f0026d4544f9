//! Cabin doors and the levels at which they open.

use crate::anchor::Dependents;
use crate::cabin::Entity;
use std::collections::BTreeSet;
use vstd::prelude::*;

verus! {

/// Two anchors that a lift or a door is laid out along.
#[derive(Clone, Copy, Debug, PartialEq, Eq, Structural)]
pub struct Edge {
    pub start: Entity,
    pub end: Entity,
}

impl Edge {
    pub fn new(start: Entity, end: Entity) -> (edge: Self)
        ensures
            edge == (Edge { start, end }),
    {
        Edge { start, end }
    }

    /// The two anchors as a sequence, start first.
    pub open spec fn anchors(self) -> Seq<Entity> {
        seq![self.start, self.end]
    }

    /// Whether `anchor` is one of the two.
    pub open spec fn has(self, anchor: Entity) -> bool {
        anchor == self.start || anchor == self.end
    }

    pub fn array(&self) -> (anchors: [Entity; 2])
        ensures
            anchors@ == self.anchors(),
    {
        let anchors = [self.start, self.end];
        assert(anchors@ =~= self.anchors());
        anchors
    }
}

/// The way a door opens.
#[derive(Clone, Copy, Debug, PartialEq, Eq, Structural)]
pub enum DoorType {
    SingleSliding,
    DoubleSliding,
    SingleSwing,
    DoubleSwing,
}

/// The levels at which a door can be used, in increasing order of handle.
#[derive(Clone, Debug, PartialEq, Eq)]
pub struct LevelVisits(pub BTreeSet<Entity>);

impl View for LevelVisits {
    type V = Set<Entity>;

    open spec fn view(&self) -> Set<Entity> {
        self.0@
    }
}

impl LevelVisits {
    pub fn new() -> (visits: Self)
        ensures
            visits@ == Set::<Entity>::empty(),
    {
        LevelVisits(BTreeSet::new())
    }

    /// The visits of a door that opens at `level` only.
    pub fn single(level: Entity) -> (visits: Self)
        ensures
            visits@ == set![level],
    {
        let mut levels = BTreeSet::new();
        levels.insert(level);
        assert(levels@ =~= set![level]);
        LevelVisits(levels)
    }

    /// Adds `level`; says whether it was new.
    pub fn insert(&mut self, level: Entity) -> (added: bool)
        ensures
            final(self)@ == old(self)@.insert(level),
            added == !old(self)@.contains(level),
    {
        self.0.insert(level)
    }

    /// Takes `level` out; says whether it was there.
    pub fn remove(&mut self, level: Entity) -> (removed: bool)
        ensures
            final(self)@ == old(self)@.remove(level),
            removed == old(self)@.contains(level),
    {
        self.0.remove(&level)
    }

    pub fn contains(&self, level: Entity) -> (found: bool)
        ensures
            found == self@.contains(level),
    {
        self.0.contains(&level)
    }

    pub fn is_empty(&self) -> (empty: bool)
        ensures
            empty == self@.is_empty(),
    {
        self.0.is_empty()
    }

    pub fn copy(&self) -> (visits: Self)
        ensures
            visits@ == self@,
    {
        LevelVisits(self.0.clone())
    }
}

/// A door of a lift cabin.
#[derive(Clone, Debug, PartialEq, Eq)]
pub struct LiftCabinDoor {
    pub kind: DoorType,
    /// The two anchors that the door spans.
    pub reference_anchors: Edge,
    /// The levels at which the door can be used.
    pub visits: LevelVisits,
    /// What depends on the door.
    pub dependents: Dependents,
}

/// What a door is, with its levels and dependents as sets.
pub struct DoorView {
    pub kind: DoorType,
    pub reference_anchors: Edge,
    pub visits: Set<Entity>,
    pub dependents: Set<Entity>,
}

impl View for LiftCabinDoor {
    type V = DoorView;

    open spec fn view(&self) -> DoorView {
        DoorView {
            kind: self.kind,
            reference_anchors: self.reference_anchors,
            visits: self.visits@,
            dependents: self.dependents@,
        }
    }
}

} // verus!
