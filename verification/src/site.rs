//! The site: every entity that the lifts of a facility are made of, held by
//! handle.

use crate::anchor::Anchor;
use crate::ascending::ascending;
use crate::ascending::lemma_ascending_is;
use crate::cabin::Entity;
use crate::cabin::LiftCabin;
use crate::cabin::RecallLiftCabin;
use crate::cabin::RectFace;
use crate::cabin::RectangularLiftCabin;
use crate::door::Edge;
use crate::door::LiftCabinDoor;
use crate::issue::Issue;
use crate::laws::law_making_keeps_order;
use crate::laws::law_marking_keeps_order;
use crate::lift::CabinAnchorGroupBundle;
use crate::lift::Category;
use crate::lift::Lift;
use crate::model::SiteView;
use crate::order::ordered;
use std::collections::BTreeMap;
use std::collections::BTreeSet;
use vstd::prelude::*;

verus! {

/// The levels, lifts, cabin doors and anchors of a site, each under its
/// handle, with what the site records of every entity: its parent, whether it
/// is marked for removal, and whether it is hidden.
pub struct LiftSite {
    /// The handle that the next new entity gets.
    pub next: Entity,
    /// The parent of each entity that has one.
    pub parents: BTreeMap<Entity, Entity>,
    pub levels: BTreeSet<Entity>,
    pub lifts: BTreeMap<Entity, Lift>,
    pub doors: BTreeMap<Entity, LiftCabinDoor>,
    pub anchors: BTreeMap<Entity, Anchor>,
    pub anchor_groups: BTreeMap<Entity, CabinAnchorGroupBundle>,
    /// The kind of element that an entity is, where the site has been told.
    pub categories: BTreeMap<Entity, Category>,
    /// What validations have found wrong.
    pub issues: BTreeMap<Entity, Issue>,
    /// The entities that are marked for removal.
    pub pending: BTreeSet<Entity>,
    /// The entities that are not shown.
    pub hidden: BTreeSet<Entity>,
    /// The level that is being worked on.
    pub current_level: Option<Entity>,
}

impl View for LiftSite {
    type V = SiteView;

    open spec fn view(&self) -> SiteView {
        SiteView {
            next: self.next,
            parents: self.parents@,
            levels: self.levels@,
            lifts: self.lifts@.map_values(|lift: Lift| lift@),
            doors: self.doors@.map_values(|door: LiftCabinDoor| door@),
            anchors: self.anchors@.map_values(|anchor: Anchor| anchor@),
            anchor_groups: self.anchor_groups@,
            categories: self.categories@,
            issues: self.issues@.map_values(|issue: Issue| issue@),
            pending: self.pending@,
            hidden: self.hidden@,
            current_level: self.current_level,
        }
    }
}

impl LiftSite {
    /// A site that holds nothing.
    pub fn new() -> (site: Self)
        ensures
            site@ == SiteView::empty(),
            site@.wf(),
    {
        let site = LiftSite {
            next: 0,
            parents: BTreeMap::new(),
            levels: BTreeSet::new(),
            lifts: BTreeMap::new(),
            doors: BTreeMap::new(),
            anchors: BTreeMap::new(),
            anchor_groups: BTreeMap::new(),
            categories: BTreeMap::new(),
            issues: BTreeMap::new(),
            pending: BTreeSet::new(),
            hidden: BTreeSet::new(),
            current_level: None,
        };
        assert(site@.lifts =~= Map::empty());
        assert(site@.doors =~= Map::empty());
        assert(site@.anchors =~= Map::empty());
        assert(site@.issues =~= Map::empty());
        site
    }

    /// Puts a new entity under `parent`, if it is given one.
    fn adopt(&mut self, parent: Option<Entity>)
        ensures
            *final(self) == (LiftSite { parents: final(self).parents, ..*old(self) }),
            final(self).parents@ == old(self)@.adopting(parent),
    {
        match parent {
            Some(parent) => {
                self.parents.insert(self.next, parent);
            },
            None => {},
        }
    }

    /// Makes an entity of which the site records nothing but its parent.
    pub fn spawn_entity(&mut self, parent: Option<Entity>) -> (entity: Entity)
        requires
            old(self)@.spare() >= 1,
        ensures
            final(self)@ == old(self)@.with_entity(parent),
            entity == old(self)@.next,
            old(self)@.wf() ==> final(self)@.wf(),
    {
        let entity = self.next;
        self.adopt(parent);
        self.next = self.next + 1;
        proof {
            if old(self)@.wf() {
                law_making_keeps_order(old(self)@, parent, Seq::empty(), Edge { start: 0, end: 0 }, 0, 0);
            }
        }
        entity
    }

    /// Makes a level.
    pub fn spawn_level(&mut self, parent: Option<Entity>) -> (level: Entity)
        requires
            old(self)@.spare() >= 1,
        ensures
            final(self)@ == old(self)@.with_level(parent),
            level == old(self)@.next,
            old(self)@.wf() ==> final(self)@.wf(),
    {
        let level = self.next;
        self.adopt(parent);
        self.levels.insert(level);
        self.next = self.next + 1;
        proof {
            if old(self)@.wf() {
                law_making_keeps_order(old(self)@, parent, Seq::empty(), Edge { start: 0, end: 0 }, 0, 0);
            }
        }
        level
    }

    /// Takes the level `level` out of the site. The doors are not looked at:
    /// the site is told of the loss in the next round of upkeep.
    pub fn despawn_level(&mut self, level: Entity)
        ensures
            final(self)@ == old(self)@.without_level(level),
            old(self)@.wf() ==> final(self)@.wf(),
    {
        self.parents.remove(&level);
        self.levels.remove(&level);
        proof {
            if old(self)@.wf() {
                law_marking_keeps_order(old(self)@, level, 0, 0, None);
            }
        }
    }

    /// Makes an anchor on which nothing depends yet.
    pub fn spawn_anchor(&mut self, parent: Option<Entity>) -> (anchor: Entity)
        requires
            old(self)@.spare() >= 1,
        ensures
            final(self)@ == old(self)@.with_anchor(parent),
            anchor == old(self)@.next,
            old(self)@.wf() ==> final(self)@.wf(),
    {
        let anchor = self.next;
        self.adopt(parent);
        self.anchors.insert(anchor, Anchor::new(None));
        self.next = self.next + 1;
        assert(self@.anchors =~= old(self)@.with_anchor(parent).anchors);
        proof {
            if old(self)@.wf() {
                law_making_keeps_order(old(self)@, parent, Seq::empty(), Edge { start: 0, end: 0 }, 0, 0);
            }
        }
        anchor
    }

    /// Makes a lift with a rectangular cabin of the given footprint. The lift
    /// has no doors, and its cabin has yet to be built.
    pub fn spawn_lift(
        &mut self,
        parent: Option<Entity>,
        name: String,
        reference_anchors: Edge,
        width: u32,
        depth: u32,
    ) -> (lift: Entity)
        requires
            old(self)@.spare() >= 1,
        ensures
            final(self)@ == old(self)@.with_lift(parent, name@, reference_anchors, width, depth),
            lift == old(self)@.next,
            old(self)@.wf() ==> final(self)@.wf(),
    {
        let lift = self.next;
        self.adopt(parent);
        let ghost shown = name@;
        self.lifts.insert(
            lift,
            Lift {
                name,
                reference_anchors,
                cabin: LiftCabin::Rect(RectangularLiftCabin::new(width, depth)),
                recall: RecallLiftCabin::new(),
                anchor_group: None,
                cabin_group: None,
                doormats: Vec::new(),
                changed: true,
            },
        );
        self.next = self.next + 1;
        proof {
            let made = old(self)@.with_lift(parent, shown, reference_anchors, width, depth);
            assert(self@.lifts[lift].doormats =~= made.lifts[lift].doormats);
            assert(self@.lifts =~= made.lifts);
            if old(self)@.wf() {
                law_making_keeps_order(old(self)@, parent, shown, reference_anchors, width, depth);
            }
        }
        lift
    }

    /// Enters `dependent` among the dependents of `anchor`.
    pub fn add_dependent(&mut self, anchor: Entity, dependent: Entity)
        ensures
            final(self)@ == old(self)@.depending(anchor, dependent),
            old(self)@.wf() ==> final(self)@.wf(),
    {
        proof {
            if old(self)@.wf() {
                law_marking_keeps_order(old(self)@, 0, anchor, dependent, None);
            }
        }
        match self.anchors.remove(&anchor) {
            Some(mut record) => {
                record.dependents.insert(dependent);
                self.anchors.insert(anchor, record);
                assert(self@.anchors =~= old(self)@.depending(anchor, dependent).anchors);
            },
            None => {
                assert(self@.anchors =~= old(self)@.anchors);
            },
        }
    }

    /// Says which level is being worked on. The doors are shown or hidden by
    /// it in the next round of upkeep.
    pub fn set_current_level(&mut self, level: Option<Entity>)
        ensures
            final(self)@ == old(self)@.working_on(level),
            old(self)@.wf() ==> final(self)@.wf(),
    {
        self.current_level = level;
        proof {
            if old(self)@.wf() {
                law_marking_keeps_order(old(self)@, 0, 0, 0, level);
            }
        }
    }

    /// How many more entities the site can take.
    pub fn spare(&self) -> (spare: u64)
        ensures
            spare == self@.spare(),
    {
        u64::MAX - self.next
    }

    /// The door that stands on `face` of `lift`.
    pub fn door_at(&self, lift: Entity, face: RectFace) -> (door: Option<Entity>)
        ensures
            door == self@.door_at(lift, face),
    {
        match self.lifts.get(&lift) {
            Some(record) => match record.cabin.door(face) {
                Some(placement) => Some(placement.door),
                None => None,
            },
            None => None,
        }
    }

    /// The levels that `door` visits, in increasing order of handle; none for
    /// an entity that is no door.
    pub fn visits(&self, door: Entity) -> (levels: Vec<Entity>)
        ensures
            levels@ == ascending(
                if self@.doors.contains_key(door) {
                    self@.doors[door].visits
                } else {
                    Set::empty()
                },
            ),
    {
        match self.doors.get(&door) {
            Some(record) => ordered(&record.visits.0),
            None => {
                let levels: Vec<Entity> = Vec::new();
                proof {
                    lemma_ascending_is(Set::empty(), levels@);
                }
                levels
            },
        }
    }

    /// Whether `entity` is marked for removal.
    pub fn is_pending(&self, entity: Entity) -> (pending: bool)
        ensures
            pending == self@.pending.contains(entity),
    {
        self.pending.contains(&entity)
    }

    /// Whether `entity` is hidden.
    pub fn is_hidden(&self, entity: Entity) -> (hidden: bool)
        ensures
            hidden == self@.hidden.contains(entity),
    {
        self.hidden.contains(&entity)
    }

    /// Whether `anchor` is an anchor on which nothing depends.
    pub fn is_unassigned(&self, anchor: Entity) -> (unassigned: bool)
        ensures
            unassigned == (self@.anchors.contains_key(anchor)
                && self@.anchors[anchor].dependents.is_empty()),
    {
        match self.anchors.get(&anchor) {
            Some(record) => record.is_unassigned(),
            None => false,
        }
    }

    /// The parent of `entity`.
    pub fn parent(&self, entity: Entity) -> (parent: Option<Entity>)
        ensures
            parent == if self@.parents.contains_key(entity) {
                Some(self@.parents[entity])
            } else {
                None
            },
    {
        match self.parents.get(&entity) {
            Some(parent) => Some(*parent),
            None => None,
        }
    }
}

} // verus!
