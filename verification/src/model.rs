//! The site as a mathematical value, and what each change does to it.
//!
//! Everything that the library does to a site is stated here first, as a
//! function from one `SiteView` to the next. The executable functions are
//! proved to do exactly that.

use crate::anchor::AnchorView;
use crate::ascending::ascending;
use crate::cabin::Entity;
use crate::cabin::LiftCabin;
use crate::cabin::LiftCabinDoorPlacement;
use crate::cabin::RecallLiftCabin;
use crate::cabin::RectFace;
use crate::cabin::RectangularLiftCabin;
use crate::door::DoorType;
use crate::door::DoorView;
use crate::door::Edge;
use crate::doormat::CabinDoorId;
use crate::doormat::LiftDoormat;
use crate::doormat::ToggleLiftDoorAvailability;
use crate::issue::DUPLICATED_LIFT_NAME_ISSUE_BITS;
use crate::issue::IssueView;
use crate::lift::CabinAnchorGroup;
use crate::lift::CabinAnchorGroupBundle;
use crate::lift::Category;
use crate::lift::ChildCabinAnchorGroup;
use crate::lift::ChildLiftCabinGroup;
use crate::lift::LiftView;
use vstd::prelude::*;

verus! {

/// What can go wrong while the doors of a site are kept in order. None of
/// these stops the work: the request or the door in question is passed over.
#[derive(Clone, Copy, Debug, PartialEq, Eq, Structural)]
pub enum LiftError {
    /// A door was to be made available on a level that does not exist.
    LevelNotFound { lift: Entity, cabin_door: CabinDoorId, level: Entity },
    /// A door that has to be taken away has no parent.
    MissingParentLift { door: Entity },
    /// The parent of a door that has to be taken away is no lift with a cabin.
    MissingCabin { lift: Entity },
    /// A lift without a parent cannot be adopted, as no site is open.
    NoCurrentWorkspace { lift: Entity },
}

/// The site as a mathematical value.
pub struct SiteView {
    /// The handle that the next new entity gets.
    pub next: Entity,
    /// The parent of each entity that has one.
    pub parents: Map<Entity, Entity>,
    pub levels: Set<Entity>,
    pub lifts: Map<Entity, LiftView>,
    pub doors: Map<Entity, DoorView>,
    pub anchors: Map<Entity, AnchorView>,
    pub anchor_groups: Map<Entity, CabinAnchorGroupBundle>,
    /// The kind of element that an entity is, where the site has been told.
    pub categories: Map<Entity, Category>,
    /// What validations have found wrong.
    pub issues: Map<Entity, IssueView>,
    /// The entities that are marked for removal.
    pub pending: Set<Entity>,
    /// The entities that are not shown.
    pub hidden: Set<Entity>,
    /// The level that is being worked on.
    pub current_level: Option<Entity>,
}

impl SiteView {
    /// The site that holds nothing.
    pub open spec fn empty() -> SiteView {
        SiteView {
            next: 0,
            parents: Map::empty(),
            levels: Set::empty(),
            lifts: Map::empty(),
            doors: Map::empty(),
            anchors: Map::empty(),
            anchor_groups: Map::empty(),
            categories: Map::empty(),
            issues: Map::empty(),
            pending: Set::empty(),
            hidden: Set::empty(),
            current_level: None,
        }
    }

    /// How many more entities the site can take.
    pub open spec fn spare(self) -> int {
        u64::MAX - self.next
    }

    /// The handle that the `n`-th entity made from now on gets.
    pub open spec fn fresh(self, n: int) -> Entity {
        (self.next + n) as Entity
    }

    /// Whether `lift` is a lift whose cabin has a group for its door anchors.
    /// Only the doors of such a lift are managed.
    pub open spec fn has_cabin(self, lift: Entity) -> bool {
        self.lifts.contains_key(lift) && self.lifts[lift].anchor_group is Some
    }

    /// The entity that holds the door anchors of the cabin of `lift`.
    pub open spec fn anchor_group_of(self, lift: Entity) -> Entity {
        match self.lifts[lift].anchor_group {
            Some(group) => group.0,
            None => lift,
        }
    }

    /// The door that stands on `face` of `lift`.
    pub open spec fn door_at(self, lift: Entity, face: RectFace) -> Option<Entity> {
        if self.lifts.contains_key(lift) {
            match self.lifts[lift].cabin.door_on(face) {
                Some(placement) => Some(placement.door),
                None => None,
            }
        } else {
            None
        }
    }

    /// The levels at which the door on `face` of `lift` can be used; none if
    /// the face has no door.
    pub open spec fn visits_at(self, lift: Entity, face: RectFace) -> Set<Entity> {
        match self.door_at(lift, face) {
            Some(door) => if self.doors.contains_key(door) {
                self.doors[door].visits
            } else {
                Set::empty()
            },
            None => Set::empty(),
        }
    }

    /// Whether nothing but `door` depends on `anchor`. An entity that the
    /// ledger does not know as an anchor has no dependents.
    pub open spec fn anchor_free_but_for(self, anchor: Entity, door: Entity) -> bool {
        self.anchors.contains_key(anchor) ==> self.anchors[anchor].dependents.subset_of(
            set![door],
        )
    }

    /// Whether nothing but `door` depends on either anchor of `door`.
    pub open spec fn anchors_unshared(self, door: Entity) -> bool {
        let edge = self.doors[door].reference_anchors;
        self.anchor_free_but_for(edge.start, door) && self.anchor_free_but_for(edge.end, door)
    }

    /// The hidden entities once `door`, which opens at `visits`, is shown or
    /// hidden by the level that is being worked on: shown if and only if it
    /// opens there. `unset` says what is hidden where no level is being
    /// worked on.
    pub open spec fn projecting(
        self,
        door: Entity,
        visits: Set<Entity>,
        unset: Set<Entity>,
    ) -> Set<Entity> {
        match self.current_level {
            Some(level) => if visits.contains(level) {
                self.hidden.remove(door)
            } else {
                self.hidden.insert(door)
            },
            None => unset,
        }
    }

    /// The site with `lift` marked as changed.
    pub open spec fn touched(self, lift: Entity) -> SiteView {
        if self.lifts.contains_key(lift) {
            SiteView {
                lifts: self.lifts.insert(lift, LiftView { changed: true, ..self.lifts[lift] }),
                ..self
            }
        } else {
            self
        }
    }

    /// The site once `door` has been made available on `level`: the level is
    /// among its visits, the door is shown as the level that is being worked
    /// on says (and shown where none is), and neither the door nor its anchors
    /// are marked for removal or hidden as removed.
    pub open spec fn opened(self, door: Entity, level: Entity) -> SiteView {
        if self.doors.contains_key(door) {
            let visits = self.doors[door].visits.insert(level);
            let edge = self.doors[door].reference_anchors;
            SiteView {
                doors: self.doors.insert(door, DoorView { visits, ..self.doors[door] }),
                pending: self.pending.remove(door).remove(edge.start).remove(edge.end),
                hidden: self.projecting(door, visits, self.hidden.remove(door)).remove(
                    edge.start,
                ).remove(edge.end),
                ..self
            }
        } else {
            SiteView { pending: self.pending.remove(door), ..self }
        }
    }

    /// The site once `level` has been taken from the visits of `door`.
    pub open spec fn closed(self, door: Entity, level: Entity) -> SiteView {
        if self.doors.contains_key(door) {
            let visits = self.doors[door].visits.remove(level);
            SiteView {
                doors: self.doors.insert(door, DoorView { visits, ..self.doors[door] }),
                hidden: self.projecting(door, visits, self.hidden),
                ..self
            }
        } else {
            self
        }
    }

    /// The entities marked once `door` has been marked, and with it its
    /// anchors where nothing else depends on them.
    pub open spec fn marking_removed(self, marked: Set<Entity>, door: Entity) -> Set<Entity> {
        if self.doors.contains_key(door) && self.anchors_unshared(door) {
            let edge = self.doors[door].reference_anchors;
            marked.insert(door).insert(edge.start).insert(edge.end)
        } else {
            marked.insert(door)
        }
    }

    /// The site once `door` has been taken away from the cabin of `lift`: the
    /// cabin remembers its placements and has the door on no face, the door is
    /// marked for removal and hidden, and so are its anchors if and only if
    /// nothing but the door depends on them. Where `lift` is no lift, there is
    /// no cabin to take the door from, and the rest is done all the same.
    pub open spec fn retired(self, lift: Entity, door: Entity) -> SiteView {
        let old = self.lifts[lift];
        SiteView {
            lifts: if self.lifts.contains_key(lift) {
                self.lifts.insert(
                    lift,
                    LiftView {
                        cabin: old.cabin.without_door(door),
                        recall: old.recall.remembering(old.cabin),
                        changed: true,
                        ..old
                    },
                )
            } else {
                self.lifts
            },
            pending: self.marking_removed(self.pending, door),
            hidden: self.marking_removed(self.hidden, door),
            ..self
        }
    }

    /// The site once the placement that `lift` remembers for `face` has been
    /// put back.
    pub open spec fn revived(
        self,
        lift: Entity,
        face: RectFace,
        placement: LiftCabinDoorPlacement,
    ) -> SiteView {
        let old = self.lifts[lift];
        SiteView {
            lifts: self.lifts.insert(
                lift,
                LiftView { cabin: old.cabin.with_door(face, Some(placement)), changed: true, ..old },
            ),
            ..self
        }
    }

    /// The site once a door has been made for `face` of `lift`, to be used on
    /// `level`. The door and its two anchors are new entities: the door is a
    /// child of the lift and has the lift as its dependent; the anchors are
    /// children of the cabin's anchor group, belong to the lift and have the
    /// door as their dependent.
    pub open spec fn fabricated(self, lift: Entity, face: RectFace, level: Entity) -> SiteView {
        let old = self.lifts[lift];
        let door = self.fresh(0);
        let start = self.fresh(1);
        let end = self.fresh(2);
        let group = self.anchor_group_of(lift);
        let anchor = AnchorView { dependents: set![door], subordinate: Some(lift) };
        let placement = LiftCabinDoorPlacement {
            door,
            width: old.cabin.rect().fresh_door_width(),
        };
        SiteView {
            next: self.fresh(3),
            parents: self.parents.insert(door, lift).insert(start, group).insert(end, group),
            lifts: self.lifts.insert(
                lift,
                LiftView { cabin: old.cabin.with_door(face, Some(placement)), changed: true, ..old },
            ),
            doors: self.doors.insert(
                door,
                DoorView {
                    kind: DoorType::DoubleSliding,
                    reference_anchors: Edge { start, end },
                    visits: set![level],
                    dependents: set![lift],
                },
            ),
            anchors: self.anchors.insert(start, anchor).insert(end, anchor),
            ..self
        }
    }

    /// The door that a request to make a door unavailable speaks of.
    pub open spec fn door_to_close(self, toggle: ToggleLiftDoorAvailability) -> Option<Entity> {
        match toggle.cabin_door {
            CabinDoorId::Entity(door) => Some(door),
            CabinDoorId::RectFace(face) => self.door_at(toggle.for_lift, face),
        }
    }

    /// The error that `toggle` ends in, if it ends in one: a door is to be
    /// made available for a level that does not exist.
    pub open spec fn toggle_error(self, toggle: ToggleLiftDoorAvailability) -> Option<LiftError> {
        if self.has_cabin(toggle.for_lift) && toggle.door_available && !self.levels.contains(
            toggle.on_level,
        ) {
            Some(
                LiftError::LevelNotFound {
                    lift: toggle.for_lift,
                    cabin_door: toggle.cabin_door,
                    level: toggle.on_level,
                },
            )
        } else {
            None
        }
    }

    /// The site once `toggle` has been carried out.
    ///
    /// A request for a lift without a cabin, or to open a door on a level that
    /// does not exist, changes nothing. To make the door on a face available,
    /// the door that stands there is taken; else the one that the lift
    /// remembers for the face is put back; else a door is made. To make a door
    /// unavailable, the level is taken from its visits, and a door that then
    /// visits no level is taken away.
    pub open spec fn toggled(self, toggle: ToggleLiftDoorAvailability) -> SiteView {
        let lift = toggle.for_lift;
        let level = toggle.on_level;
        if !self.has_cabin(lift) {
            self
        } else if toggle.door_available {
            if !self.levels.contains(level) {
                self
            } else {
                match toggle.cabin_door {
                    CabinDoorId::Entity(door) => self.opened(door, level),
                    CabinDoorId::RectFace(face) => match self.lifts[lift].cabin.door_on(face) {
                        Some(placement) => self.touched(lift).opened(placement.door, level),
                        None => match self.lifts[lift].recall.door_on(face) {
                            Some(placement) => self.revived(lift, face, placement).opened(
                                placement.door,
                                level,
                            ),
                            None => self.fabricated(lift, face, level).opened(
                                self.fresh(0),
                                level,
                            ),
                        },
                    },
                }
            }
        } else {
            match self.door_to_close(toggle) {
                Some(door) => {
                    let closed = self.closed(door, level);
                    if closed.doors.contains_key(door) && closed.doors[door].visits.is_empty() {
                        closed.retired(lift, door).touched(lift)
                    } else {
                        closed.touched(lift)
                    }
                },
                None => self,
            }
        }
    }

    /// The site once the requests of `toggles` have been carried out, one
    /// after the other.
    pub open spec fn toggled_all(self, toggles: Seq<ToggleLiftDoorAvailability>) -> SiteView
        decreases toggles.len(),
    {
        if toggles.len() == 0 {
            self
        } else {
            self.toggled_all(toggles.drop_last()).toggled(toggles.last())
        }
    }

    /// The errors that the requests of `toggles` end in, in their order.
    pub open spec fn toggle_errors(self, toggles: Seq<ToggleLiftDoorAvailability>) -> Seq<
        LiftError,
    >
        decreases toggles.len(),
    {
        if toggles.len() == 0 {
            Seq::empty()
        } else {
            let before = self.toggle_errors(toggles.drop_last());
            match self.toggled_all(toggles.drop_last()).toggle_error(toggles.last()) {
                Some(error) => before.push(error),
                None => before,
            }
        }
    }

    /// The site once every door is shown or hidden by the level that is being
    /// worked on: a door is shown if and only if it opens there. Where no
    /// level is being worked on, nothing changes.
    pub open spec fn projected(self) -> SiteView {
        match self.current_level {
            Some(level) => SiteView {
                hidden: Set::new(
                    |e: Entity|
                        if self.doors.contains_key(e) {
                            !self.doors[e].visits.contains(level)
                        } else {
                            self.hidden.contains(e)
                        },
                ),
                ..self
            },
            None => self,
        }
    }

    /// The site with every lift marked as changed.
    pub open spec fn all_touched(self) -> SiteView {
        SiteView {
            lifts: self.lifts.map_values(|lift: LiftView| LiftView { changed: true, ..lift }),
            ..self
        }
    }

    /// The site once `level` has been taken from the visits of every door.
    pub open spec fn without_visits_of(self, level: Entity) -> SiteView {
        SiteView {
            doors: self.doors.map_values(
                |door: DoorView| DoorView { visits: door.visits.remove(level), ..door },
            ),
            ..self
        }
    }

    /// The doors that visit `level` and no other level.
    pub open spec fn emptied_by(self, level: Entity) -> Set<Entity> {
        Set::new(
            |door: Entity|
                self.doors.contains_key(door) && self.doors[door].visits.contains(level)
                    && self.doors[door].visits.remove(level).is_empty(),
        )
    }

    /// Why `door` cannot be taken away from its lift, if it cannot: it has no
    /// parent, or its parent is no lift with a cabin.
    pub open spec fn clearing_error(self, door: Entity) -> Option<LiftError> {
        if !self.parents.contains_key(door) {
            Some(LiftError::MissingParentLift { door })
        } else if !self.has_cabin(self.parents[door]) {
            Some(LiftError::MissingCabin { lift: self.parents[door] })
        } else {
            None
        }
    }

    /// The site once the doors of `doors` have been taken away, each from the
    /// cabin of its parent, one after the other. A door that cannot be taken
    /// away is passed over.
    pub open spec fn retired_each(self, doors: Seq<Entity>) -> SiteView
        decreases doors.len(),
    {
        if doors.len() == 0 {
            self
        } else {
            let before = self.retired_each(doors.drop_last());
            let door = doors.last();
            if before.clearing_error(door) is None {
                before.retired(before.parents[door], door)
            } else {
                before
            }
        }
    }

    /// Why doors of `doors` cannot be taken away, in the order of `doors`.
    pub open spec fn clearing_errors(self, doors: Seq<Entity>) -> Seq<LiftError>
        decreases doors.len(),
    {
        if doors.len() == 0 {
            Seq::empty()
        } else {
            let before = self.clearing_errors(doors.drop_last());
            match self.retired_each(doors.drop_last()).clearing_error(doors.last()) {
                Some(error) => before.push(error),
                None => before,
            }
        }
    }

    /// The site once it has been told that `level` is gone: no door visits the
    /// level any more, and the doors that visited no other level have been
    /// taken away, in increasing order of handle.
    pub open spec fn level_cleared(self, level: Entity) -> SiteView {
        self.without_visits_of(level).retired_each(ascending(self.emptied_by(level)))
    }

    /// The errors met while the site is told that `level` is gone.
    pub open spec fn level_clearing_errors(self, level: Entity) -> Seq<LiftError> {
        self.without_visits_of(level).clearing_errors(ascending(self.emptied_by(level)))
    }

    /// The site once it has been told, level by level, that `levels` are gone.
    pub open spec fn levels_cleared(self, levels: Seq<Entity>) -> SiteView
        decreases levels.len(),
    {
        if levels.len() == 0 {
            self
        } else {
            self.levels_cleared(levels.drop_last()).level_cleared(levels.last())
        }
    }

    /// The errors met while the site is told, level by level, that `levels`
    /// are gone.
    pub open spec fn levels_clearing_errors(self, levels: Seq<Entity>) -> Seq<LiftError>
        decreases levels.len(),
    {
        if levels.len() == 0 {
            Seq::empty()
        } else {
            self.levels_clearing_errors(levels.drop_last()) + self.levels_cleared(
                levels.drop_last(),
            ).level_clearing_errors(levels.last())
        }
    }

    /// The site after one round of upkeep: the requests are carried out; if
    /// the level that is being worked on has changed, every door is shown or
    /// hidden by it; if levels have been added, every lift is marked as
    /// changed; and the site is told of the levels that are gone.
    pub open spec fn updated(
        self,
        toggles: Seq<ToggleLiftDoorAvailability>,
        current_level_changed: bool,
        levels_added: bool,
        removed_levels: Seq<Entity>,
    ) -> SiteView {
        let toggled = self.toggled_all(toggles);
        let projected = if current_level_changed {
            toggled.projected()
        } else {
            toggled
        };
        let touched = if levels_added {
            projected.all_touched()
        } else {
            projected
        };
        touched.levels_cleared(removed_levels)
    }

    /// The errors met in one round of upkeep: those of the requests, then
    /// those of the levels that are gone.
    pub open spec fn update_errors(
        self,
        toggles: Seq<ToggleLiftDoorAvailability>,
        current_level_changed: bool,
        levels_added: bool,
        removed_levels: Seq<Entity>,
    ) -> Seq<LiftError> {
        let toggled = self.toggled_all(toggles);
        let projected = if current_level_changed {
            toggled.projected()
        } else {
            toggled
        };
        let touched = if levels_added {
            projected.all_touched()
        } else {
            projected
        };
        self.toggle_errors(toggles) + touched.levels_clearing_errors(removed_levels)
    }

    /// Whether every entity that the site holds has a handle below the one
    /// that the next new entity gets, and what was built for a cabin is
    /// neither a level nor a lift. Every site that is made by the functions
    /// of this library is like that, so a new entity is never mistaken for an
    /// old one.
    pub open spec fn wf(self) -> bool {
        &&& forall|e: Entity| #[trigger] self.parents.contains_key(e) ==> e < self.next
        &&& forall|e: Entity| #[trigger] self.levels.contains(e) ==> e < self.next
        &&& forall|e: Entity| #[trigger] self.lifts.contains_key(e) ==> e < self.next
        &&& forall|e: Entity| #[trigger] self.doors.contains_key(e) ==> e < self.next
        &&& forall|e: Entity| #[trigger] self.anchors.contains_key(e) ==> e < self.next
        &&& forall|e: Entity| #[trigger] self.anchor_groups.contains_key(e) ==> e < self.next
        &&& forall|e: Entity| #[trigger] self.categories.contains_key(e) ==> e < self.next
        &&& forall|e: Entity| #[trigger] self.issues.contains_key(e) ==> e < self.next
        &&& forall|lift: Entity| #[trigger]
            self.lifts.contains_key(lift) ==> self.cabin_group_apart(lift)
    }

    /// Whether what was built for the cabin of `lift` is an entity of its own:
    /// it has a handle that has been given out, and it is neither a level nor
    /// a lift.
    pub open spec fn cabin_group_apart(self, lift: Entity) -> bool {
        match self.lifts[lift].cabin_group {
            Some(group) => group.0 < self.next && !self.levels.contains(group.0)
                && !self.lifts.contains_key(group.0),
            None => true,
        }
    }

    /// The parents once a new entity has been put under `parent`, if it is
    /// given one.
    pub open spec fn adopting(self, parent: Option<Entity>) -> Map<Entity, Entity> {
        match parent {
            Some(parent) => self.parents.insert(self.next, parent),
            None => self.parents,
        }
    }

    /// The site with one more entity, of which nothing else is recorded.
    pub open spec fn with_entity(self, parent: Option<Entity>) -> SiteView {
        SiteView { next: self.fresh(1), parents: self.adopting(parent), ..self }
    }

    /// The site with one more level.
    pub open spec fn with_level(self, parent: Option<Entity>) -> SiteView {
        SiteView {
            next: self.fresh(1),
            parents: self.adopting(parent),
            levels: self.levels.insert(self.next),
            ..self
        }
    }

    /// The site without the level `level`. The doors that visit it are not
    /// looked at.
    pub open spec fn without_level(self, level: Entity) -> SiteView {
        SiteView {
            parents: self.parents.remove(level),
            levels: self.levels.remove(level),
            ..self
        }
    }

    /// The site with one more anchor, on which nothing depends yet.
    pub open spec fn with_anchor(self, parent: Option<Entity>) -> SiteView {
        SiteView {
            next: self.fresh(1),
            parents: self.adopting(parent),
            anchors: self.anchors.insert(
                self.next,
                AnchorView { dependents: Set::empty(), subordinate: None },
            ),
            ..self
        }
    }

    /// The site with one more lift. The lift has no doors, remembers none,
    /// and its cabin has yet to be built.
    pub open spec fn with_lift(
        self,
        parent: Option<Entity>,
        name: Seq<char>,
        reference_anchors: Edge,
        width: u32,
        depth: u32,
    ) -> SiteView {
        SiteView {
            next: self.fresh(1),
            parents: self.adopting(parent),
            lifts: self.lifts.insert(
                self.next,
                LiftView {
                    name,
                    reference_anchors,
                    cabin: LiftCabin::Rect(
                        RectangularLiftCabin {
                            width,
                            depth,
                            front_door: None,
                            back_door: None,
                            left_door: None,
                            right_door: None,
                        },
                    ),
                    recall: RecallLiftCabin {
                        front_door: None,
                        back_door: None,
                        left_door: None,
                        right_door: None,
                    },
                    anchor_group: None,
                    cabin_group: None,
                    doormats: Seq::empty(),
                    changed: true,
                },
            ),
            ..self
        }
    }

    /// The site once `dependent` has been entered among the dependents of
    /// `anchor`. An entity that is no anchor has no dependents to enter it in.
    pub open spec fn depending(self, anchor: Entity, dependent: Entity) -> SiteView {
        if self.anchors.contains_key(anchor) {
            SiteView {
                anchors: self.anchors.insert(
                    anchor,
                    AnchorView {
                        dependents: self.anchors[anchor].dependents.insert(dependent),
                        ..self.anchors[anchor]
                    },
                ),
                ..self
            }
        } else {
            self
        }
    }

    /// The site with `level` as the level that is being worked on.
    pub open spec fn working_on(self, level: Option<Entity>) -> SiteView {
        SiteView { current_level: level, ..self }
    }

    /// Whether `level` and `lift` have parents and have the same one.
    pub open spec fn same_site(self, lift: Entity, level: Entity) -> bool {
        self.parents.contains_key(lift) && self.parents.contains_key(level) && self.parents[lift]
            == self.parents[level]
    }

    /// Whether the door on `face` of `lift` can be used on `level`: the face
    /// has a door, and the level is among the visits of that door.
    pub open spec fn door_available(self, lift: Entity, face: RectFace, level: Entity) -> bool {
        match self.lifts[lift].cabin.door_on(face) {
            Some(placement) => self.doors.contains_key(placement.door)
                && self.doors[placement.door].visits.contains(level),
            None => false,
        }
    }

    /// The doormat of `face` of `lift` on `level`.
    pub open spec fn doormat(self, lift: Entity, level: Entity, face: RectFace) -> LiftDoormat {
        LiftDoormat {
            for_lift: lift,
            on_level: level,
            cabin_door: CabinDoorId::RectFace(face),
            door_available: self.door_available(lift, face, level),
        }
    }

    /// The doormats of `lift` on `level`: one for each face, in the order of
    /// the faces.
    pub open spec fn level_doormats(self, lift: Entity, level: Entity) -> Seq<LiftDoormat> {
        seq![
            self.doormat(lift, level, RectFace::Front),
            self.doormat(lift, level, RectFace::Back),
            self.doormat(lift, level, RectFace::Left),
            self.doormat(lift, level, RectFace::Right),
        ]
    }

    /// The doormats of `lift` on those levels of `levels` that have the same
    /// parent as the lift, level after level.
    pub open spec fn doormats_over(self, lift: Entity, levels: Seq<Entity>) -> Seq<LiftDoormat>
        decreases levels.len(),
    {
        if levels.len() == 0 {
            Seq::empty()
        } else {
            let before = self.doormats_over(lift, levels.drop_last());
            if self.same_site(lift, levels.last()) {
                before + self.level_doormats(lift, levels.last())
            } else {
                before
            }
        }
    }

    /// The doormats that the cabin of `lift` is built with: four for every
    /// level that has the same parent as the lift, the levels in increasing
    /// order of handle.
    pub open spec fn doormats_of(self, lift: Entity) -> Seq<LiftDoormat> {
        self.doormats_over(lift, ascending(self.levels))
    }

    /// The first entity of `groups` that is a child of `lift`.
    pub open spec fn first_child_among(self, lift: Entity, groups: Seq<Entity>) -> Option<Entity>
        decreases groups.len(),
    {
        if groups.len() == 0 {
            None
        } else {
            match self.first_child_among(lift, groups.drop_last()) {
                Some(group) => Some(group),
                None => if self.parents.contains_key(groups.last()) && self.parents[groups.last()]
                    == lift {
                    Some(groups.last())
                } else {
                    None
                },
            }
        }
    }

    /// The anchor group that `lift` has among its children without knowing
    /// of it: of the groups whose parent is the lift, the one with the lowest
    /// handle.
    pub open spec fn stray_anchor_group(self, lift: Entity) -> Option<Entity> {
        self.first_child_among(lift, ascending(self.anchor_groups.dom()))
    }

    /// The parents once the cabin of `lift` has been given up and a new
    /// entity has taken its place.
    pub open spec fn exchanging_cabin(self, lift: Entity) -> Map<Entity, Entity> {
        let kept = match self.lifts[lift].cabin_group {
            Some(group) => self.parents.remove(group.0),
            None => self.parents,
        };
        kept.insert(self.next, lift)
    }

    /// The site once the cabin of `lift` has been built again. What was built
    /// before is given up and a new entity takes its place; the doormats are
    /// made anew; and the lift gets an entity for its door anchors if it has
    /// none: one that is found among its children, or else a new one.
    pub open spec fn rebuilt(self, lift: Entity) -> SiteView {
        let old = self.lifts[lift];
        let cabin_group = Some(ChildLiftCabinGroup(self.next));
        let doormats = self.doormats_of(lift);
        if old.anchor_group is Some {
            SiteView {
                next: self.fresh(1),
                parents: self.exchanging_cabin(lift),
                lifts: self.lifts.insert(
                    lift,
                    LiftView { cabin_group, doormats, changed: false, ..old },
                ),
                ..self
            }
        } else {
            match self.stray_anchor_group(lift) {
                Some(group) => SiteView {
                    next: self.fresh(1),
                    parents: self.exchanging_cabin(lift),
                    lifts: self.lifts.insert(
                        lift,
                        LiftView {
                            cabin_group,
                            doormats,
                            changed: false,
                            anchor_group: Some(ChildCabinAnchorGroup(group)),
                            ..old
                        },
                    ),
                    ..self
                },
                None => SiteView {
                    next: self.fresh(2),
                    parents: self.exchanging_cabin(lift).insert(self.fresh(1), lift),
                    lifts: self.lifts.insert(
                        lift,
                        LiftView {
                            cabin_group,
                            doormats,
                            changed: false,
                            anchor_group: Some(ChildCabinAnchorGroup(self.fresh(1))),
                            ..old
                        },
                    ),
                    anchor_groups: self.anchor_groups.insert(
                        self.fresh(1),
                        CabinAnchorGroupBundle { tag: CabinAnchorGroup, category: Category::Lift },
                    ),
                    ..self
                },
            }
        }
    }

    /// Whether the cabin of `lift` is due to be built again: the lift has
    /// changed and has a parent.
    pub open spec fn due(self, lift: Entity) -> bool {
        self.lifts.contains_key(lift) && self.lifts[lift].changed && self.parents.contains_key(
            lift,
        )
    }

    /// The site once the cabins of those lifts of `lifts` that are due have
    /// been built again, one after the other.
    pub open spec fn rebuilt_each(self, lifts: Seq<Entity>) -> SiteView
        decreases lifts.len(),
    {
        if lifts.len() == 0 {
            self
        } else {
            let before = self.rebuilt_each(lifts.drop_last());
            if before.due(lifts.last()) {
                before.rebuilt(lifts.last())
            } else {
                before
            }
        }
    }

    /// The site once every cabin that is due has been built again, the lifts
    /// in increasing order of handle.
    pub open spec fn cabins_rebuilt(self) -> SiteView {
        self.rebuilt_each(ascending(self.lifts.dom()))
    }

    /// The site once the new lift `lift` has been taken in: it is known as a
    /// lift and shown; if it has no parent, it is put under `current_site`;
    /// and it is entered among the dependents of its two anchors.
    pub open spec fn tagged(self, lift: Entity, current_site: Option<Entity>) -> SiteView {
        if self.lifts.contains_key(lift) {
            let old = self.lifts[lift];
            let known = SiteView {
                categories: self.categories.insert(lift, Category::Lift),
                hidden: self.hidden.remove(lift),
                ..self
            };
            let adopted = if !self.parents.contains_key(lift) && current_site is Some {
                SiteView {
                    parents: self.parents.insert(lift, current_site->0),
                    lifts: self.lifts.insert(lift, LiftView { changed: true, ..old }),
                    ..known
                }
            } else {
                known
            };
            adopted.depending(old.reference_anchors.start, lift).depending(
                old.reference_anchors.end,
                lift,
            )
        } else {
            self
        }
    }

    /// The error that taking in `lift` ends in, if it ends in one: the lift
    /// has no parent and no site is open.
    pub open spec fn tag_error(self, lift: Entity, current_site: Option<Entity>) -> Option<
        LiftError,
    > {
        if self.lifts.contains_key(lift) && !self.parents.contains_key(lift) && current_site
            is None {
            Some(LiftError::NoCurrentWorkspace { lift })
        } else {
            None
        }
    }

    /// The site once the lifts of `lifts` have been taken in, one after the
    /// other.
    pub open spec fn tagged_all(self, lifts: Seq<Entity>, current_site: Option<Entity>) -> SiteView
        decreases lifts.len(),
    {
        if lifts.len() == 0 {
            self
        } else {
            self.tagged_all(lifts.drop_last(), current_site).tagged(lifts.last(), current_site)
        }
    }

    /// The errors that taking in the lifts of `lifts` ends in, in their order.
    pub open spec fn tag_errors(self, lifts: Seq<Entity>, current_site: Option<Entity>) -> Seq<
        LiftError,
    >
        decreases lifts.len(),
    {
        if lifts.len() == 0 {
            Seq::empty()
        } else {
            let before = self.tag_errors(lifts.drop_last(), current_site);
            match self.tagged_all(lifts.drop_last(), current_site).tag_error(
                lifts.last(),
                current_site,
            ) {
                Some(error) => before.push(error),
                None => before,
            }
        }
    }

    /// The lifts among `entities`, in the order of `entities`.
    pub open spec fn lifts_among(self, entities: Seq<Entity>) -> Seq<Entity>
        decreases entities.len(),
    {
        if entities.len() == 0 {
            Seq::empty()
        } else {
            let before = self.lifts_among(entities.drop_last());
            if self.lifts.contains_key(entities.last()) {
                before.push(entities.last())
            } else {
                before
            }
        }
    }

    /// The lifts that have to be laid out again once the anchors of `anchors`
    /// have moved: for each anchor in turn, the lifts among its dependents, in
    /// increasing order of handle. A lift is named once for every moved
    /// anchor that it depends on.
    pub open spec fn lifts_moved_by(self, anchors: Seq<Entity>) -> Seq<Entity>
        decreases anchors.len(),
    {
        if anchors.len() == 0 {
            Seq::empty()
        } else {
            let before = self.lifts_moved_by(anchors.drop_last());
            if self.anchors.contains_key(anchors.last()) {
                before + self.lifts_among(ascending(self.anchors[anchors.last()].dependents))
            } else {
                before
            }
        }
    }

    /// Whether `root` is reached from `entity` by going from child to parent
    /// at least once and at most `steps` times.
    pub open spec fn descends(self, entity: Entity, root: Entity, steps: nat) -> bool
        decreases steps,
    {
        steps > 0 && self.parents.contains_key(entity) && (self.parents[entity] == root
            || self.descends(self.parents[entity], root, (steps - 1) as nat))
    }

    /// Whether `root` is among the ancestors of `entity`. As many steps are
    /// taken from child to parent as there are entities with a parent, which
    /// reaches every ancestor.
    pub open spec fn under(self, entity: Entity, root: Entity) -> bool {
        self.descends(entity, root, self.parents.len())
    }

    /// The lifts under `root` that are called `name`.
    pub open spec fn namesakes(self, root: Entity, name: Seq<char>) -> Set<Entity> {
        Set::new(
            |lift: Entity|
                self.lifts.contains_key(lift) && self.under(lift, root) && self.lifts[lift].name
                    == name,
        )
    }

    /// Whether `lift` is the one that a shared name is reported for: it is a
    /// lift under `root`, another lift under `root` has its name, and none of
    /// those that have its name has a lower handle.
    pub open spec fn leads_namesakes(self, root: Entity, lift: Entity) -> bool {
        let sharing = self.namesakes(root, self.lifts[lift].name);
        &&& sharing.contains(lift)
        &&& exists|other: Entity| #[trigger] sharing.contains(other) && other != lift
        &&& forall|other: Entity| #[trigger] sharing.contains(other) ==> lift <= other
    }

    /// The issue that is reported for the name of `lift`.
    pub open spec fn namesake_issue(self, root: Entity, lift: Entity) -> IssueView {
        IssueView {
            entities: self.namesakes(root, self.lifts[lift].name),
            kind: DUPLICATED_LIFT_NAME_ISSUE_BITS,
            brief: duplicate_brief() + self.lifts[lift].name,
            hint: duplicate_hint(),
        }
    }

    /// The issues that are reported for the names of `lifts`, in the order of
    /// `lifts`.
    pub open spec fn namesake_issues_among(self, root: Entity, lifts: Seq<Entity>) -> Seq<
        IssueView,
    >
        decreases lifts.len(),
    {
        if lifts.len() == 0 {
            Seq::empty()
        } else {
            let before = self.namesake_issues_among(root, lifts.drop_last());
            if self.leads_namesakes(root, lifts.last()) {
                before.push(self.namesake_issue(root, lifts.last()))
            } else {
                before
            }
        }
    }

    /// The issues of lifts under `root` that share a name: one for each name
    /// that two or more of them have, about all the lifts that have it. The
    /// issues are in increasing order of the lowest handle among their lifts.
    pub open spec fn namesake_issues(self, root: Entity) -> Seq<IssueView> {
        self.namesake_issues_among(root, ascending(self.lifts.dom()))
    }

    /// The site once `issue` has been put under `root`, as a new entity.
    pub open spec fn reporting(self, root: Entity, issue: IssueView) -> SiteView {
        SiteView {
            next: self.fresh(1),
            parents: self.parents.insert(self.next, root),
            issues: self.issues.insert(self.next, issue),
            ..self
        }
    }

    /// The site once the issues of `issues` have been put under `root`, one
    /// after the other.
    pub open spec fn reporting_all(self, root: Entity, issues: Seq<IssueView>) -> SiteView
        decreases issues.len(),
    {
        if issues.len() == 0 {
            self
        } else {
            self.reporting_all(root, issues.drop_last()).reporting(root, issues.last())
        }
    }

    /// The site once the lifts under `root` have been checked for shared
    /// names. Issues that an earlier check has put there stay as they are.
    pub open spec fn validated(self, root: Entity) -> SiteView {
        self.reporting_all(root, self.namesake_issues(root))
    }
}

/// What the line about a shared name begins with. The name follows.
pub open spec fn duplicate_brief() -> Seq<char> {
    "Multiple lifts found with the same name "@
}

/// What to do about lifts that share a name.
pub open spec fn duplicate_hint() -> Seq<char> {
    "Lifts use their names as identifiers with RMF and each lift should have a unique name, rename the affected lifts"@
}

} // verus!
