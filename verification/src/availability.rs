//! Keeping the doors of the cabins in step with the levels at which they are
//! to be used.

use crate::anchor::Anchor;
use crate::anchor::Dependents;
use crate::ascending::ascending;
use crate::ascending::increasing;
use crate::ascending::lemma_ascending;
use crate::ascending::lemma_ascending_is;
use crate::ascending::lemma_contains_push;
use crate::ascending::lemma_take_next;
use crate::cabin::Entity;
use crate::cabin::LiftCabinDoorPlacement;
use crate::cabin::RectFace;
use crate::door::DoorType;
use crate::door::DoorView;
use crate::door::Edge;
use crate::door::LevelVisits;
use crate::door::LiftCabinDoor;
use crate::doormat::CabinDoorId;
use crate::doormat::ToggleLiftDoorAvailability;
use crate::laws::law_level_gone_keeps_order;
use crate::laws::law_marking_keeps_order;
use crate::laws::law_taking_away_keeps_order;
use crate::laws::law_toggle_keeps_order;
use crate::laws::law_upkeep_keeps_order;
use crate::lift::LiftView;
use crate::model::LiftError;
use crate::order::ordered_keys;
use crate::site::LiftSite;
use vstd::prelude::*;

verus! {

impl LiftSite {
    /// Marks `lift` as changed, so that its cabin is built again.
    pub fn touch(&mut self, lift: Entity)
        ensures
            final(self)@ == old(self)@.touched(lift),
            old(self)@.wf() ==> final(self)@.wf(),
    {
        proof {
            if old(self)@.wf() {
                law_taking_away_keeps_order(old(self)@, lift, 0);
            }
        }
        match self.lifts.remove(&lift) {
            Some(mut record) => {
                record.changed = true;
                self.lifts.insert(lift, record);
            },
            None => {},
        }
        assert(self@.lifts =~= old(self)@.touched(lift).lifts);
    }

    /// Makes `door` available on `level`.
    fn open_door(&mut self, door: Entity, level: Entity)
        ensures
            final(self)@ == old(self)@.opened(door, level),
    {
        match self.doors.remove(&door) {
            Some(mut record) => {
                record.visits.insert(level);
                let edge = record.reference_anchors;
                let shown = match self.current_level {
                    Some(current) => record.visits.contains(current),
                    None => true,
                };
                self.doors.insert(door, record);
                if shown {
                    self.hidden.remove(&door);
                } else {
                    self.hidden.insert(door);
                }
                self.pending.remove(&door);
                self.pending.remove(&edge.start);
                self.pending.remove(&edge.end);
                self.hidden.remove(&edge.start);
                self.hidden.remove(&edge.end);
                assert(self@.doors =~= old(self)@.opened(door, level).doors);
            },
            None => {
                self.pending.remove(&door);
                assert(self@.doors =~= old(self)@.doors);
            },
        }
    }

    /// Takes `level` from the visits of `door`; says whether the door is known
    /// and visits no level any more.
    fn close_door(&mut self, door: Entity, level: Entity) -> (emptied: bool)
        ensures
            final(self)@ == old(self)@.closed(door, level),
            emptied == (final(self)@.doors.contains_key(door)
                && final(self)@.doors[door].visits.is_empty()),
    {
        match self.doors.remove(&door) {
            Some(mut record) => {
                record.visits.remove(level);
                let emptied = record.visits.is_empty();
                match self.current_level {
                    Some(current) => {
                        if record.visits.contains(current) {
                            self.hidden.remove(&door);
                        } else {
                            self.hidden.insert(door);
                        }
                    },
                    None => {},
                }
                self.doors.insert(door, record);
                assert(self@.doors =~= old(self)@.closed(door, level).doors);
                emptied
            },
            None => {
                assert(self@.doors =~= old(self)@.doors);
                false
            },
        }
    }

    /// Whether nothing but `door` depends on `anchor`.
    fn anchor_free(&self, anchor: Entity, door: Entity) -> (free: bool)
        ensures
            free == self@.anchor_free_but_for(anchor, door),
    {
        match self.anchors.get(&anchor) {
            Some(record) => record.dependents.only(door),
            None => true,
        }
    }

    /// Takes `door` away from the cabin of `lift`: the cabin gives up the
    /// door, and the door is marked for removal and hidden. Its anchors go
    /// with it unless something else depends on one of them.
    pub fn remove_door(&mut self, lift: Entity, door: Entity)
        ensures
            final(self)@ == old(self)@.retired(lift, door),
            old(self)@.wf() ==> final(self)@.wf(),
    {
        proof {
            if old(self)@.wf() {
                law_taking_away_keeps_order(old(self)@, lift, door);
            }
        }
        match self.lifts.remove(&lift) {
            Some(mut record) => {
                let cabin = record.cabin;
                record.recall.remember(&cabin);
                record.cabin.remove_door(door);
                record.changed = true;
                self.lifts.insert(lift, record);
            },
            None => {},
        }
        assert(self@.lifts =~= old(self)@.retired(lift, door).lifts);
        self.pending.insert(door);
        self.hidden.insert(door);
        let released = match self.doors.get(&door) {
            Some(record) => {
                let edge = record.reference_anchors;
                if self.anchor_free(edge.start, door) && self.anchor_free(edge.end, door) {
                    Some(edge)
                } else {
                    None
                }
            },
            None => None,
        };
        match released {
            Some(edge) => {
                self.pending.insert(edge.start);
                self.pending.insert(edge.end);
                self.hidden.insert(edge.start);
                self.hidden.insert(edge.end);
            },
            None => {},
        }
    }

    /// Puts the placement that `lift` remembers for `face` back on the cabin.
    fn revive(&mut self, lift: Entity, face: RectFace, placement: LiftCabinDoorPlacement)
        requires
            old(self)@.lifts.contains_key(lift),
        ensures
            final(self)@ == old(self)@.revived(lift, face, placement),
    {
        match self.lifts.remove(&lift) {
            Some(mut record) => {
                record.cabin.set_door(face, Some(placement));
                record.changed = true;
                self.lifts.insert(lift, record);
            },
            None => {},
        }
        assert(self@.lifts =~= old(self)@.revived(lift, face, placement).lifts);
    }

    /// Makes a door for `face` of `lift`, with two anchors of its own, to be
    /// used on `level`; returns the door.
    fn fabricate(&mut self, lift: Entity, face: RectFace, level: Entity) -> (door: Entity)
        requires
            old(self)@.has_cabin(lift),
            old(self)@.spare() >= 3,
        ensures
            final(self)@ == old(self)@.fabricated(lift, face, level),
            door == old(self)@.fresh(0),
    {
        let door = self.next;
        let start = self.next + 1;
        let end = self.next + 2;
        self.next = self.next + 3;
        let mut group = lift;
        match self.lifts.remove(&lift) {
            Some(mut record) => {
                match record.anchor_group {
                    Some(child) => {
                        group = child.0;
                    },
                    None => {},
                }
                let width = match record.cabin {
                    crate::cabin::LiftCabin::Rect(params) => params.default_door_width(),
                };
                record.cabin.set_door(face, Some(LiftCabinDoorPlacement::new(door, width)));
                record.changed = true;
                self.lifts.insert(lift, record);
            },
            None => {},
        }
        assert(self@.lifts =~= old(self)@.fabricated(lift, face, level).lifts);
        self.anchors.insert(
            start,
            Anchor { dependents: Dependents::single(door), subordinate: Some(lift) },
        );
        self.anchors.insert(
            end,
            Anchor { dependents: Dependents::single(door), subordinate: Some(lift) },
        );
        assert(self@.anchors =~= old(self)@.fabricated(lift, face, level).anchors);
        self.parents.insert(door, lift);
        self.parents.insert(start, group);
        self.parents.insert(end, group);
        self.doors.insert(
            door,
            LiftCabinDoor {
                kind: DoorType::DoubleSliding,
                reference_anchors: Edge::new(start, end),
                visits: LevelVisits::single(level),
                dependents: Dependents::single(lift),
            },
        );
        assert(self@.doors =~= old(self)@.fabricated(lift, face, level).doors);
        door
    }

    /// Whether `lift` is a lift whose cabin has a group for its door anchors.
    pub fn has_cabin(&self, lift: Entity) -> (found: bool)
        ensures
            found == self@.has_cabin(lift),
    {
        match self.lifts.get(&lift) {
            Some(record) => record.anchor_group.is_some(),
            None => false,
        }
    }

    /// The placement on `face` of `lift`.
    pub fn placement(&self, lift: Entity, face: RectFace) -> (placement: Option<
        LiftCabinDoorPlacement,
    >)
        ensures
            placement == if self@.lifts.contains_key(lift) {
                self@.lifts[lift].cabin.door_on(face)
            } else {
                None
            },
    {
        match self.lifts.get(&lift) {
            Some(record) => record.cabin.door(face),
            None => None,
        }
    }

    /// The placement that `lift` remembers for `face`.
    pub fn recalled(&self, lift: Entity, face: RectFace) -> (placement: Option<
        LiftCabinDoorPlacement,
    >)
        ensures
            placement == if self@.lifts.contains_key(lift) {
                self@.lifts[lift].recall.door_on(face)
            } else {
                None
            },
    {
        match self.lifts.get(&lift) {
            Some(record) => record.recall.rect_door(face),
            None => None,
        }
    }

    /// Carries out one request to make a door available or unavailable on a
    /// level. The one request that is refused is to make a door available on
    /// a level that does not exist: it changes nothing.
    pub fn toggle_door_availability(&mut self, toggle: ToggleLiftDoorAvailability) -> (result:
        Result<(), LiftError>)
        requires
            old(self)@.spare() >= 3,
        ensures
            final(self)@ == old(self)@.toggled(toggle),
            result == match old(self)@.toggle_error(toggle) {
                Some(error) => Err::<(), LiftError>(error),
                None => Ok(()),
            },
            old(self)@.next <= final(self)@.next <= old(self)@.next + 3,
            old(self)@.wf() ==> final(self)@.wf(),
    {
        proof {
            if old(self)@.wf() {
                law_toggle_keeps_order(old(self)@, toggle);
            }
        }
        let lift = toggle.for_lift;
        let level = toggle.on_level;
        if !self.has_cabin(lift) {
            return Ok(());
        }
        if toggle.door_available {
            if !self.levels.contains(&level) {
                return Err(
                    LiftError::LevelNotFound { lift, cabin_door: toggle.cabin_door, level },
                );
            }
            let door = match toggle.cabin_door {
                CabinDoorId::Entity(door) => door,
                CabinDoorId::RectFace(face) => match self.placement(lift, face) {
                    Some(placement) => {
                        self.touch(lift);
                        placement.door
                    },
                    None => match self.recalled(lift, face) {
                        Some(placement) => {
                            self.revive(lift, face, placement);
                            placement.door
                        },
                        None => self.fabricate(lift, face, level),
                    },
                },
            };
            self.open_door(door, level);
        } else {
            let door = match toggle.cabin_door {
                CabinDoorId::Entity(door) => Some(door),
                CabinDoorId::RectFace(face) => match self.placement(lift, face) {
                    Some(placement) => Some(placement.door),
                    None => None,
                },
            };
            match door {
                Some(door) => {
                    let emptied = self.close_door(door, level);
                    if emptied {
                        self.remove_door(lift, door);
                    }
                    self.touch(lift);
                },
                None => {},
            }
        }
        Ok(())
    }

    /// Shows or hides every door by the level that is being worked on: a door
    /// is shown if and only if it opens there. Where no level is being worked
    /// on, nothing changes.
    pub fn show_doors_of_current_level(&mut self)
        ensures
            final(self)@ == old(self)@.projected(),
            old(self)@.wf() ==> final(self)@.wf(),
    {
        proof {
            if old(self)@.wf() {
                law_marking_keeps_order(old(self)@, 0, 0, 0, None);
            }
        }
        let current = match self.current_level {
            Some(level) => level,
            None => {
                return ;
            },
        };
        let keys = ordered_keys(&self.doors);
        proof {
            lemma_ascending(self.doors@.dom());
        }
        let mut i: usize = 0;
        while i < keys.len()
            invariant
                i <= keys@.len(),
                old(self).current_level == Some(current),
                forall|e: Entity|
                    #![trigger keys@.contains(e)]
                    keys@.contains(e) <==> old(self).doors@.contains_key(e),
                *self == (LiftSite { hidden: self.hidden, ..*old(self) }),
                self.hidden@ =~= Set::new(
                    |e: Entity|
                        if keys@.take(i as int).contains(e) {
                            !old(self)@.doors[e].visits.contains(current)
                        } else {
                            old(self).hidden@.contains(e)
                        },
                ),
            decreases keys@.len() - i,
        {
            let door = keys[i];
            assert(keys@.contains(door));
            let shown = match self.doors.get(&door) {
                Some(record) => record.visits.contains(current),
                None => false,
            };
            if shown {
                self.hidden.remove(&door);
            } else {
                self.hidden.insert(door);
            }
            proof {
                lemma_take_next(keys@, i as int);
            }
            i = i + 1;
        }
        proof {
            assert(keys@.take(keys@.len() as int) =~= keys@);
            assert(self@.hidden =~= old(self)@.projected().hidden);
        }
    }

    /// Marks every lift as changed, so that every cabin is built again.
    pub fn mark_cabins_changed(&mut self)
        ensures
            final(self)@ == old(self)@.all_touched(),
            old(self)@.wf() ==> final(self)@.wf(),
    {
        proof {
            if old(self)@.wf() {
                law_marking_keeps_order(old(self)@, 0, 0, 0, None);
            }
        }
        let keys = ordered_keys(&self.lifts);
        proof {
            lemma_ascending(self.lifts@.dom());
        }
        let mut i: usize = 0;
        while i < keys.len()
            invariant
                i <= keys@.len(),
                forall|e: Entity|
                    #![trigger keys@.contains(e)]
                    keys@.contains(e) <==> old(self).lifts@.contains_key(e),
                *self == (LiftSite { lifts: self.lifts, ..*old(self) }),
                self.lifts@.dom() =~= old(self).lifts@.dom(),
                forall|e: Entity|
                    #![trigger self.lifts@[e]]
                    old(self).lifts@.contains_key(e) ==> self.lifts@[e]@ == if keys@.take(
                        i as int,
                    ).contains(e) {
                        LiftView { changed: true, ..old(self).lifts@[e]@ }
                    } else {
                        old(self).lifts@[e]@
                    },
            decreases keys@.len() - i,
        {
            let lift = keys[i];
            assert(keys@.contains(lift));
            match self.lifts.remove(&lift) {
                Some(mut record) => {
                    record.changed = true;
                    self.lifts.insert(lift, record);
                },
                None => {},
            }
            proof {
                lemma_take_next(keys@, i as int);
            }
            i = i + 1;
        }
        proof {
            assert(keys@.take(keys@.len() as int) =~= keys@);
            assert(self@.lifts =~= old(self)@.all_touched().lifts);
        }
    }

    /// Takes `level` from the visits of every door; returns the doors that
    /// visited `level` and no other level, in increasing order of handle.
    fn strike_level(&mut self, level: Entity) -> (emptied: Vec<Entity>)
        ensures
            final(self)@ == old(self)@.without_visits_of(level),
            emptied@ == ascending(old(self)@.emptied_by(level)),
    {
        let keys = ordered_keys(&self.doors);
        proof {
            lemma_ascending(self.doors@.dom());
        }
        let mut emptied: Vec<Entity> = Vec::new();
        let mut i: usize = 0;
        while i < keys.len()
            invariant
                i <= keys@.len(),
                increasing(keys@),
                forall|e: Entity|
                    #![trigger keys@.contains(e)]
                    keys@.contains(e) <==> old(self).doors@.contains_key(e),
                *self == (LiftSite { doors: self.doors, ..*old(self) }),
                self.doors@.dom() =~= old(self).doors@.dom(),
                forall|e: Entity|
                    #![trigger self.doors@[e]]
                    old(self).doors@.contains_key(e) ==> self.doors@[e]@ == if keys@.take(
                        i as int,
                    ).contains(e) {
                        DoorView {
                            visits: old(self).doors@[e]@.visits.remove(level),
                            ..old(self).doors@[e]@
                        }
                    } else {
                        old(self).doors@[e]@
                    },
                increasing(emptied@),
                forall|e: Entity|
                    #![trigger emptied@.contains(e)]
                    emptied@.contains(e) <==> (keys@.take(i as int).contains(e) && old(
                        self,
                    )@.emptied_by(level).contains(e)),
            decreases keys@.len() - i,
        {
            let door = keys[i];
            assert(keys@.contains(door));
            proof {
                lemma_take_next(keys@, i as int);
                assert(!keys@.take(i as int).contains(door)) by {
                    if keys@.take(i as int).contains(door) {
                        let k = choose|k: int|
                            0 <= k < keys@.take(i as int).len() && keys@.take(i as int)[k] == door;
                        assert(keys@[k] < keys@[i as int]);
                    }
                }
            }
            match self.doors.remove(&door) {
                Some(mut record) => {
                    let visited = record.visits.remove(level);
                    let empty = record.visits.is_empty();
                    self.doors.insert(door, record);
                    if visited && empty {
                        proof {
                            assert forall|a: int, b: int|
                                0 <= a < b < emptied@.push(door).len() implies emptied@.push(
                                door,
                            )[a] < emptied@.push(door)[b] by {
                                if b == emptied@.len() {
                                    assert(emptied@.contains(emptied@[a]));
                                    let k = choose|k: int|
                                        0 <= k < keys@.take(i as int).len() && keys@.take(
                                            i as int,
                                        )[k] == emptied@[a];
                                    assert(keys@[k] < keys@[i as int]);
                                }
                            }
                            lemma_contains_push(emptied@, door);
                        }
                        emptied.push(door);
                    }
                },
                None => {},
            }
            i = i + 1;
        }
        proof {
            assert(keys@.take(keys@.len() as int) =~= keys@);
            assert(self@.doors =~= old(self)@.without_visits_of(level).doors);
            lemma_ascending_is(old(self)@.emptied_by(level), emptied@);
        }
        emptied
    }

    /// Tells the site that `level` is gone: no door visits the level any
    /// more, and each door that visited no other level is taken away from
    /// the cabin of its parent. All doors lose the level before the first one
    /// is taken away. A door without a parent, or whose parent is no lift with
    /// a cabin, is passed over, and the error is returned.
    pub fn forget_level(&mut self, level: Entity) -> (errors: Vec<LiftError>)
        ensures
            final(self)@ == old(self)@.level_cleared(level),
            errors@ == old(self)@.level_clearing_errors(level),
            old(self)@.wf() ==> final(self)@.wf(),
    {
        proof {
            if old(self)@.wf() {
                law_level_gone_keeps_order(old(self)@, level);
            }
        }
        let emptied = self.strike_level(level);
        let ghost struck = self@;
        let mut errors: Vec<LiftError> = Vec::new();
        let mut i: usize = 0;
        while i < emptied.len()
            invariant
                i <= emptied@.len(),
                self@ == struck.retired_each(emptied@.take(i as int)),
                errors@ == struck.clearing_errors(emptied@.take(i as int)),
            decreases emptied@.len() - i,
        {
            let door = emptied[i];
            proof {
                let upto = emptied@.take(i + 1);
                assert(upto.drop_last() =~= emptied@.take(i as int));
                assert(upto.last() == door);
            }
            let parent = match self.parents.get(&door) {
                Some(parent) => Some(*parent),
                None => None,
            };
            match parent {
                Some(lift) => {
                    if self.has_cabin(lift) {
                        self.remove_door(lift, door);
                    } else {
                        errors.push(LiftError::MissingCabin { lift });
                    }
                },
                None => {
                    errors.push(LiftError::MissingParentLift { door });
                },
            }
            i = i + 1;
        }
        proof {
            assert(emptied@.take(emptied@.len() as int) =~= emptied@);
        }
        errors
    }

    /// One round of upkeep of the cabin doors. The requests of `toggles` are
    /// carried out in their order. If the level that is being worked on has
    /// changed, every door is shown or hidden by it. If levels have been
    /// added, every lift is marked as changed. Last, the site is told of each
    /// level of `removed_levels` that it is gone. The errors met are returned
    /// in the order in which they were met.
    pub fn update_lift_door_availability(
        &mut self,
        toggles: &Vec<ToggleLiftDoorAvailability>,
        current_level_changed: bool,
        levels_added: bool,
        removed_levels: &Vec<Entity>,
    ) -> (errors: Vec<LiftError>)
        requires
            old(self)@.spare() >= 3 * toggles@.len(),
        ensures
            final(self)@ == old(self)@.updated(
                toggles@,
                current_level_changed,
                levels_added,
                removed_levels@,
            ),
            errors@ == old(self)@.update_errors(
                toggles@,
                current_level_changed,
                levels_added,
                removed_levels@,
            ),
            old(self)@.wf() ==> final(self)@.wf(),
    {
        proof {
            if old(self)@.wf() {
                law_upkeep_keeps_order(
                    old(self)@,
                    toggles@,
                    current_level_changed,
                    levels_added,
                    removed_levels@,
                );
            }
        }
        let mut errors: Vec<LiftError> = Vec::new();
        let mut i: usize = 0;
        while i < toggles.len()
            invariant
                i <= toggles@.len(),
                self@.spare() >= 3 * (toggles@.len() - i),
                self@ == old(self)@.toggled_all(toggles@.take(i as int)),
                errors@ == old(self)@.toggle_errors(toggles@.take(i as int)),
            decreases toggles@.len() - i,
        {
            proof {
                let upto = toggles@.take(i + 1);
                assert(upto.drop_last() =~= toggles@.take(i as int));
                assert(upto.last() == toggles@[i as int]);
            }
            match self.toggle_door_availability(toggles[i]) {
                Ok(()) => {},
                Err(error) => {
                    errors.push(error);
                },
            }
            i = i + 1;
        }
        proof {
            assert(toggles@.take(toggles@.len() as int) =~= toggles@);
        }
        if current_level_changed {
            self.show_doors_of_current_level();
        }
        if levels_added {
            self.mark_cabins_changed();
        }
        let ghost touched = self@;
        let ghost refused = errors@;
        let mut j: usize = 0;
        while j < removed_levels.len()
            invariant
                j <= removed_levels@.len(),
                self@ == touched.levels_cleared(removed_levels@.take(j as int)),
                errors@ == refused + touched.levels_clearing_errors(
                    removed_levels@.take(j as int),
                ),
            decreases removed_levels@.len() - j,
        {
            proof {
                let upto = removed_levels@.take(j + 1);
                assert(upto.drop_last() =~= removed_levels@.take(j as int));
                assert(upto.last() == removed_levels@[j as int]);
            }
            let mut met = self.forget_level(removed_levels[j]);
            errors.append(&mut met);
            proof {
                assert(errors@ =~= refused + touched.levels_clearing_errors(
                    removed_levels@.take(j + 1),
                ));
            }
            j = j + 1;
        }
        proof {
            assert(removed_levels@.take(removed_levels@.len() as int) =~= removed_levels@);
        }
        errors
    }
}

} // verus!
