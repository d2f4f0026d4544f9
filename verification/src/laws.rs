//! What holds of the site whatever is done to it.

use crate::ascending::ascending;
use crate::ascending::lemma_ascending;
use crate::ascending::lemma_ascending_len;
use crate::cabin::Entity;
use crate::cabin::LiftCabin;
use crate::cabin::LiftCabinDoorPlacement;
use crate::cabin::RectFace;
use crate::cabin::face_without;
use crate::door::DoorView;
use crate::door::Edge;
use crate::doormat::CabinDoorId;
use crate::doormat::LiftDoormat;
use crate::doormat::ToggleLiftDoorAvailability;
use crate::issue::IssueView;
use crate::model::SiteView;
use vstd::prelude::*;

verus! {

/// The request to make the door on `face` of `lift` available on `level`, or
/// unavailable.
pub open spec fn face_toggle(
    lift: Entity,
    face: RectFace,
    level: Entity,
    available: bool,
) -> ToggleLiftDoorAvailability {
    ToggleLiftDoorAvailability {
        for_lift: lift,
        on_level: level,
        cabin_door: CabinDoorId::RectFace(face),
        door_available: available,
    }
}

/// The requests that `steps` stand for, all about the door on `face` of
/// `lift`: each step names a level and says whether the door is to be
/// available there.
pub open spec fn face_toggles(lift: Entity, face: RectFace, steps: Seq<(Entity, bool)>) -> Seq<
    ToggleLiftDoorAvailability,
> {
    steps.map_values(|step: (Entity, bool)| face_toggle(lift, face, step.0, step.1))
}

/// The levels that are switched on once `steps` have been gone through,
/// starting from `start`: each step switches its level on or off.
pub open spec fn enabled_levels(start: Set<Entity>, steps: Seq<(Entity, bool)>) -> Set<Entity>
    decreases steps.len(),
{
    if steps.len() == 0 {
        start
    } else {
        let before = enabled_levels(start, steps.drop_last());
        if steps.last().1 {
            before.insert(steps.last().0)
        } else {
            before.remove(steps.last().0)
        }
    }
}

impl SiteView {
    /// Whether `face` of `lift` is in order: the lift has a cabin; the door
    /// on the face, if there is one, is a door of the site; and where the
    /// face has no door, the door that the lift remembers for it, if there is
    /// one, is a door of the site that visits no level.
    pub open spec fn face_in_order(self, lift: Entity, face: RectFace) -> bool {
        &&& self.has_cabin(lift)
        &&& match self.lifts[lift].cabin.door_on(face) {
            Some(placement) => self.doors.contains_key(placement.door),
            None => match self.lifts[lift].recall.door_on(face) {
                Some(placement) => self.doors.contains_key(placement.door)
                    && self.doors[placement.door].visits.is_empty(),
                None => true,
            },
        }
    }
}

/// To make a door available on a level that does not exist changes nothing:
/// no door is made, and no cabin, door or anchor is touched.
pub proof fn law_missing_level_changes_nothing(site: SiteView, toggle: ToggleLiftDoorAvailability)
    requires
        toggle.door_available,
        !site.levels.contains(toggle.on_level),
    ensures
        site.toggled(toggle) == site,
        site.has_cabin(toggle.for_lift) ==> site.toggle_error(toggle) is Some,
{
}

/// One request about the door on a face that is in order does to the visits
/// of that face what it says: the level is among them afterwards if the door
/// was made available there, and is not if it was made unavailable; the other
/// levels are as before. The face is in order afterwards.
pub proof fn law_face_toggle(
    site: SiteView,
    lift: Entity,
    face: RectFace,
    level: Entity,
    available: bool,
)
    requires
        site.face_in_order(lift, face),
        available ==> site.levels.contains(level),
    ensures
        site.toggled(face_toggle(lift, face, level, available)).face_in_order(lift, face),
        site.toggled(face_toggle(lift, face, level, available)).levels == site.levels,
        site.toggled(face_toggle(lift, face, level, available)).visits_at(lift, face) == if available {
            site.visits_at(lift, face).insert(level)
        } else {
            site.visits_at(lift, face).remove(level)
        },
{
    let toggle = face_toggle(lift, face, level, available);
    let after = site.toggled(toggle);
    let cabin = site.lifts[lift].cabin;
    if available {
        match cabin.door_on(face) {
            Some(placement) => {
                assert(after.visits_at(lift, face) =~= site.visits_at(lift, face).insert(level));
            },
            None => match site.lifts[lift].recall.door_on(face) {
                Some(placement) => {
                    assert(after.lifts[lift].cabin.door_on(face) == Some(placement));
                    assert(after.visits_at(lift, face) =~= site.visits_at(lift, face).insert(
                        level,
                    ));
                },
                None => {
                    let made = site.fabricated(lift, face, level);
                    assert(made.lifts[lift].cabin.door_on(face) is Some);
                    assert(after.visits_at(lift, face) =~= site.visits_at(lift, face).insert(
                        level,
                    ));
                },
            },
        }
    } else {
        match cabin.door_on(face) {
            Some(placement) => {
                let door = placement.door;
                let closed = site.closed(door, level);
                if closed.doors[door].visits.is_empty() {
                    assert(site.doors[door].visits.remove(level) =~= Set::empty());
                    assert(after.lifts[lift].cabin.door_on(face) is None);
                    assert(after.lifts[lift].recall.door_on(face) == Some(placement));
                    assert(after.visits_at(lift, face) =~= site.visits_at(lift, face).remove(
                        level,
                    ));
                } else {
                    assert(after.visits_at(lift, face) =~= site.visits_at(lift, face).remove(
                        level,
                    ));
                }
            },
            None => {
                assert(after == site);
                assert(after.visits_at(lift, face) =~= site.visits_at(lift, face).remove(level));
            },
        }
    }
}

/// However the door on one face of a lift is switched on and off for levels
/// that exist, in whatever order and however often, its visits are in the end
/// the levels that are switched on: those that it visited at the start, with
/// each level in or out as the last request about it said.
pub proof fn law_visits_are_enabled_levels(
    site: SiteView,
    lift: Entity,
    face: RectFace,
    steps: Seq<(Entity, bool)>,
)
    requires
        site.face_in_order(lift, face),
        forall|i: int| 0 <= i < steps.len() && (#[trigger] steps[i]).1 ==> site.levels.contains(
            steps[i].0,
        ),
    ensures
        site.toggled_all(face_toggles(lift, face, steps)).visits_at(lift, face) == enabled_levels(
            site.visits_at(lift, face),
            steps,
        ),
        site.toggled_all(face_toggles(lift, face, steps)).face_in_order(lift, face),
        site.toggled_all(face_toggles(lift, face, steps)).levels == site.levels,
    decreases steps.len(),
{
    if steps.len() > 0 {
        let earlier = steps.drop_last();
        let last = steps.last();
        law_visits_are_enabled_levels(site, lift, face, earlier);
        assert(face_toggles(lift, face, steps).drop_last() =~= face_toggles(lift, face, earlier));
        assert(face_toggles(lift, face, steps).last() == face_toggle(lift, face, last.0, last.1));
        let before = site.toggled_all(face_toggles(lift, face, earlier));
        law_face_toggle(before, lift, face, last.0, last.1);
    } else {
        assert(face_toggles(lift, face, steps).len() == 0);
    }
}

/// To make a door unavailable on the last level that it visits takes the door
/// away: its face is empty, the lift remembers the placement, and the door is
/// marked for removal and hidden. Its anchors are marked for removal and
/// hidden if nothing but the door depends on them; if something else depends
/// on one of them, both anchors stay as they were.
pub proof fn law_last_level_takes_door_away(
    site: SiteView,
    lift: Entity,
    face: RectFace,
    level: Entity,
)
    requires
        site.has_cabin(lift),
        site.door_at(lift, face) is Some,
        site.doors.contains_key(site.door_at(lift, face)->0),
        site.doors[site.door_at(lift, face)->0].visits.remove(level).is_empty(),
    ensures
        ({
            let door = site.door_at(lift, face)->0;
            let edge = site.doors[door].reference_anchors;
            let after = site.toggled(face_toggle(lift, face, level, false));
            &&& after.door_at(lift, face) is None
            &&& after.lifts[lift].recall.door_on(face) == site.lifts[lift].cabin.door_on(face)
            &&& after.lifts[lift].changed
            &&& after.pending.contains(door)
            &&& after.hidden.contains(door)
            &&& after.doors.contains_key(door)
            &&& after.doors[door].reference_anchors == edge
            &&& after.anchors == site.anchors
            &&& site.anchors_unshared(door) ==> {
                &&& after.pending.contains(edge.start)
                &&& after.pending.contains(edge.end)
                &&& after.hidden.contains(edge.start)
                &&& after.hidden.contains(edge.end)
            }
            &&& !site.anchors_unshared(door) ==> forall|anchor: Entity|
                #![trigger after.pending.contains(anchor)]
                #![trigger after.hidden.contains(anchor)]
                edge.has(anchor) && anchor != door ==> {
                    &&& after.pending.contains(anchor) == site.pending.contains(anchor)
                    &&& after.hidden.contains(anchor) == site.hidden.contains(anchor)
                }
        }),
{
    let door = site.door_at(lift, face)->0;
    let closed = site.closed(door, level);
    assert(closed.doors[door].visits.is_empty());
    assert(closed.anchors_unshared(door) == site.anchors_unshared(door));
}

/// To make the door of an empty face available, where the lift remembers a
/// placement for the face, puts that placement back: the same door with the
/// same width, on the same anchors. No entity is made, and the door and its
/// anchors are no longer marked for removal.
pub proof fn law_remembered_door_is_put_back(
    site: SiteView,
    lift: Entity,
    face: RectFace,
    level: Entity,
    placement: LiftCabinDoorPlacement,
)
    requires
        site.has_cabin(lift),
        site.levels.contains(level),
        site.lifts[lift].cabin.door_on(face) is None,
        site.lifts[lift].recall.door_on(face) == Some(placement),
    ensures
        ({
            let after = site.toggled(face_toggle(lift, face, level, true));
            &&& after.lifts[lift].cabin.door_on(face) == Some(placement)
            &&& after.next == site.next
            &&& after.parents == site.parents
            &&& after.anchors == site.anchors
            &&& after.doors.dom() == site.doors.dom()
            &&& !after.pending.contains(placement.door)
            &&& site.doors.contains_key(placement.door) ==> {
                let edge = site.doors[placement.door].reference_anchors;
                &&& after.doors[placement.door].reference_anchors == edge
                &&& after.doors[placement.door].visits == site.doors[placement.door].visits.insert(
                    level,
                )
                &&& !after.pending.contains(edge.start)
                &&& !after.pending.contains(edge.end)
                &&& !after.hidden.contains(edge.start)
                &&& !after.hidden.contains(edge.end)
            }
        }),
{
    let after = site.toggled(face_toggle(lift, face, level, true));
    assert(after.doors.dom() =~= site.doors.dom());
}

/// A door that is taken away with its last level and then made available
/// again comes back as it was: the same door, with the same width, on the
/// same face and the same anchors, and no entity is made for it.
pub proof fn law_door_comes_back_as_it_was(
    site: SiteView,
    lift: Entity,
    face: RectFace,
    last: Entity,
    level: Entity,
)
    requires
        site.has_cabin(lift),
        site.levels.contains(level),
        site.door_at(lift, face) is Some,
        site.doors.contains_key(site.door_at(lift, face)->0),
        site.doors[site.door_at(lift, face)->0].visits.remove(last).is_empty(),
    ensures
        ({
            let door = site.door_at(lift, face)->0;
            let gone = site.toggled(face_toggle(lift, face, last, false));
            let back = gone.toggled(face_toggle(lift, face, level, true));
            &&& gone.door_at(lift, face) is None
            &&& back.lifts[lift].cabin.door_on(face) == site.lifts[lift].cabin.door_on(face)
            &&& back.next == site.next
            &&& back.doors.dom() == site.doors.dom()
            &&& back.anchors == site.anchors
            &&& back.doors[door].reference_anchors == site.doors[door].reference_anchors
            &&& back.doors[door].visits == set![level]
            &&& !back.pending.contains(door)
        }),
{
    let door = site.door_at(lift, face)->0;
    let placement = site.lifts[lift].cabin.door_on(face)->0;
    let gone = site.toggled(face_toggle(lift, face, last, false));
    law_last_level_takes_door_away(site, lift, face, last);
    assert(gone.doors[door].visits =~= Set::empty());
    law_remembered_door_is_put_back(gone, lift, face, level, placement);
    let back = gone.toggled(face_toggle(lift, face, level, true));
    assert(gone.doors.dom() =~= site.doors.dom());
    assert(back.doors[door].visits =~= set![level]);
}

/// A cabin from which a door has been taken has, on each face, what it had
/// before, unless that was the door.
pub proof fn lemma_face_without(cabin: LiftCabin, door: Entity, face: RectFace)
    ensures
        cabin.without_door(door).door_on(face) == face_without(cabin.door_on(face), door),
{
    match face {
        RectFace::Front => {},
        RectFace::Back => {},
        RectFace::Left => {},
        RectFace::Right => {},
    }
}

/// Taking doors away, one after the other, leaves the doors themselves, the
/// anchors, the levels and all parents as they are, takes no mark back and
/// puts no door on a face. Each door of `doors` that has a lift with a cabin
/// for its parent is afterwards marked for removal, hidden, and on no face of
/// that lift.
pub proof fn law_doors_taken_away(site: SiteView, doors: Seq<Entity>)
    ensures
        ({
            let after = site.retired_each(doors);
            &&& after.doors == site.doors
            &&& after.parents == site.parents
            &&& after.anchors == site.anchors
            &&& after.levels == site.levels
            &&& after.next == site.next
            &&& after.lifts.dom() == site.lifts.dom()
            &&& forall|lift: Entity| #[trigger]
                site.lifts.contains_key(lift) ==> after.lifts[lift].anchor_group
                    == site.lifts[lift].anchor_group
            &&& forall|lift: Entity, face: RectFace|
                #![trigger after.lifts[lift].cabin.door_on(face)]
                site.lifts.contains_key(lift) && after.lifts[lift].cabin.door_on(face) is Some
                    ==> after.lifts[lift].cabin.door_on(face) == site.lifts[lift].cabin.door_on(
                    face,
                )
            &&& forall|e: Entity| #[trigger]
                site.pending.contains(e) ==> after.pending.contains(e)
            &&& forall|e: Entity| #[trigger] site.hidden.contains(e) ==> after.hidden.contains(e)
            &&& forall|i: int|
                #![trigger doors[i]]
                0 <= i < doors.len() && site.clearing_error(doors[i]) is None ==> {
                    &&& after.pending.contains(doors[i])
                    &&& after.hidden.contains(doors[i])
                    &&& forall|face: RectFace|
                        #![trigger after.door_at(site.parents[doors[i]], face)]
                        after.door_at(site.parents[doors[i]], face) != Some(doors[i])
                }
        }),
    decreases doors.len(),
{
    if doors.len() > 0 {
        let earlier = doors.drop_last();
        let door = doors.last();
        law_doors_taken_away(site, earlier);
        let before = site.retired_each(earlier);
        let after = site.retired_each(doors);
        assert(before.clearing_error(door) == site.clearing_error(door));
        if before.clearing_error(door) is None {
            let lift = before.parents[door];
            assert(after == before.retired(lift, door));
            assert(after.lifts.dom() =~= site.lifts.dom());
            assert forall|other: Entity, face: RectFace|
                #![trigger after.lifts[other].cabin.door_on(face)]
                site.lifts.contains_key(other) && after.lifts[other].cabin.door_on(face)
                    is Some implies after.lifts[other].cabin.door_on(face)
                == site.lifts[other].cabin.door_on(face) by {
                lemma_face_without(before.lifts[lift].cabin, door, face);
                assert(before.lifts[other].cabin.door_on(face) is Some ==> before.lifts[other].cabin.door_on(
                    face,
                ) == site.lifts[other].cabin.door_on(face));
            }
            assert forall|i: int|
                #![trigger doors[i]]
                0 <= i < doors.len() && site.clearing_error(doors[i]) is None implies {
                &&& after.pending.contains(doors[i])
                &&& after.hidden.contains(doors[i])
                &&& forall|face: RectFace|
                    #![trigger after.door_at(site.parents[doors[i]], face)]
                    after.door_at(site.parents[doors[i]], face) != Some(doors[i])
            } by {
                if i < earlier.len() {
                    assert(earlier[i] == doors[i]);
                    assert forall|face: RectFace|
                        #![trigger after.door_at(site.parents[doors[i]], face)]
                        after.door_at(site.parents[doors[i]], face) != Some(doors[i]) by {
                        assert(before.door_at(site.parents[doors[i]], face) != Some(doors[i]));
                        lemma_face_without(before.lifts[lift].cabin, door, face);
                    }
                } else {
                    assert(doors[i] == door);
                    assert forall|face: RectFace|
                        #![trigger after.door_at(site.parents[doors[i]], face)]
                        after.door_at(site.parents[doors[i]], face) != Some(doors[i]) by {
                        lemma_face_without(before.lifts[lift].cabin, door, face);
                    }
                }
            }
        } else {
            assert forall|i: int|
                #![trigger doors[i]]
                0 <= i < doors.len() && site.clearing_error(doors[i]) is None implies {
                &&& after.pending.contains(doors[i])
                &&& after.hidden.contains(doors[i])
                &&& forall|face: RectFace|
                    #![trigger after.door_at(site.parents[doors[i]], face)]
                    after.door_at(site.parents[doors[i]], face) != Some(doors[i])
            } by {
                if i < earlier.len() {
                    assert(earlier[i] == doors[i]);
                }
            }
        }
    }
}

/// When a level is gone, every door loses it at once, and nothing else about
/// a door changes. The doors that are left without a level are taken away in
/// increasing order of handle, each of them exactly once: one that has a lift
/// with a cabin for its parent is afterwards marked for removal, hidden, and
/// on no face of that lift.
pub proof fn law_level_gone(site: SiteView, level: Entity)
    ensures
        ({
            let after = site.level_cleared(level);
            let emptied = ascending(site.emptied_by(level));
            &&& after == site.without_visits_of(level).retired_each(emptied)
            &&& emptied.no_duplicates()
            &&& forall|door: Entity|
                #![trigger emptied.contains(door)]
                emptied.contains(door) <==> site.emptied_by(level).contains(door)
            &&& after.doors.dom() == site.doors.dom()
            &&& forall|door: Entity|
                #![trigger after.doors[door]]
                site.doors.contains_key(door) ==> after.doors[door] == (DoorView {
                    visits: site.doors[door].visits.remove(level),
                    ..site.doors[door]
                })
            &&& forall|door: Entity|
                #![trigger site.emptied_by(level).contains(door)]
                site.emptied_by(level).contains(door) && site.clearing_error(door) is None ==> {
                    &&& after.pending.contains(door)
                    &&& after.hidden.contains(door)
                    &&& after.doors[door].visits.is_empty()
                    &&& forall|face: RectFace|
                        #![trigger after.door_at(site.parents[door], face)]
                        after.door_at(site.parents[door], face) != Some(door)
                }
        }),
{
    let struck = site.without_visits_of(level);
    let emptied = ascending(site.emptied_by(level));
    let after = site.level_cleared(level);
    lemma_ascending(site.emptied_by(level));
    law_doors_taken_away(struck, emptied);
    assert(struck.doors.dom() =~= site.doors.dom());
    assert forall|door: Entity|
        #![trigger site.emptied_by(level).contains(door)]
        site.emptied_by(level).contains(door) && site.clearing_error(door) is None implies {
        &&& after.pending.contains(door)
        &&& after.hidden.contains(door)
        &&& after.doors[door].visits.is_empty()
        &&& forall|face: RectFace|
            #![trigger after.door_at(site.parents[door], face)]
            after.door_at(site.parents[door], face) != Some(door)
    } by {
        assert(emptied.contains(door));
        let i = choose|i: int| 0 <= i < emptied.len() && emptied[i] == door;
        assert(struck.clearing_error(emptied[i]) == site.clearing_error(door));
    }
}

/// The doormats that are made over `levels` hold one for every face on every
/// level of `levels` that has the same parent as the lift.
pub proof fn law_doormats_cover_levels(site: SiteView, lift: Entity, levels: Seq<Entity>)
    ensures
        forall|i: int, face: RectFace|
            #![trigger site.doormat(lift, levels[i], face)]
            0 <= i < levels.len() && site.same_site(lift, levels[i]) ==> site.doormats_over(
                lift,
                levels,
            ).contains(site.doormat(lift, levels[i], face)),
    decreases levels.len(),
{
    if levels.len() > 0 {
        let earlier = levels.drop_last();
        let last = levels.last();
        law_doormats_cover_levels(site, lift, earlier);
        let before = site.doormats_over(lift, earlier);
        let all = site.doormats_over(lift, levels);
        assert forall|i: int, face: RectFace|
            #![trigger site.doormat(lift, levels[i], face)]
            0 <= i < levels.len() && site.same_site(lift, levels[i]) implies all.contains(
            site.doormat(lift, levels[i], face),
        ) by {
            if i < earlier.len() {
                assert(earlier[i] == levels[i]);
                let mat = site.doormat(lift, earlier[i], face);
                assert(before.contains(mat));
                let k = choose|k: int| 0 <= k < before.len() && before[k] == mat;
                assert(all[k] == mat);
            } else {
                let mats = site.level_doormats(lift, last);
                let k: int = match face {
                    RectFace::Front => 0,
                    RectFace::Back => 1,
                    RectFace::Left => 2,
                    RectFace::Right => 3,
                };
                assert(mats[k] == site.doormat(lift, last, face));
                assert(all[before.len() + k] == mats[k]);
            }
        }
    }
}

/// The doormats of a cabin hold one for every face on every level that has
/// the same parent as the lift: none is missing.
pub proof fn law_no_doormat_is_missing(site: SiteView, lift: Entity)
    ensures
        forall|level: Entity, face: RectFace|
            #![trigger site.doormat(lift, level, face)]
            site.levels.contains(level) && site.same_site(lift, level) ==> site.doormats_of(
                lift,
            ).contains(site.doormat(lift, level, face)),
{
    let levels = ascending(site.levels);
    lemma_ascending(site.levels);
    law_doormats_cover_levels(site, lift, levels);
    assert forall|level: Entity, face: RectFace|
        #![trigger site.doormat(lift, level, face)]
        site.levels.contains(level) && site.same_site(lift, level) implies site.doormats_of(
        lift,
    ).contains(site.doormat(lift, level, face)) by {
        assert(levels.contains(level));
        let i = choose|i: int| 0 <= i < levels.len() && levels[i] == level;
        assert(site.doormat(lift, levels[i], face) == site.doormat(lift, level, face));
    }
}

impl SiteView {
    /// Whether `entity` has the same parent, or none, in both sites.
    pub open spec fn same_parent_in(self, other: SiteView, entity: Entity) -> bool {
        self.parents.contains_key(entity) == other.parents.contains_key(entity) && (
        self.parents.contains_key(entity) ==> self.parents[entity] == other.parents[entity])
    }

    /// Whether the two sites have the same levels, lifts and doors, with the
    /// same cabins, and every level and lift has the same parent in both.
    pub open spec fn same_layout(self, other: SiteView) -> bool {
        &&& self.levels == other.levels
        &&& self.doors == other.doors
        &&& self.lifts.dom() == other.lifts.dom()
        &&& forall|lift: Entity| #[trigger]
            self.lifts.contains_key(lift) ==> self.lifts[lift].cabin == other.lifts[lift].cabin
        &&& forall|lift: Entity| #[trigger]
            self.lifts.contains_key(lift) ==> self.same_parent_in(other, lift)
        &&& forall|level: Entity| #[trigger]
            self.levels.contains(level) ==> self.same_parent_in(other, level)
    }
}

/// Two sites with the same layout give a cabin the same doormats.
pub proof fn law_doormats_follow_layout(
    site: SiteView,
    other: SiteView,
    lift: Entity,
    levels: Seq<Entity>,
)
    requires
        site.same_layout(other),
        site.lifts.contains_key(lift),
        forall|i: int| 0 <= i < levels.len() ==> site.levels.contains(#[trigger] levels[i]),
    ensures
        site.doormats_over(lift, levels) == other.doormats_over(lift, levels),
    decreases levels.len(),
{
    if levels.len() > 0 {
        let earlier = levels.drop_last();
        let last = levels.last();
        assert forall|i: int| 0 <= i < earlier.len() implies site.levels.contains(
            #[trigger] earlier[i],
        ) by {
            assert(earlier[i] == levels[i]);
        }
        law_doormats_follow_layout(site, other, lift, earlier);
        assert(site.levels.contains(levels[levels.len() - 1]));
        assert(site.same_site(lift, last) == other.same_site(lift, last));
        assert(site.level_doormats(lift, last) =~= other.level_doormats(lift, last));
    }
}

/// To build the cabin of a lift again keeps a site in order and leaves its
/// layout as it is: the lift has the doormats of its cabin, and is no longer
/// due.
pub proof fn law_cabin_rebuilt(site: SiteView, lift: Entity)
    requires
        site.wf(),
        site.spare() >= 2,
        site.lifts.contains_key(lift),
    ensures
        site.rebuilt(lift).wf(),
        site.same_layout(site.rebuilt(lift)),
        site.next <= site.rebuilt(lift).next <= site.next + 2,
        site.rebuilt(lift).lifts[lift].doormats == site.doormats_of(lift),
        !site.rebuilt(lift).lifts[lift].changed,
        forall|other: Entity|
            #![trigger site.rebuilt(lift).lifts[other]]
            site.lifts.contains_key(other) && other != lift ==> site.rebuilt(lift).lifts[other]
                == site.lifts[other],
{
    let after = site.rebuilt(lift);
    assert(after.lifts.dom() =~= site.lifts.dom());
    assert(site.cabin_group_apart(lift));
    assert forall|other: Entity| #[trigger] after.lifts.contains_key(other) implies after.cabin_group_apart(
        other,
    ) by {
        assert(site.cabin_group_apart(other));
    }
}

/// Once the cabins of the lifts of `lifts` have been built again, each of
/// those that were due has the doormats of its cabin, as the site was before,
/// and the others are as they were. The site is in order and its layout is
/// as before.
pub proof fn law_cabins_rebuilt(site: SiteView, lifts: Seq<Entity>)
    requires
        site.wf(),
        site.spare() >= 2 * lifts.len(),
        lifts.no_duplicates(),
    ensures
        ({
            let after = site.rebuilt_each(lifts);
            &&& after.wf()
            &&& site.same_layout(after)
            &&& site.next <= after.next <= site.next + 2 * lifts.len()
            &&& forall|lift: Entity|
                #![trigger after.lifts[lift]]
                site.lifts.contains_key(lift) ==> if lifts.contains(lift) && site.due(lift) {
                    after.lifts[lift].doormats == site.doormats_of(lift)
                        && !after.lifts[lift].changed
                } else {
                    after.lifts[lift] == site.lifts[lift]
                }
        }),
    decreases lifts.len(),
{
    if lifts.len() > 0 {
        let earlier = lifts.drop_last();
        let last = lifts.last();
        assert(earlier.no_duplicates());
        law_cabins_rebuilt(site, earlier);
        let before = site.rebuilt_each(earlier);
        let after = site.rebuilt_each(lifts);
        assert(!earlier.contains(last)) by {
            if earlier.contains(last) {
                let k = choose|k: int| 0 <= k < earlier.len() && earlier[k] == last;
                assert(lifts[k] == lifts[lifts.len() - 1]);
            }
        }
        assert forall|lift: Entity| lifts.contains(lift) <==> (earlier.contains(lift) || lift
            == last) by {
            if lifts.contains(lift) {
                let k = choose|k: int| 0 <= k < lifts.len() && lifts[k] == lift;
                if k < earlier.len() {
                    assert(earlier[k] == lift);
                }
            }
            if earlier.contains(lift) {
                let k = choose|k: int| 0 <= k < earlier.len() && earlier[k] == lift;
                assert(lifts[k] == lift);
            }
            if lift == last {
                assert(lifts[lifts.len() - 1] == lift);
            }
        }
        if before.due(last) {
            assert(site.lifts.contains_key(last));
            assert(before.lifts[last] == site.lifts[last]);
            assert(site.same_parent_in(before, last));
            assert(site.due(last));
            law_cabin_rebuilt(before, last);
            lemma_ascending(site.levels);
            law_doormats_follow_layout(site, before, last, ascending(site.levels));
            assert(before.doormats_of(last) == site.doormats_of(last));
            assert(site.same_layout(after)) by {
                assert forall|lift: Entity| #[trigger] site.lifts.contains_key(lift) implies site.same_parent_in(
                    after,
                    lift,
                ) by {
                    assert(site.same_parent_in(before, lift));
                    assert(before.same_parent_in(after, lift));
                }
                assert forall|level: Entity| #[trigger] site.levels.contains(level) implies site.same_parent_in(
                    after,
                    level,
                ) by {
                    assert(site.same_parent_in(before, level));
                    assert(before.same_parent_in(after, level));
                }
            }
        } else {
            if site.lifts.contains_key(last) {
                assert(before.lifts[last] == site.lifts[last]);
                assert(site.same_parent_in(before, last));
                assert(!site.due(last));
            }
        }
    }
}

/// When a level is added, the lifts are marked as changed for it, and the
/// cabins are built again, the cabin of every lift that has the parent of the
/// new level has a doormat for each of its faces on the new level.
pub proof fn law_new_level_gets_doormats(site: SiteView, parent: Entity)
    requires
        site.wf(),
        site.spare() >= 1 + 2 * site.lifts.len(),
    ensures
        ({
            let level = site.next;
            let marked = site.with_level(Some(parent)).updated(
                Seq::empty(),
                false,
                true,
                Seq::empty(),
            );
            let built = marked.cabins_rebuilt();
            &&& built.levels == site.levels.insert(level)
            &&& built.wf()
            &&& forall|lift: Entity, face: RectFace|
                #![trigger marked.doormat(lift, level, face)]
                site.lifts.contains_key(lift) && site.parents.contains_key(lift)
                    && site.parents[lift] == parent ==> {
                    &&& built.lifts[lift].doormats == marked.doormats_of(lift)
                    &&& built.lifts[lift].doormats.contains(marked.doormat(lift, level, face))
                    &&& marked.doormat(lift, level, face) == (LiftDoormat {
                        for_lift: lift,
                        on_level: level,
                        cabin_door: CabinDoorId::RectFace(face),
                        door_available: site.door_available(lift, face, level),
                    })
                }
        }),
{
    let level = site.next;
    let added = site.with_level(Some(parent));
    let marked = added.updated(Seq::empty(), false, true, Seq::empty());
    assert(added.toggled_all(Seq::empty()) == added);
    assert(added.all_touched().levels_cleared(Seq::empty()) == added.all_touched());
    assert(marked == added.all_touched());
    assert(marked.lifts.dom() =~= site.lifts.dom());
    assert(added.wf()) by {
        assert forall|lift: Entity| #[trigger] added.lifts.contains_key(lift) implies added.cabin_group_apart(
            lift,
        ) by {
            assert(site.cabin_group_apart(lift));
        }
    }
    assert(marked.wf()) by {
        assert forall|lift: Entity| #[trigger] marked.lifts.contains_key(lift) implies marked.cabin_group_apart(
            lift,
        ) by {
            assert(added.lifts.contains_key(lift));
            assert(added.cabin_group_apart(lift));
        }
    }
    let lifts = ascending(marked.lifts.dom());
    lemma_ascending(marked.lifts.dom());
    lemma_ascending_len(marked.lifts.dom());
    law_cabins_rebuilt(marked, lifts);
    let built = marked.cabins_rebuilt();
    assert forall|lift: Entity, face: RectFace|
        #![trigger marked.doormat(lift, level, face)]
        site.lifts.contains_key(lift) && site.parents.contains_key(lift) && site.parents[lift]
            == parent implies {
        &&& built.lifts[lift].doormats == marked.doormats_of(lift)
        &&& built.lifts[lift].doormats.contains(marked.doormat(lift, level, face))
        &&& marked.doormat(lift, level, face) == (LiftDoormat {
            for_lift: lift,
            on_level: level,
            cabin_door: CabinDoorId::RectFace(face),
            door_available: site.door_available(lift, face, level),
        })
    } by {
        assert(marked.lifts.contains_key(lift));
        assert(lifts.contains(lift));
        assert(marked.due(lift));
        assert(built.lifts[lift].doormats == marked.doormats_of(lift));
        law_no_doormat_is_missing(marked, lift);
        assert(marked.levels.contains(level));
        assert(marked.same_site(lift, level));
    }
}

/// Where no two lifts under a root have the same name, the check for shared
/// names reports nothing and leaves the site as it is.
pub proof fn law_unique_names_raise_no_issue(site: SiteView, root: Entity)
    requires
        forall|a: Entity, b: Entity|
            #![trigger site.lifts[a], site.lifts[b]]
            site.lifts.contains_key(a) && site.lifts.contains_key(b) && a != b && site.under(
                a,
                root,
            ) && site.under(b, root) ==> site.lifts[a].name != site.lifts[b].name,
    ensures
        site.namesake_issues(root).len() == 0,
        site.validated(root) == site,
{
    lemma_no_issue_among(site, root, ascending(site.lifts.dom()));
}

proof fn lemma_no_issue_among(site: SiteView, root: Entity, lifts: Seq<Entity>)
    requires
        forall|a: Entity, b: Entity|
            #![trigger site.lifts[a], site.lifts[b]]
            site.lifts.contains_key(a) && site.lifts.contains_key(b) && a != b && site.under(
                a,
                root,
            ) && site.under(b, root) ==> site.lifts[a].name != site.lifts[b].name,
    ensures
        site.namesake_issues_among(root, lifts).len() == 0,
    decreases lifts.len(),
{
    if lifts.len() > 0 {
        lemma_no_issue_among(site, root, lifts.drop_last());
        let lift = lifts.last();
        if site.leads_namesakes(root, lift) {
            let sharing = site.namesakes(root, site.lifts[lift].name);
            let other = choose|other: Entity| #[trigger] sharing.contains(other) && other != lift;
            assert(site.lifts[lift].name == site.lifts[other].name);
        }
    }
}

/// Reporting issues keeps a site in order, takes one new entity for each
/// issue and leaves the issues that were there before as they are: nothing
/// that an earlier check has reported is replaced or dropped.
pub proof fn law_earlier_issues_stay(site: SiteView, root: Entity, issues: Seq<IssueView>)
    requires
        site.wf(),
        site.spare() >= issues.len(),
    ensures
        ({
            let after = site.reporting_all(root, issues);
            &&& after.wf()
            &&& after.next == site.next + issues.len()
            &&& forall|e: Entity| #[trigger]
                site.issues.contains_key(e) ==> after.issues.contains_key(e) && after.issues[e]
                    == site.issues[e]
            &&& forall|i: int|
                #![trigger site.fresh(i)]
                0 <= i < issues.len() ==> after.issues.contains_key(site.fresh(i))
                    && after.issues[site.fresh(i)] == issues[i] && after.parents.contains_key(
                    site.fresh(i),
                ) && after.parents[site.fresh(i)] == root
            &&& after.lifts == site.lifts
            &&& after.doors == site.doors
            &&& after.levels == site.levels
        }),
    decreases issues.len(),
{
    if issues.len() > 0 {
        let earlier = issues.drop_last();
        law_earlier_issues_stay(site, root, earlier);
        let before = site.reporting_all(root, earlier);
        let after = site.reporting_all(root, issues);
        assert(after == before.reporting(root, issues.last()));
        assert forall|lift: Entity| #[trigger] after.lifts.contains_key(lift) implies after.cabin_group_apart(
            lift,
        ) by {
            assert(before.cabin_group_apart(lift));
        }
        assert forall|i: int|
            #![trigger site.fresh(i)]
            0 <= i < issues.len() implies after.issues.contains_key(site.fresh(i))
            && after.issues[site.fresh(i)] == issues[i] && after.parents.contains_key(
            site.fresh(i),
        ) && after.parents[site.fresh(i)] == root by {
            if i < earlier.len() {
                assert(earlier[i] == issues[i]);
            }
        }
    }
}

/// Whatever request is carried out, a site that is in order stays in order.
pub proof fn law_toggle_keeps_order(site: SiteView, toggle: ToggleLiftDoorAvailability)
    requires
        site.wf(),
        site.spare() >= 3,
    ensures
        site.toggled(toggle).wf(),
        site.next <= site.toggled(toggle).next <= site.next + 3,
{
    let after = site.toggled(toggle);
    assert(after.lifts.dom() =~= site.lifts.dom());
    assert forall|lift: Entity| #[trigger] after.lifts.contains_key(lift) implies after.cabin_group_apart(
        lift,
    ) by {
        assert(site.cabin_group_apart(lift));
    }
}

/// When a site that is in order is told that a level is gone, it stays in
/// order.
pub proof fn law_level_gone_keeps_order(site: SiteView, level: Entity)
    requires
        site.wf(),
    ensures
        site.level_cleared(level).wf(),
        site.level_cleared(level).next == site.next,
{
    let struck = site.without_visits_of(level);
    assert(struck.doors.dom() =~= site.doors.dom());
    assert(struck.wf()) by {
        assert forall|lift: Entity| #[trigger] struck.lifts.contains_key(lift) implies struck.cabin_group_apart(
            lift,
        ) by {
            assert(site.cabin_group_apart(lift));
        }
    }
    lemma_doors_taken_away_keep_order(struck, ascending(site.emptied_by(level)));
}

proof fn lemma_doors_taken_away_keep_order(site: SiteView, doors: Seq<Entity>)
    requires
        site.wf(),
    ensures
        site.retired_each(doors).wf(),
        site.retired_each(doors).next == site.next,
    decreases doors.len(),
{
    if doors.len() > 0 {
        lemma_doors_taken_away_keep_order(site, doors.drop_last());
        let before = site.retired_each(doors.drop_last());
        let after = site.retired_each(doors);
        assert(after.lifts.dom() =~= before.lifts.dom());
        assert forall|lift: Entity| #[trigger] after.lifts.contains_key(lift) implies after.cabin_group_apart(
            lift,
        ) by {
            assert(before.cabin_group_apart(lift));
        }
    }
}

/// The site that holds nothing is in order, and a site that is in order stays
/// in order when an entity, a level, an anchor or a lift is made.
pub proof fn law_making_keeps_order(
    site: SiteView,
    parent: Option<Entity>,
    name: Seq<char>,
    edge: Edge,
    width: u32,
    depth: u32,
)
    requires
        site.wf(),
        site.spare() >= 1,
    ensures
        SiteView::empty().wf(),
        site.with_entity(parent).wf(),
        site.with_level(parent).wf(),
        site.with_anchor(parent).wf(),
        site.with_lift(parent, name, edge, width, depth).wf(),
{
    let made = site.with_lift(parent, name, edge, width, depth);
    assert forall|other: Entity| #[trigger] made.lifts.contains_key(other) implies made.cabin_group_apart(
        other,
    ) by {
        if other != site.next {
            assert(site.cabin_group_apart(other));
        }
    }
    let level = site.with_level(parent);
    assert forall|other: Entity| #[trigger] level.lifts.contains_key(other) implies level.cabin_group_apart(
        other,
    ) by {
        assert(site.cabin_group_apart(other));
    }
    let entity = site.with_entity(parent);
    assert forall|other: Entity| #[trigger] entity.lifts.contains_key(other) implies entity.cabin_group_apart(
        other,
    ) by {
        assert(site.cabin_group_apart(other));
    }
    let anchor = site.with_anchor(parent);
    assert forall|other: Entity| #[trigger] anchor.lifts.contains_key(other) implies anchor.cabin_group_apart(
        other,
    ) by {
        assert(site.cabin_group_apart(other));
    }
}

/// A site that is in order stays in order when every lift is marked as
/// changed, when the doors are shown or hidden by the level that is being
/// worked on, when a level is taken out, when a dependent is entered, and
/// when another level is worked on.
pub proof fn law_marking_keeps_order(
    site: SiteView,
    level: Entity,
    anchor: Entity,
    dependent: Entity,
    current: Option<Entity>,
)
    requires
        site.wf(),
    ensures
        site.all_touched().wf(),
        site.projected().wf(),
        site.without_level(level).wf(),
        site.depending(anchor, dependent).wf(),
        site.working_on(current).wf(),
{
    let touched = site.all_touched();
    assert(touched.lifts.dom() =~= site.lifts.dom());
    assert forall|other: Entity| #[trigger] touched.lifts.contains_key(other) implies touched.cabin_group_apart(
        other,
    ) by {
        assert(site.cabin_group_apart(other));
    }
    let projected = site.projected();
    assert forall|other: Entity| #[trigger] projected.lifts.contains_key(other) implies projected.cabin_group_apart(
        other,
    ) by {
        assert(site.cabin_group_apart(other));
    }
    let gone = site.without_level(level);
    assert forall|other: Entity| #[trigger] gone.lifts.contains_key(other) implies gone.cabin_group_apart(
        other,
    ) by {
        assert(site.cabin_group_apart(other));
    }
    let entered = site.depending(anchor, dependent);
    assert forall|other: Entity| #[trigger] entered.lifts.contains_key(other) implies entered.cabin_group_apart(
        other,
    ) by {
        assert(site.cabin_group_apart(other));
    }
    let working = site.working_on(current);
    assert forall|other: Entity| #[trigger] working.lifts.contains_key(other) implies working.cabin_group_apart(
        other,
    ) by {
        assert(site.cabin_group_apart(other));
    }
}

/// A site that is in order stays in order when a lift is marked as changed
/// and when a door is taken away from a cabin.
pub proof fn law_taking_away_keeps_order(site: SiteView, lift: Entity, door: Entity)
    requires
        site.wf(),
    ensures
        site.touched(lift).wf(),
        site.retired(lift, door).wf(),
{
    let touched = site.touched(lift);
    assert(touched.lifts.dom() =~= site.lifts.dom());
    assert forall|other: Entity| #[trigger] touched.lifts.contains_key(other) implies touched.cabin_group_apart(
        other,
    ) by {
        assert(site.cabin_group_apart(other));
    }
    let retired = site.retired(lift, door);
    assert(retired.lifts.dom() =~= site.lifts.dom());
    assert forall|other: Entity| #[trigger] retired.lifts.contains_key(other) implies retired.cabin_group_apart(
        other,
    ) by {
        assert(site.cabin_group_apart(other));
    }
}

/// However many requests are carried out, a site that is in order stays in
/// order, and no more than three entities are made for each request.
pub proof fn law_toggles_keep_order(site: SiteView, toggles: Seq<ToggleLiftDoorAvailability>)
    requires
        site.wf(),
        site.spare() >= 3 * toggles.len(),
    ensures
        site.toggled_all(toggles).wf(),
        site.next <= site.toggled_all(toggles).next <= site.next + 3 * toggles.len(),
    decreases toggles.len(),
{
    if toggles.len() > 0 {
        law_toggles_keep_order(site, toggles.drop_last());
        law_toggle_keeps_order(site.toggled_all(toggles.drop_last()), toggles.last());
    }
}

/// When a site that is in order is told of levels that are gone, it stays in
/// order, and no entity is made.
pub proof fn law_levels_gone_keep_order(site: SiteView, levels: Seq<Entity>)
    requires
        site.wf(),
    ensures
        site.levels_cleared(levels).wf(),
        site.levels_cleared(levels).next == site.next,
    decreases levels.len(),
{
    if levels.len() > 0 {
        law_levels_gone_keep_order(site, levels.drop_last());
        law_level_gone_keeps_order(site.levels_cleared(levels.drop_last()), levels.last());
    }
}

/// A round of upkeep keeps a site in order.
pub proof fn law_upkeep_keeps_order(
    site: SiteView,
    toggles: Seq<ToggleLiftDoorAvailability>,
    current_level_changed: bool,
    levels_added: bool,
    removed_levels: Seq<Entity>,
)
    requires
        site.wf(),
        site.spare() >= 3 * toggles.len(),
    ensures
        site.updated(toggles, current_level_changed, levels_added, removed_levels).wf(),
{
    law_toggles_keep_order(site, toggles);
    let toggled = site.toggled_all(toggles);
    law_marking_keeps_order(toggled, 0, 0, 0, None);
    let projected = if current_level_changed {
        toggled.projected()
    } else {
        toggled
    };
    law_marking_keeps_order(projected, 0, 0, 0, None);
    let touched = if levels_added {
        projected.all_touched()
    } else {
        projected
    };
    law_levels_gone_keep_order(touched, removed_levels);
}

/// However many new lifts are taken in, a site that is in order stays in
/// order.
pub proof fn law_taking_in_keeps_order(
    site: SiteView,
    lifts: Seq<Entity>,
    current_site: Option<Entity>,
)
    requires
        site.wf(),
    ensures
        site.tagged_all(lifts, current_site).wf(),
        site.tagged_all(lifts, current_site).next == site.next,
    decreases lifts.len(),
{
    if lifts.len() > 0 {
        law_taking_in_keeps_order(site, lifts.drop_last(), current_site);
        let before = site.tagged_all(lifts.drop_last(), current_site);
        lemma_tagged_keeps_order(before, lifts.last(), current_site);
    }
}

proof fn lemma_tagged_keeps_order(site: SiteView, lift: Entity, current_site: Option<Entity>)
    requires
        site.wf(),
    ensures
        site.tagged(lift, current_site).wf(),
        site.tagged(lift, current_site).next == site.next,
{
    let tagged = site.tagged(lift, current_site);
    assert(tagged.lifts.dom() =~= site.lifts.dom());
    assert forall|other: Entity| #[trigger] tagged.lifts.contains_key(other) implies tagged.cabin_group_apart(
        other,
    ) by {
        assert(site.cabin_group_apart(other));
    }
}

/// To build again the cabins that are due keeps a site in order. No more
/// than two entities are made for each lift.
pub proof fn law_rebuilding_keeps_order(site: SiteView)
    requires
        site.wf(),
        site.spare() >= 2 * site.lifts.len(),
    ensures
        site.cabins_rebuilt().wf(),
        site.same_layout(site.cabins_rebuilt()),
{
    lemma_ascending(site.lifts.dom());
    lemma_ascending_len(site.lifts.dom());
    law_cabins_rebuilt(site, ascending(site.lifts.dom()));
}

/// The check for shared names keeps a site in order.
pub proof fn law_validation_keeps_order(site: SiteView, root: Entity)
    requires
        site.wf(),
        site.spare() >= site.namesake_issues(root).len(),
    ensures
        site.validated(root).wf(),
{
    law_earlier_issues_stay(site, root, site.namesake_issues(root));
}

/// To build a cabin twice gives the doormats that building it once gives.
pub proof fn law_rebuilding_twice_changes_no_doormat(site: SiteView, lift: Entity)
    requires
        site.wf(),
        site.spare() >= 4,
        site.lifts.contains_key(lift),
    ensures
        site.rebuilt(lift).rebuilt(lift).lifts[lift].doormats
            == site.rebuilt(lift).lifts[lift].doormats,
        site.rebuilt(lift).rebuilt(lift).lifts[lift].anchor_group
            == site.rebuilt(lift).lifts[lift].anchor_group,
{
    let once = site.rebuilt(lift);
    law_cabin_rebuilt(site, lift);
    law_cabin_rebuilt(once, lift);
    lemma_ascending(site.levels);
    law_doormats_follow_layout(site, once, lift, ascending(site.levels));
}

} // verus!
