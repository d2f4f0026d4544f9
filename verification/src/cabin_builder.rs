//! Building the cabins: the doormats of every face on every level, and the
//! entities that hold a cabin's parts.

use crate::ascending::ascending;
use crate::ascending::lemma_ascending_len;
use crate::cabin::Entity;
use crate::cabin::RectFace;
use crate::doormat::CabinDoorId;
use crate::doormat::LiftDoormat;
use crate::laws::law_cabin_rebuilt;
use crate::laws::law_rebuilding_keeps_order;
use crate::lift::CabinAnchorGroupBundle;
use crate::lift::ChildCabinAnchorGroup;
use crate::lift::ChildLiftCabinGroup;
use crate::order::ordered;
use crate::order::ordered_keys;
use crate::site::LiftSite;
use vstd::prelude::*;

verus! {

impl LiftSite {
    /// The doormat of `face` of `lift` on `level`.
    pub fn doormat(&self, lift: Entity, level: Entity, face: RectFace) -> (mat: LiftDoormat)
        requires
            self@.lifts.contains_key(lift),
        ensures
            mat == self@.doormat(lift, level, face),
    {
        let door_available = match self.placement(lift, face) {
            Some(placement) => match self.doors.get(&placement.door) {
                Some(door) => door.visits.contains(level),
                None => false,
            },
            None => false,
        };
        LiftDoormat {
            for_lift: lift,
            on_level: level,
            cabin_door: CabinDoorId::RectFace(face),
            door_available,
        }
    }

    /// Whether `level` and `lift` have parents and have the same one.
    fn same_site(&self, lift: Entity, level: Entity) -> (same: bool)
        ensures
            same == self@.same_site(lift, level),
    {
        match self.parents.get(&lift) {
            Some(site) => match self.parents.get(&level) {
                Some(other) => *site == *other,
                None => false,
            },
            None => false,
        }
    }

    /// The doormats that the cabin of `lift` is built with: one for each face
    /// on every level that has the same parent as the lift.
    pub fn doormats(&self, lift: Entity) -> (mats: Vec<LiftDoormat>)
        requires
            self@.lifts.contains_key(lift),
        ensures
            mats@ == self@.doormats_of(lift),
    {
        let levels = ordered(&self.levels);
        let mut mats: Vec<LiftDoormat> = Vec::new();
        let mut i: usize = 0;
        while i < levels.len()
            invariant
                i <= levels@.len(),
                self@.lifts.contains_key(lift),
                levels@ == ascending(self@.levels),
                mats@ == self@.doormats_over(lift, levels@.take(i as int)),
            decreases levels@.len() - i,
        {
            let level = levels[i];
            proof {
                let upto = levels@.take(i + 1);
                assert(upto.drop_last() =~= levels@.take(i as int));
                assert(upto.last() == level);
            }
            if self.same_site(lift, level) {
                let ghost before = mats@;
                mats.push(self.doormat(lift, level, RectFace::Front));
                mats.push(self.doormat(lift, level, RectFace::Back));
                mats.push(self.doormat(lift, level, RectFace::Left));
                mats.push(self.doormat(lift, level, RectFace::Right));
                assert(mats@ =~= before + self@.level_doormats(lift, level));
            }
            i = i + 1;
        }
        proof {
            assert(levels@.take(levels@.len() as int) =~= levels@);
        }
        mats
    }

    /// The anchor group that `lift` has among its children without knowing
    /// of it.
    fn find_anchor_group(&self, lift: Entity) -> (found: Option<Entity>)
        ensures
            found == self@.stray_anchor_group(lift),
    {
        let groups = ordered_keys(&self.anchor_groups);
        let mut found: Option<Entity> = None;
        let mut i: usize = 0;
        while i < groups.len()
            invariant
                i <= groups@.len(),
                found == self@.first_child_among(lift, groups@.take(i as int)),
            decreases groups@.len() - i,
        {
            let group = groups[i];
            proof {
                let upto = groups@.take(i + 1);
                assert(upto.drop_last() =~= groups@.take(i as int));
                assert(upto.last() == group);
            }
            if found.is_none() {
                match self.parents.get(&group) {
                    Some(parent) => {
                        if *parent == lift {
                            found = Some(group);
                        }
                    },
                    None => {},
                }
            }
            i = i + 1;
        }
        proof {
            assert(groups@.take(groups@.len() as int) =~= groups@);
        }
        found
    }

    /// Builds the cabin of `lift` again.
    pub fn rebuild_cabin(&mut self, lift: Entity)
        requires
            old(self)@.lifts.contains_key(lift),
            old(self)@.spare() >= 2,
        ensures
            final(self)@ == old(self)@.rebuilt(lift),
            old(self)@.next <= final(self)@.next <= old(self)@.next + 2,
            old(self)@.wf() ==> final(self)@.wf(),
    {
        proof {
            if old(self)@.wf() {
                law_cabin_rebuilt(old(self)@, lift);
            }
        }
        let doormats = self.doormats(lift);
        let stray = self.find_anchor_group(lift);
        let cabin_group = self.next;
        let spare_group = self.next + 1;
        let ghost made = old(self)@.rebuilt(lift);
        match self.lifts.remove(&lift) {
            Some(mut record) => {
                match record.cabin_group {
                    Some(group) => {
                        self.parents.remove(&group.0);
                    },
                    None => {},
                }
                self.parents.insert(cabin_group, lift);
                record.cabin_group = Some(ChildLiftCabinGroup(cabin_group));
                record.doormats = doormats;
                record.changed = false;
                self.next = self.next + 1;
                if record.anchor_group.is_none() {
                    match stray {
                        Some(group) => {
                            record.anchor_group = Some(ChildCabinAnchorGroup(group));
                        },
                        None => {
                            self.next = self.next + 1;
                            self.parents.insert(spare_group, lift);
                            self.anchor_groups.insert(
                                spare_group,
                                CabinAnchorGroupBundle::default(),
                            );
                            record.anchor_group = Some(ChildCabinAnchorGroup(spare_group));
                        },
                    }
                }
                self.lifts.insert(lift, record);
            },
            None => {},
        }
        proof {
            assert(self@.lifts =~= made.lifts);
            assert(self@.parents =~= made.parents);
            assert(self@.anchor_groups =~= made.anchor_groups);
        }
    }

    /// Whether the cabin of `lift` is due to be built again.
    pub fn is_due(&self, lift: Entity) -> (due: bool)
        ensures
            due == self@.due(lift),
    {
        match self.lifts.get(&lift) {
            Some(record) => record.changed && self.parents.contains_key(&lift),
            None => false,
        }
    }

    /// Builds again the cabin of every lift that has changed and has a
    /// parent. What was built before is given up first; the doormats are made
    /// anew, one for each face on every level that has the same parent as the
    /// lift.
    pub fn update_lift_cabin(&mut self)
        requires
            old(self)@.spare() >= 2 * old(self)@.lifts.len(),
        ensures
            final(self)@ == old(self)@.cabins_rebuilt(),
            old(self)@.wf() ==> final(self)@.wf(),
    {
        proof {
            if old(self)@.wf() {
                law_rebuilding_keeps_order(old(self)@);
            }
        }
        let lifts = ordered_keys(&self.lifts);
        proof {
            assert(self@.lifts.dom() =~= self.lifts@.dom());
            lemma_ascending_len(self@.lifts.dom());
        }
        let mut i: usize = 0;
        while i < lifts.len()
            invariant
                i <= lifts@.len(),
                lifts@ == ascending(old(self)@.lifts.dom()),
                self@.spare() >= 2 * (lifts@.len() - i),
                self@ == old(self)@.rebuilt_each(lifts@.take(i as int)),
            decreases lifts@.len() - i,
        {
            let lift = lifts[i];
            proof {
                let upto = lifts@.take(i + 1);
                assert(upto.drop_last() =~= lifts@.take(i as int));
                assert(upto.last() == lift);
            }
            if self.is_due(lift) {
                self.rebuild_cabin(lift);
            }
            i = i + 1;
        }
        proof {
            assert(lifts@.take(lifts@.len() as int) =~= lifts@);
        }
    }
}

} // verus!
