//! Doormats: the regions in front of a cabin's faces, one for each level, by
//! which a door is switched on or off for that level.

use crate::cabin::Entity;
use crate::cabin::RectFace;
use vstd::prelude::*;

verus! {

/// Names a door of a cabin, either directly or by the face that it stands on.
#[derive(Clone, Copy, Debug, PartialEq, Eq, Structural)]
pub enum CabinDoorId {
    Entity(Entity),
    RectFace(RectFace),
}

/// The doormat of one door of one lift on one level.
#[derive(Clone, Copy, Debug, PartialEq, Eq, Structural)]
pub struct LiftDoormat {
    pub for_lift: Entity,
    pub on_level: Entity,
    pub cabin_door: CabinDoorId,
    /// Whether the door can be used on the level.
    pub door_available: bool,
}

/// A request to make one door of a lift usable, or unusable, on one level.
#[derive(Clone, Copy, Debug, PartialEq, Eq, Structural)]
pub struct ToggleLiftDoorAvailability {
    pub for_lift: Entity,
    pub on_level: Entity,
    pub cabin_door: CabinDoorId,
    pub door_available: bool,
}

impl LiftDoormat {
    /// The request that turns this doormat's availability round.
    pub open spec fn toggled(self) -> ToggleLiftDoorAvailability {
        ToggleLiftDoorAvailability {
            for_lift: self.for_lift,
            on_level: self.on_level,
            cabin_door: self.cabin_door,
            door_available: !self.door_available,
        }
    }

    pub fn toggle_availability(&self) -> (toggle: ToggleLiftDoorAvailability)
        ensures
            toggle == self.toggled(),
    {
        ToggleLiftDoorAvailability {
            for_lift: self.for_lift,
            on_level: self.on_level,
            cabin_door: self.cabin_door,
            door_available: !self.door_available,
        }
    }
}

} // verus!
