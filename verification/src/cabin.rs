//! The cabin of a lift: its footprint and the doors placed on its faces.
//!
//! Lengths are whole millimetres. A cabin never owns its doors: a placement
//! names the door by handle.

use vstd::prelude::*;

verus! {

/// Handle of an entity of the site. Levels, lifts, doors and anchors are all
/// referred to by handle and never own one another.
pub type Entity = u64;

/// The four faces of a rectangular cabin on which a door can be placed.
#[derive(Clone, Copy, Debug, PartialEq, Eq, Structural)]
pub enum RectFace {
    Front,
    Back,
    Left,
    Right,
}

impl RectFace {
    /// The faces in the order in which they are always walked.
    pub open spec fn all() -> Seq<RectFace> {
        seq![RectFace::Front, RectFace::Back, RectFace::Left, RectFace::Right]
    }

    /// The faces in their fixed order: front, back, left, right.
    pub fn iter_all() -> (faces: [RectFace; 4])
        ensures
            faces@ == Self::all(),
    {
        let faces = [RectFace::Front, RectFace::Back, RectFace::Left, RectFace::Right];
        assert(faces@ =~= Self::all());
        faces
    }
}

/// A door placed on one face of a cabin.
#[derive(Clone, Copy, Debug, PartialEq, Eq, Structural)]
pub struct LiftCabinDoorPlacement {
    /// The door that occupies the face.
    pub door: Entity,
    /// Width of the door opening.
    pub width: u32,
}

impl LiftCabinDoorPlacement {
    pub fn new(door: Entity, width: u32) -> (placement: Self)
        ensures
            placement == (LiftCabinDoorPlacement { door, width }),
    {
        LiftCabinDoorPlacement { door, width }
    }
}

/// A rectangular cabin with at most one door on each face.
#[derive(Clone, Copy, Debug, PartialEq, Eq, Structural)]
pub struct RectangularLiftCabin {
    pub width: u32,
    pub depth: u32,
    pub front_door: Option<LiftCabinDoorPlacement>,
    pub back_door: Option<LiftCabinDoorPlacement>,
    pub left_door: Option<LiftCabinDoorPlacement>,
    pub right_door: Option<LiftCabinDoorPlacement>,
}

impl RectangularLiftCabin {
    /// The placement on `face`, if the face has a door.
    pub open spec fn door_on(self, face: RectFace) -> Option<LiftCabinDoorPlacement> {
        match face {
            RectFace::Front => self.front_door,
            RectFace::Back => self.back_door,
            RectFace::Left => self.left_door,
            RectFace::Right => self.right_door,
        }
    }

    /// This cabin with the placement of `face` replaced by `placement`.
    pub open spec fn with_door(
        self,
        face: RectFace,
        placement: Option<LiftCabinDoorPlacement>,
    ) -> RectangularLiftCabin {
        match face {
            RectFace::Front => RectangularLiftCabin { front_door: placement, ..self },
            RectFace::Back => RectangularLiftCabin { back_door: placement, ..self },
            RectFace::Left => RectangularLiftCabin { left_door: placement, ..self },
            RectFace::Right => RectangularLiftCabin { right_door: placement, ..self },
        }
    }

    /// Width given to a door that is fabricated for this cabin: half of the
    /// shorter side, rounded down.
    pub open spec fn fresh_door_width(self) -> u32 {
        if self.width <= self.depth {
            self.width / 2
        } else {
            self.depth / 2
        }
    }

    /// A cabin of the given footprint without doors.
    pub fn new(width: u32, depth: u32) -> (cabin: Self)
        ensures
            cabin == (RectangularLiftCabin {
                width,
                depth,
                front_door: None,
                back_door: None,
                left_door: None,
                right_door: None,
            }),
    {
        RectangularLiftCabin {
            width,
            depth,
            front_door: None,
            back_door: None,
            left_door: None,
            right_door: None,
        }
    }

    pub fn door(&self, face: RectFace) -> (placement: Option<LiftCabinDoorPlacement>)
        ensures
            placement == self.door_on(face),
    {
        match face {
            RectFace::Front => self.front_door,
            RectFace::Back => self.back_door,
            RectFace::Left => self.left_door,
            RectFace::Right => self.right_door,
        }
    }

    pub fn set_door(&mut self, face: RectFace, placement: Option<LiftCabinDoorPlacement>)
        ensures
            *final(self) == old(self).with_door(face, placement),
    {
        match face {
            RectFace::Front => {
                self.front_door = placement;
            },
            RectFace::Back => {
                self.back_door = placement;
            },
            RectFace::Left => {
                self.left_door = placement;
            },
            RectFace::Right => {
                self.right_door = placement;
            },
        }
    }

    pub fn default_door_width(&self) -> (width: u32)
        ensures
            width == self.fresh_door_width(),
    {
        if self.width <= self.depth {
            self.width / 2
        } else {
            self.depth / 2
        }
    }
}

/// What holds of a face once `door` has been taken off a cabin: the face is
/// empty if the door stood on it and is untouched otherwise.
pub open spec fn face_without(
    placement: Option<LiftCabinDoorPlacement>,
    door: Entity,
) -> Option<LiftCabinDoorPlacement> {
    match placement {
        Some(p) => if p.door == door {
            None
        } else {
            placement
        },
        None => None,
    }
}

/// The cabin of a lift. Rectangular cabins are the only kind.
#[derive(Clone, Copy, Debug, PartialEq, Eq, Structural)]
pub enum LiftCabin {
    Rect(RectangularLiftCabin),
}

impl LiftCabin {
    /// The rectangular parameters of the cabin.
    pub open spec fn rect(self) -> RectangularLiftCabin {
        match self {
            LiftCabin::Rect(params) => params,
        }
    }

    /// The placement on `face`, if the face has a door.
    pub open spec fn door_on(self, face: RectFace) -> Option<LiftCabinDoorPlacement> {
        self.rect().door_on(face)
    }

    /// This cabin with the placement of `face` replaced by `placement`.
    pub open spec fn with_door(
        self,
        face: RectFace,
        placement: Option<LiftCabinDoorPlacement>,
    ) -> LiftCabin {
        LiftCabin::Rect(self.rect().with_door(face, placement))
    }

    /// This cabin with `door` taken off every face on which it stood.
    pub open spec fn without_door(self, door: Entity) -> LiftCabin {
        let params = self.rect();
        LiftCabin::Rect(
            RectangularLiftCabin {
                front_door: face_without(params.front_door, door),
                back_door: face_without(params.back_door, door),
                left_door: face_without(params.left_door, door),
                right_door: face_without(params.right_door, door),
                ..params
            },
        )
    }

    pub fn door(&self, face: RectFace) -> (placement: Option<LiftCabinDoorPlacement>)
        ensures
            placement == self.door_on(face),
    {
        match self {
            LiftCabin::Rect(params) => params.door(face),
        }
    }

    pub fn set_door(&mut self, face: RectFace, placement: Option<LiftCabinDoorPlacement>)
        ensures
            *final(self) == old(self).with_door(face, placement),
    {
        match self {
            LiftCabin::Rect(params) => {
                params.set_door(face, placement);
            },
        }
    }

    /// Takes `door` off every face on which it stands.
    pub fn remove_door(&mut self, door: Entity)
        ensures
            *final(self) == old(self).without_door(door),
    {
        let faces = RectFace::iter_all();
        let mut i: usize = 0;
        while i < 4
            invariant
                i <= 4,
                faces@ == RectFace::all(),
                self.rect().width == old(self).rect().width,
                self.rect().depth == old(self).rect().depth,
                forall|j: int|
                    0 <= j < i ==> self.door_on(#[trigger] RectFace::all()[j]) == face_without(
                        old(self).door_on(RectFace::all()[j]),
                        door,
                    ),
                forall|j: int|
                    i <= j < 4 ==> self.door_on(#[trigger] RectFace::all()[j]) == old(self).door_on(
                        RectFace::all()[j],
                    ),
            decreases 4 - i,
        {
            let face = faces[i];
            match self.door(face) {
                Some(p) => {
                    if p.door == door {
                        self.set_door(face, None);
                    }
                },
                None => {},
            }
            i = i + 1;
        }
        proof {
            assert(RectFace::all()[0] == RectFace::Front);
            assert(RectFace::all()[1] == RectFace::Back);
            assert(RectFace::all()[2] == RectFace::Left);
            assert(RectFace::all()[3] == RectFace::Right);
        }
    }
}

/// Memory of the placements that a cabin's faces had, kept so that a door
/// that was taken off a face can be put back as it was. It is only advice:
/// while a face has a door, the cabin's own placement is what counts.
#[derive(Clone, Copy, Debug, PartialEq, Eq, Structural)]
pub struct RecallLiftCabin {
    pub front_door: Option<LiftCabinDoorPlacement>,
    pub back_door: Option<LiftCabinDoorPlacement>,
    pub left_door: Option<LiftCabinDoorPlacement>,
    pub right_door: Option<LiftCabinDoorPlacement>,
}

/// What a face's memory holds after the cabin was looked at: the cabin's
/// placement where it has one, and what was remembered before where not.
pub open spec fn face_remembering(
    remembered: Option<LiftCabinDoorPlacement>,
    current: Option<LiftCabinDoorPlacement>,
) -> Option<LiftCabinDoorPlacement> {
    if current is Some {
        current
    } else {
        remembered
    }
}

impl RecallLiftCabin {
    /// The placement remembered for `face`.
    pub open spec fn door_on(self, face: RectFace) -> Option<LiftCabinDoorPlacement> {
        match face {
            RectFace::Front => self.front_door,
            RectFace::Back => self.back_door,
            RectFace::Left => self.left_door,
            RectFace::Right => self.right_door,
        }
    }

    /// This memory after every placement of `cabin` has been remembered.
    pub open spec fn remembering(self, cabin: LiftCabin) -> RecallLiftCabin {
        let params = cabin.rect();
        RecallLiftCabin {
            front_door: face_remembering(self.front_door, params.front_door),
            back_door: face_remembering(self.back_door, params.back_door),
            left_door: face_remembering(self.left_door, params.left_door),
            right_door: face_remembering(self.right_door, params.right_door),
        }
    }

    /// A memory that holds nothing.
    pub fn new() -> (recall: Self)
        ensures
            recall == (RecallLiftCabin {
                front_door: None,
                back_door: None,
                left_door: None,
                right_door: None,
            }),
    {
        RecallLiftCabin { front_door: None, back_door: None, left_door: None, right_door: None }
    }

    pub fn rect_door(&self, face: RectFace) -> (placement: Option<LiftCabinDoorPlacement>)
        ensures
            placement == self.door_on(face),
    {
        match face {
            RectFace::Front => self.front_door,
            RectFace::Back => self.back_door,
            RectFace::Left => self.left_door,
            RectFace::Right => self.right_door,
        }
    }

    /// Remembers every placement that `cabin` has now.
    pub fn remember(&mut self, cabin: &LiftCabin)
        ensures
            *final(self) == old(self).remembering(*cabin),
    {
        match cabin {
            LiftCabin::Rect(params) => {
                if params.front_door.is_some() {
                    self.front_door = params.front_door;
                }
                if params.back_door.is_some() {
                    self.back_door = params.back_door;
                }
                if params.left_door.is_some() {
                    self.left_door = params.left_door;
                }
                if params.right_door.is_some() {
                    self.right_door = params.right_door;
                }
            },
        }
    }
}

} // verus!
