//! A lift as the site holds it.

use crate::cabin::Entity;
use crate::cabin::LiftCabin;
use crate::cabin::RecallLiftCabin;
use crate::door::Edge;
use crate::doormat::LiftDoormat;
use vstd::prelude::*;

verus! {

/// Names the entity under a lift that holds the cabin's floor, walls and
/// doormats.
#[derive(Clone, Copy, Debug, PartialEq, Eq, Structural)]
pub struct ChildLiftCabinGroup(pub Entity);

/// Names the entity under a lift that holds the anchors of the cabin's doors.
#[derive(Clone, Copy, Debug, PartialEq, Eq, Structural)]
pub struct ChildCabinAnchorGroup(pub Entity);

/// Marks an entity as the holder of a cabin's door anchors.
#[derive(Clone, Copy, Debug, PartialEq, Eq, Structural)]
pub struct CabinAnchorGroup;

/// The kinds of element that an anchor can belong to.
#[derive(Clone, Copy, Debug, PartialEq, Eq, Structural)]
pub enum Category {
    General,
    Site,
    Level,
    Lift,
}

/// What an entity that holds a cabin's door anchors is made with.
#[derive(Clone, Copy, Debug, PartialEq, Eq, Structural)]
pub struct CabinAnchorGroupBundle {
    pub tag: CabinAnchorGroup,
    pub category: Category,
}

impl Default for CabinAnchorGroupBundle {
    fn default() -> (bundle: Self)
        ensures
            bundle == (CabinAnchorGroupBundle { tag: CabinAnchorGroup, category: Category::Lift }),
    {
        CabinAnchorGroupBundle { tag: CabinAnchorGroup, category: Category::Lift }
    }
}

/// A lift.
#[derive(Clone, Debug, PartialEq, Eq)]
pub struct Lift {
    pub name: String,
    /// The two anchors that the lift is laid out along.
    pub reference_anchors: Edge,
    pub cabin: LiftCabin,
    pub recall: RecallLiftCabin,
    pub anchor_group: Option<ChildCabinAnchorGroup>,
    pub cabin_group: Option<ChildLiftCabinGroup>,
    /// The doormats that were made when the cabin was last built.
    pub doormats: Vec<LiftDoormat>,
    /// Whether the cabin has to be built again.
    pub changed: bool,
}

/// What a lift is, with its name and doormats as sequences.
pub struct LiftView {
    pub name: Seq<char>,
    pub reference_anchors: Edge,
    pub cabin: LiftCabin,
    pub recall: RecallLiftCabin,
    pub anchor_group: Option<ChildCabinAnchorGroup>,
    pub cabin_group: Option<ChildLiftCabinGroup>,
    pub doormats: Seq<LiftDoormat>,
    pub changed: bool,
}

impl View for Lift {
    type V = LiftView;

    open spec fn view(&self) -> LiftView {
        LiftView {
            name: self.name@,
            reference_anchors: self.reference_anchors,
            cabin: self.cabin,
            recall: self.recall,
            anchor_group: self.anchor_group,
            cabin_group: self.cabin_group,
            doormats: self.doormats@,
            changed: self.changed,
        }
    }
}

} // verus!
