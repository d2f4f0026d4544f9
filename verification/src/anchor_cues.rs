//! How an anchor is drawn: which shape and material it has, and when it can
//! be dragged.
//!
//! Nothing is drawn here. From what is known of an anchor it is decided what
//! is to be drawn.

use crate::lift::Category;
use vstd::prelude::*;

verus! {

/// The shapes that an anchor can have.
#[derive(Clone, Copy, Debug, PartialEq, Eq, Structural)]
pub enum AnchorMesh {
    Level,
    Lift,
    Site,
}

/// How a new anchor is drawn.
#[derive(Clone, Copy, Debug, PartialEq, Eq, Structural)]
pub struct AnchorCue {
    pub mesh: AnchorMesh,
    /// Whether the anchor can be dragged over the ground.
    pub draggable: bool,
    /// Whether the outline is that of a flat anchor.
    pub irregular: bool,
    /// Whether the anchor is seen through everything at all times.
    pub always_xray: bool,
}

/// The shape of an anchor whose parent is of kind `parent`.
pub open spec fn mesh_for(parent: Category) -> AnchorMesh {
    match parent {
        Category::Level => AnchorMesh::Level,
        Category::Lift => AnchorMesh::Lift,
        _ => AnchorMesh::Site,
    }
}

/// How a new anchor is drawn. Its shape goes by the kind of its parent. An
/// anchor that belongs to a lift cannot be dragged. An anchor in space has
/// the plain outline and is never seen through everything on request; a flat
/// one has the flat outline and is seen through everything while anchors are
/// highlighted.
pub fn add_anchor_visual_cues(
    parent: Category,
    subordinate: bool,
    in_space: bool,
    highlight: bool,
) -> (cue: AnchorCue)
    ensures
        cue == (AnchorCue {
            mesh: mesh_for(parent),
            draggable: !subordinate,
            irregular: !in_space,
            always_xray: !in_space && highlight,
        }),
{
    let mesh = match parent {
        Category::Level => AnchorMesh::Level,
        Category::Lift => AnchorMesh::Lift,
        _ => AnchorMesh::Site,
    };
    AnchorCue { mesh, draggable: !subordinate, irregular: !in_space, always_xray: !in_space && highlight }
}

/// What is known of an anchor when its look is brought up to date.
#[derive(Clone, Copy, Debug, PartialEq, Eq, Structural)]
pub struct AnchorState {
    /// Whether the anchor is in space rather than flat on a level.
    pub in_space: bool,
    /// Whether the anchor belongs to a lift.
    pub subordinate: bool,
    /// Whether the anchor has the handles by which it is dragged.
    pub has_drag: bool,
    pub is_hovered: bool,
    /// Whether something that the anchor supports is hovered.
    pub support_hovered: bool,
    /// Whether the anchor is to be drawn as hovered.
    pub hover_cue: bool,
    pub is_selected: bool,
    /// Whether something that the anchor supports is selected.
    pub support_selected: bool,
    /// Whether the anchor is to be drawn as selected.
    pub select_cue: bool,
    /// Whether the hovering has changed since the last time.
    pub hover_changed: bool,
    /// Whether the selection has changed since the last time.
    pub select_changed: bool,
    /// Whether something keeps the handles from being used.
    pub gizmo_blocked: bool,
}

/// The materials that an anchor can have.
#[derive(Clone, Copy, Debug, PartialEq, Eq, Structural)]
pub enum AnchorMaterial {
    HoverSelect,
    Hover,
    Select,
    Passive,
}

/// What is done about the handles by which an anchor is dragged.
#[derive(Clone, Copy, Debug, PartialEq, Eq, Structural)]
pub enum GizmoChange {
    Keep,
    /// Give an anchor in space its handles.
    AddInSpace { draggable: bool },
    /// Give a flat anchor its handles.
    AddFlat,
    Remove,
}

/// How the look of an anchor changes.
#[derive(Clone, Copy, Debug, PartialEq, Eq, Structural)]
pub struct AnchorCueUpdate {
    pub xray_selected: bool,
    pub xray_support_selected: bool,
    pub xray_hovered: bool,
    pub xray_support_hovered: bool,
    /// Whether the anchor keeps the cursor from being shown.
    pub blocks_cursor: bool,
    pub material: AnchorMaterial,
    pub gizmo: GizmoChange,
}

/// The material of an anchor that is drawn as hovered, as selected, as both
/// or as neither.
pub open spec fn material_for(hover_cue: bool, select_cue: bool) -> AnchorMaterial {
    if hover_cue && select_cue {
        AnchorMaterial::HoverSelect
    } else if hover_cue {
        AnchorMaterial::Hover
    } else if select_cue {
        AnchorMaterial::Select
    } else {
        AnchorMaterial::Passive
    }
}

/// What is done about the handles of an anchor. An anchor in space is looked
/// at when its hovering or its selection has changed: it gets handles if it is
/// drawn as hovered or selected and has none, and loses them if it is drawn
/// as neither. A flat anchor is looked at when its selection has changed: it
/// gets handles if it is drawn as selected, has none and does not belong to a
/// lift, and loses them if it is not drawn as selected.
pub open spec fn gizmo_for(state: AnchorState) -> GizmoChange {
    if state.in_space {
        if state.select_changed || state.hover_changed {
            if state.select_cue || state.hover_cue {
                if !state.has_drag {
                    GizmoChange::AddInSpace { draggable: !state.subordinate }
                } else {
                    GizmoChange::Keep
                }
            } else if state.has_drag {
                GizmoChange::Remove
            } else {
                GizmoChange::Keep
            }
        } else {
            GizmoChange::Keep
        }
    } else if state.select_changed {
        if state.select_cue {
            if !state.has_drag && !state.subordinate {
                GizmoChange::AddFlat
            } else {
                GizmoChange::Keep
            }
        } else if state.has_drag {
            GizmoChange::Remove
        } else {
            GizmoChange::Keep
        }
    } else {
        GizmoChange::Keep
    }
}

/// How the look of an anchor is brought up to date: it is seen through
/// everything as it and what it supports are selected and hovered; it keeps
/// the cursor from being shown while it is hovered and nothing keeps the
/// handles from being used; and its material and handles go by how it is
/// drawn.
pub fn update_anchor_visual_cues(state: AnchorState) -> (update: AnchorCueUpdate)
    ensures
        update == (AnchorCueUpdate {
            xray_selected: state.is_selected,
            xray_support_selected: state.support_selected,
            xray_hovered: state.is_hovered,
            xray_support_hovered: state.support_hovered,
            blocks_cursor: state.is_hovered && !state.gizmo_blocked,
            material: material_for(state.hover_cue, state.select_cue),
            gizmo: gizmo_for(state),
        }),
{
    let material = if state.hover_cue && state.select_cue {
        AnchorMaterial::HoverSelect
    } else if state.hover_cue {
        AnchorMaterial::Hover
    } else if state.select_cue {
        AnchorMaterial::Select
    } else {
        AnchorMaterial::Passive
    };
    let cued = state.select_cue || state.hover_cue;
    let looked_at = if state.in_space {
        state.select_changed || state.hover_changed
    } else {
        state.select_changed
    };
    let wanted = if state.in_space {
        cued
    } else {
        state.select_cue
    };
    let gizmo = if !looked_at {
        GizmoChange::Keep
    } else if wanted {
        if state.has_drag {
            GizmoChange::Keep
        } else if state.in_space {
            GizmoChange::AddInSpace { draggable: !state.subordinate }
        } else if !state.subordinate {
            GizmoChange::AddFlat
        } else {
            GizmoChange::Keep
        }
    } else if state.has_drag {
        GizmoChange::Remove
    } else {
        GizmoChange::Keep
    };
    AnchorCueUpdate {
        xray_selected: state.is_selected,
        xray_support_selected: state.support_selected,
        xray_hovered: state.is_hovered,
        xray_support_hovered: state.support_hovered,
        blocks_cursor: state.is_hovered && !state.gizmo_blocked,
        material,
        gizmo,
    }
}

} // verus!
