use lift_cabin::anchor_cues::{
    add_anchor_visual_cues, update_anchor_visual_cues, AnchorCue, AnchorMaterial, AnchorMesh,
    AnchorState, GizmoChange,
};
use lift_cabin::lift::Category;

fn calm() -> AnchorState {
    AnchorState {
        in_space: false,
        subordinate: false,
        has_drag: false,
        is_hovered: false,
        support_hovered: false,
        hover_cue: false,
        is_selected: false,
        support_selected: false,
        select_cue: false,
        hover_changed: false,
        select_changed: false,
        gizmo_blocked: false,
    }
}

#[test]
fn new_anchor_takes_the_shape_of_its_parent() {
    assert_eq!(add_anchor_visual_cues(Category::Level, false, false, false).mesh, AnchorMesh::Level);
    assert_eq!(add_anchor_visual_cues(Category::Lift, false, false, false).mesh, AnchorMesh::Lift);
    assert_eq!(add_anchor_visual_cues(Category::Site, false, false, false).mesh, AnchorMesh::Site);
    assert_eq!(add_anchor_visual_cues(Category::General, false, false, false).mesh, AnchorMesh::Site);
}

#[test]
fn anchor_of_a_lift_cannot_be_dragged() {
    assert_eq!(
        add_anchor_visual_cues(Category::Lift, true, false, true),
        AnchorCue { mesh: AnchorMesh::Lift, draggable: false, irregular: true, always_xray: true }
    );
    assert_eq!(
        add_anchor_visual_cues(Category::Lift, false, true, true),
        AnchorCue { mesh: AnchorMesh::Lift, draggable: true, irregular: false, always_xray: false }
    );
    assert!(!add_anchor_visual_cues(Category::Level, false, false, false).always_xray);
}

#[test]
fn material_goes_by_hover_and_selection() {
    let look = |hover_cue, select_cue| {
        update_anchor_visual_cues(AnchorState { hover_cue, select_cue, ..calm() }).material
    };
    assert_eq!(look(true, true), AnchorMaterial::HoverSelect);
    assert_eq!(look(true, false), AnchorMaterial::Hover);
    assert_eq!(look(false, true), AnchorMaterial::Select);
    assert_eq!(look(false, false), AnchorMaterial::Passive);
}

#[test]
fn hovered_anchor_blocks_the_cursor_unless_handles_are_blocked() {
    let blocks = |is_hovered, gizmo_blocked| {
        update_anchor_visual_cues(AnchorState { is_hovered, gizmo_blocked, ..calm() }).blocks_cursor
    };
    assert!(blocks(true, false));
    assert!(!blocks(true, true));
    assert!(!blocks(false, false));
    let update = update_anchor_visual_cues(AnchorState {
        is_hovered: true,
        support_selected: true,
        ..calm()
    });
    assert_eq!(
        (
            update.xray_hovered,
            update.xray_support_hovered,
            update.xray_selected,
            update.xray_support_selected
        ),
        (true, false, false, true)
    );
}

#[test]
fn flat_anchor_gets_handles_when_selected() {
    let selected = AnchorState { select_cue: true, select_changed: true, ..calm() };
    assert_eq!(update_anchor_visual_cues(selected).gizmo, GizmoChange::AddFlat);
    assert_eq!(
        update_anchor_visual_cues(AnchorState { subordinate: true, ..selected }).gizmo,
        GizmoChange::Keep
    );
    assert_eq!(
        update_anchor_visual_cues(AnchorState { has_drag: true, ..selected }).gizmo,
        GizmoChange::Keep
    );
    assert_eq!(
        update_anchor_visual_cues(AnchorState { select_changed: false, ..selected }).gizmo,
        GizmoChange::Keep
    );
    // hovering alone gives a flat anchor no handles
    let hovered = AnchorState { hover_cue: true, hover_changed: true, ..calm() };
    assert_eq!(update_anchor_visual_cues(hovered).gizmo, GizmoChange::Keep);
    let dropped = AnchorState { has_drag: true, select_changed: true, ..calm() };
    assert_eq!(update_anchor_visual_cues(dropped).gizmo, GizmoChange::Remove);
    assert_eq!(
        update_anchor_visual_cues(AnchorState { has_drag: false, ..dropped }).gizmo,
        GizmoChange::Keep
    );
}

#[test]
fn anchor_in_space_gets_handles_when_hovered_or_selected() {
    let hovered = AnchorState { in_space: true, hover_cue: true, hover_changed: true, ..calm() };
    assert_eq!(
        update_anchor_visual_cues(hovered).gizmo,
        GizmoChange::AddInSpace { draggable: true }
    );
    assert_eq!(
        update_anchor_visual_cues(AnchorState { subordinate: true, ..hovered }).gizmo,
        GizmoChange::AddInSpace { draggable: false }
    );
    assert_eq!(
        update_anchor_visual_cues(AnchorState { has_drag: true, ..hovered }).gizmo,
        GizmoChange::Keep
    );
    assert_eq!(
        update_anchor_visual_cues(AnchorState { hover_changed: false, ..hovered }).gizmo,
        GizmoChange::Keep
    );
    let left = AnchorState { in_space: true, has_drag: true, hover_changed: true, ..calm() };
    assert_eq!(update_anchor_visual_cues(left).gizmo, GizmoChange::Remove);
    assert_eq!(
        update_anchor_visual_cues(AnchorState { select_cue: true, ..left }).gizmo,
        GizmoChange::Keep
    );
}
