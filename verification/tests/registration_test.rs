use lift_cabin::door::Edge;
use lift_cabin::lift::Category;
use lift_cabin::model::LiftError;
use lift_cabin::site::LiftSite;

#[test]
fn new_lift_is_entered_with_its_anchors() {
    let mut site = LiftSite::new();
    let root = site.spawn_entity(None);
    let start = site.spawn_anchor(Some(root));
    let end = site.spawn_anchor(Some(root));
    let lift = site.spawn_lift(Some(root), String::from("L1"), Edge::new(start, end), 1000, 1000);
    site.hidden.insert(lift);
    assert!(site.is_unassigned(start));
    let errors = site.add_tags_to_lift(&vec![lift], None);
    assert!(errors.is_empty());
    assert_eq!(site.categories.get(&lift), Some(&Category::Lift));
    assert!(!site.is_hidden(lift));
    assert_eq!(site.parent(lift), Some(root));
    assert_eq!(site.anchors.get(&start).unwrap().dependents.to_vec(), vec![lift]);
    assert_eq!(site.anchors.get(&end).unwrap().dependents.to_vec(), vec![lift]);
    assert!(!site.is_unassigned(start));
    assert!(!site.is_unassigned(lift));
}

#[test]
fn lift_without_parent_goes_to_the_open_site() {
    let mut site = LiftSite::new();
    let open = site.spawn_entity(None);
    let lift = site.spawn_lift(None, String::from("L1"), Edge::new(40, 41), 1000, 1000);
    assert_eq!(site.tag_lift(lift, Some(open)), Ok(()));
    assert_eq!(site.parent(lift), Some(open));
    assert!(site.is_due(lift));
    // an edge whose ends are no anchors enters the lift nowhere
    assert!(site.anchors.is_empty());
}

#[test]
fn lift_without_parent_stays_alone_when_no_site_is_open() {
    let mut site = LiftSite::new();
    let root = site.spawn_entity(None);
    let start = site.spawn_anchor(Some(root));
    let homed = site.spawn_lift(Some(root), String::from("L1"), Edge::new(start, start), 1000, 1000);
    let orphan = site.spawn_lift(None, String::from("L2"), Edge::new(start, 77), 1000, 1000);
    let errors = site.add_tags_to_lift(&vec![orphan, 999, homed, orphan], None);
    assert_eq!(
        errors,
        vec![
            LiftError::NoCurrentWorkspace { lift: orphan },
            LiftError::NoCurrentWorkspace { lift: orphan },
        ]
    );
    assert_eq!(site.parent(orphan), None);
    assert_eq!(site.categories.get(&orphan), Some(&Category::Lift));
    assert_eq!(site.categories.get(&999), None);
    // the lift is entered with its anchor all the same
    assert_eq!(site.anchors.get(&start).unwrap().dependents.to_vec(), vec![homed, orphan]);
}

#[test]
fn moved_anchors_carry_their_lifts_along() {
    let mut site = LiftSite::new();
    let root = site.spawn_entity(None);
    let a = site.spawn_anchor(Some(root));
    let b = site.spawn_anchor(Some(root));
    let c = site.spawn_anchor(Some(root));
    let first = site.spawn_lift(Some(root), String::from("L1"), Edge::new(a, b), 1000, 1000);
    let second = site.spawn_lift(Some(root), String::from("L2"), Edge::new(b, c), 1000, 1000);
    site.add_tags_to_lift(&vec![first, second], None);
    let wall = site.spawn_entity(Some(root));
    site.add_dependent(b, wall);
    assert_eq!(site.update_lift_for_moved_anchors(&vec![]), Vec::<u64>::new());
    assert_eq!(site.update_lift_for_moved_anchors(&vec![a]), vec![first]);
    assert_eq!(site.update_lift_for_moved_anchors(&vec![b]), vec![first, second]);
    assert_eq!(
        site.update_lift_for_moved_anchors(&vec![c, 999, root, b, a]),
        vec![second, first, second, first]
    );
}

#[test]
fn add_dependent_to_what_is_no_anchor_changes_nothing() {
    let mut site = LiftSite::new();
    let root = site.spawn_entity(None);
    site.add_dependent(root, 5);
    site.add_dependent(999, 5);
    assert!(site.anchors.is_empty());
}
