use lift_cabin::anchor::{Anchor, Dependents};
use lift_cabin::door::{Edge, LevelVisits};

#[test]
fn dependents_only_tells_a_sole_dependent() {
    let mut deps = Dependents::new();
    assert!(deps.is_empty());
    assert!(deps.only(5));
    assert!(deps.insert(5));
    assert!(!deps.insert(5));
    assert!(deps.only(5));
    assert!(!deps.only(6));
    assert!(deps.insert(9));
    assert!(!deps.only(5));
    assert!(!deps.only(9));
    assert!(deps.remove(5));
    assert!(!deps.remove(5));
    assert!(deps.only(9));
}

#[test]
fn dependents_are_listed_in_increasing_order() {
    let mut deps = Dependents::single(40);
    deps.insert(7);
    deps.insert(u64::MAX);
    deps.insert(0);
    deps.insert(7);
    assert_eq!(deps.to_vec(), vec![0, 7, 40, u64::MAX]);
    assert_eq!(Dependents::new().to_vec(), Vec::<u64>::new());
    assert_eq!(deps.copy(), deps);
}

#[test]
fn anchor_without_dependents_is_unassigned() {
    let mut anchor = Anchor::new(Some(3));
    assert!(anchor.is_unassigned());
    assert_eq!(anchor.subordinate, Some(3));
    anchor.dependents.insert(8);
    assert!(!anchor.is_unassigned());
    assert!(anchor.dependents.contains(8));
    assert!(!anchor.dependents.contains(3));
}

#[test]
fn level_visits_are_a_set() {
    let mut visits = LevelVisits::single(4);
    assert!(visits.contains(4));
    assert!(!visits.insert(4));
    assert!(visits.insert(2));
    assert!(visits.remove(4));
    assert!(!visits.remove(4));
    assert!(!visits.is_empty());
    assert!(visits.remove(2));
    assert!(visits.is_empty());
    assert_eq!(visits, LevelVisits::new());
    assert_eq!(visits.copy(), visits);
}

#[test]
fn edge_gives_its_anchors_start_first() {
    let edge = Edge::new(12, 5);
    assert_eq!(edge.array(), [12, 5]);
    assert_eq!(edge, Edge { start: 12, end: 5 });
}
