use lift_cabin::cabin::{LiftCabinDoorPlacement, RectFace};
use lift_cabin::door::{DoorType, Edge};
use lift_cabin::doormat::{CabinDoorId, ToggleLiftDoorAvailability};
use lift_cabin::lift::ChildCabinAnchorGroup;
use lift_cabin::model::LiftError;
use lift_cabin::site::LiftSite;

struct Scene {
    site: LiftSite,
    root: u64,
    ground: u64,
    upper: u64,
    lift: u64,
    group: u64,
}

// A site with two levels and one lift whose cabin has been built once.
fn scene() -> Scene {
    let mut site = LiftSite::new();
    let root = site.spawn_entity(None);
    let ground = site.spawn_level(Some(root));
    let upper = site.spawn_level(Some(root));
    let start = site.spawn_anchor(Some(root));
    let end = site.spawn_anchor(Some(root));
    let lift = site.spawn_lift(Some(root), String::from("L1"), Edge::new(start, end), 1500, 2000);
    site.update_lift_cabin();
    let group = match site.lifts.get(&lift).unwrap().anchor_group {
        Some(ChildCabinAnchorGroup(group)) => group,
        None => panic!("the cabin has no anchor group"),
    };
    Scene { site, root, ground, upper, lift, group }
}

fn toggle(lift: u64, face: RectFace, level: u64, on: bool) -> ToggleLiftDoorAvailability {
    ToggleLiftDoorAvailability {
        for_lift: lift,
        on_level: level,
        cabin_door: CabinDoorId::RectFace(face),
        door_available: on,
    }
}

#[test]
fn handles_are_given_out_in_order() {
    let s = scene();
    assert_eq!((s.root, s.ground, s.upper, s.lift), (0, 1, 2, 5));
    // the cabin and the anchor group were made when the cabin was built
    assert_eq!(s.group, 7);
    assert_eq!(s.site.next, 8);
    assert_eq!(s.site.spare(), u64::MAX - 8);
}

#[test]
fn first_enable_makes_a_door_with_two_anchors() {
    let mut s = scene();
    let next = s.site.next;
    assert_eq!(s.site.toggle_door_availability(toggle(s.lift, RectFace::Front, s.ground, true)), Ok(()));
    let door = s.site.door_at(s.lift, RectFace::Front).unwrap();
    assert_eq!(door, next);
    assert_eq!(s.site.next, next + 3);
    assert_eq!(
        s.site.placement(s.lift, RectFace::Front),
        Some(LiftCabinDoorPlacement { door, width: 750 })
    );
    let record = s.site.doors.get(&door).unwrap();
    assert_eq!(record.kind, DoorType::DoubleSliding);
    assert_eq!(record.reference_anchors, Edge { start: next + 1, end: next + 2 });
    assert_eq!(record.dependents.to_vec(), vec![s.lift]);
    assert_eq!(s.site.visits(door), vec![s.ground]);
    assert_eq!(s.site.parent(door), Some(s.lift));
    for anchor in [next + 1, next + 2] {
        let anchor_record = s.site.anchors.get(&anchor).unwrap();
        assert_eq!(anchor_record.subordinate, Some(s.lift));
        assert_eq!(anchor_record.dependents.to_vec(), vec![door]);
        assert_eq!(s.site.parent(anchor), Some(s.group));
        assert!(!s.site.is_pending(anchor));
        assert!(!s.site.is_hidden(anchor));
    }
    assert!(!s.site.is_pending(door));
    assert!(s.site.lifts.get(&s.lift).unwrap().changed);
    // the other faces are untouched
    assert_eq!(s.site.door_at(s.lift, RectFace::Back), None);
    assert_eq!(s.site.door_at(s.lift, RectFace::Left), None);
    assert_eq!(s.site.door_at(s.lift, RectFace::Right), None);
}

#[test]
fn visits_are_the_enabled_levels_whatever_the_order() {
    let mut s = scene();
    let third = s.site.spawn_level(Some(s.root));
    let face = RectFace::Left;
    let steps = [
        (s.ground, true),
        (s.upper, true),
        (s.upper, true),
        (s.ground, false),
        (third, true),
        (s.ground, false),
        (s.ground, true),
        (third, false),
        (third, false),
    ];
    for (level, on) in steps {
        assert_eq!(s.site.toggle_door_availability(toggle(s.lift, face, level, on)), Ok(()));
    }
    let door = s.site.door_at(s.lift, face).unwrap();
    assert_eq!(s.site.visits(door), vec![s.ground, s.upper]);
    // one door was made for the face, and no other
    assert_eq!(s.site.doors.len(), 1);
}

#[test]
fn enable_twice_is_enable_once() {
    let mut once = scene();
    let mut twice = scene();
    let request = toggle(once.lift, RectFace::Back, once.upper, true);
    once.site.toggle_door_availability(request).unwrap();
    twice.site.toggle_door_availability(request).unwrap();
    twice.site.toggle_door_availability(request).unwrap();
    assert_eq!(once.site.next, twice.site.next);
    assert_eq!(once.site.lifts, twice.site.lifts);
    assert_eq!(once.site.doors, twice.site.doors);
    assert_eq!(once.site.anchors, twice.site.anchors);
    assert_eq!(once.site.pending, twice.site.pending);
    assert_eq!(once.site.hidden, twice.site.hidden);
}

#[test]
fn disable_of_a_level_that_is_not_visited_keeps_the_door() {
    let mut s = scene();
    s.site.toggle_door_availability(toggle(s.lift, RectFace::Front, s.ground, true)).unwrap();
    let door = s.site.door_at(s.lift, RectFace::Front).unwrap();
    s.site.toggle_door_availability(toggle(s.lift, RectFace::Front, s.upper, false)).unwrap();
    assert_eq!(s.site.door_at(s.lift, RectFace::Front), Some(door));
    assert_eq!(s.site.visits(door), vec![s.ground]);
    assert!(!s.site.is_pending(door));
}

#[test]
fn disable_on_an_empty_face_changes_nothing() {
    let mut s = scene();
    let before_next = s.site.next;
    s.site.rebuild_cabin(s.lift);
    let lifts = s.site.lifts.clone();
    let next = s.site.next;
    assert_eq!(next, before_next + 1);
    assert_eq!(s.site.toggle_door_availability(toggle(s.lift, RectFace::Right, s.ground, false)), Ok(()));
    assert_eq!(s.site.lifts, lifts);
    assert_eq!(s.site.next, next);
    assert!(s.site.doors.is_empty());
    assert!(s.site.pending.is_empty());
}

#[test]
fn last_level_takes_the_door_and_its_own_anchors_away() {
    let mut s = scene();
    s.site.toggle_door_availability(toggle(s.lift, RectFace::Front, s.ground, true)).unwrap();
    s.site.toggle_door_availability(toggle(s.lift, RectFace::Front, s.upper, true)).unwrap();
    let door = s.site.door_at(s.lift, RectFace::Front).unwrap();
    let edge = s.site.doors.get(&door).unwrap().reference_anchors;
    s.site.toggle_door_availability(toggle(s.lift, RectFace::Front, s.ground, false)).unwrap();
    assert_eq!(s.site.door_at(s.lift, RectFace::Front), Some(door));
    assert!(!s.site.is_pending(door));
    s.site.toggle_door_availability(toggle(s.lift, RectFace::Front, s.upper, false)).unwrap();
    assert_eq!(s.site.door_at(s.lift, RectFace::Front), None);
    assert!(s.site.is_pending(door));
    assert!(s.site.is_hidden(door));
    assert!(s.site.visits(door).is_empty());
    for anchor in edge.array() {
        assert!(s.site.is_pending(anchor));
        assert!(s.site.is_hidden(anchor));
    }
    // the lift remembers where the door was, and how wide
    assert_eq!(
        s.site.recalled(s.lift, RectFace::Front),
        Some(LiftCabinDoorPlacement { door, width: 750 })
    );
    assert!(s.site.lifts.get(&s.lift).unwrap().changed);
}

#[test]
fn shared_anchors_stay_when_the_door_goes() {
    let mut s = scene();
    s.site.toggle_door_availability(toggle(s.lift, RectFace::Front, s.ground, true)).unwrap();
    let door = s.site.door_at(s.lift, RectFace::Front).unwrap();
    let edge = s.site.doors.get(&door).unwrap().reference_anchors;
    let wall = s.site.spawn_entity(Some(s.root));
    s.site.add_dependent(edge.end, wall);
    s.site.toggle_door_availability(toggle(s.lift, RectFace::Front, s.ground, false)).unwrap();
    assert_eq!(s.site.door_at(s.lift, RectFace::Front), None);
    assert!(s.site.is_pending(door));
    assert!(s.site.is_hidden(door));
    // one anchor is shared, so neither is marked
    for anchor in edge.array() {
        assert!(!s.site.is_pending(anchor));
        assert!(!s.site.is_hidden(anchor));
    }
    assert_eq!(s.site.anchors.get(&edge.end).unwrap().dependents.to_vec(), vec![door, wall]);
}

#[test]
fn re_enable_puts_the_remembered_door_back() {
    let mut s = scene();
    s.site.toggle_door_availability(toggle(s.lift, RectFace::Front, s.ground, true)).unwrap();
    let door = s.site.door_at(s.lift, RectFace::Front).unwrap();
    let edge = s.site.doors.get(&door).unwrap().reference_anchors;
    s.site.toggle_door_availability(toggle(s.lift, RectFace::Front, s.ground, false)).unwrap();
    let next = s.site.next;
    s.site.toggle_door_availability(toggle(s.lift, RectFace::Front, s.upper, true)).unwrap();
    assert_eq!(s.site.next, next);
    assert_eq!(
        s.site.placement(s.lift, RectFace::Front),
        Some(LiftCabinDoorPlacement { door, width: 750 })
    );
    assert_eq!(s.site.doors.len(), 1);
    assert_eq!(s.site.anchors.len(), 4);
    assert_eq!(s.site.doors.get(&door).unwrap().reference_anchors, edge);
    assert_eq!(s.site.visits(door), vec![s.upper]);
    assert!(!s.site.is_pending(door));
    assert!(!s.site.is_hidden(door));
    for anchor in edge.array() {
        assert!(!s.site.is_pending(anchor));
        assert!(!s.site.is_hidden(anchor));
    }
}

#[test]
fn remembered_width_is_used_even_if_the_cabin_has_changed_size() {
    let mut s = scene();
    s.site.toggle_door_availability(toggle(s.lift, RectFace::Back, s.ground, true)).unwrap();
    let door = s.site.door_at(s.lift, RectFace::Back).unwrap();
    s.site.toggle_door_availability(toggle(s.lift, RectFace::Back, s.ground, false)).unwrap();
    let record = s.site.lifts.get_mut(&s.lift).unwrap();
    record.cabin = lift_cabin::cabin::LiftCabin::Rect(
        lift_cabin::cabin::RectangularLiftCabin::new(4000, 4000),
    );
    s.site.toggle_door_availability(toggle(s.lift, RectFace::Back, s.ground, true)).unwrap();
    assert_eq!(
        s.site.placement(s.lift, RectFace::Back),
        Some(LiftCabinDoorPlacement { door, width: 750 })
    );
    // a face that remembers nothing gets a door of the new size
    s.site.toggle_door_availability(toggle(s.lift, RectFace::Left, s.ground, true)).unwrap();
    assert_eq!(s.site.placement(s.lift, RectFace::Left).unwrap().width, 2000);
}

#[test]
fn enable_for_a_level_that_does_not_exist_is_refused() {
    let mut s = scene();
    let next = s.site.next;
    let lifts = s.site.lifts.clone();
    let request = toggle(s.lift, RectFace::Front, 999, true);
    assert_eq!(
        s.site.toggle_door_availability(request),
        Err(LiftError::LevelNotFound {
            lift: s.lift,
            cabin_door: CabinDoorId::RectFace(RectFace::Front),
            level: 999,
        })
    );
    assert_eq!(s.site.next, next);
    assert_eq!(s.site.lifts, lifts);
    assert!(s.site.doors.is_empty());
    assert_eq!(s.site.anchors.len(), 2);
    assert!(s.site.pending.is_empty());
    assert!(s.site.hidden.is_empty());
    // a lift is no level either
    assert!(s.site.toggle_door_availability(toggle(s.lift, RectFace::Front, s.lift, true)).is_err());
    assert!(s.site.doors.is_empty());
}

#[test]
fn disable_for_a_level_that_does_not_exist_is_no_error() {
    let mut s = scene();
    s.site.toggle_door_availability(toggle(s.lift, RectFace::Front, s.ground, true)).unwrap();
    let door = s.site.door_at(s.lift, RectFace::Front).unwrap();
    assert_eq!(s.site.toggle_door_availability(toggle(s.lift, RectFace::Front, 999, false)), Ok(()));
    assert_eq!(s.site.visits(door), vec![s.ground]);
}

#[test]
fn requests_for_a_lift_without_a_cabin_are_passed_over() {
    let mut site = LiftSite::new();
    let root = site.spawn_entity(None);
    let level = site.spawn_level(Some(root));
    let lift = site.spawn_lift(Some(root), String::from("bare"), Edge::new(100, 101), 1000, 1000);
    let next = site.next;
    assert!(!site.has_cabin(lift));
    assert_eq!(site.toggle_door_availability(toggle(lift, RectFace::Front, level, true)), Ok(()));
    assert_eq!(site.toggle_door_availability(toggle(lift, RectFace::Front, 999, true)), Ok(()));
    assert_eq!(site.toggle_door_availability(toggle(77, RectFace::Front, level, true)), Ok(()));
    assert_eq!(site.next, next);
    assert!(site.doors.is_empty());
    assert_eq!(site.door_at(lift, RectFace::Front), None);
}

#[test]
fn door_named_by_handle_is_switched_without_touching_the_cabin() {
    let mut s = scene();
    s.site.toggle_door_availability(toggle(s.lift, RectFace::Front, s.ground, true)).unwrap();
    let door = s.site.door_at(s.lift, RectFace::Front).unwrap();
    s.site.update_lift_cabin();
    assert!(!s.site.lifts.get(&s.lift).unwrap().changed);
    let by_handle = ToggleLiftDoorAvailability {
        for_lift: s.lift,
        on_level: s.upper,
        cabin_door: CabinDoorId::Entity(door),
        door_available: true,
    };
    s.site.toggle_door_availability(by_handle).unwrap();
    assert_eq!(s.site.visits(door), vec![s.ground, s.upper]);
    assert!(!s.site.lifts.get(&s.lift).unwrap().changed);
    let off = ToggleLiftDoorAvailability { door_available: false, ..by_handle };
    s.site.toggle_door_availability(off).unwrap();
    assert_eq!(s.site.visits(door), vec![s.ground]);
    assert!(s.site.lifts.get(&s.lift).unwrap().changed);
}

#[test]
fn door_is_shown_only_on_the_level_that_is_worked_on() {
    let mut s = scene();
    s.site.set_current_level(Some(s.upper));
    s.site.toggle_door_availability(toggle(s.lift, RectFace::Front, s.ground, true)).unwrap();
    let door = s.site.door_at(s.lift, RectFace::Front).unwrap();
    assert!(s.site.is_hidden(door));
    assert!(!s.site.is_pending(door));
    s.site.toggle_door_availability(toggle(s.lift, RectFace::Front, s.upper, true)).unwrap();
    assert!(!s.site.is_hidden(door));
    s.site.toggle_door_availability(toggle(s.lift, RectFace::Front, s.upper, false)).unwrap();
    assert!(s.site.is_hidden(door));
    assert_eq!(s.site.door_at(s.lift, RectFace::Front), Some(door));
}

#[test]
fn change_of_level_shows_and_hides_every_door() {
    let mut s = scene();
    s.site.toggle_door_availability(toggle(s.lift, RectFace::Front, s.ground, true)).unwrap();
    s.site.toggle_door_availability(toggle(s.lift, RectFace::Back, s.upper, true)).unwrap();
    s.site.toggle_door_availability(toggle(s.lift, RectFace::Left, s.ground, true)).unwrap();
    s.site.toggle_door_availability(toggle(s.lift, RectFace::Left, s.upper, true)).unwrap();
    let front = s.site.door_at(s.lift, RectFace::Front).unwrap();
    let back = s.site.door_at(s.lift, RectFace::Back).unwrap();
    let left = s.site.door_at(s.lift, RectFace::Left).unwrap();
    let hidden_before = s.site.hidden.clone();
    // without a level to go by, nothing changes
    s.site.show_doors_of_current_level();
    assert_eq!(s.site.hidden, hidden_before);

    s.site.set_current_level(Some(s.ground));
    s.site.show_doors_of_current_level();
    assert_eq!(
        (s.site.is_hidden(front), s.site.is_hidden(back), s.site.is_hidden(left)),
        (false, true, false)
    );
    s.site.set_current_level(Some(s.upper));
    let errors = s.site.update_lift_door_availability(&vec![], true, false, &vec![]);
    assert!(errors.is_empty());
    assert_eq!(
        (s.site.is_hidden(front), s.site.is_hidden(back), s.site.is_hidden(left)),
        (true, false, false)
    );
    // what is no door keeps its mark
    s.site.hidden.insert(s.root);
    s.site.show_doors_of_current_level();
    assert!(s.site.is_hidden(s.root));
}

#[test]
fn level_that_is_gone_leaves_every_door_at_once() {
    let mut s = scene();
    s.site.toggle_door_availability(toggle(s.lift, RectFace::Front, s.ground, true)).unwrap();
    s.site.toggle_door_availability(toggle(s.lift, RectFace::Back, s.ground, true)).unwrap();
    s.site.toggle_door_availability(toggle(s.lift, RectFace::Left, s.ground, true)).unwrap();
    s.site.toggle_door_availability(toggle(s.lift, RectFace::Left, s.upper, true)).unwrap();
    s.site.toggle_door_availability(toggle(s.lift, RectFace::Right, s.upper, true)).unwrap();
    let front = s.site.door_at(s.lift, RectFace::Front).unwrap();
    let back = s.site.door_at(s.lift, RectFace::Back).unwrap();
    let left = s.site.door_at(s.lift, RectFace::Left).unwrap();
    let right = s.site.door_at(s.lift, RectFace::Right).unwrap();
    s.site.update_lift_cabin();

    s.site.despawn_level(s.ground);
    let errors = s.site.forget_level(s.ground);
    assert!(errors.is_empty());
    assert!(s.site.visits(front).is_empty());
    assert!(s.site.visits(back).is_empty());
    assert_eq!(s.site.visits(left), vec![s.upper]);
    assert_eq!(s.site.visits(right), vec![s.upper]);
    assert_eq!(s.site.door_at(s.lift, RectFace::Front), None);
    assert_eq!(s.site.door_at(s.lift, RectFace::Back), None);
    assert_eq!(s.site.door_at(s.lift, RectFace::Left), Some(left));
    assert_eq!(s.site.door_at(s.lift, RectFace::Right), Some(right));
    let pending: Vec<u64> = s.site.pending.iter().copied().collect();
    let mut expected = vec![front, back];
    expected.extend(s.site.doors.get(&front).unwrap().reference_anchors.array());
    expected.extend(s.site.doors.get(&back).unwrap().reference_anchors.array());
    expected.sort();
    assert_eq!(pending, expected);
    assert!(s.site.lifts.get(&s.lift).unwrap().changed);
    assert_eq!(
        s.site.recalled(s.lift, RectFace::Front),
        Some(LiftCabinDoorPlacement { door: front, width: 750 })
    );
    // telling the site again finds nothing left to do
    let lifts = s.site.lifts.clone();
    assert!(s.site.forget_level(s.ground).is_empty());
    assert_eq!(s.site.lifts, lifts);
    assert_eq!(s.site.pending.len(), 6);
}

#[test]
fn level_that_no_door_visits_changes_nothing_when_gone() {
    let mut s = scene();
    s.site.toggle_door_availability(toggle(s.lift, RectFace::Front, s.ground, true)).unwrap();
    s.site.update_lift_cabin();
    let lifts = s.site.lifts.clone();
    let doors = s.site.doors.clone();
    assert!(s.site.forget_level(s.upper).is_empty());
    assert_eq!(s.site.lifts, lifts);
    assert_eq!(s.site.doors, doors);
    assert!(s.site.pending.is_empty());
}

#[test]
fn door_without_parent_is_passed_over_and_reported() {
    let mut s = scene();
    s.site.toggle_door_availability(toggle(s.lift, RectFace::Front, s.ground, true)).unwrap();
    s.site.toggle_door_availability(toggle(s.lift, RectFace::Back, s.ground, true)).unwrap();
    let front = s.site.door_at(s.lift, RectFace::Front).unwrap();
    let back = s.site.door_at(s.lift, RectFace::Back).unwrap();
    s.site.parents.remove(&front);
    let errors = s.site.forget_level(s.ground);
    assert_eq!(errors, vec![LiftError::MissingParentLift { door: front }]);
    // the level is gone from both doors, but only the second was taken away
    assert!(s.site.visits(front).is_empty());
    assert!(s.site.visits(back).is_empty());
    assert_eq!(s.site.door_at(s.lift, RectFace::Front), Some(front));
    assert!(!s.site.is_pending(front));
    assert_eq!(s.site.door_at(s.lift, RectFace::Back), None);
    assert!(s.site.is_pending(back));
}

#[test]
fn door_whose_parent_is_no_lift_is_passed_over_and_reported() {
    let mut s = scene();
    s.site.toggle_door_availability(toggle(s.lift, RectFace::Front, s.ground, true)).unwrap();
    s.site.toggle_door_availability(toggle(s.lift, RectFace::Back, s.ground, true)).unwrap();
    let front = s.site.door_at(s.lift, RectFace::Front).unwrap();
    let back = s.site.door_at(s.lift, RectFace::Back).unwrap();
    s.site.parents.insert(back, s.root);
    let errors = s.site.forget_level(s.ground);
    assert_eq!(errors, vec![LiftError::MissingCabin { lift: s.root }]);
    assert_eq!(s.site.door_at(s.lift, RectFace::Front), None);
    assert!(s.site.is_pending(front));
    assert_eq!(s.site.door_at(s.lift, RectFace::Back), Some(back));
    assert!(!s.site.is_pending(back));
}

#[test]
fn one_round_of_upkeep_does_everything_in_order() {
    let mut s = scene();
    s.site.update_lift_cabin();
    s.site.set_current_level(Some(s.ground));
    let requests = vec![
        toggle(s.lift, RectFace::Front, s.ground, true),
        toggle(s.lift, RectFace::Front, 999, true),
        toggle(s.lift, RectFace::Back, s.upper, true),
        toggle(s.lift, RectFace::Right, 998, true),
        toggle(s.lift, RectFace::Front, s.upper, true),
    ];
    let errors = s.site.update_lift_door_availability(&requests, true, true, &vec![s.ground, s.upper]);
    assert_eq!(
        errors,
        vec![
            LiftError::LevelNotFound {
                lift: s.lift,
                cabin_door: CabinDoorId::RectFace(RectFace::Front),
                level: 999,
            },
            LiftError::LevelNotFound {
                lift: s.lift,
                cabin_door: CabinDoorId::RectFace(RectFace::Right),
                level: 998,
            },
        ]
    );
    assert_eq!(s.site.doors.len(), 2);
    // both levels are gone in the end, and with them both doors
    for face in RectFace::iter_all() {
        assert_eq!(s.site.door_at(s.lift, face), None);
    }
    for door in s.site.doors.keys() {
        assert!(s.site.is_pending(*door));
        assert!(s.site.visits(*door).is_empty());
    }
    assert!(s.site.lifts.get(&s.lift).unwrap().changed);
}

#[test]
fn new_levels_mark_every_cabin() {
    let mut s = scene();
    let second = s.site.spawn_lift(Some(s.root), String::from("L2"), Edge::new(3, 4), 1200, 1200);
    s.site.update_lift_cabin();
    assert!(!s.site.lifts.get(&s.lift).unwrap().changed);
    assert!(!s.site.lifts.get(&second).unwrap().changed);
    let errors = s.site.update_lift_door_availability(&vec![], false, false, &vec![]);
    assert!(errors.is_empty());
    assert!(!s.site.lifts.get(&s.lift).unwrap().changed);
    s.site.update_lift_door_availability(&vec![], false, true, &vec![]);
    assert!(s.site.lifts.get(&s.lift).unwrap().changed);
    assert!(s.site.lifts.get(&second).unwrap().changed);
}

#[test]
fn remove_door_of_something_that_is_no_lift_only_marks() {
    let mut s = scene();
    s.site.toggle_door_availability(toggle(s.lift, RectFace::Front, s.ground, true)).unwrap();
    let door = s.site.door_at(s.lift, RectFace::Front).unwrap();
    let lifts = s.site.lifts.clone();
    s.site.remove_door(s.root, door);
    assert_eq!(s.site.lifts, lifts);
    assert!(s.site.is_pending(door));
    assert!(s.site.is_hidden(door));
    s.site.touch(s.root);
    assert_eq!(s.site.lifts, lifts);
}
