use lift_cabin::door::Edge;
use lift_cabin::issue::{duplicated_lift_name_issue_uuid, DUPLICATED_LIFT_NAME_ISSUE_BITS};
use lift_cabin::site::LiftSite;
use std::collections::BTreeSet;
use uuid::Uuid;

const HINT: &str = "Lifts use their names as identifiers with RMF and each lift should \
                    have a unique name, rename the affected lifts";

fn lift(site: &mut LiftSite, parent: u64, name: &str) -> u64 {
    site.spawn_lift(Some(parent), String::from(name), Edge::new(500, 501), 1000, 1000)
}

#[test]
fn issue_kind_is_the_stable_uuid() {
    let expected = Uuid::from_u128(0x307e81822d8d4b62b20f2503955f1032u128);
    assert_eq!(duplicated_lift_name_issue_uuid(), expected);
    assert_eq!(expected.to_string(), "307e8182-2d8d-4b62-b20f-2503955f1032");
    assert_eq!(DUPLICATED_LIFT_NAME_ISSUE_BITS, 0x307e81822d8d4b62b20f2503955f1032);
}

#[test]
fn two_lifts_of_one_name_raise_one_issue() {
    let mut site = LiftSite::new();
    let root = site.spawn_entity(None);
    let a1 = lift(&mut site, root, "A");
    let a2 = lift(&mut site, root, "A");
    let _b = lift(&mut site, root, "B");
    let issues = site.duplicated_lift_names(root);
    assert_eq!(issues.len(), 1);
    let issue = &issues[0];
    assert_eq!(issue.key.entities, BTreeSet::from([a1, a2]));
    assert_eq!(issue.key.kind, Uuid::from_u128(0x307e81822d8d4b62b20f2503955f1032u128));
    assert_eq!(issue.kind_bits(), 0x307e81822d8d4b62b20f2503955f1032);
    assert_eq!(issue.brief, "Multiple lifts found with the same name A");
    assert_eq!(issue.hint, HINT);
}

#[test]
fn unique_names_raise_no_issue() {
    let mut site = LiftSite::new();
    let root = site.spawn_entity(None);
    lift(&mut site, root, "A");
    lift(&mut site, root, "B");
    lift(&mut site, root, "a");
    lift(&mut site, root, "");
    assert!(site.duplicated_lift_names(root).is_empty());
    let next = site.next;
    assert!(site.check_for_duplicated_lift_names(root).is_empty());
    assert_eq!(site.next, next);
    assert!(site.issues.is_empty());
    assert!(LiftSite::new().duplicated_lift_names(0).is_empty());
}

#[test]
fn each_shared_name_is_reported_once_for_all_its_lifts() {
    let mut site = LiftSite::new();
    let root = site.spawn_entity(None);
    let b1 = lift(&mut site, root, "B");
    let a1 = lift(&mut site, root, "A");
    let _c = lift(&mut site, root, "C");
    let a2 = lift(&mut site, root, "A");
    let b2 = lift(&mut site, root, "B");
    let a3 = lift(&mut site, root, "A");
    let issues = site.duplicated_lift_names(root);
    assert_eq!(issues.len(), 2);
    // in the order of the lowest handle among the lifts of each name
    assert_eq!(issues[0].key.entities, BTreeSet::from([b1, b2]));
    assert_eq!(issues[0].brief, "Multiple lifts found with the same name B");
    assert_eq!(issues[1].key.entities, BTreeSet::from([a1, a2, a3]));
    assert_eq!(issues[1].brief, "Multiple lifts found with the same name A");
}

#[test]
fn only_lifts_under_the_root_are_compared() {
    let mut site = LiftSite::new();
    let root = site.spawn_entity(None);
    let other = site.spawn_entity(None);
    let wing = site.spawn_entity(Some(root));
    let shaft = site.spawn_entity(Some(wing));
    let near = lift(&mut site, root, "A");
    let _far = lift(&mut site, other, "A");
    let deep = lift(&mut site, shaft, "A");
    let _loose = site.spawn_lift(None, String::from("A"), Edge::new(500, 501), 1000, 1000);
    let issues = site.duplicated_lift_names(root);
    assert_eq!(issues.len(), 1);
    assert_eq!(issues[0].key.entities, BTreeSet::from([near, deep]));
    assert!(site.duplicated_lift_names(other).is_empty());
    assert!(site.duplicated_lift_names(wing).is_empty());
    // the root itself is not under the root
    assert!(!site.is_under(root, root));
    assert!(site.is_under(deep, root));
    assert!(site.is_under(deep, wing));
    assert!(!site.is_under(near, wing));
    assert!(!site.is_under(999, root));
}

#[test]
fn parents_that_go_round_in_a_circle_end_the_search() {
    let mut site = LiftSite::new();
    let a = site.spawn_entity(None);
    let b = site.spawn_entity(Some(a));
    site.parents.insert(a, b);
    assert!(site.is_under(a, b));
    assert!(site.is_under(a, a));
    assert!(!site.is_under(a, 77));
}

#[test]
fn every_check_reports_anew() {
    let mut site = LiftSite::new();
    let root = site.spawn_entity(None);
    let a1 = lift(&mut site, root, "A");
    let a2 = lift(&mut site, root, "A");
    let next = site.next;
    let first = site.check_for_duplicated_lift_names(root);
    assert_eq!(first, vec![next]);
    let second = site.check_for_duplicated_lift_names(root);
    assert_eq!(second, vec![next + 1]);
    assert_eq!(site.issues.len(), 2);
    for handle in [next, next + 1] {
        assert_eq!(site.parent(handle), Some(root));
        let issue = site.issues.get(&handle).unwrap();
        assert_eq!(issue.key.entities, BTreeSet::from([a1, a2]));
        assert_eq!(issue.key.kind, duplicated_lift_name_issue_uuid());
    }
    assert_eq!(site.next, next + 2);
}

#[test]
fn issues_are_put_under_the_root_in_their_order() {
    let mut site = LiftSite::new();
    let root = site.spawn_entity(None);
    lift(&mut site, root, "X");
    lift(&mut site, root, "Y");
    lift(&mut site, root, "Y");
    lift(&mut site, root, "X");
    let next = site.next;
    let reported = site.check_for_duplicated_lift_names(root);
    assert_eq!(reported, vec![next, next + 1]);
    assert_eq!(site.issues.get(&next).unwrap().brief, "Multiple lifts found with the same name X");
    assert_eq!(
        site.issues.get(&(next + 1)).unwrap().brief,
        "Multiple lifts found with the same name Y"
    );
}
