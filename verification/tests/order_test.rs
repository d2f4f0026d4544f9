use lift_cabin::order::{ordered, ordered_keys};
use std::collections::{BTreeMap, BTreeSet};

#[test]
fn members_come_in_increasing_order() {
    let set = BTreeSet::from([9u64, 0, u64::MAX, 4, 4, 17]);
    assert_eq!(ordered(&set), vec![0, 4, 9, 17, u64::MAX]);
    assert_eq!(ordered(&BTreeSet::new()), Vec::<u64>::new());
}

#[test]
fn keys_come_in_increasing_order() {
    let mut map: BTreeMap<u64, &str> = BTreeMap::new();
    map.insert(30, "thirty");
    map.insert(2, "two");
    map.insert(11, "eleven");
    map.insert(2, "two again");
    assert_eq!(ordered_keys(&map), vec![2, 11, 30]);
    assert_eq!(ordered_keys(&BTreeMap::<u64, ()>::new()), Vec::<u64>::new());
}
