use lift_cabin::cabin::{
    LiftCabin, LiftCabinDoorPlacement, RecallLiftCabin, RectFace, RectangularLiftCabin,
};
use lift_cabin::doormat::{CabinDoorId, LiftDoormat, ToggleLiftDoorAvailability};
use lift_cabin::lift::{CabinAnchorGroup, CabinAnchorGroupBundle, Category};

#[test]
fn faces_are_walked_front_back_left_right() {
    assert_eq!(
        RectFace::iter_all(),
        [RectFace::Front, RectFace::Back, RectFace::Left, RectFace::Right]
    );
}

#[test]
fn new_cabin_has_no_doors() {
    let cabin = RectangularLiftCabin::new(1500, 2000);
    for face in RectFace::iter_all() {
        assert_eq!(cabin.door(face), None);
    }
    assert_eq!(cabin.width, 1500);
    assert_eq!(cabin.depth, 2000);
}

#[test]
fn fresh_door_is_half_the_shorter_side() {
    assert_eq!(RectangularLiftCabin::new(1500, 2000).default_door_width(), 750);
    assert_eq!(RectangularLiftCabin::new(2000, 1500).default_door_width(), 750);
    assert_eq!(RectangularLiftCabin::new(1001, 1001).default_door_width(), 500);
    assert_eq!(RectangularLiftCabin::new(0, 7).default_door_width(), 0);
    assert_eq!(
        RectangularLiftCabin::new(u32::MAX, u32::MAX).default_door_width(),
        u32::MAX / 2
    );
}

#[test]
fn set_door_changes_one_face_only() {
    let mut cabin = RectangularLiftCabin::new(1500, 2000);
    cabin.set_door(RectFace::Left, Some(LiftCabinDoorPlacement::new(4, 600)));
    assert_eq!(cabin.door(RectFace::Left), Some(LiftCabinDoorPlacement { door: 4, width: 600 }));
    assert_eq!(cabin.door(RectFace::Front), None);
    assert_eq!(cabin.door(RectFace::Back), None);
    assert_eq!(cabin.door(RectFace::Right), None);
    cabin.set_door(RectFace::Left, None);
    assert_eq!(cabin, RectangularLiftCabin::new(1500, 2000));
}

#[test]
fn remove_door_clears_every_face_with_that_door() {
    let mut params = RectangularLiftCabin::new(1500, 2000);
    params.set_door(RectFace::Front, Some(LiftCabinDoorPlacement::new(7, 750)));
    params.set_door(RectFace::Left, Some(LiftCabinDoorPlacement::new(7, 600)));
    params.set_door(RectFace::Back, Some(LiftCabinDoorPlacement::new(9, 500)));
    let mut cabin = LiftCabin::Rect(params);
    cabin.remove_door(7);
    assert_eq!(cabin.door(RectFace::Front), None);
    assert_eq!(cabin.door(RectFace::Left), None);
    assert_eq!(cabin.door(RectFace::Back), Some(LiftCabinDoorPlacement::new(9, 500)));
    assert_eq!(cabin.door(RectFace::Right), None);
}

#[test]
fn remove_door_that_is_not_there_changes_nothing() {
    let mut params = RectangularLiftCabin::new(1500, 2000);
    params.set_door(RectFace::Back, Some(LiftCabinDoorPlacement::new(9, 500)));
    let mut cabin = LiftCabin::Rect(params);
    cabin.remove_door(8);
    assert_eq!(cabin, LiftCabin::Rect(params));
}

#[test]
fn recall_remembers_what_the_cabin_has_and_keeps_the_rest() {
    let mut recall = RecallLiftCabin::new();
    let mut params = RectangularLiftCabin::new(1500, 2000);
    params.set_door(RectFace::Front, Some(LiftCabinDoorPlacement::new(7, 750)));
    recall.remember(&LiftCabin::Rect(params));
    assert_eq!(recall.rect_door(RectFace::Front), Some(LiftCabinDoorPlacement::new(7, 750)));
    assert_eq!(recall.rect_door(RectFace::Back), None);

    let mut later = RectangularLiftCabin::new(1500, 2000);
    later.set_door(RectFace::Back, Some(LiftCabinDoorPlacement::new(9, 500)));
    recall.remember(&LiftCabin::Rect(later));
    assert_eq!(recall.rect_door(RectFace::Front), Some(LiftCabinDoorPlacement::new(7, 750)));
    assert_eq!(recall.rect_door(RectFace::Back), Some(LiftCabinDoorPlacement::new(9, 500)));

    let mut replaced = RectangularLiftCabin::new(1500, 2000);
    replaced.set_door(RectFace::Front, Some(LiftCabinDoorPlacement::new(11, 300)));
    recall.remember(&LiftCabin::Rect(replaced));
    assert_eq!(recall.rect_door(RectFace::Front), Some(LiftCabinDoorPlacement::new(11, 300)));
}

#[test]
fn doormat_asks_for_the_opposite_of_what_it_shows() {
    let mat = LiftDoormat {
        for_lift: 3,
        on_level: 1,
        cabin_door: CabinDoorId::RectFace(RectFace::Right),
        door_available: false,
    };
    assert_eq!(
        mat.toggle_availability(),
        ToggleLiftDoorAvailability {
            for_lift: 3,
            on_level: 1,
            cabin_door: CabinDoorId::RectFace(RectFace::Right),
            door_available: true,
        }
    );
    let on = LiftDoormat { door_available: true, cabin_door: CabinDoorId::Entity(12), ..mat };
    assert_eq!(
        on.toggle_availability(),
        ToggleLiftDoorAvailability {
            for_lift: 3,
            on_level: 1,
            cabin_door: CabinDoorId::Entity(12),
            door_available: false,
        }
    );
}

#[test]
fn anchor_group_bundle_belongs_to_lifts() {
    assert_eq!(
        CabinAnchorGroupBundle::default(),
        CabinAnchorGroupBundle { tag: CabinAnchorGroup, category: Category::Lift }
    );
}
