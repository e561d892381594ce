use replicator::geom::{cancel_selection_ref, Direction, Placement, Point, Rect, Role, REF_HEIGHT, REF_WIDTH};

#[test]
fn roles_cover_all_nine_classes() {
    let all = Role::all();
    assert_eq!(all.len(), 9);
    assert!(!all.contains(&Role::Unknown));
    // The nine class names must differ: the UI tells classes apart by them.
    let mut names: Vec<_> = all.iter().map(|r| r.zh()).collect();
    names.sort_unstable();
    names.dedup();
    assert_eq!(names.len(), 9);
}

#[test]
fn usual_placement_splits_ground_and_highground() {
    assert_eq!(Role::Warrior.usual_placement(), Placement::Melee);
    assert_eq!(Role::Sniper.usual_placement(), Placement::Ranged);
    assert_eq!(Role::Unknown.usual_placement(), Placement::Unknown);
}

#[test]
fn rect_moved_matches_maa_semantics() {
    // MAA's BattleOperClickRange rectMove is [-45, 6, 75, 120]: offsets add, the size
    // is replaced.
    let flag = Rect::new(100, 588, 12, 12);
    let click = flag.moved(Rect::new(-45, 6, 75, 120));
    assert_eq!(click, Rect::new(55, 594, 75, 120));
}

#[test]
fn rect_clamped_drops_out_of_bounds() {
    let r = Rect::new(-10, 700, 40, 40).clamped(REF_WIDTH, REF_HEIGHT);
    assert_eq!(r, Rect::new(0, 700, 30, 20));
}

#[test]
fn rect_edges_center_and_containment() {
    let r = Rect::new(10, 20, 30, 40);
    assert_eq!(r.right(), 40);
    assert_eq!(r.bottom(), 60);
    assert_eq!(r.center(), Point::new(25, 40));
    assert!(r.contains(Point::new(10, 20)));
    assert!(!r.contains(Point::new(40, 20)));
    assert!(!r.is_empty());
    assert!(Rect::new(0, 0, 0, 5).is_empty());
    assert!(r.intersects(Rect::new(39, 59, 5, 5)));
    assert!(!r.intersects(Rect::new(40, 20, 5, 5)));
    assert_eq!(Rect::new(-3, -3, 3, 3).center(), Point::new(-2, -2));
}

#[test]
fn direction_units_and_points() {
    assert_eq!(Direction::Left.unit(), Point::new(-1, 0));
    assert_eq!(Direction::Up.unit(), Point::new(0, -1));
    assert_eq!(Direction::NoDirection.unit(), Point::zero());
    assert_eq!(Point::new(1, 2).plus(Point::new(3, -4)), Point::new(4, -2));
    assert_eq!(Role::Medic.zh(), "医疗");
}

#[test]
fn cancel_selection_rect_matches_maa() {
    assert_eq!(cancel_selection_ref(), Rect::new(630, 0, 20, 20));
}
