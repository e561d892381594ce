use replicator::geom::Point;
use replicator::tile::{is_on_screen, within_tolerance, TilePositions, TileProjection};

#[test]
fn on_screen_predicate() {
    assert!(is_on_screen(Point::new(0, 0)));
    assert!(is_on_screen(Point::new(1279, 719)));
    assert!(!is_on_screen(Point::new(1280, 0)));
    assert!(!is_on_screen(Point::new(0, 720)));
    assert!(!is_on_screen(Point::new(-1, 0)));
}

#[test]
fn tolerance_grows_the_screen_by_five_percent() {
    assert!(within_tolerance(Point::new(-64, -36)));
    assert!(within_tolerance(Point::new(1344, 756)));
    assert!(!within_tolerance(Point::new(-65, 0)));
    assert!(!within_tolerance(Point::new(0, 757)));
}

#[test]
fn projection_lookups_by_tile() {
    let mut normal = TilePositions::new();
    let mut side = TilePositions::new();
    normal.insert(Point::new(1, 2), Point::new(500, 300));
    normal.insert(Point::new(1, 2), Point::new(510, 305));
    side.insert(Point::new(1, 2), Point::new(520, 330));
    let p = TileProjection {
        normal,
        side,
        retreat_button: Point::new(0, 0),
        skill_button: Point::new(0, 0),
        has_multi_stages: false,
    };
    assert_eq!(p.normal_pos(Point::new(1, 2)), Some(Point::new(510, 305)));
    assert_eq!(p.side_pos(Point::new(1, 2)), Some(Point::new(520, 330)));
    assert_eq!(p.normal_pos(Point::new(2, 1)), None);
}
