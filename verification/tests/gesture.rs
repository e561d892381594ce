use replicator::geom::Point;
use replicator::gesture::{
    fix_out_of_limit, swipe_step, Swipe, AFTER_DROP_MS, DIRECTION_DISTANCE_REF,
    DIRECTION_FIX_LIMIT, DURATION_COEFF, MIN_DURATION_MS, SLOPE_IN, SLOPE_OUT,
};
use std::time::Duration;

#[test]
fn fix_out_of_limit_matches_maa_behaviour() {
    // Past the bottom edge.
    let mut p1 = Point::new(100, 700);
    let mut p2 = Point::new(100, 800);
    fix_out_of_limit(&mut p1, &mut p2, 1280, 720, 100);
    assert_eq!(p1, Point::new(100, 620));
    assert_eq!(p2, Point::new(100, 720));

    // The correction is capped: 300 out, but at most 100 back.
    let mut p1 = Point::new(100, 700);
    let mut p2 = Point::new(100, 1020);
    fix_out_of_limit(&mut p1, &mut p2, 1280, 720, 100);
    assert_eq!(p1, Point::new(100, 600));
    assert_eq!(p2, Point::new(100, 920));

    // Inside the screen nothing moves.
    let mut p1 = Point::new(100, 100);
    let mut p2 = Point::new(200, 200);
    fix_out_of_limit(&mut p1, &mut p2, 1280, 720, 100);
    assert_eq!(p1, Point::new(100, 100));
    assert_eq!(p2, Point::new(200, 200));
}

#[test]
fn constants_match_maa_tasks_json() {
    assert!((f64::from(DURATION_COEFF) - 400.0).abs() < 1e-9);
    assert_eq!(MIN_DURATION_MS, 300);
    assert!((f64::from(DIRECTION_DISTANCE_REF) - 400.0).abs() < 1e-9);
    assert_eq!(DIRECTION_FIX_LIMIT, 100);
    assert!((f64::from(SLOPE_IN) - 2.0).abs() < 1e-9);
    assert!((f64::from(SLOPE_OUT) - 0.0).abs() < 1e-9);
    assert_eq!(AFTER_DROP_MS, 200);
}

#[test]
fn out_of_limit_shifts_the_whole_swipe_not_just_the_end() {
    // A facing swipe to the right from the right edge: the end leaves the screen.
    let tile = Point::new(1200, 360);
    let mut start = tile;
    let mut end = Point::new(1600, 360);
    fix_out_of_limit(&mut start, &mut end, 1280, 720, DIRECTION_FIX_LIMIT);
    assert!(start.x < tile.x, "the whole swipe moves back");
    assert_eq!(end.x - start.x, 400, "the shift keeps the swipe's length");
    // Left and top edges push back the other way.
    let mut a = Point::new(10, 10);
    let mut b = Point::new(-30, 10);
    fix_out_of_limit(&mut a, &mut b, 1280, 720, 100);
    assert_eq!((a, b), (Point::new(40, 10), Point::new(0, 10)));
    let mut a = Point::new(10, 10);
    let mut b = Point::new(10, -500);
    fix_out_of_limit(&mut a, &mut b, 1280, 720, 100);
    assert_eq!((a, b), (Point::new(10, 110), Point::new(10, -400)));
}

#[test]
fn swipe_duration_counts_steps_between_points() {
    let points: Vec<Point> = (0..41).map(|i| Point::new(i * 25, 0)).collect();
    let swipe = Swipe { points };
    // 41 points => 40 steps => 400 ms
    assert_eq!(swipe.duration(), Duration::from_millis(400));
    assert_eq!(swipe.start(), Point::new(0, 0));
    assert_eq!(swipe.end(), Point::new(1000, 0));
    assert_eq!(Swipe { points: vec![Point::new(3, 4)] }.duration(), Duration::ZERO);
    assert_eq!(Swipe { points: Vec::new() }.duration(), Duration::ZERO);
    assert_eq!(swipe_step(), Duration::from_millis(10));
}
