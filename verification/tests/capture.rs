use replicator::capture::{cross, outline, put, CaptureError, Frame};
use replicator::geom::{Point, Rect};
use replicator::window::{ClientGeometry, GameWindow, GAME_PROCESS};

fn solid(width: u32, height: u32, bgra: [u8; 4]) -> Frame {
    Frame::new(
        width,
        height,
        bgra.iter()
            .copied()
            .cycle()
            .take(width as usize * height as usize * 4)
            .collect(),
    )
}

#[test]
fn pixel_accessors_respect_bounds() {
    let f = solid(4, 3, [1, 2, 3, 255]);
    assert_eq!(f.pixel(0, 0), Some([1, 2, 3, 255]));
    assert_eq!(f.pixel(3, 2), Some([1, 2, 3, 255]));
    assert_eq!(f.pixel(4, 2), None);
    assert_eq!(f.pixel(3, 3), None);
    assert_eq!(f.pixel(-1, 0), None);
}

#[test]
fn rgb_reorders_bgra() {
    let f = solid(2, 2, [10, 20, 30, 255]); // B=10 G=20 R=30
    assert_eq!(f.rgb(0, 0), Some([30, 20, 10]));
}

#[test]
fn bounds_matches_dimensions() {
    let f = solid(8, 5, [0, 0, 0, 255]);
    assert_eq!(f.bounds(), Rect::new(0, 0, 8, 5));
}

#[test]
fn painting_stays_inside_the_frame() {
    let mut f = solid(4, 4, [0, 0, 0, 255]);
    put(&mut f, Point::new(1, 2), [9, 8, 7]);
    assert_eq!(f.pixel(1, 2), Some([7, 8, 9, 255]));
    put(&mut f, Point::new(9, 9), [1, 1, 1]);
    assert_eq!(f.pixels.len(), 64);
    outline(&mut f, Rect::new(0, 0, 4, 4), [200, 0, 0]);
    assert_eq!(f.rgb(0, 3), Some([200, 0, 0]));
    assert_eq!(f.rgb(3, 0), Some([200, 0, 0]));
    assert_eq!(f.rgb(1, 1), Some([0, 0, 0]));
    let mut g = solid(5, 5, [0, 0, 0, 255]);
    cross(&mut g, Point::new(2, 2), [0, 255, 0], 1);
    assert_eq!(g.rgb(1, 2), Some([0, 255, 0]));
    assert_eq!(g.rgb(2, 3), Some([0, 255, 0]));
    assert_eq!(g.rgb(1, 1), Some([0, 0, 0]));
}

#[test]
fn client_to_screen_offsets_by_origin() {
    let g = ClientGeometry {
        width: 1600,
        height: 900,
        origin: Point::new(100, 50),
    };
    assert_eq!(g.client_to_screen(Point::new(0, 0)), Point::new(100, 50));
    assert_eq!(g.client_to_screen(Point::new(10, 20)), Point::new(110, 70));
    assert_eq!(g.as_rect(), Rect::new(0, 0, 1600, 900));
}

#[test]
fn contains_rejects_out_of_bounds() {
    let g = ClientGeometry {
        width: 100,
        height: 50,
        origin: Point::zero(),
    };
    assert!(g.contains(Point::new(0, 0)));
    assert!(g.contains(Point::new(99, 49)));
    assert!(!g.contains(Point::new(100, 49)));
    assert!(!g.contains(Point::new(99, 50)));
    assert!(!g.contains(Point::new(-1, 0)));
}

#[test]
fn finding_a_nonexistent_process_is_an_error_not_a_panic() {
    let result = GameWindow::find_by_process("definitely-not-running-12345.exe");
    assert!(matches!(result, Err(CaptureError::WindowNotFound(_))));
    match GameWindow::find() {
        Err(e) => assert_eq!(e.message(), format!("找不到 {GAME_PROCESS} 的窗口，请先启动游戏")),
        Ok(_) => panic!("no game window can be found here"),
    }
    let w = GameWindow::from_raw(42);
    assert_eq!(w.raw_handle(), 42);
    assert!(!w.is_foreground());
    assert!(matches!(w.geometry(), Err(CaptureError::Unsupported)));
}

#[test]
fn outline_is_clipped_and_keeps_alpha() {
    let mut f = solid(4, 4, [0, 0, 0, 128]);
    outline(&mut f, Rect::new(2, 1, 5, 2), [200, 10, 20]);
    assert_eq!(f.pixel(2, 1), Some([20, 10, 200, 128]));
    assert_eq!(f.rgb(3, 1), Some([200, 10, 20]));
    assert_eq!(f.rgb(2, 2), Some([200, 10, 20]));
    assert_eq!(f.rgb(3, 2), Some([200, 10, 20]));
    assert_eq!(f.rgb(1, 1), Some([0, 0, 0]));
    assert_eq!(f.rgb(2, 0), Some([0, 0, 0]));
    assert_eq!(f.rgb(2, 3), Some([0, 0, 0]));
    let mut g = solid(5, 5, [0, 0, 0, 255]);
    cross(&mut g, Point::new(0, 4), [1, 2, 3], 2);
    assert_eq!(g.rgb(2, 4), Some([1, 2, 3]));
    assert_eq!(g.rgb(0, 2), Some([1, 2, 3]));
    assert_eq!(g.rgb(3, 4), Some([0, 0, 0]));
    assert_eq!(g.rgb(1, 3), Some([0, 0, 0]));
}
