use replicator::geom::Point;
use replicator::level::{Buildable, LevelError, TileKey};
use replicator::level_grid::LevelGrid;

/// A 3×2 map shaped like a real stage file.
const TINY: &str = r#"{
    "stageId": "test_01",
    "code": "TT-1",
    "levelId": "activities/test/level_test_01",
    "name": "测试关",
    "width": 3,
    "height": 2,
    "view": [[0.0, -4.2, 5.8], [-1.3, -3.0, 5.0]],
    "tiles": [
        [{"heightType":1,"buildableType":2,"tileKey":"tile_wall"},
         {"heightType":0,"buildableType":1,"tileKey":"tile_road"},
         {"heightType":0,"buildableType":0,"tileKey":"tile_start"}],
        [{"heightType":0,"buildableType":1,"tileKey":"tile_road"},
         {"heightType":0,"buildableType":0,"tileKey":"tile_end"},
         {"heightType":1,"buildableType":0,"tileKey":"tile_forbidden"}]
    ]
}"#;

fn view_count(json: &str) -> usize {
    let value: serde_json::Value = serde_json::from_str(json).unwrap();
    value["view"].as_array().map_or(0, |v| v.len())
}

fn grid(json: &str) -> Result<LevelGrid, LevelError> {
    LevelGrid::parse(json, view_count(json))
}

#[test]
fn parses_a_level() {
    let level = grid(TINY).unwrap();
    assert_eq!(level.width(), 3);
    assert_eq!(level.height(), 2);
    assert_eq!(level.key().code, "TT-1");
    assert_eq!(view_count(TINY), 2);

    let t = level.tile(Point::new(0, 0)).unwrap();
    assert_eq!(t.height_type, 1);
    assert_eq!(t.buildable, Buildable::Ranged);
    assert_eq!(t.key, TileKey::Wall);

    let t = level.tile(Point::new(1, 1)).unwrap();
    assert_eq!(t.key, TileKey::Home);
    assert!(t.key.is_gate());

    assert!(level.tile(Point::new(3, 0)).is_none());
    assert!(level.tile(Point::new(-1, 0)).is_none());
}

#[test]
fn locations_covers_every_cell() {
    let level = grid(TINY).unwrap();
    let all = level.locations();
    assert_eq!(all.len(), 6);
    assert_eq!(all[0], Point::new(0, 0));
    assert_eq!(all[5], Point::new(2, 1));
    assert!(all.iter().all(|p| level.tile(*p).is_some()));
}

#[test]
fn malformed_levels_are_rejected() {
    let bad = TINY.replace("\"height\": 2", "\"height\": 3");
    match grid(&bad) {
        Err(LevelError::Malformed(m)) => assert_eq!(m, "关卡 test_01 的 tiles 尺寸与 3×3 不符"),
        _ => panic!("expected a size error"),
    }
    let bad = TINY.replace("[[0.0, -4.2, 5.8], [-1.3, -3.0, 5.0]]", "[[0.0, -4.2, 5.8]]");
    match grid(&bad) {
        Err(LevelError::Malformed(m)) => {
            assert_eq!(m, "关卡 test_01 的 view 只有 1 项，至少需要 2 项（正常视角 + 侧视角）")
        }
        _ => panic!("expected a view error"),
    }
}

#[test]
fn fields_of_the_wrong_type_are_parse_errors() {
    let bad = TINY.replace("\"width\": 3", "\"width\": \"3\"");
    assert!(matches!(grid(&bad), Err(LevelError::Parse(_))));
    let bad = TINY.replace("\"tileKey\":\"tile_end\"", "\"tileKey\":5");
    assert!(matches!(grid(&bad), Err(LevelError::Parse(_))));
    assert!(matches!(grid("[]"), Err(LevelError::Parse(_))));
}

#[test]
fn missing_tile_fields_take_their_defaults() {
    let json = r#"{"width": 1, "height": 1, "view": [[0,0,0],[0,0,0]], "tiles": [[{}]]}"#;
    let level = grid(json).unwrap();
    let t = level.tile(Point::new(0, 0)).unwrap();
    assert_eq!(t.height_type, 0);
    assert_eq!(t.buildable, Buildable::Unbuildable);
    assert_eq!(t.key, TileKey::Invalid);
    assert_eq!(level.key().stage_id, "");
}

#[test]
fn an_empty_grid_has_no_locations() {
    let json = r#"{"width": -4, "height": 0, "view": [[0,0,0],[0,0,0]], "tiles": []}"#;
    let level = grid(json).unwrap();
    assert!(level.locations().is_empty());
    assert!(level.tile(Point::new(0, 0)).is_none());
}

#[test]
fn text_that_is_not_json_is_a_parse_error() {
    match LevelGrid::parse("{\"width\": 3,", 2) {
        Err(LevelError::Parse(_)) => {}
        other => panic!("expected a parse error, got {:?}", other.map(|g| g.width())),
    }
}
