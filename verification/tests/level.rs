use replicator::level::{Buildable, LevelError, LevelKey, LevelPack, TileKey};
use std::path::PathBuf;

#[test]
fn tile_keys_cover_maa_mapping() {
    assert_eq!(TileKey::parse("tile_road"), TileKey::Road);
    assert_eq!(TileKey::parse("tile_wall"), TileKey::Wall);
    assert_eq!(TileKey::parse("tile_end"), TileKey::Home);
    assert_eq!(TileKey::parse("tile_start"), TileKey::EnemyHome);
    assert_eq!(TileKey::parse("tile_deepwater"), TileKey::DeepSea);
    assert_eq!(TileKey::parse("tile_deepsea"), TileKey::DeepSea);
    assert_eq!(TileKey::parse("tile_fence_bound"), TileKey::Fence);
    assert_eq!(TileKey::parse("tile_who_knows"), TileKey::Invalid);
}

#[test]
fn gates_and_buildable_numbers() {
    assert!(TileKey::Home.is_gate());
    assert!(TileKey::EnemyHome.is_gate());
    assert!(!TileKey::Road.is_gate());
    assert_eq!(Buildable::from_i64(2), Buildable::Ranged);
    assert_eq!(Buildable::from_i64(0), Buildable::Unbuildable);
    assert_eq!(Buildable::from_i64(3), Buildable::All);
    assert_eq!(Buildable::from_i64(-1), Buildable::Invalid);
    assert_eq!(Buildable::from_i64(7), Buildable::Invalid);
}

#[test]
fn level_key_matches_any_field() {
    let key = LevelKey {
        stage_id: "test_01".to_owned(),
        code: "TT-1".to_owned(),
        level_id: "activities/test/level_test_01".to_owned(),
        name: "测试关".to_owned(),
    };
    assert!(key.matches("test_01"));
    assert!(key.matches("TT-1"));
    assert!(key.matches("activities/test/level_test_01"));
    assert!(key.matches("测试关"));
    assert!(!key.matches("TT-2"));
    // The empty text matches nothing, or stages with empty fields would all match.
    assert!(!key.matches(""));
    assert!(!LevelKey::default().matches(""));
}

#[test]
fn overview_index_lookup() {
    let overview = r#"{
        "a001_01-activities/a001/level_a001_01": {
            "code": "GT-1",
            "filename": "a001_01-activities-a001-level_a001_01.json",
            "height": 7,
            "levelId": "activities/a001/level_a001_01",
            "name": "日正当中",
            "stageId": "a001_01",
            "width": 10
        },
        "main_10-07": {
            "code": "10-7",
            "filename": "main_10-07.json",
            "height": 9,
            "levelId": "obt/main/level_main_10-07",
            "name": "夜风",
            "stageId": "main_10-07",
            "width": 13
        }
    }"#;
    let pack = LevelPack::from_overview_json(PathBuf::from("."), overview).unwrap();
    assert_eq!(pack.len(), 2);
    assert!(!pack.is_empty());
    assert_eq!(pack.find("GT-1").unwrap().key.stage_id, "a001_01");
    assert_eq!(pack.find("10-7").unwrap().key.stage_id, "main_10-07");
    assert_eq!(pack.find("夜风").unwrap().key.code, "10-7");
    assert_eq!(
        pack.find("obt/main/level_main_10-07").unwrap().key.code,
        "10-7"
    );
    assert!(pack.find("nope").is_none());
    assert_eq!(pack.find("10-7").unwrap().width, 13);

    let hits = pack.search("gt", 10);
    assert_eq!(hits.len(), 1);
    assert_eq!(hits[0].key.code, "GT-1");
    assert_eq!(pack.search("", 1).len(), 1);
    assert_eq!(pack.search("MAIN", 10)[0].key.code, "10-7");
}

#[test]
fn ambiguous_stage_keys_are_all_reported() {
    // Main stages almost all have a #f# variant whose code is the same. find takes the
    // first, find_all must list every one.
    let overview = r#"{
        "main_01-07#f#-obt/main/level_main_01-07": {
            "code": "1-7", "filename": "a.json", "height": 7, "width": 11,
            "levelId": "obt/main/level_main_01-07", "name": "暴君",
            "stageId": "main_01-07#f#"
        },
        "main_01-07-obt/main/level_main_01-07": {
            "code": "1-7", "filename": "b.json", "height": 7, "width": 11,
            "levelId": "obt/main/level_main_01-07", "name": "暴君",
            "stageId": "main_01-07"
        }
    }"#;
    let pack = LevelPack::from_overview_json(PathBuf::from("."), overview).unwrap();

    // By stage number: both match.
    assert_eq!(pack.find_all("1-7").len(), 2);
    assert!(pack.find("1-7").is_some());

    // By exact stage id: one match, which settles the ambiguity.
    let exact = pack.find_all("main_01-07");
    assert_eq!(exact.len(), 1);
    assert_eq!(exact[0].filename, "b.json");
    let variant = pack.find_all("main_01-07#f#");
    assert_eq!(variant.len(), 1);
    assert_eq!(variant[0].filename, "a.json");
    // Entries come in ascending order of their index names.
    assert_eq!(pack.find("1-7").unwrap().filename, "a.json");
}

#[test]
fn empty_overview_is_rejected() {
    assert!(matches!(
        LevelPack::from_overview_json(PathBuf::from("."), "{}"),
        Err(LevelError::Malformed(_))
    ));
    assert!(matches!(
        LevelPack::from_overview_json(PathBuf::from("."), "[]"),
        Err(LevelError::Parse(_))
    ));
    assert!(matches!(
        LevelPack::from_overview_json(PathBuf::from("."), "{"),
        Err(LevelError::Parse(_))
    ));
    assert!(matches!(
        LevelPack::from_overview_json(PathBuf::from("."), r#"{"x": {"code": "1"}}"#),
        Err(LevelError::Parse(_))
    ));
    assert_eq!(
        LevelError::UnknownStage("9-9".to_owned()).message(),
        "在 Arknights-Tile-Pos 索引里找不到关卡「9-9」"
    );
}
