use replicator::continuation::{Battlefield, ContinuationError, ContinuationPlan};
use replicator::copilot::Copilot;
use replicator::geom::Point;

/// A short job in the shape of the project's example job: Myrtle opens, Bagpipe follows
/// at frame 40, Myrtle leaves, Bagpipe is the last one standing.
const TEST1: &str = r#"{
    "stage_name": "main_01-07",
    "frame_replicator": { "version": 1, "speed": "1x", "after_last_action": "resume" },
    "doc": { "title": "示例作业", "details": "继续功能的测试用例" },
    "opers": [ { "name": "桃金娘", "skill": 1 }, { "name": "风笛", "skill": 3 } ],
    "actions": [
        { "type": "Deploy",  "frame": 8,   "name": "桃金娘", "location": [3, 2], "direction": "Left" },
        { "type": "Deploy",  "frame": 40,  "name": "风笛", "location": [2, 3], "direction": "Right" },
        { "type": "Skill",   "frame": 100, "name": "桃金娘" },
        { "type": "Retreat", "frame": 180, "name": "桃金娘" },
        { "type": "Skill",   "frame": 240, "name": "风笛" },
        { "type": "Retreat", "frame": 245, "name": "风笛" }
    ]
}"#;

#[test]
fn frame_eleven_assumes_deploy_and_reconstructs_myrtle() {
    let job = Copilot::parse(TEST1).unwrap();
    let plan = ContinuationPlan::build(&job, 11).unwrap();
    assert_eq!(plan.next_action_index, 1);
    assert_eq!(plan.next_action(&job).frame, 40);
    assert_eq!(plan.battlefield.get("桃金娘").copied(), Some(Point::new(3, 2)));
    assert_eq!(plan.visible_binding_names, vec!["风笛"]);
    assert!(plan.archived_binding_names.is_empty());
}

#[test]
fn cutoff_is_inclusive_and_keeps_same_frame_actions_together() {
    let job = Copilot::parse(TEST1).unwrap();
    assert_eq!(
        ContinuationPlan::build(&job, 1).unwrap().next_action_index,
        0
    );
    assert_eq!(
        ContinuationPlan::build(&job, 10).unwrap().next_action_index,
        1
    );
    assert_eq!(
        ContinuationPlan::build(&job, 40).unwrap().next_action_index,
        2
    );
    let at_240 = ContinuationPlan::build(&job, 240).unwrap();
    assert_eq!(at_240.next_action_index, 5);
    assert!(!at_240.battlefield.contains_key("桃金娘"));
    assert_eq!(at_240.battlefield.get("风笛").copied(), Some(Point::new(2, 3)));
}

#[test]
fn continuation_after_last_action_is_rejected() {
    let job = Copilot::parse(TEST1).unwrap();
    assert_eq!(
        ContinuationPlan::build(&job, 249),
        Err(ContinuationError::NoRemainingActions { cutoff_frame: 249 })
    );
}

#[test]
fn future_redeploy_of_an_on_field_operator_requires_archive() {
    let job = Copilot::parse(
        r#"{
            "stage_name":"x","frame_replicator":true,
            "opers":[{"name":"A","skill":1}],
            "actions":[
                {"type":"Deploy","frame":10,"name":"A","location":[1,1]},
                {"type":"Retreat","frame":20,"name":"A"},
                {"type":"Deploy","frame":30,"name":"A","location":[2,2]}
            ]
        }"#,
    )
    .unwrap();
    let plan = ContinuationPlan::build(&job, 10).unwrap();
    assert_eq!(plan.archived_binding_names, vec!["A"]);
    assert!(plan.visible_binding_names.is_empty());
}

#[test]
fn zero_or_negative_cutoff_is_refused() {
    let job = Copilot::parse(TEST1).unwrap();
    assert_eq!(ContinuationPlan::build(&job, 0), Err(ContinuationError::ZeroFrame));
    assert_eq!(ContinuationPlan::build(&job, -5), Err(ContinuationError::ZeroFrame));
    assert_eq!(ContinuationError::ZeroFrame.message(), "继续截止帧必须大于 0");
    assert_eq!(
        ContinuationError::NoRemainingActions { cutoff_frame: 249 }.message(),
        "当前已到第 249 帧，作业没有后续动作"
    );
}

#[test]
fn a_later_skill_on_an_absent_operator_is_refused() {
    let job = Copilot::parse(
        r#"{
            "stage_name":"x","frame_replicator":true,
            "opers":[{"name":"A","skill":1}],
            "actions":[
                {"type":"Deploy","frame":10,"name":"A","location":[1,1]},
                {"type":"Retreat","frame":20,"name":"A"},
                {"type":"Skill","frame":30,"name":"A"}
            ]
        }"#,
    )
    .unwrap();
    let err = ContinuationPlan::build(&job, 15).unwrap_err();
    assert_eq!(
        err,
        ContinuationError::UnknownFutureTarget { index: 2, name: "A".to_owned() }
    );
    assert_eq!(
        err.message(),
        "继续后的动作 #2 无法定位干员「A」；作业前缀没有可用的在场格子"
    );
    // With a tile, the later action needs nobody on the field.
    let job = Copilot::parse(
        r#"{
            "stage_name":"x","frame_replicator":true,
            "opers":[{"name":"A","skill":1}],
            "actions":[
                {"type":"Deploy","frame":10,"name":"A","location":[1,1]},
                {"type":"Retreat","frame":20,"name":"A"},
                {"type":"Skill","frame":30,"name":"A","location":[1,1]}
            ]
        }"#,
    )
    .unwrap();
    let plan = ContinuationPlan::build(&job, 25).unwrap();
    assert!(plan.battlefield.is_empty());
    assert_eq!(plan.assumed_action_count(), 2);
}

#[test]
fn battlefield_keeps_names_in_order_and_replaces_tiles() {
    let mut field = Battlefield::new();
    field.insert("b".to_owned(), Point::new(1, 1));
    field.insert("a".to_owned(), Point::new(2, 2));
    field.insert("c".to_owned(), Point::new(3, 3));
    field.insert("b".to_owned(), Point::new(4, 4));
    let names: Vec<&str> = field.entries().iter().map(|(n, _)| n.as_str()).collect();
    assert_eq!(names, vec!["a", "b", "c"]);
    assert_eq!(field.get("b").copied(), Some(Point::new(4, 4)));
    field.remove("a");
    field.remove("zz");
    assert!(!field.contains_key("a"));
    assert_eq!(field.entries().len(), 2);
    let copy = field.clone();
    assert_eq!(copy, field);
}
