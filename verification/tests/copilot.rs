use replicator::copilot::{ActionType, AfterLastAction, Copilot, CopilotError};
use replicator::geom::{Direction, Point};

const GOOD: &str = r#"{
    "stage_name": "main_10-07",
    "frame_replicator": { "version": 1, "speed": "1x", "after_last_action": "resume" },
    "doc": { "title": "测试作业", "details": "一句说明" },
    "opers": [ { "name": "山", "skill": 2 }, { "name": "史尔特尔", "skill": 3 } ],
    "actions": [
        { "type": "Deploy",  "frame": 0,   "name": "山", "location": [4, 2], "direction": "Right", "doc": "开局挡路" },
        { "type": "Skill",   "frame": 37,  "name": "山" },
        { "type": "Deploy",  "frame": 90,  "name": "史尔特尔", "location": [6, 2], "direction": "左" },
        { "type": "Retreat", "frame": 240, "name": "山" }
    ]
}"#;

#[test]
fn parses_a_valid_job() {
    let c = Copilot::parse(GOOD).unwrap();
    assert_eq!(c.stage_name, "main_10-07");
    assert_eq!(c.meta.version, 1);
    assert_eq!(c.meta.after_last_action, AfterLastAction::Resume);
    assert_eq!(c.title, "测试作业");
    assert_eq!(c.opers.len(), 2);
    assert_eq!(c.actions.len(), 4);
    assert_eq!(c.last_frame(), 240);

    assert_eq!(c.actions[0].kind, ActionType::Deploy);
    assert_eq!(c.actions[0].frame, 0);
    assert_eq!(c.actions[0].location, Some(Point::new(4, 2)));
    assert_eq!(c.actions[0].direction, Direction::Right);
    assert_eq!(c.actions[0].doc, "开局挡路");

    // 中文朝向别名
    assert_eq!(c.actions[2].direction, Direction::Left);
    // Skill 只给 name 也合法
    assert_eq!(c.actions[1].kind, ActionType::UseSkill);
    assert!(c.actions[1].location.is_none());
}

#[test]
fn action_type_aliases_match_maa() {
    for (raw, expected) in [
        ("Deploy", ActionType::Deploy),
        ("DEPLOY", ActionType::Deploy),
        ("部署", ActionType::Deploy),
        ("Skill", ActionType::UseSkill),
        ("技能", ActionType::UseSkill),
        ("retreat", ActionType::Retreat),
        ("撤退", ActionType::Retreat),
        ("SpeedUp", ActionType::SwitchSpeed),
        ("二倍速", ActionType::SwitchSpeed),
        ("BulletTime", ActionType::BulletTime),
        ("SkillDaemon", ActionType::SkillDaemon),
        ("DoNothing", ActionType::SkillDaemon),
        ("开摆", ActionType::SkillDaemon),
    ] {
        assert_eq!(ActionType::parse(raw), Some(expected), "别名 {raw} 没对上");
    }
    assert_eq!(ActionType::parse("Teleport"), None);
}

#[test]
fn only_frame_safe_actions_are_supported() {
    assert!(ActionType::Deploy.supported_in_frame_mode());
    assert!(ActionType::UseSkill.supported_in_frame_mode());
    assert!(ActionType::Retreat.supported_in_frame_mode());
    assert!(ActionType::Output.supported_in_frame_mode());
    // 变速类必须被拒
    assert!(!ActionType::SwitchSpeed.supported_in_frame_mode());
    assert!(!ActionType::BulletTime.supported_in_frame_mode());
    assert!(!ActionType::SkillDaemon.supported_in_frame_mode());
}

#[test]
fn same_frame_actions_are_allowed() {
    let json = GOOD.replace(r#""frame": 37"#, r#""frame": 0"#);
    let c = Copilot::parse(&json).unwrap();
    assert_eq!(c.actions[0].frame, 0);
    assert_eq!(c.actions[1].frame, 0);
}

#[test]
fn frames_must_not_go_backwards() {
    let json = GOOD.replace(r#""frame": 90"#, r#""frame": 10"#);
    let err = Copilot::parse(&json).unwrap_err();
    assert!(
        matches!(err, CopilotError::FramesOutOfOrder { index: 2, .. }),
        "实际 {}", err.message()
    );
}

#[test]
fn missing_frame_is_rejected_with_a_useful_message() {
    let json = GOOD.replace(r#""frame": 37, "#, "");
    let err = Copilot::parse(&json).unwrap_err();
    assert!(matches!(err, CopilotError::MissingFrame { index: 1 }));
    assert!(err.message().contains("绝对逻辑帧"));
}

#[test]
fn plain_maa_job_is_rejected_clearly() {
    let maa = r#"{
        "stage_name": "1-7",
        "opers": [{"name": "山"}],
        "actions": [{"type":"Deploy","name":"山","location":[3,2],"kills":0}]
    }"#;
    let err = Copilot::parse(maa).unwrap_err();
    assert!(matches!(err, CopilotError::NotAFrameReplicatorJob));
    // 报错要告诉用户怎么改
    assert!(err.message().contains("frame"));
}

#[test]
fn speed_change_actions_are_rejected() {
    let json = r#"{
        "stage_name": "1-7",
        "frame_replicator": {},
        "actions": [
            {"type":"Deploy","frame":0,"name":"山","location":[3,2]},
            {"type":"SpeedUp","frame":10}
        ]
    }"#;
    let err = Copilot::parse(json).unwrap_err();
    assert!(
        matches!(
            err,
            CopilotError::UnsupportedAction {
                kind: ActionType::SwitchSpeed,
                ..
            }
        ),
        "实际 {}", err.message()
    );
}

#[test]
fn non_1x_speed_is_rejected() {
    let json = GOOD.replace(r#""speed": "1x""#, r#""speed": "2x""#);
    let err = Copilot::parse(&json).unwrap_err();
    assert!(matches!(err, CopilotError::UnsupportedSpeed(_)));
}

#[test]
fn deploy_needs_a_location_and_a_name() {
    let json = GOOD.replace(r#", "location": [4, 2]"#, "");
    assert!(matches!(
        Copilot::parse(&json).unwrap_err(),
        CopilotError::DeployWithoutLocation { index: 0 }
    ));

    let json = GOOD.replace(
        r#""name": "山", "location": [4, 2]"#,
        r#""location": [4, 2]"#,
    );
    assert!(matches!(
        Copilot::parse(&json).unwrap_err(),
        CopilotError::DeployWithoutName { index: 0 }
    ));
}

#[test]
fn undeclared_opers_are_caught_before_the_run_starts() {
    let json = GOOD.replace(
        r#""name": "史尔特尔", "location": [6, 2]"#,
        r#""name": "陈", "location": [6, 2]"#,
    );
    let err = Copilot::parse(&json).unwrap_err();
    let rendered = err.message();
    assert!(
        matches!(&err, CopilotError::UndeclaredOper { name, .. } if name == "陈"),
        "实际 {rendered}"
    );
}

#[test]
fn empty_action_list_is_rejected() {
    let json = r#"{"stage_name":"1-7","frame_replicator":{},"actions":[]}"#;
    assert!(matches!(
        Copilot::parse(json).unwrap_err(),
        CopilotError::NoActions
    ));
}

#[test]
fn shorthand_frame_replicator_true_works() {
    let json = r#"{
        "stage_name": "1-7",
        "frame_replicator": true,
        "actions": [{"type":"Deploy","frame":0,"name":"山","location":[3,2]}]
    }"#;
    let c = Copilot::parse(json).unwrap();
    assert_eq!(c.meta.speed, "1x");
    assert_eq!(c.meta.after_last_action, AfterLastAction::Resume);
}

#[test]
fn oper_names_includes_action_only_targets() {
    let json = r#"{
        "stage_name": "1-7",
        "frame_replicator": {},
        "actions": [
            {"type":"Deploy","frame":0,"name":"山","location":[3,2]},
            {"type":"Deploy","frame":5,"name":"能天使","location":[4,1]}
        ]
    }"#;
    let c = Copilot::parse(json).unwrap();
    assert_eq!(c.oper_names(), vec!["山".to_owned(), "能天使".to_owned()]);
}

#[test]
fn deferred_targets_count_as_declared() {
    let json = r#"{"stage_name":"s","frame_replicator":{"deferred_targets":["Mon3tr"]},"opers":[{"name":"A"}],"actions":[{"type":"Deploy","frame":60,"name":"A","location":[3,2]},{"type":"Deploy","frame":120,"name":"Mon3tr","location":[4,2]}]}"#;
    let c = Copilot::parse(json).unwrap();
    assert_eq!(c.oper_names(), vec!["A"]);
    assert_eq!(c.deferred_target_names(), vec!["Mon3tr"]);
    let undeclared = json.replace("\"deferred_targets\":[\"Mon3tr\"]", "\"deferred_targets\":[]");
    assert!(matches!(
        Copilot::parse(&undeclared),
        Err(CopilotError::UndeclaredOper { index: 1, .. })
    ));
    let malformed = json.replace("[\"Mon3tr\"]", "[7]");
    assert!(matches!(Copilot::parse(&malformed), Err(CopilotError::Json(_))));
}
