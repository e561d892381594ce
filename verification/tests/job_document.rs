use replicator::geom::{Direction, Point};
use replicator::job_document::{ActionDraft, DiagnosticSeverity, JobDocument, JobDocumentError};
use serde_json::Value;

const JOB: &str = r#"{
    "_comment": ["keep me"],
    "stage_name": "main_01-07",
    "frame_replicator": {"version": 1, "speed": "1x", "after_last_action": "pause", "future": 9},
    "doc": {"title": "测试", "details": "说明", "author": "Doctor"},
    "opers": [{"name": "桃金娘", "skill": 1, "skill_usage": 0}],
    "actions": [
        {"type": "Deploy", "frame": 60, "name": "桃金娘", "location": [3, 2], "direction": "Right", "kills": 0},
        {"type": "Skill", "frame": 90, "name": "桃金娘", "costs": 12}
    ]
}"#;

fn saved(document: &JobDocument) -> Value {
    serde_json::from_str(&document.to_pretty_json().unwrap()).unwrap()
}

#[test]
fn unknown_fields_survive_round_trip_and_edit() {
    let mut document = JobDocument::parse(JOB).unwrap();
    document.set_title("改名".to_string());
    let mut action = document.actions()[0].clone();
    action.frame = Some(61);
    document.update_action(&action).unwrap();

    let value = saved(&document);
    assert_eq!(value["_comment"][0], "keep me");
    assert_eq!(value["frame_replicator"]["future"], 9);
    assert_eq!(value["doc"]["author"], "Doctor");
    assert_eq!(value["opers"][0]["skill_usage"], 0);
    assert_eq!(value["actions"][0]["kills"], 0);
    assert_eq!(value["actions"][1]["costs"], 12);
    assert_eq!(value["actions"][0]["frame"], 61);
}

#[test]
fn invalid_draft_can_save_but_not_compile() {
    let mut document = JobDocument::default();
    let action = document.new_action("Deploy".to_string(), None);
    document.insert_action(action);
    let saved = document.to_pretty_json().unwrap();
    assert!(saved.contains("Deploy"));
    assert!(document.has_errors());
    assert!(document.compile().is_err());
}

#[test]
fn valid_document_compiles_through_existing_model() {
    let document = JobDocument::parse(JOB).unwrap();
    let compiled = document.compile().unwrap();
    assert_eq!(compiled.stage_name, "main_01-07");
    assert_eq!(compiled.actions.len(), 2);
    assert_eq!(compiled.actions[0].frame, 60);
}

#[test]
fn same_frame_order_is_explicit_and_stable() {
    let mut document = JobDocument::parse(JOB).unwrap();
    let mut action = document.new_action("Output".to_string(), Some(90));
    action.doc = "同帧注释".into();
    let new_id = action.id;
    document.insert_action(action);
    let actions = document.actions();
    assert_eq!(actions[1].kind, "Skill");
    assert_eq!(actions[2].id, new_id);
    assert!(document.move_within_same_frame(new_id, -1));
    let actions = document.actions();
    assert_eq!(actions[1].id, new_id);
    assert_eq!(actions[2].kind, "Skill");
}

#[test]
fn renaming_operator_updates_action_references() {
    let mut document = JobDocument::parse(JOB).unwrap();
    assert!(document.rename_operator("桃金娘", "风笛"));
    assert_eq!(document.operator_names(), vec!["风笛"]);
    assert!(document.actions().iter().all(|action| action.name == "风笛"));
    assert!(!document.remove_operator("风笛"));
    for id in document.actions().iter().map(|action| action.id).collect::<Vec<_>>() {
        document.remove_action(id);
    }
    assert!(document.remove_operator("风笛"));
}

#[test]
fn diagnostics_allow_early_frame_without_obsolete_blind_spot_warning() {
    let early = JOB.replace("\"frame\": 60", "\"frame\": 10");
    let document = JobDocument::parse(&early).unwrap();
    assert!(!document
        .diagnostics()
        .iter()
        .any(|diagnostic| diagnostic.message.contains("第 60 帧")));
    assert!(document.compile().is_ok());
}

#[test]
fn malformed_known_action_fields_remain_openable() {
    let document = JobDocument::parse(
        r#"{"stage_name":"x","frame_replicator":true,"actions":[{"type":3,"frame":"later","extra":7}]}"#,
    )
    .unwrap();
    assert_eq!(document.actions().len(), 1);
    let saved = saved(&document);
    assert_eq!(saved["actions"][0]["extra"], 7);
    assert!(document.has_errors());
}

#[test]
fn opening_refuses_bad_json_and_non_objects() {
    match JobDocument::parse("{") {
        Err(JobDocumentError::Json(_)) => {}
        _ => panic!("expected a JSON error"),
    }
    match JobDocument::parse("[1, 2]") {
        Err(JobDocumentError::RootNotObject) => {}
        _ => panic!("expected a root error"),
    }
    assert_eq!(JobDocumentError::RootNotObject.message(), "作业 JSON 顶层必须是对象");
    assert_eq!(JobDocumentError::ActionNotFound(42).message(), "找不到动作 42");
}

#[test]
fn a_new_document_is_untitled_and_has_no_actions() {
    let document = JobDocument::default();
    assert_eq!(document.stage_name(), "");
    assert_eq!(document.title(), "未命名作业");
    assert_eq!(document.details(), "");
    assert!(document.actions().is_empty());
    assert!(document.operator_names().is_empty());
    let value = saved(&document);
    assert_eq!(value["frame_replicator"]["version"], 1);
    assert_eq!(value["frame_replicator"]["speed"], "1x");
    assert_eq!(value["frame_replicator"]["after_last_action"], "pause");
    let diagnostics = document.diagnostics();
    let fields: Vec<&str> = diagnostics.iter().map(|d| d.field.as_str()).collect();
    assert_eq!(fields, vec!["stage_name", "actions"]);
    assert_eq!(diagnostics[0].message, "作业缺少关卡标识");
    assert_eq!(diagnostics[1].message, "作业里一个动作都没有");
}

#[test]
fn text_fields_are_read_back_after_setting() {
    let mut document = JobDocument::parse(r#"{"doc": 5}"#).unwrap();
    document.set_stage_name("main_02-01".to_string());
    document.set_details("细节".to_string());
    assert_eq!(document.stage_name(), "main_02-01");
    assert_eq!(document.details(), "细节");
    assert_eq!(document.title(), "");
}

#[test]
fn new_actions_get_fresh_numbers_after_the_opened_ones() {
    let mut document = JobDocument::parse(JOB).unwrap();
    let ids: Vec<u64> = document.actions().iter().map(|a| a.id.get()).collect();
    assert_eq!(ids, vec![1, 2]);
    let draft = document.new_action("Retreat".to_string(), Some(200));
    assert_eq!(draft.id.get(), 3);
    assert_eq!(draft.direction, Direction::Right);
    assert_eq!(draft.location, None);
    let copy = document.duplicate_action(draft.id);
    assert_eq!(copy, None);
}

#[test]
fn duplicating_copies_right_after_the_original() {
    let mut document = JobDocument::parse(JOB).unwrap();
    let first = document.actions()[0].id;
    let copy = document.duplicate_action(first).unwrap();
    assert_eq!(copy.get(), 3);
    let actions = document.actions();
    assert_eq!(actions.len(), 3);
    assert_eq!(actions[1].id, copy);
    assert_eq!(actions[1].frame, Some(60));
    assert_eq!(actions[1].location, Some(Point::new(3, 2)));
    assert_eq!(saved(&document)["actions"][1]["kills"], 0);
}

#[test]
fn updating_a_frame_reorders_the_actions() {
    let mut document = JobDocument::parse(JOB).unwrap();
    let mut first = document.actions()[0].clone();
    first.frame = Some(120);
    first.direction = Direction::Up;
    first.name = String::new();
    document.update_action(&first).unwrap();
    let actions = document.actions();
    assert_eq!(actions[0].kind, "Skill");
    assert_eq!(actions[1].id, first.id);
    let value = saved(&document);
    assert_eq!(value["actions"][1]["direction"], "Up");
    assert!(value["actions"][1].get("name").is_none());
    assert_eq!(value["actions"][1]["kills"], 0);

    let missing = ActionDraft::new(first.id, "Deploy".to_string(), None);
    let mut gone = JobDocument::default();
    match gone.update_action(&missing) {
        Err(JobDocumentError::ActionNotFound(n)) => assert_eq!(n, 1),
        _ => panic!("expected ActionNotFound"),
    }
}

#[test]
fn moving_needs_a_neighbour_with_the_same_frame() {
    let mut document = JobDocument::parse(JOB).unwrap();
    let first = document.actions()[0].id;
    assert!(!document.move_within_same_frame(first, 1));
    assert!(!document.move_within_same_frame(first, -1));
    assert!(!document.move_within_same_frame(first, isize::MAX));
    assert!(document.move_within_same_frame(first, 0));
    assert_eq!(document.actions()[0].id, first);
}

#[test]
fn removing_an_action_gives_back_its_fields() {
    let mut document = JobDocument::parse(JOB).unwrap();
    let second = document.actions()[1].id;
    let removed = document.remove_action(second).unwrap();
    assert_eq!(removed.kind, "Skill");
    assert_eq!(removed.frame, Some(90));
    assert_eq!(document.actions().len(), 1);
    assert!(document.remove_action(second).is_none());
    assert!(document.action(second).is_none());
}

#[test]
fn deferred_targets_live_in_the_frame_replicator_block() {
    let mut document = JobDocument::parse(JOB).unwrap();
    document.add_deferred_target("Mon3tr".to_string());
    document.add_deferred_target("桃金娘".to_string());
    assert_eq!(document.deferred_target_names(), vec!["Mon3tr", "桃金娘"]);
    assert_eq!(document.target_names(), vec!["桃金娘", "Mon3tr"]);
    let value = saved(&document);
    assert_eq!(value["frame_replicator"]["deferred_targets"][0], "Mon3tr");
    assert_eq!(value["frame_replicator"]["future"], 9);
    assert_eq!(value["opers"].as_array().unwrap().len(), 1);

    assert!(document.rename_deferred_target("Mon3tr", "召唤物"));
    assert!(!document.rename_deferred_target("Mon3tr", "x"));
    assert_eq!(document.deferred_target_names(), vec!["召唤物", "桃金娘"]);
    assert!(document.remove_deferred_target("召唤物"));
    assert!(!document.remove_deferred_target("召唤物"));
    assert!(!document.remove_deferred_target("桃金娘"));
    assert_eq!(document.deferred_target_names(), vec!["桃金娘"]);
}

#[test]
fn operators_are_added_and_counted() {
    let mut document = JobDocument::parse(JOB).unwrap();
    document.add_operator("风笛".to_string(), 3);
    assert_eq!(document.operator_names(), vec!["桃金娘", "风笛"]);
    assert_eq!(saved(&document)["opers"][1]["skill"], 3);
    assert_eq!(document.operator_reference_count("桃金娘"), 2);
    assert_eq!(document.operator_reference_count("风笛"), 0);
    assert!(!document.rename_operator("不存在", "x"));
    assert!(document.remove_operator("风笛"));
    assert_eq!(document.operator_names(), vec!["桃金娘"]);
}

#[test]
fn diagnostics_report_each_problem_of_an_action() {
    let job = r#"{
        "stage_name": "main_01-07",
        "frame_replicator": {"speed": "2x"},
        "opers": [{"name": "桃金娘"}],
        "actions": [
            {"type": "Deploy", "frame": 30, "name": "桃金娘"},
            {"type": "Deploy", "frame": 20, "name": "桃金娘", "location": [1, 1]},
            {"type": "Skill", "name": "风笛"},
            {"type": "Retreat", "frame": 40, "name": "史尔特尔"},
            {"type": "SpeedUp", "frame": 50},
            {"type": "飞", "frame": -1}
        ]
    }"#;
    let document = JobDocument::parse(job).unwrap();
    let found: Vec<(DiagnosticSeverity, String, String)> = document
        .diagnostics()
        .into_iter()
        .map(|d| (d.severity, d.field, d.message))
        .collect();
    let e = DiagnosticSeverity::Error;
    let w = DiagnosticSeverity::Warning;
    let expected = vec![
        (e, "frame_replicator.speed", "帧复刻当前只支持 1x"),
        (e, "location", "部署动作缺少格子"),
        (e, "frame", "动作帧号必须按非递减顺序排列"),
        (w, "name", "干员 `桃金娘` 在未记录撤退前再次部署"),
        (e, "frame", "动作缺少绝对帧"),
        (e, "name", "目标 `风笛` 未在编队或延迟目标中声明"),
        (w, "name", "干员 `风笛` 在部署记录之前使用技能"),
        (e, "name", "目标 `史尔特尔` 未在编队或延迟目标中声明"),
        (w, "name", "干员 `史尔特尔` 在部署记录之前撤退"),
        (e, "type", "帧复刻不支持动作 `SpeedUp`"),
        (e, "type", "无法识别动作类型 `飞`"),
        (e, "frame", "帧号不能为负数"),
    ];
    let expected: Vec<(DiagnosticSeverity, String, String)> = expected
        .into_iter()
        .map(|(s, f, m)| (s, f.to_string(), m.to_string()))
        .collect();
    assert_eq!(found, expected);
    assert!(document.has_errors());
}

#[test]
fn a_clean_document_has_no_diagnostics() {
    let document = JobDocument::parse(JOB).unwrap();
    assert!(document.diagnostics().is_empty());
    assert!(!document.has_errors());
}

#[test]
fn deferred_targets_are_saved_outside_the_startup_formation() {
    let mut document = JobDocument::parse(JOB).unwrap();
    document.add_deferred_target("Mon3tr".to_string());
    let mut action = document.new_action("Deploy".to_string(), Some(120));
    action.name = "Mon3tr".into();
    action.location = Some(Point::new(4, 2));
    document.insert_action(action);

    let compiled = document.compile().unwrap();
    assert_eq!(compiled.oper_names(), vec!["桃金娘"]);
    assert_eq!(compiled.deferred_target_names(), vec!["Mon3tr"]);
    assert_eq!(document.target_names(), vec!["桃金娘", "Mon3tr"]);
    let saved: Value = serde_json::from_str(&document.to_pretty_json().unwrap()).unwrap();
    assert_eq!(saved["frame_replicator"]["deferred_targets"][0], "Mon3tr");
    assert_eq!(saved["opers"].as_array().unwrap().len(), 1);
}

#[test]
fn fractional_numbers_survive_saving() {
    let job = JOB.replace("\"future\": 9", "\"future\": 1.5");
    let document = JobDocument::parse(&job).unwrap();
    let value = saved(&document);
    assert_eq!(value["frame_replicator"]["future"], 1.5);
}
