use replicator::copilot::ActionType;
use replicator::formation::{
    roster_fingerprint, startup_binding_prompt_needed, BindingBridge, BindingResponse,
};
use replicator::geom::Direction;
use replicator::labels::{
    action_type_label, direction_index, direction_name, editor_kind_label, parse_editor_direction,
};
use replicator::runner::BindingMode;
use replicator::step_test::parse_pulses;

#[test]
fn invisible_job_names_do_not_reopen_startup_binding() {
    assert!(!startup_binding_prompt_needed(
        BindingMode::InteractiveAllowed,
        8,
        0,
    ));
    assert!(startup_binding_prompt_needed(
        BindingMode::InteractiveAllowed,
        8,
        2,
    ));
    assert!(!startup_binding_prompt_needed(
        BindingMode::AutomaticOnly,
        8,
        2,
    ));
}

#[test]
fn binding_bridge_delivers_confirmation_once() {
    let mut bridge = BindingBridge::new();
    bridge.submit(BindingResponse::Confirm(vec![(3, "极境".into())]));
    match bridge.take() {
        Some(BindingResponse::Confirm(choices)) => {
            assert_eq!(choices, vec![(3, "极境".into())]);
        }
        _ => panic!("confirmation was not delivered"),
    }
    assert!(bridge.take().is_none());
    bridge.submit(BindingResponse::Cancel);
    bridge.reset();
    assert!(bridge.take().is_none());
}

#[test]
fn formation_roster_fingerprint_is_order_independent() {
    let left = vec!["桃金娘".to_owned(), "风笛".to_owned()];
    let right = vec!["风笛".to_owned(), "桃金娘".to_owned()];
    assert_eq!(roster_fingerprint(&left), roster_fingerprint(&right));
    assert_ne!(
        roster_fingerprint(&left),
        roster_fingerprint(&["桃金娘".to_owned()])
    );
}

#[test]
fn pulse_count_defaults_to_and_caps_at_five_hundred() {
    assert_eq!(parse_pulses(None), Ok(500));
    assert_eq!(parse_pulses(Some("1")), Ok(1));
    assert_eq!(parse_pulses(Some("500")), Ok(500));
    assert!(parse_pulses(Some("0")).is_err());
    assert!(parse_pulses(Some("501")).is_err());
    assert!(parse_pulses(Some("abc")).is_err());
    assert_eq!(parse_pulses(Some("+7")), Ok(7));
    assert_eq!(parse_pulses(Some("abc")), Err("次数不是正整数：abc".to_owned()));
    assert_eq!(parse_pulses(Some("501")), Err("次数必须在 1..=500 之间，实际 501".to_owned()));
    assert!(parse_pulses(Some("99999999999")).is_err());
    assert!(parse_pulses(Some(" 5")).is_err());
}

#[test]
fn editor_directions_and_labels() {
    assert_eq!(parse_editor_direction("  LEFT "), Direction::Left);
    assert_eq!(parse_editor_direction("上"), Direction::Up);
    assert_eq!(parse_editor_direction("无方向"), Direction::NoDirection);
    assert_eq!(parse_editor_direction("none"), Direction::NoDirection);
    assert_eq!(parse_editor_direction("sideways"), Direction::Right);
    for d in [
        Direction::Up,
        Direction::Down,
        Direction::Left,
        Direction::Right,
        Direction::NoDirection,
    ] {
        assert_eq!(parse_editor_direction(direction_name(d)), d);
    }
    assert_eq!(direction_index(Direction::Up), 0);
    assert_eq!(direction_index(Direction::NoDirection), 4);
    assert_eq!(direction_name(Direction::NoDirection), "None");
    assert_eq!(action_type_label(ActionType::Retreat), "撤退");
    assert_eq!(action_type_label(ActionType::BulletTime), "不支持");
    assert_eq!(editor_kind_label("skill"), "技能");
    assert_eq!(editor_kind_label("SpeedUp"), "不支持");
    assert_eq!(editor_kind_label("Teleport"), "未知");
}
