use replicator::copilot::Copilot;
use replicator::machine::Phase;
use replicator::runner::{
    classify_action_dispatch_sample, classify_action_sample, continuation_sample_ready,
    continuation_snapshot_plan, start_sample_ready, start_snapshot_ready, to_view,
    ActionRejectReason, ActionSampleDecision, BindingMode, BindingRequest, Progress, RunMode,
    StartupPhase,
};
use replicator::snapshot::Snapshot;

/// The same short example job as the continuation tests use.
const TEST1: &str = r#"{
    "stage_name": "main_01-07",
    "frame_replicator": { "version": 1, "speed": "1x", "after_last_action": "resume" },
    "opers": [ { "name": "桃金娘", "skill": 1 }, { "name": "风笛", "skill": 3 } ],
    "actions": [
        { "type": "Deploy",  "frame": 8,   "name": "桃金娘", "location": [3, 2], "direction": "Left" },
        { "type": "Deploy",  "frame": 40,  "name": "风笛", "location": [2, 3], "direction": "Right" },
        { "type": "Skill",   "frame": 100, "name": "桃金娘" },
        { "type": "Retreat", "frame": 180, "name": "桃金娘" },
        { "type": "Skill",   "frame": 240, "name": "风笛" },
        { "type": "Retreat", "frame": 245, "name": "风笛" }
    ]
}"#;

fn snapshot_json(state: &str, elapsed: i64, frame_id: u64, running: bool) -> Snapshot {
    Snapshot::parse(&format!(
        r#"{{"battleState":"{state}","totalElapsedFrames":{elapsed},"frameId":{frame_id},
             "isRunning":{running},"currentFrame":3,"cursorBlocked":false}}"#
    ))
    .unwrap()
}

#[test]
fn snapshot_maps_to_view() {
    let v = to_view(&snapshot_json("1x_paused", 42, 7, true));
    assert_eq!(v.elapsed, 42);
    assert_eq!(v.frame_id, 7);
    assert!(v.in_battle);
    assert_eq!(v.paused, Some(true));
    assert!(v.one_x);
    assert!(v.trustworthy);
    assert_eq!(v.battle_state, "1x_paused");
}

#[test]
fn start_sample_requires_authoritative_paused_battle_at_zero() {
    let paused = to_view(&snapshot_json("1x_paused", 0, 7, true));
    assert!(start_sample_ready(&paused, 10));

    let running = to_view(&snapshot_json("1x_running", 0, 7, true));
    assert!(!start_sample_ready(&running, 10));

    let late = to_view(&snapshot_json("1x_paused", 1, 7, true));
    assert!(!start_sample_ready(&late, 10));
    assert!(continuation_sample_ready(&late));
    assert!(!continuation_sample_ready(&paused));
}

#[test]
fn continuation_requires_positive_authoritative_paused_frame_and_remaining_action() {
    let job = Copilot::parse(TEST1).unwrap();
    let frame_one = snapshot_json("1x_paused", 1, 7, true);
    let plan = continuation_snapshot_plan(&frame_one, &job).unwrap();
    assert_eq!(plan.next_action_index, 0);

    let frame_eleven = snapshot_json("1x_paused", 11, 8, true);
    let plan = continuation_snapshot_plan(&frame_eleven, &job).unwrap();
    assert_eq!(plan.next_action_index, 1);
    assert_eq!(RunMode::Continue(plan).assumed_action_count(), 1);
    assert_eq!(RunMode::FromZero.assumed_action_count(), 0);

    assert!(
        continuation_snapshot_plan(&snapshot_json("1x_running", 11, 9, true), &job).is_none()
    );
    assert!(
        continuation_snapshot_plan(&snapshot_json("1x_paused", 249, 10, true), &job).is_none()
    );
}

#[test]
fn start_snapshot_requires_frame_id_for_focus_watermark() {
    let mut snapshot = snapshot_json("1x_paused", 0, 7, true);
    assert!(start_snapshot_ready(&snapshot, 10));
    snapshot.frame_id = None;
    assert!(!start_snapshot_ready(&snapshot, 10));
}

#[test]
fn two_x_is_flagged() {
    let v = to_view(&snapshot_json("2x_running", 10, 1, true));
    assert!(v.in_battle);
    assert!(!v.one_x, "2x must be recognised");
    assert_eq!(v.paused, Some(false));
}

#[test]
fn deploying_state_has_unknown_pause() {
    // While an operator is placed the pause button is covered.
    let v = to_view(&snapshot_json("deploying_operator", 10, 1, true));
    assert!(v.in_battle);
    assert_eq!(v.paused, None);
    assert!(!v.one_x);
}

#[test]
fn not_running_snapshot_is_untrustworthy() {
    let v = to_view(&snapshot_json("1x_running", 10, 1, false));
    assert!(!v.trustworthy, "an isRunning=false reading is not trustworthy");
}

#[test]
fn cursor_blocked_snapshot_is_untrustworthy() {
    let s = Snapshot::parse(
        r#"{"battleState":"1x_running","totalElapsedFrames":10,"frameId":1,
            "isRunning":true,"currentFrame":3,"cursorBlocked":true}"#,
    )
    .unwrap();
    assert!(!to_view(&s).trustworthy);
}

#[test]
fn missing_battle_state_is_not_in_battle() {
    let s = Snapshot::parse(r#"{"totalElapsedFrames":0}"#).unwrap();
    let v = to_view(&s);
    assert!(!v.in_battle);
    assert!(!v.one_x);
    assert_eq!(v.paused, None);
    assert_eq!(v.frame_id, 0);
    assert_eq!(v.battle_state, "<none>");
}

#[test]
fn action_confirmation_rejects_running_state_even_when_sample_is_untrusted() {
    let view = to_view(&snapshot_json("1x_running", 60, 8, false));
    assert_eq!(
        classify_action_sample(&view, 60),
        ActionSampleDecision::Reject(ActionRejectReason::Running)
    );
}

#[test]
fn action_confirmation_tolerates_only_paused_point_two_transition() {
    let view = to_view(&snapshot_json("0.2x_paused", 60, 8, true));
    assert_eq!(classify_action_sample(&view, 60), ActionSampleDecision::Ignore);
}

#[test]
fn action_confirmation_accepts_new_one_x_paused_target_sample() {
    let view = to_view(&snapshot_json("1x_paused", 60, 8, true));
    assert_eq!(classify_action_sample(&view, 60), ActionSampleDecision::Confirm);
    assert_eq!(classify_action_dispatch_sample(&view, 60), Ok(Some(8)));
}

#[test]
fn action_confirmation_rejects_wrong_target_frame() {
    let view = to_view(&snapshot_json("1x_paused", 61, 8, true));
    assert_eq!(
        classify_action_sample(&view, 60),
        ActionSampleDecision::Reject(ActionRejectReason::WrongFrame)
    );
    assert_eq!(
        classify_action_dispatch_sample(&view, 60),
        Err("动作派发前尺子状态不满足目标：绝对帧与目标不一致 frame_id=8 state=1x_paused elapsed=61".to_owned())
    );
}

#[test]
fn other_samples_are_decided_in_order() {
    let left = to_view(&snapshot_json("not_in_battle", 60, 8, true));
    assert_eq!(
        classify_action_sample(&left, 60),
        ActionSampleDecision::Reject(ActionRejectReason::LeftBattle)
    );
    let two_x = to_view(&snapshot_json("2x_paused", 60, 8, true));
    assert_eq!(
        classify_action_sample(&two_x, 60),
        ActionSampleDecision::Reject(ActionRejectReason::NotOneX)
    );
    let placing = to_view(&snapshot_json("deploying_operator", 60, 8, true));
    assert_eq!(classify_action_sample(&placing, 60), ActionSampleDecision::Ignore);
    assert_eq!(classify_action_dispatch_sample(&placing, 60), Ok(None));
    assert_eq!(ActionRejectReason::NotOneX.message(), "倍速不是 1x");
}

#[test]
fn startup_labels_and_requests() {
    assert_eq!(StartupPhase::WaitingGameFocus.zh(), "等待游戏回到前台");
    assert_eq!(StartupPhase::VerifyingTakeover.zh(), "验证接管样本");
    let request = BindingRequest::Deferred { target: "风笛".to_owned(), frame: 40 };
    assert_ne!(request, BindingRequest::Startup { mode: BindingMode::AutomaticOnly });
    let event = Progress::Phase { phase: Phase::Idle, cursor: 0, target: None };
    assert!(matches!(event, Progress::Phase { cursor: 0, .. }));
}
