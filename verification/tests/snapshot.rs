use replicator::snapshot::{BattleState, Snapshot};
use replicator::source::{ConnectionStatus, FrameError};
use replicator::speed::Speed;
use std::time::Duration;

/// The sample snapshot of the ruler's API document; it must parse as it stands.
const SAMPLE: &str = r#"{
  "apiVersion": 2, "appVersion": "v2.1.0", "isRunning": true,
  "currentFrame": 15, "totalFramesInCycle": 30, "totalElapsedFrames": 75,
  "activeProfile": "正常回费", "frameId": 4242, "sampleIndex": 311,
  "droppedSincePrevious": 2, "rawPixelWidth": 123, "costIsNegative": false,
  "battleState": "battle", "captureWidth": 1280, "captureHeight": 720,
  "captureFormat": "rgba", "captureTimestampNs": 1234567890,
  "captureDurationUs": 1500, "cursorBlocked": false,
  "displayMode": "0_to_n-1", "displayFrame": "15", "displayTotal": "/29",
  "time": "00:02:15", "lapFrames": null, "canUndoReset": true,
  "profiles": [], "historyOldestFrameId": 4200, "historyLatestFrameId": 4242,
  "timingDebug": { "requiredFp": 16777216, "speedFp": 559240,
    "accumulatorFp": 8388608, "advancedFrames": 1, "framesSinceCycleStart": 15,
    "framesUntilNextCost": 15, "matchErrorPx": 0, "boundaryCorrected": false }
}"#;

#[test]
fn parses_api_md_sample() {
    let s = Snapshot::parse(SAMPLE).unwrap();
    assert_eq!(s.api_version, 2);
    assert_eq!(s.total_elapsed_frames, 75);
    assert_eq!(s.frame_id, Some(4242));
    assert_eq!(s.current_frame, Some(15));
    assert_eq!(s.active_profile.as_deref(), Some("正常回费"));
    assert!(s.frame_reading_is_trustworthy());
    // "battle" in the document's sample is no real state: it must become Unknown, not
    // a parse failure.
    assert_eq!(
        s.battle_state,
        Some(BattleState::Unknown("battle".to_owned()))
    );
}

#[test]
fn parses_minimal_object() {
    let s = Snapshot::parse("{}").unwrap();
    assert_eq!(s.total_elapsed_frames, 0);
    assert_eq!(s.frame_id, None);
    assert!(!s.has_calibration());
    assert!(!s.frame_reading_is_trustworthy());
    assert_eq!(s.battle_state_str(), "<none>");
}

#[test]
fn real_battle_states_round_trip() {
    for raw in [
        "0.2x_running",
        "1x_running",
        "2x_running",
        "0.2x_paused",
        "1x_paused",
        "2x_paused",
        "deploying_operator",
        "adjusting_operator_facing",
        "battle_begin",
        "before_or_after_battle",
        "not_in_battle",
    ] {
        let st = BattleState::parse(raw);
        assert!(!matches!(st, BattleState::Unknown(_)), "{raw} unmapped");
        assert_eq!(st.as_str(), raw);
    }
}

#[test]
fn battle_state_predicates() {
    assert!(BattleState::OneXPaused.is_in_battle());
    assert!(BattleState::DeployingOperator.is_in_battle());
    assert!(!BattleState::BattleBegin.is_in_battle());
    assert_eq!(BattleState::OneXPaused.is_paused(), Some(true));
    assert_eq!(BattleState::OneXRunning.is_paused(), Some(false));
    // While an operator is placed the pause button is covered.
    assert_eq!(BattleState::DeployingOperator.is_paused(), None);
    assert!(BattleState::OneXRunning.is_one_x());
    assert!(!BattleState::TwoXRunning.is_one_x());
}

#[test]
fn cursor_blocked_reading_is_untrusted() {
    let s = Snapshot::parse(r#"{"isRunning":true,"currentFrame":3,"cursorBlocked":true}"#).unwrap();
    assert!(!s.frame_reading_is_trustworthy());
}

#[test]
fn speeds_of_battle_states() {
    assert_eq!(BattleState::PointTwoXPaused.speed(), Some(Speed::PointTwo));
    assert_eq!(BattleState::TwoXRunning.speed(), Some(Speed::Two));
    assert_eq!(BattleState::OneXPaused.speed(), Some(Speed::One));
    assert_eq!(BattleState::NotInBattle.speed(), None);
    assert_eq!(Speed::default(), Speed::One);
    assert_eq!(Speed::One.frames_per_second(), 30);
}

#[test]
fn wrongly_typed_fields_make_a_snapshot_unreadable() {
    assert!(Snapshot::parse(r#"{"frameId":"x"}"#).is_none());
    assert!(Snapshot::parse(r#"{"apiVersion":null}"#).is_none());
    assert!(Snapshot::parse(r#"{"currentFrame":3000000000}"#).is_none());
    assert!(Snapshot::parse("[1,2]").is_none());
    assert!(Snapshot::parse("not json").is_none());
    let s = Snapshot::parse(
        r#"{"frameId":null,"battleState":"1x_paused","profiles":[{"filename":"a.json","basename":"a","isActive":true}]}"#,
    )
    .unwrap();
    assert_eq!(s.frame_id, None);
    assert_eq!(s.battle_state, Some(BattleState::OneXPaused));
    assert_eq!(s.battle_state_str(), "1x_paused");
    assert_eq!(s.profiles.len(), 1);
    assert_eq!(s.profiles[0].basename, "a");
    assert_eq!(s.profiles[0].total_frames, "");
    assert!(s.profiles[0].is_active);
    assert!(Snapshot::parse(r#"{"profiles":[{"basename":"a"}]}"#).is_none());
}

#[test]
fn connection_status_and_frame_errors() {
    assert!(ConnectionStatus::Connected.is_connected());
    assert!(!ConnectionStatus::Connecting.is_connected());
    assert!(!ConnectionStatus::Disconnected.is_connected());
    assert_eq!(FrameError::NotConnected.message(), "尺子未连接");
    assert_eq!(
        FrameError::Timeout(Duration::from_millis(1500)).message(),
        "等待新分析帧超时（1.5s）"
    );
    assert_eq!(FrameError::Send("closed".to_owned()).message(), "发送命令失败：closed");
    assert_eq!(
        FrameError::Ruler { code: "invalid_request".to_owned(), message: "bad".to_owned() }.message(),
        "尺子返回错误 [invalid_request]：bad"
    );
}
