use replicator::command::{parse_inbound, Command, DisplayMode, Envelope, Inbound};
use serde_json::Value;

#[test]
fn commands_match_api_md_examples() {
    assert_eq!(
        Command::GetSnapshot.to_json(Some("snap-1")),
        r#"{"requestId":"snap-1","type":"getSnapshot"}"#
    );
    let v: Value =
        serde_json::from_str(&Command::GetFrame { frame_id: 4241 }.to_json(Some("f"))).unwrap();
    assert_eq!(v["type"], "getFrame");
    assert_eq!(v["frameId"], 4241);

    let v: Value =
        serde_json::from_str(&Command::AdjustTimer { frames: -30 }.to_json(None)).unwrap();
    assert_eq!(v["type"], "adjustTimer");
    assert_eq!(v["frames"], -30);
    assert!(v.get("requestId").is_none());

    let v: Value = serde_json::from_str(
        &Command::SetDisplayMode {
            mode: DisplayMode::OneToN,
        }
        .to_json(None),
    )
    .unwrap();
    assert_eq!(v["displayMode"], "1_to_n");
}

#[test]
fn other_commands_carry_their_parameters() {
    let v: Value = serde_json::from_str(
        &Command::UseProfile { filename: "正常回费.json".to_owned() }.to_json(None),
    )
    .unwrap();
    assert_eq!(v["type"], "useProfile");
    assert_eq!(v["filename"], "正常回费.json");
    let v: Value = serde_json::from_str(&Command::SetTimer { frames: 90 }.to_json(None)).unwrap();
    assert_eq!(v["frames"], 90);
    assert_eq!(Command::ResetTimer.to_json(None), r#"{"type":"resetTimer"}"#);
    assert_eq!(Command::CancelCalibration.action(), "cancelCalibration");
    assert_eq!(DisplayMode::ZeroToNMinusOne.as_str(), "0_to_n-1");
}

#[test]
fn bare_object_is_a_push() {
    let msg = parse_inbound(r#"{"isRunning":true,"totalElapsedFrames":7}"#).unwrap();
    match msg {
        Inbound::Push(v) => assert_eq!(v.get("totalElapsedFrames").and_then(|f| f.as_i64()), Some(7)),
        other => panic!("expected push, got {other:?}"),
    }
}

#[test]
fn typed_envelopes_parse() {
    let msg = parse_inbound(r#"{"type":"ack","requestId":"r1","action":"command"}"#).unwrap();
    assert!(matches!(msg, Inbound::Reply(Envelope::Ack { .. })));

    let msg =
        parse_inbound(r#"{"type":"snapshot","requestId":"r2","payload":{"frameId":9}}"#).unwrap();
    match msg {
        Inbound::Reply(Envelope::Snapshot { payload, .. }) => {
            assert_eq!(payload.get("frameId").and_then(|f| f.as_u64()), Some(9))
        }
        other => panic!("expected snapshot reply, got {other:?}"),
    }

    let msg = parse_inbound(
        r#"{"type":"error","requestId":"r4","code":"invalid_request","message":"bad"}"#,
    )
    .unwrap();
    match msg {
        Inbound::Reply(Envelope::Error { code, message, .. }) => {
            assert_eq!(code, "invalid_request");
            assert_eq!(message, "bad");
        }
        other => panic!("expected error reply, got {other:?}"),
    }

    let msg = parse_inbound(
        r#"{"type":"frame","requestedFrameId":4241,"actualFrameId":4240,"fellBack":true,
            "fallbackReason":"frame_skipped","frame":{"frameId":4240}}"#,
    )
    .unwrap();
    match msg {
        Inbound::Reply(Envelope::Frame {
            actual_frame_id,
            fell_back,
            fallback_reason,
            ..
        }) => {
            assert_eq!(actual_frame_id, Some(4240));
            assert!(fell_back);
            assert_eq!(fallback_reason.as_deref(), Some("frame_skipped"));
        }
        other => panic!("expected frame reply, got {other:?}"),
    }
}

#[test]
fn envelope_defaults() {
    match parse_inbound(r#"{"type":"error"}"#).unwrap() {
        Inbound::Reply(Envelope::Error { request_id, code, message }) => {
            assert_eq!(request_id, None);
            assert_eq!(code, "unknown");
            assert_eq!(message, "");
        }
        other => panic!("expected error reply, got {other:?}"),
    }
    match parse_inbound(r#"{"type":"snapshot"}"#).unwrap() {
        Inbound::Reply(Envelope::Snapshot { payload, .. }) => assert!(payload.get("x").is_none()),
        other => panic!("expected snapshot reply, got {other:?}"),
    }
    // A non-string type is no envelope: the object is a pushed snapshot.
    assert!(matches!(parse_inbound(r#"{"type":3}"#), Some(Inbound::Push(_))));
}

#[test]
fn garbage_is_dropped_not_fatal() {
    assert!(parse_inbound("not json").is_none());
    assert!(parse_inbound("[1,2,3]").is_none());
    assert!(parse_inbound(r#"{"type":"someFutureThing"}"#).is_none());
}
