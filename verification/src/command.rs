//! Control commands sent to the ruler, and the ruler's replies.
//!
//! Only the subset this project uses is implemented; destructive commands (closing the
//! ruler, deleting a calibration) are deliberately absent.
use vstd::prelude::*;

use crate::json::{self, JsonNumber, JsonValue};
use crate::text;

verus! {

/// How the ruler's HUD counts frames. Does not affect `totalElapsedFrames`.
#[derive(Clone, Copy, Debug, PartialEq, Eq, Structural)]
pub enum DisplayMode {
    ZeroToNMinusOne,
    ZeroToN,
    OneToN,
}

pub open spec fn display_mode_text(m: DisplayMode) -> Seq<char> {
    match m {
        DisplayMode::ZeroToNMinusOne => "0_to_n-1"@,
        DisplayMode::ZeroToN => "0_to_n"@,
        DisplayMode::OneToN => "1_to_n"@,
    }
}

impl DisplayMode {
    /// The protocol's name of the mode.
    pub fn as_str(self) -> (s: &'static str)
        ensures
            s@ == display_mode_text(self),
    {
        match self {
            DisplayMode::ZeroToNMinusOne => "0_to_n-1",
            DisplayMode::ZeroToN => "0_to_n",
            DisplayMode::OneToN => "1_to_n",
        }
    }
}

/// A command for the ruler.
#[derive(Clone, Debug, PartialEq)]
#[allow(inconsistent_fields)]
pub enum Command {
    /// Pull the current snapshot. Single-frame stepping polls with it (the ruler only
    /// pushes on change and stays silent while paused).
    GetSnapshot,
    /// The analysed frame `<= frame_id` of the current battle.
    GetFrame { frame_id: u64 },
    PrepareCalibration,
    StartCalibration,
    CancelCalibration,
    /// Switch the calibration profile.
    UseProfile { filename: String },
    /// Set how the HUD counts frames.
    SetDisplayMode { mode: DisplayMode },
    /// Move the timer by a number of frames, possibly negative.
    AdjustTimer { frames: i64 },
    /// Set the timer to an absolute frame number.
    SetTimer { frames: u64 },
    /// Reset the timer and clear the battle's frame history.
    ResetTimer,
}

/// The protocol's `type` of a command.
pub open spec fn command_action(c: Command) -> Seq<char> {
    match c {
        Command::GetSnapshot => "getSnapshot"@,
        Command::GetFrame { .. } => "getFrame"@,
        Command::PrepareCalibration => "prepareCalibration"@,
        Command::StartCalibration => "startCalibration"@,
        Command::CancelCalibration => "cancelCalibration"@,
        Command::UseProfile { .. } => "useProfile"@,
        Command::SetDisplayMode { .. } => "setDisplayMode"@,
        Command::AdjustTimer { .. } => "adjustTimer"@,
        Command::SetTimer { .. } => "setTimer"@,
        Command::ResetTimer => "resetTimer"@,
    }
}

spec fn display_mode_index(t: Seq<char>) -> int {
    if t == "0_to_n-1"@ {
        0
    }
    else if t == "0_to_n"@ {
        1
    }
    else if t == "1_to_n"@ {
        2
    } else {
        -1
    }
}

spec fn display_mode_position(k: DisplayMode) -> int {
    match k {
        DisplayMode::ZeroToNMinusOne => 0,
        DisplayMode::ZeroToN => 1,
        DisplayMode::OneToN => 2,
        _ => -1,
    }
}

proof fn lemma_display_mode_index_of(k: DisplayMode)
    requires
        true,
    ensures
        display_mode_index(display_mode_text(k)) == display_mode_position(k),
{
    match k {
        DisplayMode::ZeroToNMinusOne => {
            reveal_strlit("0_to_n-1");
            assert("0_to_n-1"@.len() == 8);
            assert(display_mode_index(display_mode_text(k)) == 0);
        },
        DisplayMode::ZeroToN => {
            reveal_strlit("0_to_n-1");
            assert("0_to_n-1"@.len() == 8);
            reveal_strlit("0_to_n");
            assert("0_to_n"@.len() == 6);
            assert(display_mode_index(display_mode_text(k)) == 1);
        },
        DisplayMode::OneToN => {
            reveal_strlit("0_to_n-1");
            assert("0_to_n-1"@.len() == 8);
            reveal_strlit("0_to_n");
            assert("0_to_n"@.len() == 6);
            reveal_strlit("1_to_n");
            assert("1_to_n"@.len() == 6);
            assert("1_to_n"@[0] != "0_to_n"@[0]);
            assert(display_mode_index(display_mode_text(k)) == 2);
        },
        _ => {},
    }
}

spec fn command_index(t: Seq<char>) -> int {
    if t == "getSnapshot"@ {
        0
    }
    else if t == "getFrame"@ {
        1
    }
    else if t == "prepareCalibration"@ {
        2
    }
    else if t == "startCalibration"@ {
        3
    }
    else if t == "cancelCalibration"@ {
        4
    }
    else if t == "useProfile"@ {
        5
    }
    else if t == "setDisplayMode"@ {
        6
    }
    else if t == "adjustTimer"@ {
        7
    }
    else if t == "setTimer"@ {
        8
    }
    else if t == "resetTimer"@ {
        9
    } else {
        -1
    }
}

spec fn command_position(k: Command) -> int {
    match k {
        Command::GetSnapshot => 0,
        Command::GetFrame { .. } => 1,
        Command::PrepareCalibration => 2,
        Command::StartCalibration => 3,
        Command::CancelCalibration => 4,
        Command::UseProfile { .. } => 5,
        Command::SetDisplayMode { .. } => 6,
        Command::AdjustTimer { .. } => 7,
        Command::SetTimer { .. } => 8,
        Command::ResetTimer => 9,
        _ => -1,
    }
}

proof fn lemma_command_index_of(k: Command)
    requires
        true,
    ensures
        command_index(command_action(k)) == command_position(k),
{
    match k {
        Command::GetSnapshot => {
            reveal_strlit("getSnapshot");
            assert("getSnapshot"@.len() == 11);
            assert(command_index(command_action(k)) == 0);
        },
        Command::GetFrame { .. } => {
            reveal_strlit("getSnapshot");
            assert("getSnapshot"@.len() == 11);
            reveal_strlit("getFrame");
            assert("getFrame"@.len() == 8);
            assert(command_index(command_action(k)) == 1);
        },
        Command::PrepareCalibration => {
            reveal_strlit("getSnapshot");
            assert("getSnapshot"@.len() == 11);
            reveal_strlit("getFrame");
            assert("getFrame"@.len() == 8);
            reveal_strlit("prepareCalibration");
            assert("prepareCalibration"@.len() == 18);
            assert(command_index(command_action(k)) == 2);
        },
        Command::StartCalibration => {
            reveal_strlit("getSnapshot");
            assert("getSnapshot"@.len() == 11);
            reveal_strlit("getFrame");
            assert("getFrame"@.len() == 8);
            reveal_strlit("prepareCalibration");
            assert("prepareCalibration"@.len() == 18);
            reveal_strlit("startCalibration");
            assert("startCalibration"@.len() == 16);
            assert(command_index(command_action(k)) == 3);
        },
        Command::CancelCalibration => {
            reveal_strlit("getSnapshot");
            assert("getSnapshot"@.len() == 11);
            reveal_strlit("getFrame");
            assert("getFrame"@.len() == 8);
            reveal_strlit("prepareCalibration");
            assert("prepareCalibration"@.len() == 18);
            reveal_strlit("startCalibration");
            assert("startCalibration"@.len() == 16);
            reveal_strlit("cancelCalibration");
            assert("cancelCalibration"@.len() == 17);
            assert(command_index(command_action(k)) == 4);
        },
        Command::UseProfile { .. } => {
            reveal_strlit("getSnapshot");
            assert("getSnapshot"@.len() == 11);
            reveal_strlit("getFrame");
            assert("getFrame"@.len() == 8);
            reveal_strlit("prepareCalibration");
            assert("prepareCalibration"@.len() == 18);
            reveal_strlit("startCalibration");
            assert("startCalibration"@.len() == 16);
            reveal_strlit("cancelCalibration");
            assert("cancelCalibration"@.len() == 17);
            reveal_strlit("useProfile");
            assert("useProfile"@.len() == 10);
            assert(command_index(command_action(k)) == 5);
        },
        Command::SetDisplayMode { .. } => {
            reveal_strlit("getSnapshot");
            assert("getSnapshot"@.len() == 11);
            reveal_strlit("getFrame");
            assert("getFrame"@.len() == 8);
            reveal_strlit("prepareCalibration");
            assert("prepareCalibration"@.len() == 18);
            reveal_strlit("startCalibration");
            assert("startCalibration"@.len() == 16);
            reveal_strlit("cancelCalibration");
            assert("cancelCalibration"@.len() == 17);
            reveal_strlit("useProfile");
            assert("useProfile"@.len() == 10);
            reveal_strlit("setDisplayMode");
            assert("setDisplayMode"@.len() == 14);
            assert(command_index(command_action(k)) == 6);
        },
        Command::AdjustTimer { .. } => {
            reveal_strlit("getSnapshot");
            assert("getSnapshot"@.len() == 11);
            reveal_strlit("getFrame");
            assert("getFrame"@.len() == 8);
            reveal_strlit("prepareCalibration");
            assert("prepareCalibration"@.len() == 18);
            reveal_strlit("startCalibration");
            assert("startCalibration"@.len() == 16);
            reveal_strlit("cancelCalibration");
            assert("cancelCalibration"@.len() == 17);
            reveal_strlit("useProfile");
            assert("useProfile"@.len() == 10);
            reveal_strlit("setDisplayMode");
            assert("setDisplayMode"@.len() == 14);
            reveal_strlit("adjustTimer");
            assert("adjustTimer"@.len() == 11);
            assert("adjustTimer"@[0] != "getSnapshot"@[0]);
            assert(command_index(command_action(k)) == 7);
        },
        Command::SetTimer { .. } => {
            reveal_strlit("getSnapshot");
            assert("getSnapshot"@.len() == 11);
            reveal_strlit("getFrame");
            assert("getFrame"@.len() == 8);
            reveal_strlit("prepareCalibration");
            assert("prepareCalibration"@.len() == 18);
            reveal_strlit("startCalibration");
            assert("startCalibration"@.len() == 16);
            reveal_strlit("cancelCalibration");
            assert("cancelCalibration"@.len() == 17);
            reveal_strlit("useProfile");
            assert("useProfile"@.len() == 10);
            reveal_strlit("setDisplayMode");
            assert("setDisplayMode"@.len() == 14);
            reveal_strlit("adjustTimer");
            assert("adjustTimer"@.len() == 11);
            reveal_strlit("setTimer");
            assert("setTimer"@.len() == 8);
            assert("setTimer"@[0] != "getFrame"@[0]);
            assert(command_index(command_action(k)) == 8);
        },
        Command::ResetTimer => {
            reveal_strlit("getSnapshot");
            assert("getSnapshot"@.len() == 11);
            reveal_strlit("getFrame");
            assert("getFrame"@.len() == 8);
            reveal_strlit("prepareCalibration");
            assert("prepareCalibration"@.len() == 18);
            reveal_strlit("startCalibration");
            assert("startCalibration"@.len() == 16);
            reveal_strlit("cancelCalibration");
            assert("cancelCalibration"@.len() == 17);
            reveal_strlit("useProfile");
            assert("useProfile"@.len() == 10);
            reveal_strlit("setDisplayMode");
            assert("setDisplayMode"@.len() == 14);
            reveal_strlit("adjustTimer");
            assert("adjustTimer"@.len() == 11);
            reveal_strlit("setTimer");
            assert("setTimer"@.len() == 8);
            reveal_strlit("resetTimer");
            assert("resetTimer"@.len() == 10);
            assert("resetTimer"@[0] != "useProfile"@[0]);
            assert(command_index(command_action(k)) == 9);
        },
        _ => {},
    }
}

/// Commands of different kinds carry different action names.
pub proof fn lemma_command_actions_distinct(a: Command, b: Command)
    requires
        command_action(a) == command_action(b),
    ensures
        a is GetSnapshot ==> b is GetSnapshot,
        a is GetFrame ==> b is GetFrame,
        a is PrepareCalibration ==> b is PrepareCalibration,
        a is StartCalibration ==> b is StartCalibration,
        a is CancelCalibration ==> b is CancelCalibration,
        a is UseProfile ==> b is UseProfile,
        a is SetDisplayMode ==> b is SetDisplayMode,
        a is AdjustTimer ==> b is AdjustTimer,
        a is SetTimer ==> b is SetTimer,
        a is ResetTimer ==> b is ResetTimer,
{
    lemma_command_index_of(a);
    lemma_command_index_of(b);
}

/// The three display modes have distinct names.
pub proof fn lemma_display_mode_names_distinct(a: DisplayMode, b: DisplayMode)
    requires
        display_mode_text(a) == display_mode_text(b),
    ensures
        a == b,
{
    lemma_display_mode_index_of(a);
    lemma_display_mode_index_of(b);
}

/// The JSON number of an unsigned integer.
pub open spec fn u64_number(u: u64) -> JsonNumber {
    JsonNumber {
        as_i64: if u <= i64::MAX {
            Some(u as i64)
        } else {
            None
        },
        as_u64: Some(u),
    }
}

/// The JSON number of a signed integer.
pub open spec fn i64_number(i: i64) -> JsonNumber {
    JsonNumber {
        as_i64: Some(i),
        as_u64: if i >= 0 {
            Some(i as u64)
        } else {
            None
        },
    }
}

/// The name and value of a command's parameter, if it has one.
pub open spec fn parameter_matches(key: Seq<char>, value: JsonValue, c: Command) -> bool {
    match c {
        Command::GetFrame { frame_id } => key == "frameId"@ && value == JsonValue::Number(
            u64_number(frame_id),
        ),
        Command::UseProfile { filename } => key == "filename"@ && value.text() == Some(filename@),
        Command::SetDisplayMode { mode } => key == "displayMode"@ && value.text() == Some(
            display_mode_text(mode),
        ),
        Command::AdjustTimer { frames } => key == "frames"@ && value == JsonValue::Number(
            i64_number(frames),
        ),
        Command::SetTimer { frames } => key == "frames"@ && value == JsonValue::Number(
            u64_number(frames),
        ),
        _ => false,
    }
}

pub open spec fn has_parameter(c: Command) -> bool {
    c is GetFrame || c is UseProfile || c is SetDisplayMode || c is AdjustTimer || c is SetTimer
}

/// Whether `v` is the message for `c`: an object of `type`, then `requestId` when one
/// is given, then the command's parameter.
pub open spec fn command_document(v: JsonValue, c: Command, request_id: Option<Seq<char>>) -> bool {
    match v {
        JsonValue::Object(members) => {
            let m = members@;
            let r: int = if request_id is Some {
                1
            } else {
                0
            };
            &&& m.len() == 1 + r + (if has_parameter(c) {
                1int
            } else {
                0
            })
            &&& m[0].0@ == "type"@ && m[0].1.text() == Some(command_action(c))
            &&& (request_id matches Some(id) ==> m[1].0@ == "requestId"@ && m[1].1.text() == Some(id))
            &&& (has_parameter(c) ==> parameter_matches(m[1 + r].0@, m[1 + r].1, c))
        },
        _ => false,
    }
}

pub open spec fn optional_view(s: Option<&str>) -> Option<Seq<char>> {
    match s {
        Some(t) => Some(t@),
        None => None,
    }
}

fn text_value(s: &str) -> (v: JsonValue)
    ensures
        v.text() == Some(s@),
{
    JsonValue::Str(s.to_string())
}

impl Command {
    /// The protocol's `type` field.
    pub fn action(&self) -> (s: &'static str)
        ensures
            s@ == command_action(*self),
    {
        match self {
            Command::GetSnapshot => "getSnapshot",
            Command::GetFrame { .. } => "getFrame",
            Command::PrepareCalibration => "prepareCalibration",
            Command::StartCalibration => "startCalibration",
            Command::CancelCalibration => "cancelCalibration",
            Command::UseProfile { .. } => "useProfile",
            Command::SetDisplayMode { .. } => "setDisplayMode",
            Command::AdjustTimer { .. } => "adjustTimer",
            Command::SetTimer { .. } => "setTimer",
            Command::ResetTimer => "resetTimer",
        }
    }

    /// The message as a JSON document; see [`command_document`].
    pub fn to_document(&self, request_id: Option<&str>) -> (v: JsonValue)
        ensures
            command_document(v, *self, optional_view(request_id)),
    {
        let mut members: Vec<(String, JsonValue)> = Vec::new();
        members.push((String::from_str("type"), text_value(self.action())));
        match request_id {
            Some(id) => members.push((String::from_str("requestId"), text_value(id))),
            None => {},
        }
        match self {
            Command::GetFrame { frame_id } => {
                members.push((String::from_str("frameId"), JsonValue::Number(u64_json(*frame_id))));
            },
            Command::UseProfile { filename } => {
                members.push((String::from_str("filename"), text_value(filename.as_str())));
            },
            Command::SetDisplayMode { mode } => {
                members.push((String::from_str("displayMode"), text_value(mode.as_str())));
            },
            Command::AdjustTimer { frames } => {
                members.push((String::from_str("frames"), JsonValue::Number(i64_json(*frames))));
            },
            Command::SetTimer { frames } => {
                members.push((String::from_str("frames"), JsonValue::Number(u64_json(*frames))));
            },
            _ => {},
        }
        JsonValue::Object(members)
    }

    /// The message as WebSocket text: [`Command::to_document`] printed by `serde_json`.
    pub fn to_json(&self, request_id: Option<&str>) -> (s: String)
        ensures
            exists|v: JsonValue|
                command_document(v, *self, optional_view(request_id)) && s@ == json::json_text(v),
    {
        let v = self.to_document(request_id);
        json::to_json_text(&v)
    }
}

fn u64_json(u: u64) -> (n: JsonNumber)
    ensures
        n == u64_number(u),
{
    JsonNumber {
        as_i64: if u <= 9223372036854775807u64 {
            Some(u as i64)
        } else {
            None
        },
        as_u64: Some(u),
    }
}

fn i64_json(i: i64) -> (n: JsonNumber)
    ensures
        n == i64_number(i),
{
    JsonNumber {
        as_i64: Some(i),
        as_u64: if i >= 0 {
            Some(i as u64)
        } else {
            None
        },
    }
}

// ---------------------------------------------------------------------------
// Inbound messages.
// ---------------------------------------------------------------------------

/// The ruler's reply to a request. Pushed snapshots come bare (top-level snapshot
/// fields, no `type`); only replies use this envelope.
#[derive(Debug, PartialEq)]
pub enum Envelope {
    Ack { request_id: Option<String>, action: String },
    Snapshot { request_id: Option<String>, payload: JsonValue },
    Frame {
        request_id: Option<String>,
        requested_frame_id: Option<u64>,
        actual_frame_id: Option<u64>,
        fell_back: bool,
        fallback_reason: Option<String>,
        frame: JsonValue,
    },
    Error { request_id: Option<String>, code: String, message: String },
}

/// One inbound WebSocket text message.
#[derive(Debug, PartialEq)]
pub enum Inbound {
    /// A snapshot the ruler pushed.
    Push(JsonValue),
    /// A reply to a request.
    Reply(Envelope),
}

/// A string member's text, if the member is a string.
pub open spec fn text_of(v: JsonValue, key: Seq<char>) -> Option<Seq<char>> {
    match v.field(key) {
        Some(f) => f.text(),
        None => None,
    }
}

/// An optional string's text.
pub open spec fn string_view(s: Option<String>) -> Option<Seq<char>> {
    match s {
        Some(t) => Some(t@),
        None => None,
    }
}

/// A member's value, `null` where absent.
pub open spec fn member_or_null(v: JsonValue, key: Seq<char>) -> JsonValue {
    match v.field(key) {
        Some(f) => f,
        None => JsonValue::Null,
    }
}

/// A member's unsigned value, if it is one.
pub open spec fn uint_of(v: JsonValue, key: Seq<char>) -> Option<u64> {
    match v.field(key) {
        Some(f) => f.uint(),
        None => None,
    }
}

/// Whether `r` is what the message `v` reads as: `None` for anything but an object or
/// for an unknown `type`; a push when `type` is not a string; else the reply.
pub open spec fn inbound_matches(v: JsonValue, r: Option<Inbound>) -> bool {
    if !(v is Object) {
        r is None
    } else {
        match text_of(v, "type"@) {
            None => r == Some(Inbound::Push(v)),
            Some(kind) => {
                let request_id = text_of(v, "requestId"@);
                if kind == "ack"@ {
                    r matches Some(Inbound::Reply(Envelope::Ack { request_id: rid, action }))
                        && string_view(rid) == request_id && action@ == match text_of(
                        v,
                        "action"@,
                    ) {
                        Some(t) => t,
                        None => Seq::empty(),
                    }
                } else if kind == "snapshot"@ {
                    r matches Some(Inbound::Reply(Envelope::Snapshot { request_id: rid, payload }))
                        && string_view(rid) == request_id && payload == member_or_null(
                        v,
                        "payload"@,
                    )
                } else if kind == "frame"@ {
                    r matches Some(
                        Inbound::Reply(
                            Envelope::Frame {
                                request_id: rid,
                                requested_frame_id,
                                actual_frame_id,
                                fell_back,
                                fallback_reason,
                                frame,
                            },
                        ),
                    ) && string_view(rid) == request_id && requested_frame_id == uint_of(
                        v,
                        "requestedFrameId"@,
                    ) && actual_frame_id == uint_of(v, "actualFrameId"@) && fell_back == (match v.field(
                        "fellBack"@,
                    ) {
                        Some(f) => f.boolean() == Some(true),
                        None => false,
                    }) && string_view(fallback_reason) == text_of(v, "fallbackReason"@) && frame
                        == member_or_null(v, "frame"@)
                } else if kind == "error"@ {
                    r matches Some(Inbound::Reply(Envelope::Error { request_id: rid, code, message }))
                        && string_view(rid) == request_id && code@ == match text_of(v, "code"@) {
                        Some(t) => t,
                        None => "unknown"@,
                    } && message@ == match text_of(v, "message"@) {
                        Some(t) => t,
                        None => Seq::empty(),
                    }
                } else {
                    r is None
                }
            },
        }
    }
}

fn empty_string() -> (s: String)
    ensures
        s@ == Seq::<char>::empty(),
{
    let s = String::new();
    assert(s@ =~= Seq::<char>::empty());
    s
}

/// A string member's text as an owned string.
fn read_text(v: &JsonValue, key: &str) -> (r: Option<String>)
    ensures
        string_view(r) == text_of(*v, key@),
{
    match v.get(key) {
        Some(f) => match f.as_str() {
            Some(t) => Some(t.to_string()),
            None => None,
        },
        None => None,
    }
}

/// Takes the member named `key` out of an object's members.
fn take_member(entries: Vec<(String, JsonValue)>, key: &str) -> (r: JsonValue)
    ensures
        r == match json::member(entries@, key@) {
            Some(f) => f,
            None => JsonValue::Null,
        },
{
    let mut members = entries;
    let ghost all = members@;
    let mut i: usize = 0;
    assert(all.skip(0) =~= all);
    while i < members.len()
        invariant
            members@ == all,
            all == entries@,
            i <= all.len(),
            json::member(all, key@) == json::member(all.skip(i as int), key@),
        decreases all.len() - i,
    {
        let ghost rest = all.skip(i as int);
        assert(rest.drop_first() =~= all.skip(i + 1));
        if text::str_eq(members[i].0.as_str(), key) {
            assert(rest[0] == all[i as int]);
            assert(json::member(rest, key@) == Some(rest[0].1));
            let (_, value) = members.remove(i);
            return value;
        }
        i = i + 1;
    }
    JsonValue::Null
}

/// Reads one inbound message out of its JSON document; see [`inbound_matches`].
pub fn inbound_from_json(value: JsonValue) -> (r: Option<Inbound>)
    ensures
        inbound_matches(value, r),
{
    if !value.is_object() {
        return None;
    }
    let kind = match read_text(&value, "type") {
        Some(k) => k,
        None => return Some(Inbound::Push(value)),
    };
    let request_id = read_text(&value, "requestId");
    if text::str_eq(kind.as_str(), "ack") {
        let action = match read_text(&value, "action") {
            Some(a) => a,
            None => empty_string(),
        };
        Some(Inbound::Reply(Envelope::Ack { request_id, action }))
    } else if text::str_eq(kind.as_str(), "snapshot") {
        let payload = match value {
            JsonValue::Object(members) => take_member(members, "payload"),
            _ => JsonValue::Null,
        };
        Some(Inbound::Reply(Envelope::Snapshot { request_id, payload }))
    } else if text::str_eq(kind.as_str(), "frame") {
        let requested_frame_id = match value.get("requestedFrameId") {
            Some(f) => f.as_u64(),
            None => None,
        };
        let actual_frame_id = match value.get("actualFrameId") {
            Some(f) => f.as_u64(),
            None => None,
        };
        let fell_back = match value.get("fellBack") {
            Some(f) => f.as_bool() == Some(true),
            None => false,
        };
        let fallback_reason = read_text(&value, "fallbackReason");
        let frame = match value {
            JsonValue::Object(members) => take_member(members, "frame"),
            _ => JsonValue::Null,
        };
        Some(
            Inbound::Reply(
                Envelope::Frame {
                    request_id,
                    requested_frame_id,
                    actual_frame_id,
                    fell_back,
                    fallback_reason,
                    frame,
                },
            ),
        )
    } else if text::str_eq(kind.as_str(), "error") {
        let code = match read_text(&value, "code") {
            Some(c) => c,
            None => String::from_str("unknown"),
        };
        let message = match read_text(&value, "message") {
            Some(m) => m,
            None => empty_string(),
        };
        Some(Inbound::Reply(Envelope::Error { request_id, code, message }))
    } else {
        None
    }
}

/// Parses one inbound text message: `None` when it is not JSON, not an object, or a
/// reply of an unknown type (to be logged and dropped; the connection stays).
pub fn parse_inbound(text: &str) -> (r: Option<Inbound>)
    ensures
        match json::json_document(text@) {
            Ok(v) => inbound_matches(v, r),
            Err(_) => r is None,
        },
{
    match json::parse_json(text) {
        Ok(v) => inbound_from_json(v),
        Err(_) => None,
    }
}

} // verus!
