//! The data model of a ruler snapshot.
//!
//! Field names and meanings follow the ruler's API (`apiVersion = 2`). Only the fields
//! this project uses are read; unknown fields are ignored and absent ones take their
//! defaults, so additive upstream changes do not break the client.
use vstd::prelude::*;

use crate::json::{self, JsonValue};
use crate::speed::Speed;
use crate::text;

verus! {

/// The ruler API version this client targets. A higher version is logged and accepted
/// (upstream only adds fields and keeps the old top-level ones).
pub const EXPECTED_API_VERSION: u32 = 2;

/// Battle state, as the ruler names it.
#[derive(Clone, Debug, PartialEq)]
pub enum BattleState {
    /// 0.2x running: the slow motion while an operator is selected or a card dragged.
    PointTwoXRunning,
    OneXRunning,
    TwoXRunning,
    PointTwoXPaused,
    OneXPaused,
    TwoXPaused,
    /// An operator is being dragged onto the field.
    DeployingOperator,
    /// An operator's facing is being chosen.
    AdjustingOperatorFacing,
    /// The opening title; the ruler resets its timer here.
    BattleBegin,
    /// Loading or results, around a battle.
    BeforeOrAfterBattle,
    NotInBattle,
    /// A state this client does not know, kept verbatim for the logs.
    Unknown(String),
}

/// The ruler's name of a state.
pub open spec fn battle_state_text(b: BattleState) -> Seq<char> {
    match b {
        BattleState::PointTwoXRunning => "0.2x_running"@,
        BattleState::OneXRunning => "1x_running"@,
        BattleState::TwoXRunning => "2x_running"@,
        BattleState::PointTwoXPaused => "0.2x_paused"@,
        BattleState::OneXPaused => "1x_paused"@,
        BattleState::TwoXPaused => "2x_paused"@,
        BattleState::DeployingOperator => "deploying_operator"@,
        BattleState::AdjustingOperatorFacing => "adjusting_operator_facing"@,
        BattleState::BattleBegin => "battle_begin"@,
        BattleState::BeforeOrAfterBattle => "before_or_after_battle"@,
        BattleState::NotInBattle => "not_in_battle"@,
        BattleState::Unknown(s) => s@,
    }
}

/// Whether `t` names one of the known states.
pub open spec fn is_known_state_name(t: Seq<char>) -> bool {
    t == "0.2x_running"@ || t == "1x_running"@ || t == "2x_running"@ || t == "0.2x_paused"@ || t
        == "1x_paused"@ || t == "2x_paused"@ || t == "deploying_operator"@ || t
        == "adjusting_operator_facing"@ || t == "battle_begin"@ || t == "before_or_after_battle"@
        || t == "not_in_battle"@
}

/// In battle: running or paused at any speed, or placing an operator.
pub open spec fn in_battle_spec(b: BattleState) -> bool {
    match b {
        BattleState::PointTwoXRunning | BattleState::OneXRunning | BattleState::TwoXRunning
        | BattleState::PointTwoXPaused | BattleState::OneXPaused | BattleState::TwoXPaused
        | BattleState::DeployingOperator | BattleState::AdjustingOperatorFacing => true,
        _ => false,
    }
}

/// Whether time is frozen; unknown while the pause button is covered.
pub open spec fn paused_spec(b: BattleState) -> Option<bool> {
    match b {
        BattleState::PointTwoXPaused | BattleState::OneXPaused | BattleState::TwoXPaused => Some(
            true,
        ),
        BattleState::PointTwoXRunning | BattleState::OneXRunning | BattleState::TwoXRunning => Some(
            false,
        ),
        _ => None,
    }
}

/// The speed setting, where the state shows one.
pub open spec fn speed_spec(b: BattleState) -> Option<Speed> {
    match b {
        BattleState::OneXRunning | BattleState::OneXPaused => Some(Speed::One),
        BattleState::TwoXRunning | BattleState::TwoXPaused => Some(Speed::Two),
        BattleState::PointTwoXRunning | BattleState::PointTwoXPaused => Some(Speed::PointTwo),
        _ => None,
    }
}

/// Which states are in battle: every state that shows a speed (running or paused at any
/// speed) and both steps of placing an operator (deploying, choosing its facing) are;
/// only the battle's opening, the screens before and after it, the menus and unknown
/// states are not.
pub proof fn lemma_in_battle_states(b: BattleState)
    ensures
        speed_spec(b) is Some ==> in_battle_spec(b),
        paused_spec(b) is Some ==> in_battle_spec(b),
        in_battle_spec(BattleState::DeployingOperator),
        in_battle_spec(BattleState::AdjustingOperatorFacing),
        !in_battle_spec(b) <==> (b is BattleBegin || b is BeforeOrAfterBattle || b is NotInBattle
            || b is Unknown),
        paused_spec(b) is Some <==> speed_spec(b) is Some,
        paused_spec(BattleState::DeployingOperator) is None,
        paused_spec(BattleState::AdjustingOperatorFacing) is None,
        speed_spec(b) == Some(Speed::One) <==> (b is OneXRunning || b is OneXPaused),
        paused_spec(b) == Some(true) <==> (b is PointTwoXPaused || b is OneXPaused || b is TwoXPaused),
{
}

impl BattleState {
    /// Reads the ruler's name of a state; an unknown name is kept as `Unknown`.
    pub fn parse(s: &str) -> (r: Self)
        ensures
            battle_state_text(r) == s@,
            (r is Unknown) == !is_known_state_name(s@),
    {
        if text::str_eq(s, "0.2x_running") {
            BattleState::PointTwoXRunning
        } else if text::str_eq(s, "1x_running") {
            BattleState::OneXRunning
        } else if text::str_eq(s, "2x_running") {
            BattleState::TwoXRunning
        } else if text::str_eq(s, "0.2x_paused") {
            BattleState::PointTwoXPaused
        } else if text::str_eq(s, "1x_paused") {
            BattleState::OneXPaused
        } else if text::str_eq(s, "2x_paused") {
            BattleState::TwoXPaused
        } else if text::str_eq(s, "deploying_operator") {
            BattleState::DeployingOperator
        } else if text::str_eq(s, "adjusting_operator_facing") {
            BattleState::AdjustingOperatorFacing
        } else if text::str_eq(s, "battle_begin") {
            BattleState::BattleBegin
        } else if text::str_eq(s, "before_or_after_battle") {
            BattleState::BeforeOrAfterBattle
        } else if text::str_eq(s, "not_in_battle") {
            BattleState::NotInBattle
        } else {
            BattleState::Unknown(s.to_string())
        }
    }

    /// Whether a battle is going on (the ruler's `is_in_battle`): pauses, the deploy
    /// slow motion and choosing a facing all count.
    pub fn is_in_battle(&self) -> (b: bool)
        ensures
            b == in_battle_spec(*self),
    {
        match self {
            BattleState::PointTwoXRunning | BattleState::OneXRunning | BattleState::TwoXRunning
            | BattleState::PointTwoXPaused | BattleState::OneXPaused | BattleState::TwoXPaused
            | BattleState::DeployingOperator | BattleState::AdjustingOperatorFacing => true,
            _ => false,
        }
    }

    /// Whether the pause button shows "play", i.e. time is frozen. While an operator is
    /// being placed the button is covered and the answer is `None`.
    pub fn is_paused(&self) -> (r: Option<bool>)
        ensures
            r == paused_spec(*self),
    {
        match self {
            BattleState::PointTwoXPaused | BattleState::OneXPaused | BattleState::TwoXPaused => Some(
                true,
            ),
            BattleState::PointTwoXRunning | BattleState::OneXRunning | BattleState::TwoXRunning => Some(
                false,
            ),
            _ => None,
        }
    }

    /// The current speed setting, `None` where the state does not show it.
    pub fn speed(&self) -> (r: Option<Speed>)
        ensures
            r == speed_spec(*self),
    {
        match self {
            BattleState::OneXRunning | BattleState::OneXPaused => Some(Speed::One),
            BattleState::TwoXRunning | BattleState::TwoXPaused => Some(Speed::Two),
            BattleState::PointTwoXRunning | BattleState::PointTwoXPaused => Some(Speed::PointTwo),
            _ => None,
        }
    }

    /// Frame mode requires 1x speed.
    pub fn is_one_x(&self) -> (b: bool)
        ensures
            b == (speed_spec(*self) == Some(Speed::One)),
    {
        match self {
            BattleState::OneXRunning | BattleState::OneXPaused => true,
            _ => false,
        }
    }

    /// The ruler's name of the state.
    pub fn as_str(&self) -> (s: &str)
        ensures
            s@ == battle_state_text(*self),
    {
        match self {
            BattleState::PointTwoXRunning => "0.2x_running",
            BattleState::OneXRunning => "1x_running",
            BattleState::TwoXRunning => "2x_running",
            BattleState::PointTwoXPaused => "0.2x_paused",
            BattleState::OneXPaused => "1x_paused",
            BattleState::TwoXPaused => "2x_paused",
            BattleState::DeployingOperator => "deploying_operator",
            BattleState::AdjustingOperatorFacing => "adjusting_operator_facing",
            BattleState::BattleBegin => "battle_begin",
            BattleState::BeforeOrAfterBattle => "before_or_after_battle",
            BattleState::NotInBattle => "not_in_battle",
            BattleState::Unknown(s) => s.as_str(),
        }
    }
}

/// Reading a known state's name gives the state back.
pub proof fn lemma_battle_state_names_round_trip(b: BattleState)
    requires
        !(b is Unknown),
    ensures
        is_known_state_name(battle_state_text(b)),
{
}

spec fn battle_state_index(t: Seq<char>) -> int {
    if t == "0.2x_running"@ {
        0
    }
    else if t == "1x_running"@ {
        1
    }
    else if t == "2x_running"@ {
        2
    }
    else if t == "0.2x_paused"@ {
        3
    }
    else if t == "1x_paused"@ {
        4
    }
    else if t == "2x_paused"@ {
        5
    }
    else if t == "deploying_operator"@ {
        6
    }
    else if t == "adjusting_operator_facing"@ {
        7
    }
    else if t == "battle_begin"@ {
        8
    }
    else if t == "before_or_after_battle"@ {
        9
    }
    else if t == "not_in_battle"@ {
        10
    } else {
        -1
    }
}

spec fn battle_state_position(k: BattleState) -> int {
    match k {
        BattleState::PointTwoXRunning => 0,
        BattleState::OneXRunning => 1,
        BattleState::TwoXRunning => 2,
        BattleState::PointTwoXPaused => 3,
        BattleState::OneXPaused => 4,
        BattleState::TwoXPaused => 5,
        BattleState::DeployingOperator => 6,
        BattleState::AdjustingOperatorFacing => 7,
        BattleState::BattleBegin => 8,
        BattleState::BeforeOrAfterBattle => 9,
        BattleState::NotInBattle => 10,
        _ => -1,
    }
}

proof fn lemma_battle_state_index_of(k: BattleState)
    requires
        !(k is Unknown),
    ensures
        battle_state_index(battle_state_text(k)) == battle_state_position(k),
{
    match k {
        BattleState::PointTwoXRunning => {
            reveal_strlit("0.2x_running");
            assert("0.2x_running"@.len() == 12);
            assert(battle_state_index(battle_state_text(k)) == 0);
        },
        BattleState::OneXRunning => {
            reveal_strlit("0.2x_running");
            assert("0.2x_running"@.len() == 12);
            reveal_strlit("1x_running");
            assert("1x_running"@.len() == 10);
            assert(battle_state_index(battle_state_text(k)) == 1);
        },
        BattleState::TwoXRunning => {
            reveal_strlit("0.2x_running");
            assert("0.2x_running"@.len() == 12);
            reveal_strlit("1x_running");
            assert("1x_running"@.len() == 10);
            reveal_strlit("2x_running");
            assert("2x_running"@.len() == 10);
            assert("2x_running"@[0] != "1x_running"@[0]);
            assert(battle_state_index(battle_state_text(k)) == 2);
        },
        BattleState::PointTwoXPaused => {
            reveal_strlit("0.2x_running");
            assert("0.2x_running"@.len() == 12);
            reveal_strlit("1x_running");
            assert("1x_running"@.len() == 10);
            reveal_strlit("2x_running");
            assert("2x_running"@.len() == 10);
            reveal_strlit("0.2x_paused");
            assert("0.2x_paused"@.len() == 11);
            assert(battle_state_index(battle_state_text(k)) == 3);
        },
        BattleState::OneXPaused => {
            reveal_strlit("0.2x_running");
            assert("0.2x_running"@.len() == 12);
            reveal_strlit("1x_running");
            assert("1x_running"@.len() == 10);
            reveal_strlit("2x_running");
            assert("2x_running"@.len() == 10);
            reveal_strlit("0.2x_paused");
            assert("0.2x_paused"@.len() == 11);
            reveal_strlit("1x_paused");
            assert("1x_paused"@.len() == 9);
            assert(battle_state_index(battle_state_text(k)) == 4);
        },
        BattleState::TwoXPaused => {
            reveal_strlit("0.2x_running");
            assert("0.2x_running"@.len() == 12);
            reveal_strlit("1x_running");
            assert("1x_running"@.len() == 10);
            reveal_strlit("2x_running");
            assert("2x_running"@.len() == 10);
            reveal_strlit("0.2x_paused");
            assert("0.2x_paused"@.len() == 11);
            reveal_strlit("1x_paused");
            assert("1x_paused"@.len() == 9);
            reveal_strlit("2x_paused");
            assert("2x_paused"@.len() == 9);
            assert("2x_paused"@[0] != "1x_paused"@[0]);
            assert(battle_state_index(battle_state_text(k)) == 5);
        },
        BattleState::DeployingOperator => {
            reveal_strlit("0.2x_running");
            assert("0.2x_running"@.len() == 12);
            reveal_strlit("1x_running");
            assert("1x_running"@.len() == 10);
            reveal_strlit("2x_running");
            assert("2x_running"@.len() == 10);
            reveal_strlit("0.2x_paused");
            assert("0.2x_paused"@.len() == 11);
            reveal_strlit("1x_paused");
            assert("1x_paused"@.len() == 9);
            reveal_strlit("2x_paused");
            assert("2x_paused"@.len() == 9);
            reveal_strlit("deploying_operator");
            assert("deploying_operator"@.len() == 18);
            assert(battle_state_index(battle_state_text(k)) == 6);
        },
        BattleState::AdjustingOperatorFacing => {
            reveal_strlit("0.2x_running");
            assert("0.2x_running"@.len() == 12);
            reveal_strlit("1x_running");
            assert("1x_running"@.len() == 10);
            reveal_strlit("2x_running");
            assert("2x_running"@.len() == 10);
            reveal_strlit("0.2x_paused");
            assert("0.2x_paused"@.len() == 11);
            reveal_strlit("1x_paused");
            assert("1x_paused"@.len() == 9);
            reveal_strlit("2x_paused");
            assert("2x_paused"@.len() == 9);
            reveal_strlit("deploying_operator");
            assert("deploying_operator"@.len() == 18);
            reveal_strlit("adjusting_operator_facing");
            assert("adjusting_operator_facing"@.len() == 25);
            assert(battle_state_index(battle_state_text(k)) == 7);
        },
        BattleState::BattleBegin => {
            reveal_strlit("0.2x_running");
            assert("0.2x_running"@.len() == 12);
            reveal_strlit("1x_running");
            assert("1x_running"@.len() == 10);
            reveal_strlit("2x_running");
            assert("2x_running"@.len() == 10);
            reveal_strlit("0.2x_paused");
            assert("0.2x_paused"@.len() == 11);
            reveal_strlit("1x_paused");
            assert("1x_paused"@.len() == 9);
            reveal_strlit("2x_paused");
            assert("2x_paused"@.len() == 9);
            reveal_strlit("deploying_operator");
            assert("deploying_operator"@.len() == 18);
            reveal_strlit("adjusting_operator_facing");
            assert("adjusting_operator_facing"@.len() == 25);
            reveal_strlit("battle_begin");
            assert("battle_begin"@.len() == 12);
            assert("battle_begin"@[0] != "0.2x_running"@[0]);
            assert(battle_state_index(battle_state_text(k)) == 8);
        },
        BattleState::BeforeOrAfterBattle => {
            reveal_strlit("0.2x_running");
            assert("0.2x_running"@.len() == 12);
            reveal_strlit("1x_running");
            assert("1x_running"@.len() == 10);
            reveal_strlit("2x_running");
            assert("2x_running"@.len() == 10);
            reveal_strlit("0.2x_paused");
            assert("0.2x_paused"@.len() == 11);
            reveal_strlit("1x_paused");
            assert("1x_paused"@.len() == 9);
            reveal_strlit("2x_paused");
            assert("2x_paused"@.len() == 9);
            reveal_strlit("deploying_operator");
            assert("deploying_operator"@.len() == 18);
            reveal_strlit("adjusting_operator_facing");
            assert("adjusting_operator_facing"@.len() == 25);
            reveal_strlit("battle_begin");
            assert("battle_begin"@.len() == 12);
            reveal_strlit("before_or_after_battle");
            assert("before_or_after_battle"@.len() == 22);
            assert(battle_state_index(battle_state_text(k)) == 9);
        },
        BattleState::NotInBattle => {
            reveal_strlit("0.2x_running");
            assert("0.2x_running"@.len() == 12);
            reveal_strlit("1x_running");
            assert("1x_running"@.len() == 10);
            reveal_strlit("2x_running");
            assert("2x_running"@.len() == 10);
            reveal_strlit("0.2x_paused");
            assert("0.2x_paused"@.len() == 11);
            reveal_strlit("1x_paused");
            assert("1x_paused"@.len() == 9);
            reveal_strlit("2x_paused");
            assert("2x_paused"@.len() == 9);
            reveal_strlit("deploying_operator");
            assert("deploying_operator"@.len() == 18);
            reveal_strlit("adjusting_operator_facing");
            assert("adjusting_operator_facing"@.len() == 25);
            reveal_strlit("battle_begin");
            assert("battle_begin"@.len() == 12);
            reveal_strlit("before_or_after_battle");
            assert("before_or_after_battle"@.len() == 22);
            reveal_strlit("not_in_battle");
            assert("not_in_battle"@.len() == 13);
            assert(battle_state_index(battle_state_text(k)) == 10);
        },
        _ => {},
    }
}

/// Known states have distinct names.
pub proof fn lemma_battle_state_names_distinct(a: BattleState, b: BattleState)
    requires
        !(a is Unknown),
        !(b is Unknown),
        battle_state_text(a) == battle_state_text(b),
    ensures
        a == b,
{
    lemma_battle_state_index_of(a);
    lemma_battle_state_index_of(b);
}

/// A calibration profile entry.
#[derive(Clone, Debug, PartialEq)]
pub struct Profile {
    pub filename: String,
    pub basename: String,
    pub total_frames: String,
    pub resolution: String,
    pub is_active: bool,
}

/// One ruler snapshot.
#[derive(Clone, Debug, PartialEq)]
pub struct Snapshot {
    pub api_version: u32,
    pub app_version: String,
    /// Whether a valid cost bar is recognised.
    pub is_running: bool,
    /// The raw logical frame inside the current cost cycle; `None` when this sample was
    /// not accepted (frozen).
    pub current_frame: Option<i32>,
    /// Logical frames elapsed in this battle: the absolute frame number. Reset at
    /// `battle_begin`.
    pub total_elapsed_frames: i64,
    pub total_frames_in_cycle: i32,
    /// Base name of the loaded calibration profile; without one the ruler cannot count.
    pub active_profile: Option<String>,
    /// Monotonic capture frame number: tells a new sample from a repeated one (the
    /// ruler only pushes on change, so a paused game yields the same snapshot again).
    pub frame_id: Option<u64>,
    pub sample_index: u64,
    pub dropped_since_previous: u64,
    pub raw_pixel_width: Option<i32>,
    pub cost_is_negative: bool,
    pub battle_state: Option<BattleState>,
    pub capture_width: Option<u32>,
    pub capture_height: Option<u32>,
    pub capture_timestamp_ns: Option<u64>,
    pub capture_duration_us: Option<u64>,
    /// Whether the drawn cursor covers the cost bar. Such a reading is invalid and must
    /// not be taken for "the frame did not advance".
    pub cursor_blocked: bool,
    /// Formatted timer, `MM:SS:FF`.
    pub time: String,
    pub profiles: Vec<Profile>,
}

/// Whether a snapshot's frame reading can be trusted: a cost bar is recognised, the
/// sample was accepted and the cursor does not cover the bar. Otherwise
/// `total_elapsed_frames` still holds the previous value.
pub open spec fn trustworthy_spec(s: Snapshot) -> bool {
    s.is_running && s.current_frame is Some && !s.cursor_blocked
}

impl Snapshot {
    /// See [`trustworthy_spec`].
    pub fn frame_reading_is_trustworthy(&self) -> (b: bool)
        ensures
            b == trustworthy_spec(*self),
    {
        self.is_running && self.current_frame.is_some() && !self.cursor_blocked
    }

    /// Whether the ruler has loaded a calibration profile; without one there are no
    /// frame numbers.
    pub fn has_calibration(&self) -> (b: bool)
        ensures
            b == self.active_profile is Some,
    {
        self.active_profile.is_some()
    }

    /// The state's name, or `<none>`.
    pub fn battle_state_str(&self) -> (s: &str)
        ensures
            s@ == match self.battle_state {
                Some(b) => battle_state_text(b),
                None => "<none>"@,
            },
    {
        match &self.battle_state {
            Some(b) => b.as_str(),
            None => "<none>",
        }
    }
}

// ---------------------------------------------------------------------------
// Reading a snapshot out of a JSON document.
// ---------------------------------------------------------------------------

/// Whether `v` is a profile entry: an object with string `filename` and `basename`,
/// and well-typed optional `totalFrames`, `resolution` and `isActive`.
pub open spec fn profile_readable(v: JsonValue) -> bool {
    &&& v is Object
    &&& v.field("filename"@) is Some && v.field("filename"@)->0.text() is Some
    &&& v.field("basename"@) is Some && v.field("basename"@)->0.text() is Some
    &&& json::default_text(v, "totalFrames"@) is Some
    &&& json::default_text(v, "resolution"@) is Some
    &&& json::default_bool(v, "isActive"@) is Some
}

/// Whether `p` is what the profile entry `v` holds.
pub open spec fn profile_matches(v: JsonValue, p: Profile) -> bool {
    &&& Some(p.filename@) == v.field("filename"@)->0.text()
    &&& Some(p.basename@) == v.field("basename"@)->0.text()
    &&& json::default_text(v, "totalFrames"@) == Some(p.total_frames@)
    &&& json::default_text(v, "resolution"@) == Some(p.resolution@)
    &&& json::default_bool(v, "isActive"@) == Some(p.is_active)
}

/// Whether `v` holds a list of profile entries (absent means none).
pub open spec fn profiles_readable(v: JsonValue) -> bool {
    match v.field("profiles"@) {
        None => true,
        Some(f) => match f.items() {
            Some(items) => forall|i: int| 0 <= i < items.len() ==> profile_readable(#[trigger] items[i]),
            None => false,
        },
    }
}

/// Whether `ps` are the profile entries `v` lists.
pub open spec fn profiles_match(v: JsonValue, ps: Seq<Profile>) -> bool {
    match v.field("profiles"@) {
        None => ps.len() == 0,
        Some(f) => match f.items() {
            Some(items) => items.len() == ps.len() && forall|i: int|
                0 <= i < items.len() ==> profile_matches(#[trigger] items[i], ps[i]),
            None => false,
        },
    }
}

/// Whether `v` is a snapshot: an object whose known fields, where present, have
/// their types (`battleState` is a string or `null`).
pub open spec fn snapshot_readable(v: JsonValue) -> bool {
    &&& v is Object
    &&& json::default_u32(v, "apiVersion"@) is Some
    &&& json::default_text(v, "appVersion"@) is Some
    &&& json::default_bool(v, "isRunning"@) is Some
    &&& json::optional_i32(v, "currentFrame"@) is Some
    &&& json::default_i64(v, "totalElapsedFrames"@) is Some
    &&& json::default_i32(v, "totalFramesInCycle"@) is Some
    &&& json::optional_text(v, "activeProfile"@) is Some
    &&& json::optional_u64(v, "frameId"@) is Some
    &&& json::default_u64(v, "sampleIndex"@) is Some
    &&& json::default_u64(v, "droppedSincePrevious"@) is Some
    &&& json::optional_i32(v, "rawPixelWidth"@) is Some
    &&& json::default_bool(v, "costIsNegative"@) is Some
    &&& json::optional_text(v, "battleState"@) is Some
    &&& json::optional_u32(v, "captureWidth"@) is Some
    &&& json::optional_u32(v, "captureHeight"@) is Some
    &&& json::optional_u64(v, "captureTimestampNs"@) is Some
    &&& json::optional_u64(v, "captureDurationUs"@) is Some
    &&& json::default_bool(v, "cursorBlocked"@) is Some
    &&& json::default_text(v, "time"@) is Some
    &&& profiles_readable(v)
}

/// The text of an optional string.
pub open spec fn optional_view(s: Option<String>) -> Option<Seq<char>> {
    match s {
        Some(t) => Some(t@),
        None => None,
    }
}

/// The state named by `battleState`, seen through its name.
pub open spec fn battle_state_view(b: Option<BattleState>) -> Option<Seq<char>> {
    match b {
        Some(x) => Some(battle_state_text(x)),
        None => None,
    }
}

/// Whether `s` is the snapshot that `v` describes.
pub open spec fn snapshot_matches(v: JsonValue, s: Snapshot) -> bool {
    &&& json::default_u32(v, "apiVersion"@) == Some(s.api_version)
    &&& json::default_text(v, "appVersion"@) == Some(s.app_version@)
    &&& json::default_bool(v, "isRunning"@) == Some(s.is_running)
    &&& json::optional_i32(v, "currentFrame"@) == Some(s.current_frame)
    &&& json::default_i64(v, "totalElapsedFrames"@) == Some(s.total_elapsed_frames)
    &&& json::default_i32(v, "totalFramesInCycle"@) == Some(s.total_frames_in_cycle)
    &&& json::optional_text(v, "activeProfile"@) == Some(optional_view(s.active_profile))
    &&& json::optional_u64(v, "frameId"@) == Some(s.frame_id)
    &&& json::default_u64(v, "sampleIndex"@) == Some(s.sample_index)
    &&& json::default_u64(v, "droppedSincePrevious"@) == Some(s.dropped_since_previous)
    &&& json::optional_i32(v, "rawPixelWidth"@) == Some(s.raw_pixel_width)
    &&& json::default_bool(v, "costIsNegative"@) == Some(s.cost_is_negative)
    &&& json::optional_text(v, "battleState"@) == Some(battle_state_view(s.battle_state))
    &&& json::optional_u32(v, "captureWidth"@) == Some(s.capture_width)
    &&& json::optional_u32(v, "captureHeight"@) == Some(s.capture_height)
    &&& json::optional_u64(v, "captureTimestampNs"@) == Some(s.capture_timestamp_ns)
    &&& json::optional_u64(v, "captureDurationUs"@) == Some(s.capture_duration_us)
    &&& json::default_bool(v, "cursorBlocked"@) == Some(s.cursor_blocked)
    &&& json::default_text(v, "time"@) == Some(s.time@)
    &&& profiles_match(v, s.profiles@)
}

fn read_profile(v: &JsonValue) -> (r: Option<Profile>)
    ensures
        match r {
            Some(p) => profile_readable(*v) && profile_matches(*v, p),
            None => !profile_readable(*v),
        },
{
    if !v.is_object() {
        return None;
    }
    let filename = match v.get("filename") {
        Some(f) => match f.as_str() {
            Some(t) => t.to_string(),
            None => return None,
        },
        None => return None,
    };
    let basename = match v.get("basename") {
        Some(f) => match f.as_str() {
            Some(t) => t.to_string(),
            None => return None,
        },
        None => return None,
    };
    let total_frames = match json::read_default_text(v, "totalFrames") {
        Some(t) => t,
        None => return None,
    };
    let resolution = match json::read_default_text(v, "resolution") {
        Some(t) => t,
        None => return None,
    };
    let is_active = match json::read_default_bool(v, "isActive") {
        Some(b) => b,
        None => return None,
    };
    Some(Profile { filename, basename, total_frames, resolution, is_active })
}

fn read_profiles(v: &JsonValue) -> (r: Option<Vec<Profile>>)
    ensures
        match r {
            Some(ps) => profiles_readable(*v) && profiles_match(*v, ps@),
            None => !profiles_readable(*v),
        },
{
    match v.get("profiles") {
        None => Some(Vec::new()),
        Some(f) => match f.as_array() {
            None => None,
            Some(items) => {
                let mut out: Vec<Profile> = Vec::new();
                let mut i: usize = 0;
                while i < items.len()
                    invariant
                        v.field("profiles"@) == Some(*f),
                        f.items() == Some(items@),
                        i <= items@.len(),
                        out@.len() == i,
                        forall|j: int| 0 <= j < i ==> profile_readable(#[trigger] items@[j]),
                        forall|j: int| 0 <= j < i ==> profile_matches(#[trigger] items@[j], out@[j]),
                    decreases items@.len() - i,
                {
                    match read_profile(&items[i]) {
                        Some(p) => out.push(p),
                        None => {
                            assert(!profile_readable(items@[i as int]));
                            let ghost listed = v.field("profiles"@)->0;
                            assert(listed.items() == Some(items@));
                            assert(!profiles_readable(*v));
                            return None;
                        },
                    }
                    i = i + 1;
                }
                Some(out)
            },
        },
    }
}

impl Snapshot {
    /// Reads a snapshot out of a JSON document, the way the ruler's messages are
    /// decoded: unknown fields are ignored, absent ones take their defaults, and a
    /// present field of the wrong type makes the document unreadable (`None`).
    pub fn from_json(v: &JsonValue) -> (r: Option<Snapshot>)
        ensures
            match r {
                Some(s) => snapshot_readable(*v) && snapshot_matches(*v, s),
                None => !snapshot_readable(*v),
            },
    {
        if !v.is_object() {
            return None;
        }
        let api_version = match json::read_default_u32(v, "apiVersion") {
            Some(x) => x,
            None => return None,
        };
        let app_version = match json::read_default_text(v, "appVersion") {
            Some(x) => x,
            None => return None,
        };
        let is_running = match json::read_default_bool(v, "isRunning") {
            Some(x) => x,
            None => return None,
        };
        let current_frame = match json::read_optional_i32(v, "currentFrame") {
            Some(x) => x,
            None => return None,
        };
        let total_elapsed_frames = match json::read_default_i64(v, "totalElapsedFrames") {
            Some(x) => x,
            None => return None,
        };
        let total_frames_in_cycle = match json::read_default_i32(v, "totalFramesInCycle") {
            Some(x) => x,
            None => return None,
        };
        let active_profile = match json::read_optional_text(v, "activeProfile") {
            Some(x) => x,
            None => return None,
        };
        let frame_id = match json::read_optional_u64(v, "frameId") {
            Some(x) => x,
            None => return None,
        };
        let sample_index = match json::read_default_u64(v, "sampleIndex") {
            Some(x) => x,
            None => return None,
        };
        let dropped_since_previous = match json::read_default_u64(v, "droppedSincePrevious") {
            Some(x) => x,
            None => return None,
        };
        let raw_pixel_width = match json::read_optional_i32(v, "rawPixelWidth") {
            Some(x) => x,
            None => return None,
        };
        let cost_is_negative = match json::read_default_bool(v, "costIsNegative") {
            Some(x) => x,
            None => return None,
        };
        let battle_state = match json::read_optional_text(v, "battleState") {
            Some(Some(name)) => Some(BattleState::parse(name.as_str())),
            Some(None) => None,
            None => return None,
        };
        let capture_width = match json::read_optional_u32(v, "captureWidth") {
            Some(x) => x,
            None => return None,
        };
        let capture_height = match json::read_optional_u32(v, "captureHeight") {
            Some(x) => x,
            None => return None,
        };
        let capture_timestamp_ns = match json::read_optional_u64(v, "captureTimestampNs") {
            Some(x) => x,
            None => return None,
        };
        let capture_duration_us = match json::read_optional_u64(v, "captureDurationUs") {
            Some(x) => x,
            None => return None,
        };
        let cursor_blocked = match json::read_default_bool(v, "cursorBlocked") {
            Some(x) => x,
            None => return None,
        };
        let time = match json::read_default_text(v, "time") {
            Some(x) => x,
            None => return None,
        };
        let profiles = match read_profiles(v) {
            Some(x) => x,
            None => return None,
        };
        Some(
            Snapshot {
                api_version,
                app_version,
                is_running,
                current_frame,
                total_elapsed_frames,
                total_frames_in_cycle,
                active_profile,
                frame_id,
                sample_index,
                dropped_since_previous,
                raw_pixel_width,
                cost_is_negative,
                battle_state,
                capture_width,
                capture_height,
                capture_timestamp_ns,
                capture_duration_us,
                cursor_blocked,
                time,
                profiles,
            },
        )
    }

    /// Parses a snapshot from JSON text: `None` when the text is not JSON or does not
    /// describe a snapshot (see [`Snapshot::from_json`]).
    pub fn parse(text: &str) -> (r: Option<Snapshot>)
        ensures
            match json::json_document(text@) {
                Ok(v) => match r {
                    Some(s) => snapshot_readable(v) && snapshot_matches(v, s),
                    None => !snapshot_readable(v),
                },
                Err(_) => r is None,
            },
    {
        match json::parse_json(text) {
            Ok(v) => Snapshot::from_json(&v),
            Err(_) => None,
        }
    }
}

} // verus!
