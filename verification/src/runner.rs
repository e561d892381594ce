//! The decisions of the run loop.
//!
//! The loop itself is thin and lives with the application: it takes a command from the
//! machine, does the work (input, capture, waiting on the ruler) and reports back. What
//! it decides on the way — whether a ruler sample allows starting or continuing, and
//! whether a sample confirms an action — is here.
use vstd::prelude::*;

use crate::continuation::{self, ContinuationPlan};
use crate::copilot::{supported_spec, Copilot};
use crate::machine::{FrameView, Phase};
use crate::snapshot::{self, Snapshot};
use crate::speed::Speed;
use crate::text;

verus! {

/// Whether the binding step may ask the user to fill the binding panel.
#[derive(Clone, Copy, Debug, PartialEq, Eq, Structural)]
pub enum BindingMode {
    AutomaticOnly,
    InteractiveAllowed,
}

/// How a run starts.
#[derive(Clone, Debug)]
pub enum RunMode {
    /// Exact replication, requested while the ruler stands paused at frame 0.
    FromZero,
    /// Continuation from a frozen cutoff the user confirmed, its risk accepted.
    Continue(ContinuationPlan),
}

impl RunMode {
    /// How many actions count as done before the run starts.
    pub fn assumed_action_count(&self) -> (n: usize)
        ensures
            n == match self {
                RunMode::FromZero => 0,
                RunMode::Continue(plan) => plan.next_action_index,
            },
    {
        match self {
            RunMode::FromZero => 0,
            RunMode::Continue(plan) => plan.assumed_action_count(),
        }
    }
}

/// A request to bind the formation. Start-up binding may end partly done; a deferred
/// binding must bind the current deploy target.
#[derive(Clone, Debug, PartialEq, Eq)]
pub enum BindingRequest {
    Startup { mode: BindingMode },
    Deferred { target: String, frame: i64 },
}

/// Start-up progress before the machine receives its takeover sample.
#[derive(Clone, Copy, Debug, PartialEq, Eq, Structural)]
pub enum StartupPhase {
    WaitingGameFocus,
    BindingFormation,
    WaitingFinalFocus,
    VerifyingTakeover,
}

pub open spec fn startup_phase_zh(p: StartupPhase) -> Seq<char> {
    match p {
        StartupPhase::WaitingGameFocus => "等待游戏回到前台"@,
        StartupPhase::BindingFormation => "准备编队绑定"@,
        StartupPhase::WaitingFinalFocus => "等待最终焦点交接"@,
        StartupPhase::VerifyingTakeover => "验证接管样本"@,
    }
}

impl StartupPhase {
    /// The phase's Chinese label.
    pub fn zh(self) -> (s: &'static str)
        ensures
            s@ == startup_phase_zh(self),
    {
        match self {
            StartupPhase::WaitingGameFocus => "等待游戏回到前台",
            StartupPhase::BindingFormation => "准备编队绑定",
            StartupPhase::WaitingFinalFocus => "等待最终焦点交接",
            StartupPhase::VerifyingTakeover => "验证接管样本",
        }
    }
}

/// One card shown on the formation binding panel.
#[derive(Clone, Debug)]
pub struct BindingCardInfo {
    pub index: usize,
    /// The class's Chinese name.
    pub role: String,
    pub available: bool,
    pub cooling: bool,
}

/// Progress events sent to the UI during a run.
#[derive(Clone, Debug)]
#[allow(inconsistent_fields)]
pub enum Progress {
    Startup { phase: StartupPhase },
    Phase { phase: Phase, cursor: i64, target: Option<i64> },
    /// The user must complete the formation binding. Everything the panel shows comes
    /// with this event.
    NeedsBinding {
        cards: Vec<BindingCardInfo>,
        /// What the drop-downs offer: the job's whole formation, or the deferred target.
        options: Vec<String>,
        /// Targets still unbound, for the status line and the confirm gate.
        opers: Vec<String>,
        assignments: Vec<(usize, String)>,
        allow_partial: bool,
        title: String,
        detail: String,
    },
    /// The worker checked the choice and stored the avatars; only now may the UI close
    /// the binding panel.
    BindingCommitted { message: String },
    ActionStarted { index: usize, frame: i64 },
    ActionDone { index: usize },
    Log(String),
    Finished {
        pulses: u32,
        zero_pulses: u32,
        overshoots: u32,
        assumed_actions: usize,
        continued: bool,
    },
    Failed(String),
}

// ---------------------------------------------------------------------------
// From ruler snapshots to machine samples.
// ---------------------------------------------------------------------------

/// The battle state's name as messages show it.
pub open spec fn state_text(s: Snapshot) -> Seq<char> {
    match s.battle_state {
        Some(b) => snapshot::battle_state_text(b),
        None => "<none>"@,
    }
}

/// Whether `v` is the machine's view of snapshot `s`.
pub open spec fn view_of(s: Snapshot, v: FrameView) -> bool {
    &&& v.frame_id == match s.frame_id {
        Some(i) => i,
        None => 0u64,
    }
    &&& v.elapsed == s.total_elapsed_frames
    &&& v.in_battle == match s.battle_state {
        Some(b) => snapshot::in_battle_spec(b),
        None => false,
    }
    &&& v.paused == match s.battle_state {
        Some(b) => snapshot::paused_spec(b),
        None => None,
    }
    &&& v.one_x == match s.battle_state {
        Some(b) => snapshot::speed_spec(b) == Some(Speed::One),
        None => false,
    }
    &&& v.trustworthy == snapshot::trustworthy_spec(s)
    &&& v.battle_state@ == state_text(s)
}

/// The machine's view of a ruler snapshot.
pub fn to_view(snapshot: &Snapshot) -> (v: FrameView)
    ensures
        view_of(*snapshot, v),
{
    let (in_battle, paused, one_x) = match &snapshot.battle_state {
        Some(b) => (b.is_in_battle(), b.is_paused(), b.is_one_x()),
        None => (false, None, false),
    };
    FrameView {
        frame_id: match snapshot.frame_id {
            Some(i) => i,
            None => 0,
        },
        elapsed: snapshot.total_elapsed_frames,
        in_battle,
        paused,
        one_x,
        trustworthy: snapshot.frame_reading_is_trustworthy(),
        battle_state: snapshot.battle_state_str().to_string(),
    }
}

/// Start is allowed on a trustworthy sample of a 1x battle paused at frame 0.
pub open spec fn start_ready_spec(v: FrameView) -> bool {
    v.trustworthy && v.in_battle && v.one_x && v.paused == Some(true) && v.elapsed == 0
}

/// Continuing is allowed on a trustworthy sample of a 1x battle paused at a positive
/// frame; whether an action remains is the job's matter.
pub open spec fn continuation_ready_spec(v: FrameView) -> bool {
    v.trustworthy && v.in_battle && v.one_x && v.paused == Some(true) && v.elapsed > 0
}

/// Whether the Start button's live precondition holds.
pub fn start_sample_ready(view: &FrameView, first_action: i64) -> (b: bool)
    ensures
        b == start_ready_spec(*view),
{
    view.trustworthy && view.in_battle && view.one_x && view.paused == Some(true) && view.elapsed
        == 0
}

/// The full start check; without a `frame_id` no "new sample after focus" watermark can
/// be set.
pub fn start_snapshot_ready(snapshot: &Snapshot, first_action: i64) -> (b: bool)
    ensures
        b == (snapshot.frame_id is Some && exists|v: FrameView|
            view_of(*snapshot, v) && start_ready_spec(v)),
{
    if snapshot.frame_id.is_none() {
        return false;
    }
    let view = to_view(snapshot);
    let r = start_sample_ready(&view, first_action);
    proof {
        lemma_view_unique(*snapshot, view);
    }
    r
}

/// Whether a continuation may be proposed on this sample.
pub fn continuation_sample_ready(view: &FrameView) -> (b: bool)
    ensures
        b == continuation_ready_spec(*view),
{
    view.trustworthy && view.in_battle && view.one_x && view.paused == Some(true) && view.elapsed
        > 0
}

/// Two views of one snapshot agree on everything the decisions read.
proof fn lemma_view_unique(s: Snapshot, v: FrameView)
    requires
        view_of(s, v),
    ensures
        forall|w: FrameView|
            #[trigger] view_of(s, w) ==> (start_ready_spec(w) == start_ready_spec(v)
                && continuation_ready_spec(w) == continuation_ready_spec(v) && w.elapsed
                == v.elapsed),
{
}

/// The continuation plan a paused ruler snapshot allows: none without a `frame_id`, on
/// a sample that does not allow continuing, or when the job cannot continue from the
/// snapshot's frame.
pub fn continuation_snapshot_plan(snapshot: &Snapshot, copilot: &Copilot) -> (r: Option<
    ContinuationPlan,
>)
    requires
        snapshot.total_elapsed_frames > 0 ==> forall|i: int|
            continuation::first_after(copilot.actions@, snapshot.total_elapsed_frames, 0) <= i
                < copilot.actions@.len() ==> supported_spec((#[trigger] copilot.actions@[i]).kind),
    ensures
        ({
            let actions = copilot.actions@;
            let cutoff = snapshot.total_elapsed_frames;
            let n = continuation::first_after(actions, cutoff, 0);
            let field = continuation::replayed(Map::empty(), actions.subrange(0, n));
            let allowed = snapshot.frame_id is Some && exists|v: FrameView|
                view_of(*snapshot, v) && continuation_ready_spec(v);
            match r {
                Some(plan) => allowed && n < actions.len() && continuation::first_lost_target(
                    actions,
                    n,
                    field.dom(),
                ) is None && continuation::plan_holds(plan, actions, cutoff),
                None => !allowed || n == actions.len() || continuation::first_lost_target(
                    actions,
                    n,
                    field.dom(),
                ) is Some,
            }
        }),
{
    if snapshot.frame_id.is_none() {
        return None;
    }
    let view = to_view(snapshot);
    proof {
        lemma_view_unique(*snapshot, view);
    }
    if !continuation_sample_ready(&view) {
        return None;
    }
    let ghost actions = copilot.actions@;
    let ghost n = continuation::first_after(actions, view.elapsed, 0);
    let ghost field = continuation::replayed(Map::empty(), actions.subrange(0, n));
    assert(view_of(*snapshot, view) && continuation_ready_spec(view));
    proof {
        continuation::lemma_cutoff_is_inclusive(actions, view.elapsed);
    }
    let built = ContinuationPlan::build(copilot, view.elapsed);
    proof {
        continuation::lemma_cutoff_is_inclusive(actions, view.elapsed);
    }
    match built {
        Ok(plan) => {
            assert(n < actions.len());
            assert(continuation::first_lost_target(actions, n, field.dom()) is None);
            Some(plan)
        },
        Err(_) => None,
    }
}

// ---------------------------------------------------------------------------
// Confirming an action against ruler samples.
// ---------------------------------------------------------------------------

/// Why a sample refutes an action.
#[derive(Clone, Copy, Debug, PartialEq, Eq, Structural)]
pub enum ActionRejectReason {
    Running,
    LeftBattle,
    WrongFrame,
    NotOneX,
}

pub open spec fn reject_reason_text(r: ActionRejectReason) -> Seq<char> {
    match r {
        ActionRejectReason::Running => "观察到运行态"@,
        ActionRejectReason::LeftBattle => "已离开战斗"@,
        ActionRejectReason::WrongFrame => "绝对帧与目标不一致"@,
        ActionRejectReason::NotOneX => "倍速不是 1x"@,
    }
}

impl ActionRejectReason {
    /// The user-facing wording of the reason.
    pub fn message(self) -> (s: &'static str)
        ensures
            s@ == reject_reason_text(self),
    {
        match self {
            ActionRejectReason::Running => "观察到运行态",
            ActionRejectReason::LeftBattle => "已离开战斗",
            ActionRejectReason::WrongFrame => "绝对帧与目标不一致",
            ActionRejectReason::NotOneX => "倍速不是 1x",
        }
    }
}

/// What one ruler sample says about an action at a target frame.
#[derive(Clone, Copy, Debug, PartialEq, Eq, Structural)]
pub enum ActionSampleDecision {
    /// The sample cannot tell; wait for the next.
    Ignore,
    /// A trustworthy 1x pause on the target frame.
    Confirm,
    Reject(ActionRejectReason),
}

/// How a sample decides an action at `action_frame`, checked in this order: the game
/// running is fatal even on an untrustworthy reading (the game may have advanced);
/// leaving the battle is fatal; an unknown pause state or an untrustworthy reading is
/// waited out; a wrong frame is fatal; the 0.2x pause of a deploy transition is waited
/// out; any other speed than 1x is fatal.
pub open spec fn action_decision(v: FrameView, action_frame: i64) -> ActionSampleDecision {
    if v.paused == Some(false) {
        ActionSampleDecision::Reject(ActionRejectReason::Running)
    } else if !v.in_battle {
        ActionSampleDecision::Reject(ActionRejectReason::LeftBattle)
    } else if v.paused != Some(true) || !v.trustworthy {
        ActionSampleDecision::Ignore
    } else if v.elapsed != action_frame {
        ActionSampleDecision::Reject(ActionRejectReason::WrongFrame)
    } else if v.battle_state@ == "0.2x_paused"@ {
        ActionSampleDecision::Ignore
    } else if !v.one_x {
        ActionSampleDecision::Reject(ActionRejectReason::NotOneX)
    } else {
        ActionSampleDecision::Confirm
    }
}

/// See [`action_decision`].
pub fn classify_action_sample(view: &FrameView, action_frame: i64) -> (d: ActionSampleDecision)
    ensures
        d == action_decision(*view, action_frame),
{
    if view.paused == Some(false) {
        return ActionSampleDecision::Reject(ActionRejectReason::Running);
    }
    if !view.in_battle {
        return ActionSampleDecision::Reject(ActionRejectReason::LeftBattle);
    }
    if view.paused != Some(true) || !view.trustworthy {
        return ActionSampleDecision::Ignore;
    }
    if view.elapsed != action_frame {
        return ActionSampleDecision::Reject(ActionRejectReason::WrongFrame);
    }
    if text::str_eq(view.battle_state.as_str(), "0.2x_paused") {
        return ActionSampleDecision::Ignore;
    }
    if !view.one_x {
        return ActionSampleDecision::Reject(ActionRejectReason::NotOneX);
    }
    ActionSampleDecision::Confirm
}

/// An untrustworthy reading is never read as frame data: it may only reveal that the
/// game runs or left the battle, and is otherwise waited out. A wrong frame or a wrong
/// speed is only ever concluded from a trustworthy reading, and a wrong frame only when
/// the frame really differs from the target.
pub proof fn lemma_untrustworthy_samples_are_waited_out(v: FrameView, action_frame: i64)
    ensures
        !v.trustworthy ==> action_decision(v, action_frame) == ActionSampleDecision::Ignore
            || action_decision(v, action_frame) == ActionSampleDecision::Reject(
            ActionRejectReason::Running,
        ) || action_decision(v, action_frame) == ActionSampleDecision::Reject(
            ActionRejectReason::LeftBattle,
        ),
        !v.trustworthy && v.paused == Some(true) && v.in_battle ==> action_decision(v, action_frame)
            == ActionSampleDecision::Ignore,
        action_decision(v, action_frame) == ActionSampleDecision::Reject(ActionRejectReason::WrongFrame)
            ==> v.trustworthy && v.paused == Some(true) && v.elapsed != action_frame,
        action_decision(v, action_frame) == ActionSampleDecision::Reject(ActionRejectReason::NotOneX)
            ==> v.trustworthy && v.paused == Some(true) && v.elapsed == action_frame && !v.one_x,
        action_decision(v, action_frame) == ActionSampleDecision::Reject(ActionRejectReason::Running)
            ==> v.paused == Some(false),
        action_decision(v, action_frame) == ActionSampleDecision::Reject(ActionRejectReason::LeftBattle)
            ==> !v.in_battle,
        v.trustworthy && v.in_battle && v.paused == Some(true) && v.one_x && v.elapsed
            == action_frame && v.battle_state@ != "0.2x_paused"@ ==> action_decision(v, action_frame)
            == ActionSampleDecision::Confirm,
{
}

/// Only a trustworthy sample of the battle paused at 1x on the target frame confirms an
/// action.
pub proof fn lemma_confirm_needs_the_target_pause(v: FrameView, action_frame: i64)
    requires
        action_decision(v, action_frame) == ActionSampleDecision::Confirm,
    ensures
        v.trustworthy,
        v.in_battle,
        v.paused == Some(true),
        v.one_x,
        v.elapsed == action_frame,
{
}

/// The message of a refused dispatch sample.
pub open spec fn dispatch_refusal_text(reason: ActionRejectReason, v: FrameView) -> Seq<char> {
    "动作派发前尺子状态不满足目标："@ + reject_reason_text(reason) + " frame_id="@
        + text::decimal(v.frame_id as int) + " state="@ + v.battle_state@ + " elapsed="@
        + text::decimal(v.elapsed as int)
}

/// Classifies a sample before dispatching an action: `Ok(Some(frame_id))` confirms,
/// `Ok(None)` waits, an error explains the refusal.
pub fn classify_action_dispatch_sample(view: &FrameView, action_frame: i64) -> (r: Result<
    Option<u64>,
    String,
>)
    ensures
        match action_decision(*view, action_frame) {
            ActionSampleDecision::Ignore => r == Ok::<Option<u64>, String>(None),
            ActionSampleDecision::Confirm => r == Ok::<Option<u64>, String>(Some(view.frame_id)),
            ActionSampleDecision::Reject(reason) => r matches Err(m) && m@ == dispatch_refusal_text(
                reason,
                *view,
            ),
        },
{
    match classify_action_sample(view, action_frame) {
        ActionSampleDecision::Ignore => Ok(None),
        ActionSampleDecision::Confirm => Ok(Some(view.frame_id)),
        ActionSampleDecision::Reject(reason) => {
            let mut m = String::from_str("动作派发前尺子状态不满足目标：");
            m.append(reason.message());
            m.append(" frame_id=");
            text::push_decimal_u64(&mut m, view.frame_id);
            m.append(" state=");
            m.append(view.battle_state.as_str());
            m.append(" elapsed=");
            text::push_decimal_i64(&mut m, view.elapsed);
            Err(m)
        },
    }
}


/// What one ruler sample says while taking over a battle that is continued part-way.
#[derive(Clone, Copy, Debug, PartialEq, Eq, Structural)]
pub enum TakeoverDecision {
    /// The sample cannot tell (untrustworthy, or the pause state is unknown); wait for
    /// the next.
    Ignore,
    /// The battle was left.
    LeftBattle,
    /// The battle does not run at 1x.
    NotOneX,
    /// The battle is earlier than the frozen cutoff frame.
    BeforeCutoff,
    /// The battle is already past the next action to run.
    MissedStart,
    /// The sample is a usable starting point.
    Accept,
}

/// How a takeover sample is decided, in this order: an untrustworthy reading is waited
/// out; leaving the battle and any speed but 1x are fatal; an unknown pause state is
/// waited out; a frame before `cutoff` or past `next_action` is fatal; anything else is
/// accepted.
pub open spec fn takeover_decision(v: FrameView, cutoff: i64, next_action: i64) -> TakeoverDecision {
    if !v.trustworthy {
        TakeoverDecision::Ignore
    } else if !v.in_battle {
        TakeoverDecision::LeftBattle
    } else if !v.one_x {
        TakeoverDecision::NotOneX
    } else if v.paused is None {
        TakeoverDecision::Ignore
    } else if v.elapsed < cutoff {
        TakeoverDecision::BeforeCutoff
    } else if v.elapsed > next_action {
        TakeoverDecision::MissedStart
    } else {
        TakeoverDecision::Accept
    }
}

/// See [`takeover_decision`].
pub fn classify_takeover_sample(v: &FrameView, cutoff: i64, next_action: i64) -> (d: TakeoverDecision)
    ensures
        d == takeover_decision(*v, cutoff, next_action),
{
    if !v.trustworthy {
        TakeoverDecision::Ignore
    } else if !v.in_battle {
        TakeoverDecision::LeftBattle
    } else if !v.one_x {
        TakeoverDecision::NotOneX
    } else if v.paused.is_none() {
        TakeoverDecision::Ignore
    } else if v.elapsed < cutoff {
        TakeoverDecision::BeforeCutoff
    } else if v.elapsed > next_action {
        TakeoverDecision::MissedStart
    } else {
        TakeoverDecision::Accept
    }
}

/// A takeover never concludes anything from an untrustworthy reading or one whose pause
/// state is unknown, and its refusals say what the sample shows.
pub proof fn lemma_takeover_refusals_are_grounded(v: FrameView, cutoff: i64, next_action: i64)
    ensures
        !v.trustworthy ==> takeover_decision(v, cutoff, next_action) == TakeoverDecision::Ignore,
        takeover_decision(v, cutoff, next_action) == TakeoverDecision::LeftBattle ==> v.trustworthy
            && !v.in_battle,
        takeover_decision(v, cutoff, next_action) == TakeoverDecision::NotOneX ==> v.trustworthy
            && v.in_battle && !v.one_x,
        takeover_decision(v, cutoff, next_action) == TakeoverDecision::BeforeCutoff ==> v.trustworthy
            && v.paused is Some && v.elapsed < cutoff,
        takeover_decision(v, cutoff, next_action) == TakeoverDecision::MissedStart ==> v.trustworthy
            && v.paused is Some && v.elapsed > next_action,
        v.trustworthy && v.in_battle && v.one_x && v.paused is Some && cutoff <= v.elapsed
            <= next_action ==> takeover_decision(v, cutoff, next_action) == TakeoverDecision::Accept,
{
}

/// An accepted takeover sample is a trustworthy 1x battle sample with a known pause
/// state, between the cutoff and the next action.
pub proof fn lemma_takeover_accepts_only_the_window(v: FrameView, cutoff: i64, next_action: i64)
    requires
        takeover_decision(v, cutoff, next_action) == TakeoverDecision::Accept,
    ensures
        v.trustworthy,
        v.in_battle,
        v.one_x,
        v.paused is Some,
        cutoff <= v.elapsed <= next_action,
{
}

} // verus!
