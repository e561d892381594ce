//! The frame-replication state machine.
//!
//! Pure logic: it consumes ruler samples and emits commands for the caller to carry
//! out, so a recorded sample sequence can be replayed offline.
//!
//! ```text
//! waiting for battle → opening pause confirmed → formation binding → cruising
//!   → early pause → single-frame pulses → paused on target → inject action → …
//!   → finish
//! ```
use vstd::prelude::*;
use std::time::Duration;

use crate::copilot::{ActionType, Copilot};
use crate::stepping::{self, GapTuner};
use crate::text;
use crate::timing;

verus! {

/// How many frames ahead of a target the machine switches from cruising to stepping.
pub const FRAME_LEAD: i64 = 8;
/// Milliseconds to wait for a fresh ruler sample.
pub const AWAIT_TIMEOUT_MS: u64 = 2000;
/// Consecutive growing samples after which the opening pause counts as ineffective.
pub const PAUSE_PROBE_LIMIT: u32 = 8;
/// Frames the game may still advance after a runtime pause key before it counts as
/// ineffective.
pub const RUNTIME_PAUSE_MAX_ADVANCE_FRAMES: i64 = 6;
/// New samples a pulse may take to come back to a paused state.
pub const PULSE_SETTLE_SAMPLE_LIMIT: u32 = 16;
/// Paused samples needed to settle a pulse when no running sample was seen.
pub const PULSE_PAUSED_CONFIRM_SAMPLES: u32 = 2;
/// New 0.2x samples tolerated after an input action.
pub const POINT_TWO_GRACE_LIMIT: u32 = 32;

/// The part of a ruler snapshot that the machine reads.
#[derive(Clone, Debug, PartialEq)]
pub struct FrameView {
    /// Monotone sample number of the capture pipeline.
    pub frame_id: u64,
    /// Logical frames elapsed in this battle.
    pub elapsed: i64,
    pub in_battle: bool,
    /// `None` when the ruler cannot tell (the pause button is covered).
    pub paused: Option<bool>,
    pub one_x: bool,
    /// Whether the frame reading is valid at all.
    pub trustworthy: bool,
    /// The raw battle-state string, for messages.
    pub battle_state: String,
}

/// Phase of the machine.
#[derive(Clone, Copy, Debug, PartialEq, Eq, Structural)]
pub enum Phase {
    Idle,
    WaitingBattle,
    ConfirmingZero,
    BindingFormation,
    Cruising,
    Stepping,
    Injecting,
    Finished,
    Aborted,
}

pub open spec fn phase_zh(p: Phase) -> Seq<char> {
    match p {
        Phase::Idle => "空闲"@,
        Phase::WaitingBattle => "等待开局"@,
        Phase::ConfirmingZero => "确认开局暂停"@,
        Phase::BindingFormation => "编队匹配"@,
        Phase::Cruising => "正常运行"@,
        Phase::Stepping => "逐帧推进"@,
        Phase::Injecting => "注入动作"@,
        Phase::Finished => "已完成"@,
        Phase::Aborted => "已中止"@,
    }
}

impl Phase {
    /// Chinese display name.
    pub fn zh(self) -> (s: &'static str)
        ensures
            s@ == phase_zh(self),
    {
        match self {
            Phase::Idle => "空闲",
            Phase::WaitingBattle => "等待开局",
            Phase::ConfirmingZero => "确认开局暂停",
            Phase::BindingFormation => "编队匹配",
            Phase::Cruising => "正常运行",
            Phase::Stepping => "逐帧推进",
            Phase::Injecting => "注入动作",
            Phase::Finished => "已完成",
            Phase::Aborted => "已中止",
        }
    }
}

/// Why a run was aborted.
#[derive(Debug, PartialEq)]
pub enum AbortReason {
    MissedStart { origin: i64, first_action: i64 },
    NotOneX { state: String },
    LeftBattle { state: String },
    FrameWentBackwards { from: i64, to: i64 },
    OvershotTarget { target: i64, actual: i64 },
    FrameTimeout,
    PauseIneffective,
    OpeningPauseIneffective,
    PulseDidNotSettle { state: String },
    ExecutionFailed(String),
    UserAborted,
}

impl AbortReason {
    /// A copy of the reason.
    pub fn duplicate(&self) -> (r: AbortReason)
        ensures
            r == *self,
    {
        match self {
            AbortReason::MissedStart { origin, first_action } => AbortReason::MissedStart {
                origin: *origin,
                first_action: *first_action,
            },
            AbortReason::NotOneX { state } => AbortReason::NotOneX { state: state.clone() },
            AbortReason::LeftBattle { state } => AbortReason::LeftBattle { state: state.clone() },
            AbortReason::FrameWentBackwards { from, to } => AbortReason::FrameWentBackwards {
                from: *from,
                to: *to,
            },
            AbortReason::OvershotTarget { target, actual } => AbortReason::OvershotTarget {
                target: *target,
                actual: *actual,
            },
            AbortReason::FrameTimeout => AbortReason::FrameTimeout,
            AbortReason::PauseIneffective => AbortReason::PauseIneffective,
            AbortReason::OpeningPauseIneffective => AbortReason::OpeningPauseIneffective,
            AbortReason::PulseDidNotSettle { state } => AbortReason::PulseDidNotSettle {
                state: state.clone(),
            },
            AbortReason::ExecutionFailed(what) => AbortReason::ExecutionFailed(what.clone()),
            AbortReason::UserAborted => AbortReason::UserAborted,
        }
    }
}

/// The user-facing explanation of an abort reason.
pub open spec fn abort_message(r: AbortReason) -> Seq<char> {
    match r {
        AbortReason::MissedStart { origin, first_action } => "错过了开局：暂停时已经是第 "@
            + text::decimal(origin as int) + " 帧，但第一个动作在第 "@ + text::decimal(
            first_action as int,
        ) + " 帧。请退出重进关卡再试"@,
        AbortReason::NotOneX { state } => "倍速不是 1x（当前 "@ + state@
            + "）。帧复刻首版只支持 1 倍速，请把游戏调回 1x"@,
        AbortReason::LeftBattle { state } => "已经不在战斗中（"@ + state@ + "），复刻中止"@,
        AbortReason::FrameWentBackwards { from, to } => "尺子报告的帧数从 "@ + text::decimal(
            from as int,
        ) + " 倒退到 "@ + text::decimal(to as int)
            + "。多半是费用条被遮挡导致误判，检查一下鼠标是不是停在了费用条上"@,
        AbortReason::OvershotTarget { target, actual } => "冲过了目标帧：想停在第 "@
            + text::decimal(target as int) + " 帧，实际到了第 "@ + text::decimal(actual as int)
            + " 帧。游戏没法倒带，只能重来。可以把脉冲间隔调小一点再试"@,
        AbortReason::FrameTimeout => FRAME_TIMEOUT_TEXT@,
        AbortReason::PauseIneffective => "发了暂停键但游戏仍在推进。如果开着代理指挥或托管，请先关掉"@,
        AbortReason::OpeningPauseIneffective =>
            "AFA 没有在开局自动暂停。请在 AFA 中启用自动开局暂停，并确认 AFA 正在运行"@,
        AbortReason::PulseDidNotSettle { state } => "逐帧脉冲后迟迟没有恢复暂停（当前 "@ + state@
            + "）。为避免重复切换导致超跑，复刻已中止"@,
        AbortReason::ExecutionFailed(what) => "执行动作失败："@ + what@,
        AbortReason::UserAborted => "用户中止"@,
    }
}

/// Explanation of a frame timeout: the likely causes, in order.
pub const FRAME_TIMEOUT_TEXT: &'static str = "等不到尺子的新分析帧。按可能性排查：① 鼠标是否停在费用条附近（PC 自绘光标会遮挡费用条，日志里 cursorBlocked=true 即是）；② 尺子是否还在运行、是否已校准；③ 费用满 / 费用回复被锁 / 剿灭作战都会让尺子停止计帧。详细诊断见日志面板和 replicator.log";

impl AbortReason {
    /// The user-facing explanation; what `Display` would print.
    pub fn message(&self) -> (s: String)
        ensures
            s@ == abort_message(*self),
    {
        match self {
            AbortReason::MissedStart { origin, first_action } => {
                let mut s = String::from_str("错过了开局：暂停时已经是第 ");
                text::push_decimal_i64(&mut s, *origin);
                s.append(" 帧，但第一个动作在第 ");
                text::push_decimal_i64(&mut s, *first_action);
                s.append(" 帧。请退出重进关卡再试");
                s
            },
            AbortReason::NotOneX { state } => {
                let mut s = String::from_str("倍速不是 1x（当前 ");
                s.append(state.as_str());
                s.append("）。帧复刻首版只支持 1 倍速，请把游戏调回 1x");
                s
            },
            AbortReason::LeftBattle { state } => {
                let mut s = String::from_str("已经不在战斗中（");
                s.append(state.as_str());
                s.append("），复刻中止");
                s
            },
            AbortReason::FrameWentBackwards { from, to } => {
                let mut s = String::from_str("尺子报告的帧数从 ");
                text::push_decimal_i64(&mut s, *from);
                s.append(" 倒退到 ");
                text::push_decimal_i64(&mut s, *to);
                s.append("。多半是费用条被遮挡导致误判，检查一下鼠标是不是停在了费用条上");
                s
            },
            AbortReason::OvershotTarget { target, actual } => {
                let mut s = String::from_str("冲过了目标帧：想停在第 ");
                text::push_decimal_i64(&mut s, *target);
                s.append(" 帧，实际到了第 ");
                text::push_decimal_i64(&mut s, *actual);
                s.append(" 帧。游戏没法倒带，只能重来。可以把脉冲间隔调小一点再试");
                s
            },
            AbortReason::FrameTimeout => String::from_str(FRAME_TIMEOUT_TEXT),
            AbortReason::PauseIneffective => String::from_str(
                "发了暂停键但游戏仍在推进。如果开着代理指挥或托管，请先关掉",
            ),
            AbortReason::OpeningPauseIneffective => String::from_str(
                "AFA 没有在开局自动暂停。请在 AFA 中启用自动开局暂停，并确认 AFA 正在运行",
            ),
            AbortReason::PulseDidNotSettle { state } => {
                let mut s = String::from_str("逐帧脉冲后迟迟没有恢复暂停（当前 ");
                s.append(state.as_str());
                s.append("）。为避免重复切换导致超跑，复刻已中止");
                s
            },
            AbortReason::ExecutionFailed(what) => {
                let mut s = String::from_str("执行动作失败：");
                s.append(what.as_str());
                s
            },
            AbortReason::UserAborted => String::from_str("用户中止"),
        }
    }
}

/// What the machine asks its caller to do.
#[derive(Debug, PartialEq)]
pub enum Command {
    /// Wait for the battle to start; the opening pause is left to the frame assistant.
    ArmBattleStart,
    Pause,
    Resume,
    /// Send one single-frame pulse with this gap.
    Pulse { gap: Duration },
    BindFormation,
    /// Execute action `index`.
    Execute { index: usize },
    /// Wait for the next ruler sample.
    AwaitFrame { timeout: Duration },
    /// The last action is done; finish without sending any input.
    Finish,
    Abort(AbortReason),
    /// Nothing more to do.
    Idle,
}

/// The caller's report that a command was carried out.
#[derive(Clone, Copy, Debug, PartialEq, Eq, Structural)]
pub enum Completion {
    OpeningPauseDelegated,
    PauseSent,
    ResumeSent,
    PulseSent,
    FormationBound,
    ActionExecuted,
}

/// The replication state machine.
pub struct Machine {
    copilot: Copilot,
    phase: Phase,
    cursor: i64,
    origin: i64,
    action_index: usize,
    paused: bool,
    resume_in_flight: bool,
    pause_in_flight: bool,
    last_frame_id: u64,
    pulse_in_flight: bool,
    pulse_settle_samples: u32,
    pulse_seen_running: bool,
    pulse_paused_samples: u32,
    pulse_from: i64,
    pause_probe: Option<(i64, u32)>,
    point_two_samples: Option<u32>,
    tuner: GapTuner,
    abort: Option<AbortReason>,
}

/// `n + 1`, staying at `u32::MAX`.
pub open spec fn sat_inc(n: u32) -> u32 {
    if n < u32::MAX {
        (n + 1) as u32
    } else {
        n
    }
}

/// `a - b`, clamped to the `i64` range.
pub open spec fn sat_sub(a: i64, b: i64) -> i64 {
    let d = a - b;
    if d < i64::MIN {
        i64::MIN
    } else if d > i64::MAX {
        i64::MAX
    } else {
        d as i64
    }
}

fn sat_inc_exec(n: u32) -> (r: u32)
    ensures
        r == sat_inc(n),
{
    if n < u32::MAX {
        n + 1
    } else {
        n
    }
}

fn sat_sub_exec(a: i64, b: i64) -> (r: i64)
    ensures
        r == sat_sub(a, b),
{
    let d: i128 = a as i128 - b as i128;
    if d < i64::MIN as i128 {
        i64::MIN
    } else if d > i64::MAX as i128 {
        i64::MAX
    } else {
        d as i64
    }
}

/// `"0.2x_"` opens the battle state of every 0.2x speed state.
pub open spec fn is_point_two_state(s: Seq<char>) -> bool {
    "0.2x_"@.len() <= s.len() && s.subrange(0, "0.2x_"@.len() as int) == "0.2x_"@
}

pub open spec fn await_frame_command() -> Command {
    Command::AwaitFrame { timeout: timing::duration_of_millis(AWAIT_TIMEOUT_MS) }
}

/// The wait for a fresh ruler sample.
pub fn await_timeout() -> (d: Duration)
    ensures
        d == timing::duration_of_millis(AWAIT_TIMEOUT_MS),
{
    timing::duration_from_millis(AWAIT_TIMEOUT_MS)
}

impl Machine {
    // ---- public views of the state -------------------------------------------------

    pub closed spec fn spec_phase(&self) -> Phase {
        self.phase
    }

    pub closed spec fn spec_cursor(&self) -> i64 {
        self.cursor
    }

    pub closed spec fn spec_origin(&self) -> i64 {
        self.origin
    }

    pub closed spec fn spec_action_index(&self) -> usize {
        self.action_index
    }

    pub closed spec fn spec_action_count(&self) -> nat {
        self.copilot.actions@.len()
    }

    pub closed spec fn spec_copilot(&self) -> Copilot {
        self.copilot
    }

    pub closed spec fn spec_last_frame_id(&self) -> u64 {
        self.last_frame_id
    }

    pub closed spec fn spec_paused(&self) -> bool {
        self.paused
    }

    pub closed spec fn spec_pause_in_flight(&self) -> bool {
        self.pause_in_flight
    }

    pub closed spec fn spec_pulse_in_flight(&self) -> bool {
        self.pulse_in_flight
    }

    pub closed spec fn spec_resume_in_flight(&self) -> bool {
        self.resume_in_flight
    }

    pub closed spec fn spec_abort(&self) -> Option<AbortReason> {
        self.abort
    }

    pub closed spec fn spec_tuner(&self) -> GapTuner {
        self.tuner
    }

    /// The frame of the next action, if any action is left.
    pub closed spec fn spec_target(&self) -> Option<i64> {
        if self.action_index < self.copilot.actions@.len() {
            Some(self.copilot.actions@[self.action_index as int].frame)
        } else {
            None
        }
    }

    /// The machine's invariant.
    pub closed spec fn wf(&self) -> bool {
        &&& self.copilot.actions@.len() > 0
        &&& self.tuner.wf()
        &&& self.phase == Phase::Aborted ==> self.abort is Some
    }

    // ---- transition specifications -----------------------------------------------

    /// The machine once started: waiting for the battle.
    pub closed spec fn started(self) -> Machine {
        Machine { phase: Phase::WaitingBattle, ..self }
    }

    /// The machine with its sample watermark raised to `frame_id` (never lowered).
    pub closed spec fn acknowledged(self, frame_id: u64) -> Machine {
        Machine {
            last_frame_id: if frame_id > self.last_frame_id {
                frame_id
            } else {
                self.last_frame_id
            },
            ..self
        }
    }

    /// The machine after giving up with `reason` (a no-op once aborted).
    pub closed spec fn failed(self, reason: AbortReason) -> Machine {
        if self.phase != Phase::Aborted {
            Machine { abort: Some(reason), phase: Phase::Aborted, ..self }
        } else {
            self
        }
    }

    /// The validity checks applied to a fresh trustworthy sample once the battle has
    /// started: the machine after them, and whether the sample goes on to the phase.
    pub closed spec fn gated(self, v: FrameView) -> (Machine, bool) {
        if self.phase == Phase::Idle || self.phase == Phase::WaitingBattle {
            (self, true)
        } else if !v.in_battle {
            (self.failed(AbortReason::LeftBattle { state: v.battle_state }), false)
        } else {
            let m1 = if v.one_x {
                Machine { point_two_samples: None, ..self }
            } else {
                self
            };
            if !v.one_x {
                if is_point_two_state(v.battle_state@) && m1.point_two_samples is Some {
                    let n = sat_inc(m1.point_two_samples.unwrap());
                    let m2 = Machine { point_two_samples: Some(n), ..m1 };
                    if n < POINT_TWO_GRACE_LIMIT {
                        (m2, false)
                    } else {
                        (m2.failed(AbortReason::NotOneX { state: v.battle_state }), false)
                    }
                } else {
                    (m1.failed(AbortReason::NotOneX { state: v.battle_state }), false)
                }
            } else if (m1.phase == Phase::Cruising || m1.phase == Phase::Stepping)
                && m1.resume_in_flight && v.paused != Some(false) {
                (m1, false)
            } else {
                let m2 = if (m1.phase == Phase::Cruising || m1.phase == Phase::Stepping)
                    && m1.resume_in_flight {
                    Machine { resume_in_flight: false, ..m1 }
                } else {
                    m1
                };
                if v.elapsed < m2.cursor {
                    (m2.failed(AbortReason::FrameWentBackwards { from: m2.cursor, to: v.elapsed }), false)
                } else {
                    (m2, true)
                }
            }
        }
    }

    pub closed spec fn after_waiting(self, v: FrameView) -> Machine {
        if v.in_battle {
            if !v.one_x {
                self.failed(AbortReason::NotOneX { state: v.battle_state })
            } else {
                Machine { cursor: v.elapsed, ..self }
            }
        } else {
            self
        }
    }

    pub closed spec fn after_confirming(self, v: FrameView) -> Machine {
        let m0 = Machine { cursor: v.elapsed, ..self };
        if v.paused == Some(true) {
            let m1 = Machine { pause_probe: None, paused: true, origin: v.elapsed, ..m0 };
            let first = m1.copilot.actions@[0].frame;
            if m1.origin > first {
                m1.failed(AbortReason::MissedStart { origin: m1.origin, first_action: first })
            } else {
                Machine { phase: Phase::BindingFormation, ..m1 }
            }
        } else {
            match m0.pause_probe {
                None => Machine { pause_probe: Some((v.elapsed, 0u32)), ..m0 },
                Some((from, count)) => if v.elapsed > from {
                    let c = sat_inc(count);
                    if c >= PAUSE_PROBE_LIMIT {
                        m0.failed(AbortReason::OpeningPauseIneffective)
                    } else {
                        Machine { pause_probe: Some((v.elapsed, c)), ..m0 }
                    }
                } else {
                    m0
                },
            }
        }
    }

    /// The pulse bookkeeping of a running-phase sample: the machine after it and
    /// whether the pulse in flight may settle on this sample.
    pub closed spec fn pulse_tracked(self, v: FrameView) -> (Machine, bool) {
        if self.pulse_in_flight {
            match v.paused {
                Some(false) => (
                    Machine {
                        paused: false,
                        pulse_seen_running: true,
                        pulse_paused_samples: 0,
                        ..self
                    },
                    false,
                ),
                Some(true) => {
                    let n = sat_inc(self.pulse_paused_samples);
                    (
                        Machine { paused: true, pulse_paused_samples: n, ..self },
                        self.pulse_seen_running || n >= PULSE_PAUSED_CONFIRM_SAMPLES,
                    )
                },
                None => (Machine { pulse_paused_samples: 0, ..self }, false),
            }
        } else {
            (self, false)
        }
    }

    pub closed spec fn after_running(self, v: FrameView) -> Machine {
        match self.spec_target() {
            None => self,
            Some(target) => {
                let m0 = Machine { cursor: v.elapsed, ..self };
                let (m1, can_settle) = m0.pulse_tracked(v);
                if m1.cursor > target {
                    m1.failed(AbortReason::OvershotTarget { target, actual: m1.cursor })
                } else {
                    let m2 = if can_settle {
                        Machine {
                            tuner: m1.tuner.after_observing(sat_sub(m1.cursor, m1.pulse_from) as int),
                            pulse_in_flight: false,
                            pulse_settle_samples: 0,
                            pulse_seen_running: false,
                            pulse_paused_samples: 0,
                            ..m1
                        }
                    } else {
                        m1
                    };
                    if m2.pulse_in_flight {
                        let n = sat_inc(m2.pulse_settle_samples);
                        let m3 = Machine { pulse_settle_samples: n, ..m2 };
                        if n >= PULSE_SETTLE_SAMPLE_LIMIT {
                            m3.failed(AbortReason::PulseDidNotSettle { state: v.battle_state })
                        } else {
                            m3
                        }
                    } else if m2.pause_in_flight {
                        if v.paused == Some(true) {
                            Machine { pause_in_flight: false, pause_probe: None, paused: true, ..m2 }
                        } else {
                            let m3 = Machine { paused: false, ..m2 };
                            match m3.pause_probe {
                                Some((from, _)) => {
                                    let advanced = sat_sub(m3.cursor, from);
                                    if advanced >= RUNTIME_PAUSE_MAX_ADVANCE_FRAMES {
                                        m3.failed(AbortReason::PauseIneffective)
                                    } else {
                                        Machine { pause_probe: Some((from, advanced as u32)), ..m3 }
                                    }
                                },
                                None => m3,
                            }
                        }
                    } else {
                        match v.paused {
                            Some(p) => Machine { paused: p, ..m2 },
                            None => m2,
                        }
                    }
                }
            }
        }
    }

    /// The machine after a sample, and whether the sample was taken.
    pub closed spec fn after_sample(self, v: FrameView) -> (Machine, bool) {
        if self.phase == Phase::Aborted || self.phase == Phase::Finished {
            (self, false)
        } else if v.frame_id <= self.last_frame_id {
            (self, false)
        } else {
            let m1 = Machine { last_frame_id: v.frame_id, ..self };
            if !v.trustworthy {
                (m1, false)
            } else {
                let (m2, go_on) = m1.gated(v);
                if !go_on {
                    (m2, false)
                } else {
                    let m3 = match m2.phase {
                        Phase::WaitingBattle => m2.after_waiting(v),
                        Phase::ConfirmingZero => m2.after_confirming(v),
                        Phase::Cruising | Phase::Stepping => m2.after_running(v),
                        _ => m2,
                    };
                    (m3, true)
                }
            }
        }
    }

    /// The next step once the formation is bound: cruise, pause early, pulse, or
    /// inject, depending on how far the target is and what is still in flight.
    pub closed spec fn running_command(self) -> (Machine, Command) {
        match self.spec_target() {
            None => (Machine { phase: Phase::Finished, ..self }, Command::Finish),
            Some(target) => {
                let remaining = target - self.cursor;
                if self.resume_in_flight {
                    (Machine { phase: Phase::Cruising, ..self }, await_frame_command())
                } else if self.pulse_in_flight || self.pause_in_flight {
                    (Machine { phase: Phase::Stepping, ..self }, await_frame_command())
                } else if remaining == 0 {
                    if !self.paused {
                        (Machine { phase: Phase::Stepping, ..self }, Command::Pause)
                    } else {
                        (
                            Machine { phase: Phase::Injecting, ..self },
                            Command::Execute { index: self.action_index },
                        )
                    }
                } else if remaining > FRAME_LEAD {
                    (
                        Machine { phase: Phase::Cruising, ..self },
                        if self.paused {
                            Command::Resume
                        } else {
                            await_frame_command()
                        },
                    )
                } else if !self.paused {
                    (Machine { phase: Phase::Stepping, ..self }, Command::Pause)
                } else {
                    (
                        Machine { phase: Phase::Stepping, ..self },
                        Command::Pulse {
                            gap: if remaining == 1 {
                                timing::duration_of_millis(stepping::MIN_GAP_MS as u64)
                            } else {
                                timing::duration_of_millis(self.tuner.spec_gap_ms() as u64)
                            },
                        },
                    )
                }
            },
        }
    }

    /// The command for the current phase, and the machine after choosing it.
    pub closed spec fn command(self) -> (Machine, Command) {
        match self.phase {
            Phase::Idle => (self, Command::Idle),
            Phase::Aborted => (self, Command::Abort(self.abort.unwrap())),
            Phase::Finished => (self, Command::Idle),
            Phase::WaitingBattle => (self, Command::ArmBattleStart),
            Phase::ConfirmingZero => (self, await_frame_command()),
            Phase::BindingFormation => (self, Command::BindFormation),
            _ => self.running_command(),
        }
    }

    /// Whether the action about to be marked done sends input to the game.
    pub closed spec fn current_action_sends_input(self) -> bool {
        self.action_index < self.copilot.actions@.len() && {
            let k = self.copilot.actions@[self.action_index as int].kind;
            k == ActionType::Deploy || k == ActionType::UseSkill || k == ActionType::Retreat
        }
    }

    /// The machine after the caller reports a completion; an aborted or finished run
    /// stays as it is.
    pub closed spec fn after_completion(self, c: Completion) -> Machine {
        if self.phase == Phase::Aborted || self.phase == Phase::Finished {
            self
        } else {
            self.after_live_completion(c)
        }
    }

    /// [`Machine::after_completion`] for a run that is still live.
    pub closed spec fn after_live_completion(self, c: Completion) -> Machine {
        match c {
            Completion::OpeningPauseDelegated => if self.phase == Phase::WaitingBattle {
                Machine { phase: Phase::ConfirmingZero, pause_probe: None, ..self }
            } else {
                self
            },
            Completion::PauseSent => Machine {
                paused: false,
                resume_in_flight: false,
                pause_in_flight: true,
                pause_probe: Some((self.cursor, 0u32)),
                ..self
            },
            Completion::ResumeSent => Machine {
                paused: false,
                resume_in_flight: true,
                pause_in_flight: false,
                pause_probe: None,
                pulse_settle_samples: 0,
                pulse_seen_running: false,
                pulse_paused_samples: 0,
                ..self
            },
            Completion::PulseSent => Machine {
                resume_in_flight: false,
                pulse_in_flight: true,
                pulse_settle_samples: 0,
                pulse_seen_running: false,
                pulse_paused_samples: 0,
                pulse_from: self.cursor,
                ..self
            },
            Completion::FormationBound => Machine { phase: Phase::Stepping, ..self },
            Completion::ActionExecuted => Machine {
                point_two_samples: if self.current_action_sends_input() {
                    Some(0u32)
                } else {
                    None
                },
                action_index: if self.action_index < usize::MAX {
                    (self.action_index + 1) as usize
                } else {
                    self.action_index
                },
                phase: Phase::Stepping,
                ..self
            },
        }
    }
}


impl Machine {
    /// A machine for `copilot`, idle until [`Machine::start`].
    pub fn new(copilot: Copilot) -> (m: Self)
        requires
            copilot.actions@.len() > 0,
        ensures
            m.wf(),
            m.spec_copilot() == copilot,
            m.spec_phase() == Phase::Idle,
            m.spec_cursor() == 0,
            m.spec_origin() == 0,
            m.spec_action_index() == 0,
            m.spec_last_frame_id() == 0,
            !m.spec_paused(),
            !m.spec_pause_in_flight(),
            !m.spec_pulse_in_flight(),
            !m.spec_resume_in_flight(),
            m.spec_abort() is None,
            m.spec_tuner().spec_gap_ms() == stepping::DEFAULT_GAP_1X_MS,
            m.spec_tuner().pulse_count() == 0,
    {
        Machine {
            copilot,
            phase: Phase::Idle,
            cursor: 0,
            origin: 0,
            action_index: 0,
            paused: false,
            resume_in_flight: false,
            pause_in_flight: false,
            last_frame_id: 0,
            pulse_in_flight: false,
            pulse_settle_samples: 0,
            pulse_seen_running: false,
            pulse_paused_samples: 0,
            pulse_from: 0,
            pause_probe: None,
            point_two_samples: None,
            tuner: GapTuner::default_tuner(),
            abort: None,
        }
    }

    /// A machine whose pulse tuner starts at `initial_gap_ms` (clamped).
    pub fn with_gap(copilot: Copilot, initial_gap_ms: u32) -> (m: Self)
        requires
            copilot.actions@.len() > 0,
        ensures
            m.wf(),
            m.spec_copilot() == copilot,
            m.spec_phase() == Phase::Idle,
            m.spec_tuner().spec_gap_ms() == stepping::clamp_int(
                initial_gap_ms as int,
                stepping::MIN_GAP_MS as int,
                stepping::MAX_GAP_MS as int,
            ),
            m.spec_tuner().pulse_count() == 0,
    {
        let mut m = Self::new(copilot);
        m.tuner = GapTuner::new(initial_gap_ms);
        m
    }

    /// Starts waiting for the battle.
    pub fn start(&mut self)
        requires
            old(self).wf(),
        ensures
            final(self).wf(),
            *final(self) == old(self).started(),
    {
        self.phase = Phase::WaitingBattle;
    }

    pub fn phase(&self) -> (p: Phase)
        ensures
            p == self.spec_phase(),
    {
        self.phase
    }

    /// The last confirmed absolute frame.
    pub fn cursor(&self) -> (c: i64)
        ensures
            c == self.spec_cursor(),
    {
        self.cursor
    }

    /// The frame the opening pause landed on.
    pub fn origin(&self) -> (o: i64)
        ensures
            o == self.spec_origin(),
    {
        self.origin
    }

    pub fn tuner(&self) -> (t: &GapTuner)
        ensures
            *t == self.spec_tuner(),
    {
        &self.tuner
    }

    pub fn copilot(&self) -> (c: &Copilot)
        ensures
            *c == self.spec_copilot(),
    {
        &self.copilot
    }

    pub fn abort_reason(&self) -> (r: Option<&AbortReason>)
        ensures
            match r {
                Some(a) => self.spec_abort() == Some(*a),
                None => self.spec_abort() is None,
            },
    {
        match &self.abort {
            Some(a) => Some(a),
            None => None,
        }
    }

    /// Whether the machine believes the game is paused.
    pub fn paused(&self) -> (b: bool)
        ensures
            b == self.spec_paused(),
    {
        self.paused
    }

    /// Whether a runtime pause key was sent and not yet confirmed by the ruler.
    pub fn pause_in_flight(&self) -> (b: bool)
        ensures
            b == self.spec_pause_in_flight(),
    {
        self.pause_in_flight
    }

    /// Whether a pulse was sent and has not settled yet.
    pub fn pulse_in_flight(&self) -> (b: bool)
        ensures
            b == self.spec_pulse_in_flight(),
    {
        self.pulse_in_flight
    }

    /// The newest ruler `frame_id` consumed so far; wait for samples after it.
    pub fn last_frame_id(&self) -> (id: u64)
        ensures
            id == self.spec_last_frame_id(),
    {
        self.last_frame_id
    }

    /// Moves the sample watermark forward to `frame_id` (never backward) without
    /// touching the logical frame or the pause state.
    pub fn acknowledge_frame_id(&mut self, frame_id: u64)
        requires
            old(self).wf(),
        ensures
            final(self).wf(),
            *final(self) == old(self).acknowledged(frame_id),
    {
        if frame_id > self.last_frame_id {
            self.last_frame_id = frame_id;
        }
    }

    /// Completed and total action counts.
    pub fn progress(&self) -> (p: (usize, usize))
        ensures
            p.0 == self.spec_action_index(),
            p.1 == self.spec_action_count(),
    {
        (self.action_index, self.copilot.actions.len())
    }

    /// The frame of the next action; `None` once all are done.
    pub fn target(&self) -> (t: Option<i64>)
        ensures
            t == self.spec_target(),
    {
        if self.action_index < self.copilot.actions.len() {
            Some(self.copilot.actions[self.action_index].frame)
        } else {
            None
        }
    }

    /// The user stops the run.
    pub fn user_abort(&mut self)
        requires
            old(self).wf(),
        ensures
            final(self).wf(),
            *final(self) == old(self).failed(AbortReason::UserAborted),
            final(self).spec_phase() == Phase::Aborted,
            final(self).spec_abort() == if old(self).spec_phase() == Phase::Aborted {
                old(self).spec_abort()
            } else {
                Some(AbortReason::UserAborted)
            },
            final(self).spec_tuner() == old(self).spec_tuner(),
            final(self).spec_cursor() == old(self).spec_cursor(),
            final(self).spec_last_frame_id() == old(self).spec_last_frame_id(),
    {
        self.fail(AbortReason::UserAborted);
    }

    fn fail(&mut self, reason: AbortReason)
        requires
            old(self).wf(),
        ensures
            final(self).wf(),
            *final(self) == old(self).failed(reason),
    {
        if self.phase != Phase::Aborted {
            self.abort = Some(reason);
            self.phase = Phase::Aborted;
        }
    }

    fn gate(&mut self, view: &FrameView) -> (go_on: bool)
        requires
            old(self).wf(),
        ensures
            final(self).wf(),
            (*final(self), go_on) == old(self).gated(*view),
    {
        if self.phase == Phase::Idle || self.phase == Phase::WaitingBattle {
            return true;
        }
        if !view.in_battle {
            self.fail(AbortReason::LeftBattle { state: view.battle_state.clone() });
            return false;
        }
        if view.one_x {
            self.point_two_samples = None;
        }
        if !view.one_x {
            if text::starts_with(view.battle_state.as_str(), "0.2x_") {
                if let Some(samples) = self.point_two_samples {
                    let n = sat_inc_exec(samples);
                    self.point_two_samples = Some(n);
                    if n < POINT_TWO_GRACE_LIMIT {
                        return false;
                    }
                }
            }
            self.fail(AbortReason::NotOneX { state: view.battle_state.clone() });
            return false;
        }
        if (self.phase == Phase::Cruising || self.phase == Phase::Stepping)
            && self.resume_in_flight {
            if view.paused == Some(false) {
                self.resume_in_flight = false;
            } else {
                return false;
            }
        }
        if view.elapsed < self.cursor {
            let from = self.cursor;
            self.fail(AbortReason::FrameWentBackwards { from, to: view.elapsed });
            return false;
        }
        true
    }

    fn observe_waiting(&mut self, view: &FrameView)
        requires
            old(self).wf(),
        ensures
            final(self).wf(),
            *final(self) == old(self).after_waiting(*view),
    {
        if view.in_battle {
            if !view.one_x {
                self.fail(AbortReason::NotOneX { state: view.battle_state.clone() });
                return;
            }
            self.cursor = view.elapsed;
        }
    }

    fn observe_confirming(&mut self, view: &FrameView)
        requires
            old(self).wf(),
        ensures
            final(self).wf(),
            *final(self) == old(self).after_confirming(*view),
    {
        self.cursor = view.elapsed;
        if view.paused == Some(true) {
            self.pause_probe = None;
            self.paused = true;
            self.origin = view.elapsed;
            let first = self.copilot.actions[0].frame;
            if self.origin > first {
                let origin = self.origin;
                self.fail(AbortReason::MissedStart { origin, first_action: first });
                return;
            }
            self.phase = Phase::BindingFormation;
            return;
        }
        match self.pause_probe {
            None => self.pause_probe = Some((view.elapsed, 0)),
            Some((from, count)) => {
                if view.elapsed > from {
                    let c = sat_inc_exec(count);
                    if c >= PAUSE_PROBE_LIMIT {
                        self.fail(AbortReason::OpeningPauseIneffective);
                    } else {
                        self.pause_probe = Some((view.elapsed, c));
                    }
                }
            },
        }
    }

    fn track_pulse(&mut self, view: &FrameView) -> (can_settle: bool)
        requires
            old(self).wf(),
        ensures
            final(self).wf(),
            (*final(self), can_settle) == old(self).pulse_tracked(*view),
    {
        if self.pulse_in_flight {
            match view.paused {
                Some(false) => {
                    self.paused = false;
                    self.pulse_seen_running = true;
                    self.pulse_paused_samples = 0;
                    false
                },
                Some(true) => {
                    self.paused = true;
                    self.pulse_paused_samples = sat_inc_exec(self.pulse_paused_samples);
                    self.pulse_seen_running || self.pulse_paused_samples
                        >= PULSE_PAUSED_CONFIRM_SAMPLES
                },
                None => {
                    self.pulse_paused_samples = 0;
                    false
                },
            }
        } else {
            false
        }
    }

    #[verifier::rlimit(40)]
    fn observe_running(&mut self, view: &FrameView)
        requires
            old(self).wf(),
            old(self).spec_tuner().pulse_count() < u32::MAX,
        ensures
            final(self).wf(),
            *final(self) == old(self).after_running(*view),
    {
        let target = match self.target() {
            Some(t) => t,
            None => {
                return;
            },
        };
        self.cursor = view.elapsed;
        let can_settle = self.track_pulse(view);
        if self.cursor > target {
            let actual = self.cursor;
            self.fail(AbortReason::OvershotTarget { target, actual });
            return;
        }
        if can_settle {
            let delta = sat_sub_exec(self.cursor, self.pulse_from);
            self.tuner.observe(delta);
            self.pulse_in_flight = false;
            self.pulse_settle_samples = 0;
            self.pulse_seen_running = false;
            self.pulse_paused_samples = 0;
        }
        if self.pulse_in_flight {
            self.pulse_settle_samples = sat_inc_exec(self.pulse_settle_samples);
            if self.pulse_settle_samples >= PULSE_SETTLE_SAMPLE_LIMIT {
                self.fail(AbortReason::PulseDidNotSettle { state: view.battle_state.clone() });
            }
            return;
        }
        if self.pause_in_flight {
            if view.paused == Some(true) {
                self.pause_in_flight = false;
                self.pause_probe = None;
                self.paused = true;
            } else {
                self.paused = false;
                if let Some((from, _)) = self.pause_probe {
                    let advanced = sat_sub_exec(self.cursor, from);
                    if advanced >= RUNTIME_PAUSE_MAX_ADVANCE_FRAMES {
                        self.fail(AbortReason::PauseIneffective);
                    } else {
                        self.pause_probe = Some((from, advanced as u32));
                    }
                }
            }
            return;
        }
        if let Some(p) = view.paused {
            self.paused = p;
        }
    }

    /// Feeds one ruler sample; returns whether it was taken (a new `frame_id` and a
    /// trustworthy reading that passed the battle checks).
    pub fn observe(&mut self, view: &FrameView) -> (taken: bool)
        requires
            old(self).wf(),
            old(self).spec_phase() != Phase::Aborted && old(self).spec_phase() != Phase::Finished
                && view.frame_id > old(self).spec_last_frame_id() && view.trustworthy ==> old(
                self,
            ).spec_tuner().pulse_count() < u32::MAX,
        ensures
            final(self).wf(),
            (*final(self), taken) == old(self).after_sample(*view),
    {
        if self.phase == Phase::Aborted || self.phase == Phase::Finished {
            return false;
        }
        if view.frame_id <= self.last_frame_id {
            return false;
        }
        self.last_frame_id = view.frame_id;
        if !view.trustworthy {
            return false;
        }
        if !self.gate(view) {
            return false;
        }
        match self.phase {
            Phase::WaitingBattle => self.observe_waiting(view),
            Phase::ConfirmingZero => self.observe_confirming(view),
            Phase::Cruising | Phase::Stepping => self.observe_running(view),
            _ => {},
        }
        true
    }

    fn next_running_command(&mut self) -> (c: Command)
        requires
            old(self).wf(),
        ensures
            final(self).wf(),
            (*final(self), c) == old(self).running_command(),
    {
        let target = match self.target() {
            Some(t) => t,
            None => {
                self.phase = Phase::Finished;
                return Command::Finish;
            },
        };
        let remaining: i128 = target as i128 - self.cursor as i128;
        if self.resume_in_flight {
            self.phase = Phase::Cruising;
            return Command::AwaitFrame { timeout: await_timeout() };
        }
        if self.pulse_in_flight || self.pause_in_flight {
            self.phase = Phase::Stepping;
            return Command::AwaitFrame { timeout: await_timeout() };
        }
        if remaining == 0 {
            if !self.paused {
                self.phase = Phase::Stepping;
                return Command::Pause;
            }
            self.phase = Phase::Injecting;
            return Command::Execute { index: self.action_index };
        }
        if remaining > FRAME_LEAD as i128 {
            self.phase = Phase::Cruising;
            if self.paused {
                return Command::Resume;
            }
            return Command::AwaitFrame { timeout: await_timeout() };
        }
        if !self.paused {
            self.phase = Phase::Stepping;
            return Command::Pause;
        }
        self.phase = Phase::Stepping;
        let gap = if remaining == 1 {
            timing::duration_from_millis(stepping::MIN_GAP_MS as u64)
        } else {
            self.tuner.gap()
        };
        Command::Pulse { gap }
    }

    /// What to do next. Only deterministic phase moves happen here; report the outcome
    /// with [`Machine::completed`].
    pub fn next_command(&mut self) -> (c: Command)
        requires
            old(self).wf(),
        ensures
            final(self).wf(),
            (*final(self), c) == old(self).command(),
    {
        match self.phase {
            Phase::Idle => Command::Idle,
            Phase::Aborted => match &self.abort {
                Some(reason) => Command::Abort(reason.duplicate()),
                None => Command::Abort(AbortReason::ExecutionFailed(String::from_str("未知原因"))),
            },
            Phase::Finished => Command::Idle,
            Phase::WaitingBattle => Command::ArmBattleStart,
            Phase::ConfirmingZero => Command::AwaitFrame { timeout: await_timeout() },
            Phase::BindingFormation => Command::BindFormation,
            Phase::Cruising | Phase::Stepping | Phase::Injecting => self.next_running_command(),
        }
    }

    /// Reports that a command was carried out.
    pub fn completed(&mut self, completion: Completion)
        requires
            old(self).wf(),
        ensures
            final(self).wf(),
            *final(self) == old(self).after_completion(completion),
    {
        if self.phase == Phase::Aborted || self.phase == Phase::Finished {
            return;
        }
        match completion {
            Completion::OpeningPauseDelegated => {
                if self.phase == Phase::WaitingBattle {
                    self.phase = Phase::ConfirmingZero;
                    self.pause_probe = None;
                }
            },
            Completion::PauseSent => {
                self.paused = false;
                self.resume_in_flight = false;
                self.pause_in_flight = true;
                self.pause_probe = Some((self.cursor, 0));
            },
            Completion::ResumeSent => {
                self.paused = false;
                self.resume_in_flight = true;
                self.pause_in_flight = false;
                self.pause_probe = None;
                self.pulse_settle_samples = 0;
                self.pulse_seen_running = false;
                self.pulse_paused_samples = 0;
            },
            Completion::PulseSent => {
                self.resume_in_flight = false;
                self.pulse_in_flight = true;
                self.pulse_settle_samples = 0;
                self.pulse_seen_running = false;
                self.pulse_paused_samples = 0;
                self.pulse_from = self.cursor;
            },
            Completion::FormationBound => self.phase = Phase::Stepping,
            Completion::ActionExecuted => {
                let sends_input = if self.action_index < self.copilot.actions.len() {
                    let k = self.copilot.actions[self.action_index].kind;
                    k == ActionType::Deploy || k == ActionType::UseSkill || k == ActionType::Retreat
                } else {
                    false
                };
                self.point_two_samples = if sends_input {
                    Some(0)
                } else {
                    None
                };
                if self.action_index < usize::MAX {
                    self.action_index = self.action_index + 1;
                }
                self.phase = Phase::Stepping;
            },
        }
    }

    /// An action failed to execute.
    pub fn execution_failed(&mut self, what: String)
        requires
            old(self).wf(),
        ensures
            final(self).wf(),
            *final(self) == old(self).failed(AbortReason::ExecutionFailed(what)),
    {
        self.fail(AbortReason::ExecutionFailed(what));
    }

    /// No fresh sample arrived in time.
    pub fn frame_timeout(&mut self)
        requires
            old(self).wf(),
        ensures
            final(self).wf(),
            *final(self) == old(self).failed(AbortReason::FrameTimeout),
    {
        self.fail(AbortReason::FrameTimeout);
    }
}


/// Whether the phase is one of the two in which the game is driven toward a target.
pub open spec fn is_running_phase(p: Phase) -> bool {
    p == Phase::Cruising || p == Phase::Stepping
}

/// Acknowledging a `frame_id` only raises the watermark.
pub proof fn lemma_acknowledged_only_moves_watermark(m: Machine, frame_id: u64)
    ensures
        m.acknowledged(frame_id).spec_last_frame_id() == if frame_id > m.spec_last_frame_id() {
            frame_id
        } else {
            m.spec_last_frame_id()
        },
        m.acknowledged(frame_id).spec_phase() == m.spec_phase(),
        m.acknowledged(frame_id).spec_cursor() == m.spec_cursor(),
        m.acknowledged(frame_id).spec_origin() == m.spec_origin(),
        m.acknowledged(frame_id).spec_action_index() == m.spec_action_index(),
        m.acknowledged(frame_id).spec_copilot() == m.spec_copilot(),
        m.acknowledged(frame_id).spec_paused() == m.spec_paused(),
        m.acknowledged(frame_id).spec_pause_in_flight() == m.spec_pause_in_flight(),
        m.acknowledged(frame_id).spec_pulse_in_flight() == m.spec_pulse_in_flight(),
        m.acknowledged(frame_id).spec_resume_in_flight() == m.spec_resume_in_flight(),
        m.acknowledged(frame_id).spec_abort() == m.spec_abort(),
        m.acknowledged(frame_id).spec_tuner() == m.spec_tuner(),
{
}

/// What reporting a completed command does to what a client of the machine sees. An
/// aborted or finished run stays exactly as it is. Otherwise the cursor, origin, job,
/// watermark, abort reason and tuner never change, and the next target moves on only
/// when an action was executed.
pub proof fn lemma_completion_effects(m: Machine, c: Completion)
    ensures
        m.spec_phase() == Phase::Aborted || m.spec_phase() == Phase::Finished ==> m.after_completion(c)
            == m,
        m.spec_phase() != Phase::Aborted && m.spec_phase() != Phase::Finished ==> ({
            let n = m.after_completion(c);
            &&& n.spec_cursor() == m.spec_cursor()
            &&& n.spec_origin() == m.spec_origin()
            &&& n.spec_copilot() == m.spec_copilot()
            &&& n.spec_last_frame_id() == m.spec_last_frame_id()
            &&& n.spec_abort() == m.spec_abort()
            &&& n.spec_tuner() == m.spec_tuner()
            &&& n.spec_phase() != Phase::Aborted
            &&& match c {
                Completion::OpeningPauseDelegated => n.spec_phase() == (if m.spec_phase()
                    == Phase::WaitingBattle {
                    Phase::ConfirmingZero
                } else {
                    m.spec_phase()
                }) && n.spec_action_index() == m.spec_action_index() && n.spec_target()
                    == m.spec_target(),
                Completion::PauseSent => n.spec_phase() == m.spec_phase() && !n.spec_paused()
                    && n.spec_pause_in_flight() && !n.spec_resume_in_flight()
                    && n.spec_action_index() == m.spec_action_index() && n.spec_target()
                    == m.spec_target(),
                Completion::ResumeSent => n.spec_phase() == m.spec_phase() && !n.spec_paused()
                    && !n.spec_pause_in_flight() && n.spec_resume_in_flight()
                    && n.spec_action_index() == m.spec_action_index() && n.spec_target()
                    == m.spec_target(),
                Completion::PulseSent => n.spec_phase() == m.spec_phase() && n.spec_pulse_in_flight()
                    && !n.spec_resume_in_flight() && n.spec_action_index() == m.spec_action_index()
                    && n.spec_target() == m.spec_target(),
                Completion::FormationBound => n.spec_phase() == Phase::Stepping
                    && n.spec_action_index() == m.spec_action_index() && n.spec_target()
                    == m.spec_target(),
                Completion::ActionExecuted => n.spec_phase() == Phase::Stepping
                    && n.spec_action_index() == (if m.spec_action_index() < usize::MAX {
                    m.spec_action_index() + 1
                } else {
                    m.spec_action_index() as int
                }) && n.spec_target() == (if n.spec_action_index() < m.spec_action_count() {
                    Some(m.spec_copilot().actions@[n.spec_action_index() as int].frame)
                } else {
                    None::<i64>
                }),
            }
        }),
{
}

/// The next step of a run that drives toward its targets, by the distance to the
/// target and what is still in flight: the command and the phase it moves to.
pub open spec fn running_step(m: Machine) -> (Phase, Command) {
    match m.spec_target() {
        None => (Phase::Finished, Command::Finish),
        Some(target) => {
            let remaining = target - m.spec_cursor();
            if m.spec_resume_in_flight() {
                (Phase::Cruising, await_frame_command())
            } else if m.spec_pulse_in_flight() || m.spec_pause_in_flight() {
                (Phase::Stepping, await_frame_command())
            } else if remaining == 0 {
                if !m.spec_paused() {
                    (Phase::Stepping, Command::Pause)
                } else {
                    (Phase::Injecting, Command::Execute { index: m.spec_action_index() })
                }
            } else if remaining > FRAME_LEAD {
                (Phase::Cruising, if m.spec_paused() {
                    Command::Resume
                } else {
                    await_frame_command()
                })
            } else if !m.spec_paused() {
                (Phase::Stepping, Command::Pause)
            } else {
                (
                    Phase::Stepping,
                    Command::Pulse {
                        gap: if remaining == 1 {
                            timing::duration_of_millis(stepping::MIN_GAP_MS as u64)
                        } else {
                            timing::duration_of_millis(m.spec_tuner().spec_gap_ms() as u64)
                        },
                    },
                )
            }
        },
    }
}

/// The command table: what [`Machine::next_command`] answers in each phase. Choosing a
/// command changes at most the phase.
pub proof fn lemma_command_table(m: Machine)
    ensures
        m.command().0.spec_cursor() == m.spec_cursor(),
        m.command().0.spec_origin() == m.spec_origin(),
        m.command().0.spec_copilot() == m.spec_copilot(),
        m.command().0.spec_action_index() == m.spec_action_index(),
        m.command().0.spec_last_frame_id() == m.spec_last_frame_id(),
        m.command().0.spec_abort() == m.spec_abort(),
        m.command().0.spec_tuner() == m.spec_tuner(),
        m.command().0.spec_paused() == m.spec_paused(),
        m.command().0.spec_pause_in_flight() == m.spec_pause_in_flight(),
        m.command().0.spec_pulse_in_flight() == m.spec_pulse_in_flight(),
        m.command().0.spec_resume_in_flight() == m.spec_resume_in_flight(),
        match m.spec_phase() {
            Phase::Idle => m.command() == (m, Command::Idle),
            Phase::Aborted => m.command() == (m, Command::Abort(m.spec_abort().unwrap())),
            Phase::Finished => m.command() == (m, Command::Idle),
            Phase::WaitingBattle => m.command() == (m, Command::ArmBattleStart),
            Phase::ConfirmingZero => m.command() == (m, await_frame_command()),
            Phase::BindingFormation => m.command() == (m, Command::BindFormation),
            _ => m.command().0.spec_phase() == running_step(m).0 && m.command().1 == running_step(m).1,
        },
{
}

/// Once the run waits for the battle or anything later, no fresh trustworthy in-battle
/// sample at another speed than 1x lets it go on: the run aborts with `NotOneX`,
/// except for a 0.2x reading during the grace period after an input action, which is
/// not taken. Waiting for the battle, such a sample always aborts the run.
pub proof fn lemma_off_speed_samples_stop_the_run(m: Machine, v: FrameView)
    requires
        m.spec_phase() != Phase::Idle,
        m.spec_phase() != Phase::Aborted,
        m.spec_phase() != Phase::Finished,
        v.frame_id > m.spec_last_frame_id(),
        v.trustworthy,
        v.in_battle,
        !v.one_x,
    ensures
        m.after_sample(v).0.spec_phase() == Phase::Aborted && m.after_sample(v).0.spec_abort() == Some(
            AbortReason::NotOneX { state: v.battle_state },
        ) || (is_point_two_state(v.battle_state@) && !m.after_sample(v).1
            && m.after_sample(v).0.spec_phase() == m.spec_phase()),
        m.spec_phase() == Phase::WaitingBattle ==> m.after_sample(v).0.spec_phase() == Phase::Aborted
            && m.after_sample(v).0.spec_abort() == Some(AbortReason::NotOneX { state: v.battle_state }),
{
}

/// A sample that a live run takes once the battle is on is a trustworthy 1x battle
/// sample, in every phase.
pub proof fn lemma_taken_in_battle_samples_are_one_x(m: Machine, v: FrameView)
    requires
        m.spec_phase() != Phase::Idle,
        m.after_sample(v).1,
        m.after_sample(v).0.spec_phase() != Phase::Aborted,
        v.in_battle,
    ensures
        v.trustworthy,
        v.one_x,
{
}

/// An abort is final: an aborted run keeps its reason, refuses every sample, ignores
/// every report and every further failure, and only ever answers `Abort`.
pub proof fn lemma_abort_is_final(m: Machine, v: FrameView, c: Completion, r: AbortReason)
    requires
        m.spec_phase() == Phase::Aborted,
    ensures
        m.after_sample(v) == (m, false),
        m.after_completion(c) == m,
        m.failed(r) == m,
        m.command() == (m, Command::Abort(m.spec_abort().unwrap())),
{
}

/// Giving up with `reason`: the run is aborted; the first reason is kept, and
/// everything else (the cursor, origin, job, watermark, progress and tuner) stays.
pub proof fn lemma_failed_effects(m: Machine, reason: AbortReason)
    ensures
        m.failed(reason).spec_phase() == Phase::Aborted,
        m.failed(reason).spec_abort() == if m.spec_phase() == Phase::Aborted {
            m.spec_abort()
        } else {
            Some(reason)
        },
        m.failed(reason).spec_cursor() == m.spec_cursor(),
        m.failed(reason).spec_origin() == m.spec_origin(),
        m.failed(reason).spec_copilot() == m.spec_copilot(),
        m.failed(reason).spec_last_frame_id() == m.spec_last_frame_id(),
        m.failed(reason).spec_action_index() == m.spec_action_index(),
        m.failed(reason).spec_tuner() == m.spec_tuner(),
{
}

/// Once the run has finished or aborted, samples change nothing and are not taken.
pub proof fn lemma_terminal_phases_ignore_samples(m: Machine, v: FrameView)
    requires
        m.spec_phase() == Phase::Aborted || m.spec_phase() == Phase::Finished,
    ensures
        m.after_sample(v) == (m, false),
{
}

/// A sample whose `frame_id` is not newer than the watermark changes nothing.
pub proof fn lemma_stale_samples_ignored(m: Machine, v: FrameView)
    requires
        v.frame_id <= m.spec_last_frame_id(),
    ensures
        m.after_sample(v) == (m, false),
{
}

/// An untrustworthy fresh sample only moves the watermark, so the same rejected sample
/// is never delivered twice and never feeds the pulse tuner.
pub proof fn lemma_untrustworthy_only_moves_watermark(m: Machine, v: FrameView)
    requires
        m.spec_phase() != Phase::Aborted,
        m.spec_phase() != Phase::Finished,
        v.frame_id > m.spec_last_frame_id(),
        !v.trustworthy,
    ensures
        m.after_sample(v) == (m.acknowledged(v.frame_id), false),
{
}

/// Outside the terminal phases every fresh sample raises the watermark to its
/// `frame_id`, whatever else happens; the watermark never goes down.
pub proof fn lemma_watermark_follows_samples(m: Machine, v: FrameView)
    ensures
        m.after_sample(v).0.spec_last_frame_id() >= m.spec_last_frame_id(),
        m.spec_phase() != Phase::Aborted && m.spec_phase() != Phase::Finished && v.frame_id
            > m.spec_last_frame_id() ==> m.after_sample(v).0.spec_last_frame_id() == v.frame_id,
{
    let (m2, _) = Machine { last_frame_id: v.frame_id, ..m }.gated(v);
}

/// A taken sample is fresh and trustworthy; once the battle has started it is also in
/// battle, at 1x and not behind the cursor.
pub proof fn lemma_taken_samples_are_sound(m: Machine, v: FrameView)
    requires
        m.after_sample(v).1,
    ensures
        v.trustworthy,
        v.frame_id > m.spec_last_frame_id(),
        m.spec_phase() != Phase::Idle && m.spec_phase() != Phase::WaitingBattle ==> v.in_battle
            && v.one_x && v.elapsed >= m.spec_cursor(),
{
}

/// Once the battle has started, the cursor never moves backward; a reading behind it
/// aborts the run.
pub proof fn lemma_cursor_never_regresses(m: Machine, v: FrameView)
    requires
        m.wf(),
        m.spec_phase() != Phase::Idle,
        m.spec_phase() != Phase::WaitingBattle,
    ensures
        m.after_sample(v).0.spec_cursor() >= m.spec_cursor(),
        v.frame_id > m.spec_last_frame_id() && v.trustworthy && v.in_battle && v.one_x
            && v.elapsed < m.spec_cursor() && m.spec_phase() != Phase::Aborted && m.spec_phase()
            != Phase::Finished && !(is_running_phase(m.spec_phase()) && m.spec_resume_in_flight()
            && v.paused != Some(false)) ==> m.after_sample(v).0.spec_phase() == Phase::Aborted,
{
    let m1 = Machine { last_frame_id: v.frame_id, ..m };
    let (m2, go_on) = m1.gated(v);
    if go_on && m2.phase == Phase::Cruising || m2.phase == Phase::Stepping {
        let t = m2.spec_target();
        if t is Some {
            let m0 = Machine { cursor: v.elapsed, ..m2 };
            let (mm, _) = m0.pulse_tracked(v);
        }
    }
}

/// While driving toward a target, a sample that lands past it aborts the run: the
/// game cannot rewind. So a running machine that has not aborted is never past its
/// target.
pub proof fn lemma_no_silent_overshoot(m: Machine, v: FrameView)
    requires
        m.wf(),
        is_running_phase(m.spec_phase()),
        m.spec_target() is Some,
        m.after_sample(v).0.spec_phase() != Phase::Aborted,
    ensures
        m.after_sample(v).0.spec_cursor() <= m.spec_target().unwrap() || m.after_sample(v).0.spec_cursor()
            == m.spec_cursor(),
{
    let m1 = Machine { last_frame_id: v.frame_id, ..m };
    let (m2, go_on) = m1.gated(v);
    if go_on {
        let m0 = Machine { cursor: v.elapsed, ..m2 };
        let (mm, _) = m0.pulse_tracked(v);
    }
}

/// An action is injected only at its own frame, on a paused game, with no pause,
/// resume or pulse still in flight.
pub proof fn lemma_execute_only_on_target(m: Machine)
    requires
        m.wf(),
        m.command().1 matches Command::Execute { index },
    ensures
        m.command().1 matches Command::Execute { index } && index == m.spec_action_index(),
        m.spec_target() == Some(m.spec_cursor()),
        m.spec_paused(),
        !m.spec_resume_in_flight() && !m.spec_pulse_in_flight() && !m.spec_pause_in_flight(),
        m.command().0.spec_phase() == Phase::Injecting,
{
}

/// A pulse is sent only on a paused game, with nothing in flight, within
/// `FRAME_LEAD` frames of a target it has not reached; the last step before the target
/// always uses the shortest gap.
pub proof fn lemma_pulse_only_near_target(m: Machine)
    requires
        m.wf(),
        m.command().1 matches Command::Pulse { gap },
    ensures
        m.spec_paused(),
        !m.spec_resume_in_flight() && !m.spec_pulse_in_flight() && !m.spec_pause_in_flight(),
        m.spec_target() is Some,
        m.spec_target().unwrap() - m.spec_cursor() != 0,
        m.spec_target().unwrap() - m.spec_cursor() <= FRAME_LEAD,
        m.spec_target().unwrap() - m.spec_cursor() == 1 ==> m.command().1 == (Command::Pulse {
            gap: timing::duration_of_millis(stepping::MIN_GAP_MS as u64),
        }),
{
}

/// Resume is sent only on a paused game that is more than `FRAME_LEAD` frames from its
/// target.
pub proof fn lemma_resume_only_when_far(m: Machine)
    requires
        m.wf(),
        m.command().1 matches Command::Resume,
    ensures
        m.spec_paused(),
        m.spec_target() is Some,
        m.spec_target().unwrap() - m.spec_cursor() > FRAME_LEAD,
        m.command().0.spec_phase() == Phase::Cruising,
{
}

/// While a pause, resume or pulse awaits the ruler's confirmation, the machine only
/// waits for samples and sends no input.
pub proof fn lemma_in_flight_only_waits(m: Machine)
    requires
        m.wf(),
        m.spec_phase() == Phase::Cruising || m.spec_phase() == Phase::Stepping || m.spec_phase()
            == Phase::Injecting,
        m.spec_target() is Some,
        m.spec_resume_in_flight() || m.spec_pulse_in_flight() || m.spec_pause_in_flight(),
    ensures
        m.command().1 == await_frame_command(),
{
}

/// Once driving toward targets, the machine finishes exactly when no action is left,
/// and then stays finished.
pub proof fn lemma_finish_exactly_when_done(m: Machine)
    requires
        m.wf(),
        m.spec_phase() == Phase::Cruising || m.spec_phase() == Phase::Stepping || m.spec_phase()
            == Phase::Injecting,
    ensures
        (m.command().1 == Command::Finish) == (m.spec_target() is None),
        m.spec_target() is None ==> m.command().0.spec_phase() == Phase::Finished,
{
}

/// A paused machine at the frame of its next action, with nothing in flight, injects
/// that action right away; actions that share a frame run back to back.
pub proof fn lemma_due_action_is_injected(m: Machine)
    requires
        m.wf(),
        m.spec_phase() == Phase::Stepping,
        m.spec_target() == Some(m.spec_cursor()),
        m.spec_paused(),
        !m.spec_resume_in_flight() && !m.spec_pulse_in_flight() && !m.spec_pause_in_flight(),
    ensures
        m.command().1 == (Command::Execute { index: m.spec_action_index() }),
{
}

/// The first failure is the one that is kept and reported: aborting an aborted machine
/// changes nothing, and an aborted machine's command is `Abort` with its reason.
pub proof fn lemma_first_abort_reason_sticks(m: Machine, r: AbortReason)
    requires
        m.wf(),
    ensures
        m.failed(r).spec_phase() == Phase::Aborted,
        m.spec_phase() != Phase::Aborted ==> m.failed(r).spec_abort() == Some(r),
        m.spec_phase() == Phase::Aborted ==> m.failed(r) == m,
        m.spec_phase() == Phase::Aborted ==> m.command() == (m, Command::Abort(m.spec_abort().unwrap())),
{
}

/// Reporting an executed action moves to the next action and back to stepping.
pub proof fn lemma_action_executed_advances(m: Machine)
    requires
        m.wf(),
        m.spec_phase() != Phase::Aborted && m.spec_phase() != Phase::Finished,
        m.spec_action_index() < m.spec_action_count(),
        m.spec_action_index() < usize::MAX,
    ensures
        m.after_completion(Completion::ActionExecuted).spec_action_index() == m.spec_action_index() + 1,
        m.after_completion(Completion::ActionExecuted).spec_phase() == Phase::Stepping,
        m.after_completion(Completion::ActionExecuted).spec_cursor() == m.spec_cursor(),
{
}

/// The opening pause is accepted on any frame not later than the first action;
/// landing later aborts with `MissedStart`.
pub proof fn lemma_opening_pause_outcome(m: Machine, v: FrameView)
    requires
        m.wf(),
        v.paused == Some(true),
    ensures
        v.elapsed > m.spec_copilot().actions@[0].frame ==> m.after_confirming(v).spec_phase()
            == Phase::Aborted,
        v.elapsed <= m.spec_copilot().actions@[0].frame && m.spec_phase() != Phase::Aborted
            ==> m.after_confirming(v).spec_phase() == Phase::BindingFormation && m.after_confirming(
            v,
        ).spec_origin() == v.elapsed && m.after_confirming(v).spec_cursor() == v.elapsed,
{
}

} // verus!
