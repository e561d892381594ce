//! Closed-loop tuning of the single-frame pulse gap.
//!
//! A pulse resumes the game for `gap` milliseconds and pauses it again. The ruler then
//! reports how many logical frames the pulse actually advanced, and the tuner adjusts
//! the gap asymmetrically:
//!
//! - advancing 0 frames is harmless (the pulse is simply repeated), so the gap only
//!   grows after a long run of empty pulses, and only by a small step;
//! - advancing 2 or more frames cannot be undone, so the gap shrinks immediately and
//!   by more than one growth step.
use vstd::prelude::*;
use std::time::Duration;

use crate::timing;

verus! {

/// Default pulse gap at 1x speed, in milliseconds.
pub const DEFAULT_GAP_1X_MS: u32 = 16;
/// Lower bound of the pulse gap, in milliseconds.
pub const MIN_GAP_MS: u32 = 12;
/// Upper bound of the pulse gap, in milliseconds.
pub const MAX_GAP_MS: u32 = 24;

/// Number of consecutive empty pulses after which the gap grows.
pub const ZEROS_BEFORE_GROWING: u32 = 5;
/// Growth step after a run of empty pulses.
pub const GROW_MS: u32 = 1;
/// Shrink step after a pulse that advanced two frames or more.
pub const SHRINK_MS: u32 = 3;

/// `x` clamped into `[lo, hi]`.
pub open spec fn clamp_int(x: int, lo: int, hi: int) -> int {
    if x < lo {
        lo
    } else if x > hi {
        hi
    } else {
        x
    }
}

/// How the tuner classifies the measured advance of one pulse.
pub open spec fn is_empty_pulse(advanced: int) -> bool {
    advanced <= 0
}

pub open spec fn is_overshoot(advanced: int) -> bool {
    advanced >= 2
}

/// Adaptive pulse gap.
#[derive(Clone, Copy, Debug)]
pub struct GapTuner {
    gap_ms: u32,
    min_ms: u32,
    max_ms: u32,
    /// Total number of pulses observed.
    pub pulses: u32,
    /// Pulses that advanced no frame.
    pub zero_frame_pulses: u32,
    /// Pulses that advanced two frames or more.
    pub overshoot_pulses: u32,
    consecutive_zeros: u32,
}

impl GapTuner {
    /// Current gap in milliseconds (spec view).
    pub closed spec fn spec_gap_ms(&self) -> u32 {
        self.gap_ms
    }

    /// Total number of pulses observed (spec view).
    pub closed spec fn pulse_count(&self) -> u32 {
        self.pulses
    }

    /// Pulses that advanced no frame (spec view).
    pub closed spec fn zero_count(&self) -> u32 {
        self.zero_frame_pulses
    }

    /// Pulses that advanced two frames or more (spec view).
    pub closed spec fn overshoot_count(&self) -> u32 {
        self.overshoot_pulses
    }

    /// Length of the current run of empty pulses.
    pub closed spec fn zero_run(&self) -> u32 {
        self.consecutive_zeros
    }

    /// The tuner after observing a pulse that advanced `advanced` frames.
    pub closed spec fn after_observing(self, advanced: int) -> GapTuner {
        let pulses = (self.pulses + 1) as u32;
        if advanced <= 0 {
            let zeros = (self.consecutive_zeros + 1) as u32;
            if zeros >= ZEROS_BEFORE_GROWING {
                GapTuner {
                    pulses,
                    zero_frame_pulses: (self.zero_frame_pulses + 1) as u32,
                    consecutive_zeros: 0,
                    gap_ms: if self.gap_ms + GROW_MS < self.max_ms {
                        (self.gap_ms + GROW_MS) as u32
                    } else {
                        self.max_ms
                    },
                    ..self
                }
            } else {
                GapTuner {
                    pulses,
                    zero_frame_pulses: (self.zero_frame_pulses + 1) as u32,
                    consecutive_zeros: zeros,
                    ..self
                }
            }
        } else if advanced == 1 {
            GapTuner { pulses, consecutive_zeros: 0, ..self }
        } else {
            let shrunk: int = if self.gap_ms >= SHRINK_MS {
                self.gap_ms - SHRINK_MS
            } else {
                0
            };
            GapTuner {
                pulses,
                consecutive_zeros: 0,
                overshoot_pulses: (self.overshoot_pulses + 1) as u32,
                gap_ms: if shrunk > self.min_ms {
                    shrunk as u32
                } else {
                    self.min_ms
                },
                ..self
            }
        }
    }

    /// The tuner's invariant: the gap stays within its bounds, the run of empty pulses
    /// is shorter than the growth threshold, and the classified counters never exceed
    /// the total.
    pub closed spec fn wf(&self) -> bool {
        &&& self.min_ms == MIN_GAP_MS
        &&& self.max_ms == MAX_GAP_MS
        &&& MIN_GAP_MS <= self.gap_ms <= MAX_GAP_MS
        &&& self.consecutive_zeros < ZEROS_BEFORE_GROWING
        &&& self.zero_frame_pulses + self.overshoot_pulses <= self.pulses
    }

    /// A fresh tuner starting at `initial_ms`, clamped into the allowed range.
    pub fn new(initial_ms: u32) -> (t: Self)
        ensures
            t.wf(),
            t.spec_gap_ms() == clamp_int(initial_ms as int, MIN_GAP_MS as int, MAX_GAP_MS as int),
            t.pulse_count() == 0,
            t.zero_count() == 0,
            t.overshoot_count() == 0,
            t.zero_run() == 0,
    {
        let gap_ms = if initial_ms < MIN_GAP_MS {
            MIN_GAP_MS
        } else if initial_ms > MAX_GAP_MS {
            MAX_GAP_MS
        } else {
            initial_ms
        };
        GapTuner {
            gap_ms,
            min_ms: MIN_GAP_MS,
            max_ms: MAX_GAP_MS,
            pulses: 0,
            zero_frame_pulses: 0,
            overshoot_pulses: 0,
            consecutive_zeros: 0,
        }
    }

    /// The default tuner, starting at [`DEFAULT_GAP_1X_MS`].
    pub fn default_tuner() -> (t: Self)
        ensures
            t.wf(),
            t.spec_gap_ms() == DEFAULT_GAP_1X_MS,
            t.pulse_count() == 0,
            t.zero_count() == 0,
            t.overshoot_count() == 0,
            t.zero_run() == 0,
    {
        Self::new(DEFAULT_GAP_1X_MS)
    }

    /// The current gap as a duration.
    pub fn gap(&self) -> (d: Duration)
        ensures
            d == timing::duration_of_millis(self.spec_gap_ms() as u64),
    {
        timing::duration_from_millis(self.gap_ms as u64)
    }

    /// The current gap in milliseconds.
    pub fn gap_ms(&self) -> (g: u32)
        ensures
            g == self.spec_gap_ms(),
    {
        self.gap_ms
    }

    /// The `pulses` field: every pulse observed.
    pub fn pulses(&self) -> (n: u32)
        ensures
            n == self.pulse_count(),
    {
        self.pulses
    }

    /// The `zero_frame_pulses` field: pulses that advanced no frame.
    pub fn zero_frame_pulses(&self) -> (n: u32)
        ensures
            n == self.zero_count(),
    {
        self.zero_frame_pulses
    }

    /// The `overshoot_pulses` field: pulses that advanced two frames or more.
    pub fn overshoot_pulses(&self) -> (n: u32)
        ensures
            n == self.overshoot_count(),
    {
        self.overshoot_pulses
    }

    /// Records the measured advance of one pulse and adjusts the gap.
    ///
    /// A negative advance (a ruler glitch) counts as an empty pulse.
    pub fn observe(&mut self, advanced_frames: i64)
        requires
            old(self).wf(),
            old(self).pulse_count() < u32::MAX,
        ensures
            *final(self) == old(self).after_observing(advanced_frames as int),
            final(self).wf(),
            final(self).pulse_count() == old(self).pulse_count() + 1,
            final(self).zero_count() == old(self).zero_count() + if is_empty_pulse(
                advanced_frames as int,
            ) {
                1int
            } else {
                0int
            },
            final(self).overshoot_count() == old(self).overshoot_count() + if is_overshoot(
                advanced_frames as int,
            ) {
                1int
            } else {
                0int
            },
            is_empty_pulse(advanced_frames as int) ==> {
                if old(self).zero_run() + 1 >= ZEROS_BEFORE_GROWING {
                    &&& final(self).zero_run() == 0
                    &&& final(self).spec_gap_ms() == if old(self).spec_gap_ms() + GROW_MS
                        > MAX_GAP_MS {
                        MAX_GAP_MS as int
                    } else {
                        old(self).spec_gap_ms() + GROW_MS
                    }
                } else {
                    &&& final(self).zero_run() == old(self).zero_run() + 1
                    &&& final(self).spec_gap_ms() == old(self).spec_gap_ms()
                }
            },
            advanced_frames == 1 ==> final(self).zero_run() == 0 && final(self).spec_gap_ms()
                == old(self).spec_gap_ms(),
            is_overshoot(advanced_frames as int) ==> {
                &&& final(self).zero_run() == 0
                &&& final(self).spec_gap_ms() == if old(self).spec_gap_ms() - SHRINK_MS
                    < MIN_GAP_MS {
                    MIN_GAP_MS as int
                } else {
                    old(self).spec_gap_ms() - SHRINK_MS
                }
            },
    {
        self.pulses = self.pulses + 1;
        if advanced_frames <= 0 {
            self.zero_frame_pulses = self.zero_frame_pulses + 1;
            self.consecutive_zeros = self.consecutive_zeros + 1;
            if self.consecutive_zeros >= ZEROS_BEFORE_GROWING {
                self.consecutive_zeros = 0;
                let grown = self.gap_ms + GROW_MS;
                self.gap_ms = if grown < self.max_ms {
                    grown
                } else {
                    self.max_ms
                };
            }
        } else if advanced_frames == 1 {
            self.consecutive_zeros = 0;
        } else {
            self.consecutive_zeros = 0;
            self.overshoot_pulses = self.overshoot_pulses + 1;
            let shrunk = if self.gap_ms >= SHRINK_MS {
                self.gap_ms - SHRINK_MS
            } else {
                0
            };
            self.gap_ms = if shrunk > self.min_ms {
                shrunk
            } else {
                self.min_ms
            };
        }
    }

    /// Whether any pulse so far advanced two frames or more.
    pub fn had_overshoot(&self) -> (b: bool)
        ensures
            b == (self.overshoot_count() > 0),
    {
        self.overshoot_pulses > 0
    }
}

/// One overshoot costs more gap than a whole run of empty pulses adds, so an occasional
/// overshoot mixed with many empty pulses can never drift the gap back up.
pub proof fn lemma_shrink_outweighs_growth()
    ensures
        SHRINK_MS > GROW_MS,
        DEFAULT_GAP_1X_MS >= MIN_GAP_MS,
        DEFAULT_GAP_1X_MS <= MAX_GAP_MS,
{
}

} // verus!
