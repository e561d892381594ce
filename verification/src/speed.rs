//! Battle speed settings.
use vstd::prelude::*;

verus! {

/// Logical frames per second at 1x speed (one logical frame is about 33 ms).
pub const LOGICAL_FPS_1X: u32 = 30;

/// Battle speed setting. Frame mode supports [`Speed::One`] only.
#[derive(Clone, Copy, Debug, Default, PartialEq, Eq, Structural)]
pub enum Speed {
    /// 0.2x: the slow motion while an operator is selected or a card is dragged.
    PointTwo,
    #[default]
    One,
    Two,
}

/// Logical frames per second at each speed (6, 30 and 60).
pub open spec fn frames_per_second(s: Speed) -> nat {
    match s {
        Speed::PointTwo => 6,
        Speed::One => 30,
        Speed::Two => 60,
    }
}

impl Speed {
    /// Logical frames per second at this speed; one frame lasts `1000 / fps` ms.
    pub fn frames_per_second(self) -> (fps: u32)
        ensures
            fps == frames_per_second(self),
    {
        match self {
            Speed::PointTwo => 6,
            Speed::One => LOGICAL_FPS_1X,
            Speed::Two => 60,
        }
    }
}

} // verus!
