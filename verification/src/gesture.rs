//! Deploy drag gestures.
//!
//! A deploy drags a card onto a tile and then swipes the operator's facing. The
//! parameters are MAA's measured values: a drag that is too fast is not registered, one
//! that is too slow is taken for a cancel. Unlike MAA, no pause is sent mid-swipe: the
//! game already stands paused on the target frame before the drag starts.
//!
//! The swipe paths themselves are eased curves computed in floating point by the
//! application; this module holds the integer parameters, the swipe type and the
//! screen-edge correction.
use vstd::prelude::*;
use std::time::Duration;

use crate::geom::Point;
use crate::timing;

verus! {

/// `BattleSwipeOper.preDelay`: drag duration per 1000 px of distance, in milliseconds
/// (`duration = distance / 1000 * 400`).
pub const DURATION_COEFF: u32 = 400;
/// `BattleSwipeOper.specialParams[4]`: shortest drag; shorter ones are not registered.
pub const MIN_DURATION_MS: u64 = 300;
/// `BattleSwipeOper.specialParams[0]`: facing swipe length at 1280×720.
pub const DIRECTION_DISTANCE_REF: u32 = 400;
/// `BattleSwipeOper.specialParams[1]`: cap on the shift that brings a facing swipe back
/// onto the screen.
pub const DIRECTION_FIX_LIMIT: i32 = 100;
/// `BattleSwipeOper.postDelay`: duration of the facing swipe.
pub const DIRECTION_DURATION_MS: u64 = 150;
/// `BattleSwipeOper.specialParams[2]`: initial swipe speed.
pub const SLOPE_IN: u32 = 2;
/// `BattleSwipeOper.specialParams[3]`: final swipe speed.
pub const SLOPE_OUT: u32 = 0;
/// `BattleUseOper.postDelay`: wait between the drop and the facing swipe.
pub const AFTER_DROP_MS: u64 = 200;
/// `BattleUseOper.preDelay`: wait after the facing swipe.
pub const AFTER_DIRECTION_MS: u64 = 150;
/// minitouch's default step between swipe points, in milliseconds.
pub const SWIPE_STEP_MS: u64 = 10;

/// The step between swipe points.
pub fn swipe_step() -> (d: Duration)
    ensures
        d == timing::duration_of_millis(SWIPE_STEP_MS),
{
    timing::duration_from_millis(SWIPE_STEP_MS)
}

/// One swipe: touch positions [`SWIPE_STEP_MS`] apart. The first point is where the
/// touch goes down, the last where it lifts.
#[derive(Clone, Debug, PartialEq)]
pub struct Swipe {
    pub points: Vec<Point>,
}

/// The number of steps of a swipe with `len` points, as the step counter (`u32`) holds
/// it.
pub open spec fn swipe_steps(len: nat) -> u32 {
    (if len == 0 {
        0
    } else {
        (len - 1) as nat
    }) as u32
}

impl Swipe {
    /// How long the swipe takes: one step per gap between points.
    pub fn duration(&self) -> (d: Duration)
        ensures
            d == timing::duration_of_millis((SWIPE_STEP_MS * swipe_steps(self.points@.len())) as u64),
    {
        let n = self.points.len();
        let gaps: usize = if n == 0 {
            0
        } else {
            n - 1
        };
        #[verifier::truncate]
        let steps: u32 = gaps as u32;
        timing::duration_from_millis(SWIPE_STEP_MS * (steps as u64))
    }

    /// Where the touch goes down.
    pub fn start(&self) -> (p: Point)
        requires
            self.points@.len() > 0,
        ensures
            p == self.points@[0],
    {
        self.points[0]
    }

    /// Where the touch lifts.
    pub fn end(&self) -> (p: Point)
        requires
            self.points@.len() > 0,
        ensures
            p == self.points@.last(),
    {
        self.points[self.points.len() - 1]
    }
}

/// One complete deploy.
#[derive(Clone, Debug)]
pub struct DeployGesture {
    /// From the card to the target tile.
    pub drag: Swipe,
    /// The facing swipe; absent for an operator deployed without a facing.
    pub direction: Option<Swipe>,
}

/// `d`, but at most `max_distance`.
pub open spec fn capped(d: int, max_distance: int) -> int {
    if d < max_distance {
        d
    } else {
        max_distance
    }
}

/// The shift that [`fix_out_of_limit`] applies to both ends of a swipe ending at `end`:
/// when the end leaves the screen `width`×`height`, back onto it by the overshoot, but
/// by at most `max_distance`. Edges are checked in the order bottom, right, top, left.
pub open spec fn limit_shift(end: Point, width: int, height: int, max_distance: int) -> (int, int) {
    if end.y > height {
        (0, -capped(end.y - height, max_distance))
    } else if end.x > width {
        (-capped(end.x - width, max_distance), 0)
    } else if end.y < 0 {
        (0, capped(-end.y, max_distance))
    } else if end.x < 0 {
        (capped(-end.x, max_distance), 0)
    } else {
        (0, 0)
    }
}

pub open spec fn fits_i32(v: int) -> bool {
    i32::MIN <= v <= i32::MAX
}

/// Whether [`fix_out_of_limit`] computes without leaving `i32`.
pub open spec fn fix_computable(p1: Point, p2: Point, width: int, height: int, max_distance: int) -> bool {
    let s = limit_shift(p2, width, height, max_distance);
    &&& (p2.y > height ==> fits_i32(p2.y - height) && fits_i32(
        -capped(p2.y - height, max_distance),
    ))
    &&& (p2.y <= height && p2.x > width ==> fits_i32(p2.x - width) && fits_i32(
        -capped(p2.x - width, max_distance),
    ))
    &&& (p2.y <= height && p2.x <= width && p2.y < 0 ==> fits_i32(-p2.y))
    &&& (p2.y <= height && p2.x <= width && p2.y >= 0 && p2.x < 0 ==> fits_i32(-p2.x))
    &&& fits_i32(p1.x + s.0) && fits_i32(p1.y + s.1)
    &&& fits_i32(p2.x + s.0) && fits_i32(p2.y + s.1)
}

/// Brings a swipe whose end leaves the screen back: the **whole** swipe moves back by
/// the overshoot (at most `max_distance`), so its direction and length stay and the game
/// still reads the facing (MAA's `fix_swipe_out_of_limit`).
pub fn fix_out_of_limit(p1: &mut Point, p2: &mut Point, width: i32, height: i32, max_distance: i32)
    requires
        fix_computable(*old(p1), *old(p2), width as int, height as int, max_distance as int),
    ensures
        ({
            let s = limit_shift(*old(p2), width as int, height as int, max_distance as int);
            &&& final(p1).x == old(p1).x + s.0
            &&& final(p1).y == old(p1).y + s.1
            &&& final(p2).x == old(p2).x + s.0
            &&& final(p2).y == old(p2).y + s.1
        }),
{
    let (sx, sy): (i32, i32) = if p2.y > height {
        let d = p2.y - height;
        (0, -(if d < max_distance { d } else { max_distance }))
    } else if p2.x > width {
        let d = p2.x - width;
        (-(if d < max_distance { d } else { max_distance }), 0)
    } else if p2.y < 0 {
        let d = -p2.y;
        (0, if d < max_distance { d } else { max_distance })
    } else if p2.x < 0 {
        let d = -p2.x;
        (if d < max_distance { d } else { max_distance }, 0)
    } else {
        return ;
    };
    *p1 = Point { x: p1.x + sx, y: p1.y + sy };
    *p2 = Point { x: p2.x + sx, y: p2.y + sy };
}

/// Moving a swipe back onto the screen keeps its direction and length.
pub proof fn lemma_fix_keeps_the_swipe(p1: Point, p2: Point, width: int, height: int, max_distance: int)
    ensures
        ({
            let s = limit_shift(p2, width, height, max_distance);
            (p2.x + s.0) - (p1.x + s.0) == p2.x - p1.x && (p2.y + s.1) - (p1.y + s.1) == p2.y - p1.y
        }),
{
}

} // verus!
