//! Where map tiles land on the screen.
//!
//! The projection itself rebuilds the game's camera in floating point and is computed
//! by the application; this module holds its results and the integer screen tests made
//! on them. Two views must be kept apart: the normal view (clicking an operator on the
//! field) and the side view (the lowered camera while dragging a deploy).
use vstd::prelude::*;

use crate::geom::Point;

verus! {

/// Width of the reference screen the projection is calibrated on.
pub const PROJ_WIDTH: i32 = 1280;
/// Height of the reference screen the projection is calibrated on.
pub const PROJ_HEIGHT: i32 = 720;

/// Whether the tiles of `s` are pairwise different.
pub open spec fn tiles_distinct(s: Seq<(Point, Point)>) -> bool {
    forall|i: int, j: int| 0 <= i < j < s.len() ==> (#[trigger] s[i]).0 != (#[trigger] s[j]).0
}

/// The map from tiles to positions that the entries `s` hold.
pub open spec fn position_map(s: Seq<(Point, Point)>) -> Map<Point, Point> {
    Map::new(
        |k: Point| exists|i: int| 0 <= i < s.len() && (#[trigger] s[i]).0 == k,
        |k: Point| s[choose|i: int| 0 <= i < s.len() && (#[trigger] s[i]).0 == k].1,
    )
}

proof fn lemma_position_at(s: Seq<(Point, Point)>, i: int)
    requires
        tiles_distinct(s),
        0 <= i < s.len(),
    ensures
        position_map(s).dom().contains(s[i].0),
        position_map(s)[s[i].0] == s[i].1,
{
    let k = s[i].0;
    assert(exists|j: int| 0 <= j < s.len() && (#[trigger] s[j]).0 == k);
    let j = choose|j: int| 0 <= j < s.len() && (#[trigger] s[j]).0 == k;
    if j != i {
        if j < i {
            assert(s[j].0 != s[i].0);
        } else {
            assert(s[i].0 != s[j].0);
        }
    }
}

/// Screen positions by tile, one position per tile.
#[derive(Clone, Debug, PartialEq)]
pub struct TilePositions {
    entries: Vec<(Point, Point)>,
}

impl View for TilePositions {
    type V = Map<Point, Point>;

    closed spec fn view(&self) -> Map<Point, Point> {
        position_map(self.entries@)
    }
}

impl TilePositions {
    /// No tile appears twice.
    pub closed spec fn wf(&self) -> bool {
        tiles_distinct(self.entries@)
    }

    /// No positions.
    pub fn new() -> (t: Self)
        ensures
            t.wf(),
            t@ == Map::<Point, Point>::empty(),
    {
        let t = TilePositions { entries: Vec::new() };
        assert(t@ =~= Map::<Point, Point>::empty());
        t
    }

    /// Records the position of `tile`, replacing an earlier one.
    pub fn insert(&mut self, tile: Point, pos: Point)
        requires
            old(self).wf(),
        ensures
            final(self).wf(),
            final(self)@ == old(self)@.insert(tile, pos),
    {
        let ghost before = self.entries@;
        let mut i: usize = 0;
        while i < self.entries.len()
            invariant
                self.entries@ == before,
                old(self).entries@ == before,
                tiles_distinct(before),
                i <= before.len(),
                forall|j: int| 0 <= j < i ==> (#[trigger] before[j]).0 != tile,
            decreases before.len() - i,
        {
            if self.entries[i].0 == tile {
                self.entries[i] = (tile, pos);
                proof {
                    let after = before.update(i as int, (tile, pos));
                    assert(self.entries@ == after);
                    assert(tiles_distinct(after)) by {
                        assert forall|a: int, b: int| 0 <= a < b < after.len() implies (
                        #[trigger] after[a]).0 != (#[trigger] after[b]).0 by {
                            assert(after[a].0 == before[a].0);
                            assert(after[b].0 == before[b].0);
                        }
                    }
                    let m = position_map(before).insert(tile, pos);
                    assert forall|k: Point| #[trigger] position_map(after).dom().contains(k)
                        == m.dom().contains(k) by {
                        if exists|j: int| 0 <= j < after.len() && (#[trigger] after[j]).0 == k {
                            let j = choose|j: int| 0 <= j < after.len() && (#[trigger] after[j]).0 == k;
                            assert(before[j].0 == k);
                        }
                        if exists|j: int| 0 <= j < before.len() && (#[trigger] before[j]).0 == k {
                            let j = choose|j: int| 0 <= j < before.len() && (#[trigger] before[j]).0 == k;
                            assert(after[j].0 == k);
                        }
                        if k == tile {
                            assert(after[i as int].0 == k);
                        }
                    }
                    assert forall|k: Point| #[trigger] position_map(after).dom().contains(k)
                        implies position_map(after)[k] == m[k] by {
                        let j = choose|j: int| 0 <= j < after.len() && (#[trigger] after[j]).0 == k;
                        lemma_position_at(after, j);
                        if j != i {
                            assert(after[j] == before[j]);
                            lemma_position_at(before, j);
                            if j < i {
                                assert(before[j].0 != before[i as int].0);
                            } else {
                                assert(before[i as int].0 != before[j].0);
                            }
                        }
                    }
                    assert(position_map(after) =~= m);
                }
                return ;
            }
            i = i + 1;
        }
        self.entries.push((tile, pos));
        proof {
            let after = before.push((tile, pos));
            assert(self.entries@ == after);
            assert(tiles_distinct(after)) by {
                assert forall|a: int, b: int| 0 <= a < b < after.len() implies (
                #[trigger] after[a]).0 != (#[trigger] after[b]).0 by {
                    if b == before.len() {
                        assert(after[a] == before[a]);
                    } else {
                        assert(after[a] == before[a]);
                        assert(after[b] == before[b]);
                    }
                }
            }
            let m = position_map(before).insert(tile, pos);
            assert forall|k: Point| #[trigger] position_map(after).dom().contains(k)
                == m.dom().contains(k) by {
                if exists|j: int| 0 <= j < after.len() && (#[trigger] after[j]).0 == k {
                    let j = choose|j: int| 0 <= j < after.len() && (#[trigger] after[j]).0 == k;
                    if j < before.len() {
                        assert(before[j].0 == k);
                    }
                }
                if exists|j: int| 0 <= j < before.len() && (#[trigger] before[j]).0 == k {
                    let j = choose|j: int| 0 <= j < before.len() && (#[trigger] before[j]).0 == k;
                    assert(after[j].0 == k);
                }
                if k == tile {
                    assert(after[before.len() as int].0 == k);
                }
            }
            assert forall|k: Point| #[trigger] position_map(after).dom().contains(k) implies position_map(
                after,
            )[k] == m[k] by {
                let j = choose|j: int| 0 <= j < after.len() && (#[trigger] after[j]).0 == k;
                lemma_position_at(after, j);
                if j < before.len() {
                    assert(after[j] == before[j]);
                    lemma_position_at(before, j);
                }
            }
            assert(position_map(after) =~= m);
        }
    }

    /// The position of `tile`, if it has one.
    pub fn get(&self, tile: Point) -> (r: Option<Point>)
        requires
            self.wf(),
        ensures
            r == (if self@.dom().contains(tile) {
                Some(self@[tile])
            } else {
                None::<Point>
            }),
    {
        let mut i: usize = 0;
        while i < self.entries.len()
            invariant
                tiles_distinct(self.entries@),
                i <= self.entries@.len(),
                forall|j: int| 0 <= j < i ==> (#[trigger] self.entries@[j]).0 != tile,
            decreases self.entries@.len() - i,
        {
            if self.entries[i].0 == tile {
                proof {
                    lemma_position_at(self.entries@, i as int);
                }
                return Some(self.entries[i].1);
            }
            i = i + 1;
        }
        None
    }
}

/// A map's computed projection.
#[derive(Clone, Debug)]
pub struct TileProjection {
    /// Each tile's screen position in the normal view (clicking operators on the field).
    pub normal: TilePositions,
    /// Each tile's screen position in the side view (where a deploy drag lands).
    pub side: TilePositions,
    /// The retreat button (side view).
    pub retreat_button: Point,
    /// The skill button (side view).
    pub skill_button: Point,
    /// Whether the map has several stages (a gate projects off the screen).
    pub has_multi_stages: bool,
}

impl TileProjection {
    /// The tile's position in the normal view.
    pub fn normal_pos(&self, loc: Point) -> (r: Option<Point>)
        requires
            self.normal.wf(),
        ensures
            r == (if self.normal@.dom().contains(loc) {
                Some(self.normal@[loc])
            } else {
                None::<Point>
            }),
    {
        self.normal.get(loc)
    }

    /// The tile's position in the side view (while deploying).
    pub fn side_pos(&self, loc: Point) -> (r: Option<Point>)
        requires
            self.side.wf(),
        ensures
            r == (if self.side@.dom().contains(loc) {
                Some(self.side@[loc])
            } else {
                None::<Point>
            }),
    {
        self.side.get(loc)
    }
}

/// MAA's tolerance for telling multi-stage maps: the reference screen grown by 5 %
/// (64 px left and right, 36 px above and below).
pub fn within_tolerance(p: Point) -> (b: bool)
    ensures
        b == (-64 <= p.x <= PROJ_WIDTH + 64 && -36 <= p.y <= PROJ_HEIGHT + 36),
{
    -64 <= p.x && p.x <= PROJ_WIDTH + 64 && -36 <= p.y && p.y <= PROJ_HEIGHT + 36
}

/// Whether a tile's normal-view position lies on the screen (MAA makes the same check
/// in `is_skill_ready`: clicking a tile projected off the screen does nothing).
pub fn is_on_screen(p: Point) -> (b: bool)
    ensures
        b == (0 <= p.x < PROJ_WIDTH && 0 <= p.y < PROJ_HEIGHT),
{
    p.x >= 0 && p.y >= 0 && p.x < PROJ_WIDTH && p.y < PROJ_HEIGHT
}

} // verus!
