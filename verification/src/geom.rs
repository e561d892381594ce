//! Shared geometry vocabulary.
//!
//! - `loc` / `location`: tile coordinates such as `[1, 1]`;
//! - `pos` / `position`: pixel coordinates such as `[1280, 720]`.
//!
//! Pixel coordinates live in the 1280×720 reference frame unless stated otherwise.
use vstd::prelude::*;

verus! {

/// Width of the reference coordinate frame.
pub const REF_WIDTH: i32 = 1280;
/// Height of the reference coordinate frame.
pub const REF_HEIGHT: i32 = 720;

/// A 2-D integer point, used both for tiles and for pixels.
#[derive(Clone, Copy, Debug, Default, PartialEq, Eq, Structural, Hash, PartialOrd, Ord)]
pub struct Point {
    pub x: i32,
    pub y: i32,
}

impl Point {
    /// The origin.
    pub fn zero() -> (p: Self)
        ensures
            p.x == 0,
            p.y == 0,
    {
        Point { x: 0, y: 0 }
    }

    pub fn new(x: i32, y: i32) -> (p: Self)
        ensures
            p.x == x,
            p.y == y,
    {
        Point { x, y }
    }

    /// Component-wise sum.
    pub fn plus(self, other: Self) -> (p: Self)
        requires
            i32::MIN <= self.x + other.x <= i32::MAX,
            i32::MIN <= self.y + other.y <= i32::MAX,
        ensures
            p.x == self.x + other.x,
            p.y == self.y + other.y,
    {
        Point { x: self.x + other.x, y: self.y + other.y }
    }
}

/// A rectangle given by its top-left corner and its size.
#[derive(Clone, Copy, Debug, Default, PartialEq, Eq, Structural, Hash)]
pub struct Rect {
    pub x: i32,
    pub y: i32,
    pub width: i32,
    pub height: i32,
}

/// Where a tap cancels the selection of an operator on the field: MAA's
/// `BattleCancelSelection.specificRect`, in 1280×720 reference coordinates, anchored to
/// the top-left edges.
pub fn cancel_selection_ref() -> (r: Rect)
    ensures
        r == (Rect { x: 630, y: 0, width: 20, height: 20 }),
{
    Rect { x: 630, y: 0, width: 20, height: 20 }
}

/// Whether `p` lies inside `r` (left/top inclusive, right/bottom exclusive).
pub open spec fn rect_contains(r: Rect, p: Point) -> bool {
    r.x <= p.x < r.x + r.width && r.y <= p.y < r.y + r.height
}

/// Whether the edges of the two rectangles are fit to be added without overflow.
pub open spec fn rect_edges_fit(r: Rect) -> bool {
    i32::MIN <= r.x + r.width <= i32::MAX && i32::MIN <= r.y + r.height <= i32::MAX
}

impl Rect {
    pub fn new(x: i32, y: i32, width: i32, height: i32) -> (r: Self)
        ensures
            r.x == x,
            r.y == y,
            r.width == width,
            r.height == height,
    {
        Rect { x, y, width, height }
    }

    /// A rectangle with no area.
    pub fn is_empty(self) -> (b: bool)
        ensures
            b == (self.width <= 0 || self.height <= 0),
    {
        self.width <= 0 || self.height <= 0
    }

    /// The exclusive right edge.
    pub fn right(self) -> (e: i32)
        requires
            i32::MIN <= self.x + self.width <= i32::MAX,
        ensures
            e == self.x + self.width,
    {
        self.x + self.width
    }

    /// The exclusive bottom edge.
    pub fn bottom(self) -> (e: i32)
        requires
            i32::MIN <= self.y + self.height <= i32::MAX,
        ensures
            e == self.y + self.height,
    {
        self.y + self.height
    }

    /// The centre, rounding half-sizes toward zero.
    pub fn center(self) -> (p: Point)
        requires
            i32::MIN <= self.x + self.width / 2 <= i32::MAX,
            i32::MIN <= self.y + self.height / 2 <= i32::MAX,
        ensures
            p.x == self.x + half_toward_zero(self.width as int),
            p.y == self.y + half_toward_zero(self.height as int),
    {
        Point { x: self.x + self.width / 2, y: self.y + self.height / 2 }
    }

    /// Whether `p` lies in the rectangle.
    pub fn contains(self, p: Point) -> (b: bool)
        requires
            rect_edges_fit(self),
        ensures
            b == rect_contains(self, p),
    {
        p.x >= self.x && p.x < self.right() && p.y >= self.y && p.y < self.bottom()
    }

    /// Offsets the origin by `delta`'s origin and takes `delta`'s size.
    pub fn moved(self, delta: Rect) -> (r: Self)
        requires
            i32::MIN <= self.x + delta.x <= i32::MAX,
            i32::MIN <= self.y + delta.y <= i32::MAX,
        ensures
            r == (Rect {
                x: (self.x + delta.x) as i32,
                y: (self.y + delta.y) as i32,
                width: delta.width,
                height: delta.height,
            }),
    {
        Rect { x: self.x + delta.x, y: self.y + delta.y, width: delta.width, height: delta.height }
    }

    /// Crops to `[0, width) × [0, height)`.
    pub fn clamped(self, width: i32, height: i32) -> (r: Self)
        requires
            width >= 0,
            height >= 0,
            rect_edges_fit(self),
        ensures
            r == clamped_spec(self, width as int, height as int),
    {
        let left = clamp_i32(self.x, 0, width);
        let top = clamp_i32(self.y, 0, height);
        let right = clamp_i32(self.right(), 0, width);
        let bottom = clamp_i32(self.bottom(), 0, height);
        Rect {
            x: left,
            y: top,
            width: if right - left > 0 {
                right - left
            } else {
                0
            },
            height: if bottom - top > 0 {
                bottom - top
            } else {
                0
            },
        }
    }

    /// Whether the two rectangles overlap.
    pub fn intersects(self, other: Self) -> (b: bool)
        requires
            rect_edges_fit(self),
            rect_edges_fit(other),
        ensures
            b == (self.x < other.x + other.width && self.x + self.width > other.x && self.y
                < other.y + other.height && self.y + self.height > other.y),
    {
        self.x < other.right() && self.right() > other.x && self.y < other.bottom()
            && self.bottom() > other.y
    }
}

/// Rust's `i32 / 2`, which rounds toward zero.
pub open spec fn half_toward_zero(v: int) -> int {
    if v >= 0 {
        v / 2
    } else {
        -((-v) / 2)
    }
}

pub open spec fn clamp_spec(v: int, lo: int, hi: int) -> int {
    if v < lo {
        lo
    } else if v > hi {
        hi
    } else {
        v
    }
}

pub open spec fn clamped_spec(r: Rect, width: int, height: int) -> Rect {
    let left = clamp_spec(r.x as int, 0, width);
    let top = clamp_spec(r.y as int, 0, height);
    let right = clamp_spec(r.x + r.width, 0, width);
    let bottom = clamp_spec(r.y + r.height, 0, height);
    Rect {
        x: left as i32,
        y: top as i32,
        width: (if right - left > 0 {
            right - left
        } else {
            0
        }) as i32,
        height: (if bottom - top > 0 {
            bottom - top
        } else {
            0
        }) as i32,
    }
}

fn clamp_i32(v: i32, lo: i32, hi: i32) -> (r: i32)
    requires
        lo <= hi,
    ensures
        r == clamp_spec(v as int, lo as int, hi as int),
{
    if v < lo {
        lo
    } else if v > hi {
        hi
    } else {
        v
    }
}

/// A rectangle cropped to a non-negative canvas lies inside it and never grows.
pub proof fn lemma_clamped_inside(r: Rect, width: int, height: int)
    requires
        0 <= width <= i32::MAX,
        0 <= height <= i32::MAX,
        rect_edges_fit(r),
    ensures
        ({
            let c = clamped_spec(r, width, height);
            &&& 0 <= c.x <= width
            &&& 0 <= c.y <= height
            &&& c.width >= 0 && c.x + c.width <= width
            &&& c.height >= 0 && c.y + c.height <= height
            &&& forall|p: Point| rect_contains(c, p) ==> rect_contains(r, p)
        }),
{
}

/// Deploy facing; the numbering follows the job format.
#[derive(Clone, Copy, Debug, Default, PartialEq, Eq, Structural)]
pub enum Direction {
    #[default]
    Right,
    Down,
    Left,
    Up,
    /// No facing, typically a drone.
    NoDirection,
}

pub open spec fn direction_unit_spec(d: Direction) -> Point {
    match d {
        Direction::Right => Point { x: 1, y: 0 },
        Direction::Down => Point { x: 0, y: 1 },
        Direction::Left => Point { x: -1i32, y: 0 },
        Direction::Up => Point { x: 0, y: -1i32 },
        Direction::NoDirection => Point { x: 0, y: 0 },
    }
}

impl Direction {
    /// Unit vector of the facing in screen coordinates (y grows downward).
    pub fn unit(self) -> (p: Point)
        ensures
            p == direction_unit_spec(self),
    {
        match self {
            Direction::Right => Point { x: 1, y: 0 },
            Direction::Down => Point { x: 0, y: 1 },
            Direction::Left => Point { x: -1i32, y: 0 },
            Direction::Up => Point { x: 0, y: -1i32 },
            Direction::NoDirection => Point { x: 0, y: 0 },
        }
    }
}

/// Operator class.
#[derive(Clone, Copy, Debug, Default, PartialEq, Eq, Structural, Hash, PartialOrd, Ord)]
pub enum Role {
    #[default]
    Unknown,
    Caster,
    Medic,
    Pioneer,
    Sniper,
    Special,
    Support,
    Tank,
    Warrior,
    Drone,
}

/// Kind of deploy slot.
#[derive(Clone, Copy, Debug, Default, PartialEq, Eq, Structural)]
pub enum Placement {
    #[default]
    Unknown,
    /// Ground tiles.
    Melee,
    /// High-ground tiles.
    Ranged,
}

pub open spec fn usual_placement_spec(r: Role) -> Placement {
    match r {
        Role::Warrior | Role::Pioneer | Role::Tank | Role::Special | Role::Drone => Placement::Melee,
        Role::Medic | Role::Sniper | Role::Caster | Role::Support => Placement::Ranged,
        Role::Unknown => Placement::Unknown,
    }
}

pub open spec fn role_zh_spec(r: Role) -> Seq<char> {
    match r {
        Role::Caster => "术师"@,
        Role::Medic => "医疗"@,
        Role::Pioneer => "先锋"@,
        Role::Sniper => "狙击"@,
        Role::Special => "特种"@,
        Role::Support => "辅助"@,
        Role::Tank => "重装"@,
        Role::Warrior => "近卫"@,
        Role::Drone => "无人机"@,
        Role::Unknown => "未知"@,
    }
}

/// Every class has its own name.
pub proof fn lemma_role_names_distinct(a: Role, b: Role)
    requires
        role_zh_spec(a) == role_zh_spec(b),
    ensures
        a == b,
{
    reveal_strlit("术师");
    reveal_strlit("医疗");
    reveal_strlit("先锋");
    reveal_strlit("狙击");
    reveal_strlit("特种");
    reveal_strlit("辅助");
    reveal_strlit("重装");
    reveal_strlit("近卫");
    reveal_strlit("无人机");
    reveal_strlit("未知");
    assert("术师"@[0] != "医疗"@[0]);
    assert("术师"@[0] != "先锋"@[0]);
    assert("术师"@[0] != "狙击"@[0]);
    assert("术师"@[0] != "特种"@[0]);
    assert("术师"@[0] != "辅助"@[0]);
    assert("术师"@[0] != "重装"@[0]);
    assert("术师"@[0] != "近卫"@[0]);
    assert("术师"@[0] != "未知"@[0]);
    assert("医疗"@[0] != "先锋"@[0]);
    assert("医疗"@[0] != "狙击"@[0]);
    assert("医疗"@[0] != "特种"@[0]);
    assert("医疗"@[0] != "辅助"@[0]);
    assert("医疗"@[0] != "重装"@[0]);
    assert("医疗"@[0] != "近卫"@[0]);
    assert("医疗"@[0] != "未知"@[0]);
    assert("先锋"@[0] != "狙击"@[0]);
    assert("先锋"@[0] != "特种"@[0]);
    assert("先锋"@[0] != "辅助"@[0]);
    assert("先锋"@[0] != "重装"@[0]);
    assert("先锋"@[0] != "近卫"@[0]);
    assert("先锋"@[0] != "未知"@[0]);
    assert("狙击"@[0] != "特种"@[0]);
    assert("狙击"@[0] != "辅助"@[0]);
    assert("狙击"@[0] != "重装"@[0]);
    assert("狙击"@[0] != "近卫"@[0]);
    assert("狙击"@[0] != "未知"@[0]);
    assert("特种"@[0] != "辅助"@[0]);
    assert("特种"@[0] != "重装"@[0]);
    assert("特种"@[0] != "近卫"@[0]);
    assert("特种"@[0] != "未知"@[0]);
    assert("辅助"@[0] != "重装"@[0]);
    assert("辅助"@[0] != "近卫"@[0]);
    assert("辅助"@[0] != "未知"@[0]);
    assert("重装"@[0] != "近卫"@[0]);
    assert("重装"@[0] != "未知"@[0]);
    assert("近卫"@[0] != "未知"@[0]);
}

pub open spec fn all_roles_spec() -> Seq<Role> {
    seq![
        Role::Caster,
        Role::Medic,
        Role::Pioneer,
        Role::Sniper,
        Role::Special,
        Role::Support,
        Role::Tank,
        Role::Warrior,
        Role::Drone,
    ]
}

/// The class list holds nine distinct classes, none of them `Unknown`, and their
/// display names are pairwise different.
pub proof fn lemma_all_roles_distinct()
    ensures
        all_roles_spec().len() == 9,
        !all_roles_spec().contains(Role::Unknown),
        forall|i: int, j: int|
            0 <= i < j < 9 ==> all_roles_spec()[i] != all_roles_spec()[j],
        forall|i: int, j: int|
            0 <= i < j < 9 ==> role_zh_spec(all_roles_spec()[i]) != role_zh_spec(
                all_roles_spec()[j],
            ),
{
    assert(all_roles_spec()[0] != Role::Unknown);
    reveal_strlit("术师");
    reveal_strlit("医疗");
    reveal_strlit("先锋");
    reveal_strlit("狙击");
    reveal_strlit("特种");
    reveal_strlit("辅助");
    reveal_strlit("重装");
    reveal_strlit("近卫");
    reveal_strlit("无人机");
    assert forall|i: int, j: int| 0 <= i < j < 9 implies role_zh_spec(all_roles_spec()[i])
        != role_zh_spec(all_roles_spec()[j]) by {
        assert(role_zh_spec(all_roles_spec()[i])[0] != role_zh_spec(all_roles_spec()[j])[0]);
    }
}

impl Role {
    /// The nine real classes, in job-format order.
    pub fn all() -> (a: [Role; 9])
        ensures
            a@ == all_roles_spec(),
    {
        [
        Role::Caster,
        Role::Medic,
        Role::Pioneer,
        Role::Sniper,
        Role::Special,
        Role::Support,
        Role::Tank,
        Role::Warrior,
        Role::Drone,
        ]
    }

    /// The slot kind this class is usually deployed on (a hint, not a rule).
    pub fn usual_placement(self) -> (p: Placement)
        ensures
            p == usual_placement_spec(self),
    {
        match self {
            Role::Warrior | Role::Pioneer | Role::Tank | Role::Special | Role::Drone => {
                Placement::Melee
            },
            Role::Medic | Role::Sniper | Role::Caster | Role::Support => Placement::Ranged,
            Role::Unknown => Placement::Unknown,
        }
    }

    /// Chinese display name of the class.
    pub fn zh(self) -> (s: &'static str)
        ensures
            s@ == role_zh_spec(self),
    {
        match self {
            Role::Caster => "术师",
            Role::Medic => "医疗",
            Role::Pioneer => "先锋",
            Role::Sniper => "狙击",
            Role::Special => "特种",
            Role::Support => "辅助",
            Role::Tank => "重装",
            Role::Warrior => "近卫",
            Role::Drone => "无人机",
            Role::Unknown => "未知",
        }
    }
}

} // verus!
