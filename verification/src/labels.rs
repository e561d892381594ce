//! Texts and indices the job editor shows for actions and facings.
use vstd::prelude::*;

use crate::copilot::{action_type_from, ActionType};
use crate::geom::Direction;
use crate::text;

verus! {

/// The facing an editor field names (already trimmed and ASCII lower-cased); anything
/// unknown faces right.
pub open spec fn editor_direction_from(n: Seq<char>) -> Direction {
    if n == "left"@ || n == "左"@ {
        Direction::Left
    } else if n == "up"@ || n == "上"@ {
        Direction::Up
    } else if n == "down"@ || n == "下"@ {
        Direction::Down
    } else if n == "none"@ || n == "无"@ || n == "无方向"@ {
        Direction::NoDirection
    } else {
        Direction::Right
    }
}

/// Reads the facing typed into an editor field: surrounding white space and ASCII case
/// are ignored.
pub fn parse_editor_direction(value: &str) -> (d: Direction)
    ensures
        d == editor_direction_from(text::ascii_lower(text::trimmed(value@))),
{
    let trimmed = text::trim_chars(value);
    let n = text::ascii_lower_vec(&trimmed);
    if text::chars_eq_str(&n, "left") || text::chars_eq_str(&n, "左") {
        Direction::Left
    } else if text::chars_eq_str(&n, "up") || text::chars_eq_str(&n, "上") {
        Direction::Up
    } else if text::chars_eq_str(&n, "down") || text::chars_eq_str(&n, "下") {
        Direction::Down
    } else if text::chars_eq_str(&n, "none") || text::chars_eq_str(&n, "无") || text::chars_eq_str(
        &n,
        "无方向",
    ) {
        Direction::NoDirection
    } else {
        Direction::Right
    }
}

pub open spec fn direction_name_spec(d: Direction) -> Seq<char> {
    match d {
        Direction::Right => "Right"@,
        Direction::Down => "Down"@,
        Direction::Left => "Left"@,
        Direction::Up => "Up"@,
        Direction::NoDirection => "None"@,
    }
}

/// The job format's name of a facing.
pub fn direction_name(direction: Direction) -> (s: &'static str)
    ensures
        s@ == direction_name_spec(direction),
{
    match direction {
        Direction::Right => "Right",
        Direction::Down => "Down",
        Direction::Left => "Left",
        Direction::Up => "Up",
        Direction::NoDirection => "None",
    }
}

pub open spec fn direction_index_spec(d: Direction) -> i32 {
    match d {
        Direction::Up => 0,
        Direction::Down => 1,
        Direction::Left => 2,
        Direction::Right => 3,
        Direction::NoDirection => 4,
    }
}

/// The facing's position in the editor's drop-down.
pub fn direction_index(direction: Direction) -> (i: i32)
    ensures
        i == direction_index_spec(direction),
{
    match direction {
        Direction::Up => 0,
        Direction::Down => 1,
        Direction::Left => 2,
        Direction::Right => 3,
        Direction::NoDirection => 4,
    }
}

/// Each facing has its own drop-down entry, and its name reads back as itself.
pub proof fn lemma_direction_entries_distinct(a: Direction, b: Direction)
    ensures
        a != b ==> direction_index_spec(a) != direction_index_spec(b),
        0 <= direction_index_spec(a) < 5,
        editor_direction_from(text::ascii_lower(direction_name_spec(a))) == a,
{
    reveal_strlit("Right");
    reveal_strlit("Down");
    reveal_strlit("Left");
    reveal_strlit("Up");
    reveal_strlit("None");
    reveal_strlit("right");
    reveal_strlit("down");
    reveal_strlit("left");
    reveal_strlit("up");
    reveal_strlit("none");
    reveal_strlit("左");
    reveal_strlit("上");
    reveal_strlit("下");
    reveal_strlit("无");
    reveal_strlit("无方向");
    let n = text::ascii_lower(direction_name_spec(a));
    match a {
        Direction::Right => {
            assert(n =~= "right"@);
            assert(n.len() == 5);
            assert(n != "left"@ && n != "左"@ && n != "up"@ && n != "上"@ && n != "down"@ && n
                != "下"@ && n != "none"@ && n != "无"@ && n != "无方向"@);
        },
        Direction::Down => {
            assert(n =~= "down"@);
            assert(n[0] != "left"@[0]);
            assert(n != "left"@ && n != "左"@ && n != "up"@ && n != "上"@);
        },
        Direction::Left => {
            assert(n =~= "left"@);
        },
        Direction::Up => {
            assert(n =~= "up"@);
            assert(n != "left"@ && n != "左"@);
        },
        Direction::NoDirection => {
            assert(n =~= "none"@);
            assert(n[0] != "left"@[0] && n[0] != "down"@[0]);
            assert(n != "left"@ && n != "左"@ && n != "up"@ && n != "上"@ && n != "down"@ && n
                != "下"@);
        },
    }
}

pub open spec fn action_label_spec(k: ActionType) -> Seq<char> {
    match k {
        ActionType::Deploy => "部署"@,
        ActionType::UseSkill => "技能"@,
        ActionType::Retreat => "撤退"@,
        ActionType::Output => "注释"@,
        _ => "不支持"@,
    }
}

/// The timeline's label of an action kind.
pub fn action_type_label(kind: ActionType) -> (s: &'static str)
    ensures
        s@ == action_label_spec(kind),
{
    match kind {
        ActionType::Deploy => "部署",
        ActionType::UseSkill => "技能",
        ActionType::Retreat => "撤退",
        ActionType::Output => "注释",
        _ => "不支持",
    }
}

/// The editor's label of a type string: the kind's label, or "未知" for a string that
/// names no kind.
pub fn editor_kind_label(kind: &str) -> (s: &'static str)
    ensures
        s@ == match action_type_from(text::ascii_lower(kind@)) {
            Some(k) => action_label_spec(k),
            None => "未知"@,
        },
{
    match ActionType::parse(kind) {
        Some(k) => action_type_label(k),
        None => "未知",
    }
}

} // verus!
