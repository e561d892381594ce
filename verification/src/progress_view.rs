//! What the run's progress shows: the binding panel's preselected choices and the names
//! still unbound, and the summary written when a run finishes.
use vstd::prelude::*;

use crate::sorting::views;
use crate::text;

verus! {

/// `j` is the first assignment for `card`.
pub open spec fn is_first_assignment(assignments: Seq<(usize, String)>, card: usize, j: int) -> bool {
    0 <= j < assignments.len() && assignments[j].0 == card && forall|k: int|
        0 <= k < j ==> (#[trigger] assignments[k]).0 != card
}

/// The first position of `name` among `options`.
pub open spec fn is_first_option(options: Seq<Seq<char>>, name: Seq<char>, p: int) -> bool {
    0 <= p < options.len() && options[p] == name && forall|k: int| 0 <= k < p ==> #[trigger] options[k] != name
}

/// The drop-down entry a card starts on: 0 ("leave this card unbound") when the card has
/// no assignment or its name is not offered, otherwise 1 + the position of the first
/// option with the name of the card's first assignment.
pub open spec fn card_choice_spec(
    card: usize,
    options: Seq<Seq<char>>,
    assignments: Seq<(usize, String)>,
    choice: usize,
) -> bool {
    if !exists|j: int| is_first_assignment(assignments, card, j) {
        choice == 0
    } else {
        let j = choose|j: int| is_first_assignment(assignments, card, j);
        let name = assignments[j].1@;
        if exists|p: int| is_first_option(options, name, p) {
            let p = choose|p: int| is_first_option(options, name, p);
            choice == p + 1
        } else {
            choice == 0
        }
    }
}

proof fn lemma_first_assignment_unique(assignments: Seq<(usize, String)>, card: usize, a: int, b: int)
    requires
        is_first_assignment(assignments, card, a),
        is_first_assignment(assignments, card, b),
    ensures
        a == b,
{
    if a < b {
        assert(assignments[a].0 != card);
    } else if b < a {
        assert(assignments[b].0 != card);
    }
}

proof fn lemma_first_option_unique(options: Seq<Seq<char>>, name: Seq<char>, a: int, b: int)
    requires
        is_first_option(options, name, a),
        is_first_option(options, name, b),
    ensures
        a == b,
{
    if a < b {
        assert(options[a] != name);
    } else if b < a {
        assert(options[b] != name);
    }
}

/// The drop-down entry the binding panel preselects for `card`; see
/// [`card_choice_spec`].
pub fn card_choice(card: usize, options: &Vec<String>, assignments: &Vec<(usize, String)>) -> (c: usize)
    ensures
        card_choice_spec(card, views(options@), assignments@, c),
{
    let mut j: usize = 0;
    while j < assignments.len() && assignments[j].0 != card
        invariant
            j <= assignments@.len(),
            forall|k: int| 0 <= k < j ==> (#[trigger] assignments@[k]).0 != card,
        decreases assignments@.len() - j,
    {
        j = j + 1;
    }
    if j == assignments.len() {
        assert(!exists|x: int| is_first_assignment(assignments@, card, x)) by {
            if exists|x: int| is_first_assignment(assignments@, card, x) {
                let x = choose|x: int| is_first_assignment(assignments@, card, x);
                assert(assignments@[x].0 != card);
            }
        }
        return 0;
    }
    proof {
        assert(is_first_assignment(assignments@, card, j as int));
        let x = choose|x: int| is_first_assignment(assignments@, card, x);
        lemma_first_assignment_unique(assignments@, card, x, j as int);
    }
    let name = assignments[j].1.as_str();
    let ghost o = views(options@);
    let mut p: usize = 0;
    while p < options.len()
        invariant
            p <= options@.len(),
            o == views(options@),
            j < assignments@.len(),
            is_first_assignment(assignments@, card, j as int),
            (choose|x: int| is_first_assignment(assignments@, card, x)) == j,
            name@ == assignments@[j as int].1@,
            forall|k: int| 0 <= k < p ==> #[trigger] o[k] != name@,
        decreases options@.len() - p,
    {
        if text::str_eq(options[p].as_str(), name) {
            proof {
                assert(is_first_option(o, name@, p as int));
                let y = choose|y: int| is_first_option(o, name@, y);
                lemma_first_option_unique(o, name@, y, p as int);
            }
            return p + 1;
        }
        p = p + 1;
    }
    assert(!exists|y: int| is_first_option(o, name@, y)) by {
        if exists|y: int| is_first_option(o, name@, y) {
            let y = choose|y: int| is_first_option(o, name@, y);
            assert(o[y] != name@);
        }
    }
    0
}

/// The names of `opers` that no assignment takes, in order.
pub open spec fn unbound_spec(opers: Seq<Seq<char>>, assigned: Seq<Seq<char>>) -> Seq<Seq<char>> {
    opers.filter(|n: Seq<char>| !assigned.contains(n))
}

/// The names the binding panel lists as still unbound.
pub fn unbound_names(opers: &Vec<String>, assignments: &Vec<(usize, String)>) -> (r: Vec<String>)
    ensures
        views(r@) == unbound_spec(views(opers@), assignments@.map_values(|a: (usize, String)| a.1@)),
{
    let ghost assigned = assignments@.map_values(|a: (usize, String)| a.1@);
    let ghost all = views(opers@);
    let mut r: Vec<String> = Vec::new();
    let mut i: usize = 0;
    proof {
        reveal(Seq::filter);
        assert(all.subrange(0, 0) =~= Seq::<Seq<char>>::empty());
    }
    while i < opers.len()
        invariant
            i <= opers@.len(),
            all == views(opers@),
            assigned == assignments@.map_values(|a: (usize, String)| a.1@),
            views(r@) == unbound_spec(all.subrange(0, i as int), assigned),
        decreases opers@.len() - i,
    {
        let name = opers[i].as_str();
        let mut taken = false;
        let mut k: usize = 0;
        while k < assignments.len()
            invariant
                k <= assignments@.len(),
                assigned == assignments@.map_values(|a: (usize, String)| a.1@),
                taken == exists|t: int| 0 <= t < k && assigned[t] == name@,
            decreases assignments@.len() - k,
        {
            assert(assigned[k as int] == assignments@[k as int].1@);
            if text::str_eq(assignments[k].1.as_str(), name) {
                taken = true;
            }
            k = k + 1;
        }
        proof {
            reveal(Seq::filter);
            assert(all.subrange(0, i + 1).drop_last() =~= all.subrange(0, i as int));
            assert(all.subrange(0, i + 1).last() == name@);
            assert(taken == assigned.contains(name@));
        }
        if !taken {
            let ghost before = views(r@);
            r.push(opers[i].clone());
            assert(views(r@) =~= before.push(name@));
        }
        i = i + 1;
    }
    assert(all.subrange(0, i as int) =~= all);
    r
}

/// The summary of a finished run: an exact replay reports its pulses; a run continued
/// part-way is marked as done at the user's risk and kept out of exact-replay acceptance.
pub open spec fn finish_summary_text(
    pulses: u32,
    zero_pulses: u32,
    overshoots: u32,
    assumed_actions: usize,
    continued: bool,
) -> Seq<char> {
    let counts = text::decimal(pulses as int) + " 次（空脉冲 "@ + text::decimal(zero_pulses as int)
        + "，跨帧 "@ + text::decimal(overshoots as int) + "）"@;
    if !continued {
        "复刻完成。脉冲 "@ + counts
    } else {
        "带风险完成，"@ + text::decimal(assumed_actions as int) + " 个动作为用户确认完成。后续脉冲 "@ + counts
            + "；本次不能计入精确复刻验收"@
    }
}

/// See [`finish_summary_text`].
pub fn finish_summary(
    pulses: u32,
    zero_pulses: u32,
    overshoots: u32,
    assumed_actions: usize,
    continued: bool,
) -> (s: String)
    ensures
        s@ == finish_summary_text(pulses, zero_pulses, overshoots, assumed_actions, continued),
{
    let mut s = if !continued {
        String::from_str("复刻完成。脉冲 ")
    } else {
        let mut s = String::from_str("带风险完成，");
        text::push_decimal_u64(&mut s, assumed_actions as u64);
        s.append(" 个动作为用户确认完成。后续脉冲 ");
        s
    };
    text::push_decimal_u64(&mut s, pulses as u64);
    s.append(" 次（空脉冲 ");
    text::push_decimal_u64(&mut s, zero_pulses as u64);
    s.append("，跨帧 ");
    text::push_decimal_u64(&mut s, overshoots as u64);
    s.append("）");
    if continued {
        s.append("；本次不能计入精确复刻验收");
    }
    s
}

/// The warning logged after a run in which a single-frame pulse skipped a frame: the
/// frame accuracy of that run cannot be trusted.
pub open spec fn overshoot_warning_text() -> Seq<char> {
    "警告：AFA 逐帧动作出现过跨帧，本次复刻的帧精度不可信。请保留录像、CSV 和日志后停止验收。"@
}

/// The warning to log after a run, if one is due: exactly when a pulse overshot.
pub fn overshoot_warning(overshoots: u32) -> (w: Option<String>)
    ensures
        match w {
            Some(t) => overshoots > 0 && t@ == overshoot_warning_text(),
            None => overshoots == 0,
        },
{
    if overshoots > 0 {
        Some(
            String::from_str(
                "警告：AFA 逐帧动作出现过跨帧，本次复刻的帧精度不可信。请保留录像、CSV 和日志后停止验收。",
            ),
        )
    } else {
        None
    }
}

} // verus!
