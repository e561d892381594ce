//! Continuing a job from a frozen cutoff frame.
//!
//! Continuing does not revive the old machine. The user freezes a cutoff frame and
//! accepts that every action at or before it has happened; a new machine then starts
//! from the first later action. This module derives that action prefix and the state
//! of the field from the job alone; it does no I/O.
use vstd::prelude::*;

use crate::copilot::{supported_spec, Action, ActionType, Copilot};
use crate::geom::Point;
use crate::names::NameMap;
use crate::text;

verus! {

/// Operators on the field, each with its tile, in ascending name order.
pub type Battlefield = NameMap<Point>;

// ---------------------------------------------------------------------------
// What a job prefix leaves on the field, and what the rest still needs.
// ---------------------------------------------------------------------------

/// The field after `actions` happened in order, starting from `start`: a deploy with a
/// tile puts the operator there, a retreat takes it away, other actions change nothing.
pub open spec fn replayed(start: Map<Seq<char>, Point>, actions: Seq<Action>) -> Map<
    Seq<char>,
    Point,
>
    decreases actions.len(),
{
    if actions.len() == 0 {
        start
    } else {
        let before = replayed(start, actions.drop_last());
        let a = actions.last();
        if a.kind == ActionType::Deploy && a.location is Some {
            before.insert(a.name@, a.location->0)
        } else if a.kind == ActionType::Retreat {
            before.remove(a.name@)
        } else {
            before
        }
    }
}

/// The index of the first action after `cutoff` among actions `i..` (the length when
/// there is none).
pub open spec fn first_after(actions: Seq<Action>, cutoff: i64, i: int) -> int
    decreases actions.len() - i,
{
    if i < 0 || i >= actions.len() {
        actions.len() as int
    } else if actions[i].frame > cutoff {
        i
    } else {
        first_after(actions, cutoff, i + 1)
    }
}

/// The first action among `i..` that targets an operator by name alone while that
/// operator is not on the field, following the field (`on_field`) through the actions.
pub open spec fn first_lost_target(actions: Seq<Action>, i: int, on_field: Set<Seq<char>>) -> Option<
    int,
>
    decreases actions.len() - i,
{
    if i < 0 || i >= actions.len() {
        None
    } else {
        let a = actions[i];
        if (a.kind == ActionType::UseSkill || a.kind == ActionType::Retreat) && a.location is None
            && !on_field.contains(a.name@) {
            Some(i)
        } else {
            let next = if a.kind == ActionType::Deploy && a.location is Some {
                on_field.insert(a.name@)
            } else if a.kind == ActionType::Retreat {
                on_field.remove(a.name@)
            } else {
                on_field
            };
            first_lost_target(actions, i + 1, next)
        }
    }
}

/// The names that `actions` deploy, each once, in order of first deployment.
pub open spec fn deploy_names(actions: Seq<Action>) -> Seq<Seq<char>>
    decreases actions.len(),
{
    if actions.len() == 0 {
        Seq::empty()
    } else {
        let before = deploy_names(actions.drop_last());
        let a = actions.last();
        if a.kind == ActionType::Deploy && !before.contains(a.name@) {
            before.push(a.name@)
        } else {
            before
        }
    }
}

/// Of [`deploy_names`]`(actions)`, those that are (`on_field`) or are not on `field`.
pub open spec fn binding_names(actions: Seq<Action>, field: Set<Seq<char>>, on_field: bool) -> Seq<
    Seq<char>,
>
    decreases actions.len(),
{
    if actions.len() == 0 {
        Seq::empty()
    } else {
        let before = binding_names(actions.drop_last(), field, on_field);
        let a = actions.last();
        if a.kind == ActionType::Deploy && !deploy_names(actions.drop_last()).contains(a.name@)
            && field.contains(a.name@) == on_field {
            before.push(a.name@)
        } else {
            before
        }
    }
}

/// The cutoff is inclusive: every action up to the continuation point is at or before
/// the cutoff frame, the action it starts with is later; in a job whose frames never
/// decrease, actions of one frame are therefore never split.
pub proof fn lemma_cutoff_is_inclusive(actions: Seq<Action>, cutoff: i64)
    ensures
        0 <= first_after(actions, cutoff, 0) <= actions.len(),
        forall|j: int|
            0 <= j < first_after(actions, cutoff, 0) ==> (#[trigger] actions[j]).frame <= cutoff,
        first_after(actions, cutoff, 0) < actions.len() ==> actions[first_after(
            actions,
            cutoff,
            0,
        )].frame > cutoff,
        (forall|a: int, b: int|
            0 <= a <= b < actions.len() ==> actions[a].frame <= actions[b].frame) ==> forall|
            j: int,
        |
            first_after(actions, cutoff, 0) <= j < actions.len() ==> (#[trigger] actions[j]).frame
                > cutoff,
{
    lemma_first_after_from(actions, cutoff, 0);
}

/// The action a built plan continues with is the first one after the cutoff: it lies
/// past the cutoff, and every action before it lies at or before the cutoff.
pub proof fn lemma_next_action_is_first_after_cutoff(plan: ContinuationPlan, actions: Seq<Action>, cutoff: i64)
    requires
        plan_holds(plan, actions, cutoff),
    ensures
        0 <= plan.next_action_index < actions.len(),
        actions[plan.next_action_index as int].frame > cutoff,
        forall|j: int| 0 <= j < plan.next_action_index ==> (#[trigger] actions[j]).frame <= cutoff,
{
    lemma_cutoff_is_inclusive(actions, cutoff);
}

proof fn lemma_first_after_from(actions: Seq<Action>, cutoff: i64, i: int)
    requires
        0 <= i <= actions.len(),
    ensures
        i <= first_after(actions, cutoff, i) <= actions.len(),
        forall|j: int|
            i <= j < first_after(actions, cutoff, i) ==> (#[trigger] actions[j]).frame <= cutoff,
        first_after(actions, cutoff, i) < actions.len() ==> actions[first_after(
            actions,
            cutoff,
            i,
        )].frame > cutoff,
        (forall|a: int, b: int|
            0 <= a <= b < actions.len() ==> actions[a].frame <= actions[b].frame) ==> forall|
            j: int,
        |
            first_after(actions, cutoff, i) <= j < actions.len() ==> (#[trigger] actions[j]).frame
                > cutoff,
    decreases actions.len() - i,
{
    if i < actions.len() {
        lemma_first_after_from(actions, cutoff, i + 1);
        if actions[i].frame > cutoff {
            if forall|a: int, b: int|
                0 <= a <= b < actions.len() ==> actions[a].frame <= actions[b].frame {
                assert forall|j: int| i <= j < actions.len() implies (
                #[trigger] actions[j]).frame > cutoff by {
                    assert(actions[i].frame <= actions[j].frame);
                }
            }
        }
    }
}

/// Every operator that the rest of the job deploys is listed once for binding: among
/// the archived names exactly when the job prefix leaves it on the field, among the
/// visible names otherwise.
pub proof fn lemma_binding_names_split(rest: Seq<Action>, field: Set<Seq<char>>)
    ensures
        forall|x: Seq<char>|
            #[trigger] deploy_names(rest).contains(x) <==> (binding_names(rest, field, true).contains(x)
                || binding_names(rest, field, false).contains(x)),
        forall|x: Seq<char>|
            #[trigger] binding_names(rest, field, true).contains(x) ==> field.contains(x),
        forall|x: Seq<char>|
            #[trigger] binding_names(rest, field, false).contains(x) ==> !field.contains(x),
        binding_names(rest, field, true).no_duplicates(),
        binding_names(rest, field, false).no_duplicates(),
    decreases rest.len(),
{
    if rest.len() > 0 {
        let before = rest.drop_last();
        lemma_binding_names_split(before, field);
        let a = rest.last();
        let seen = deploy_names(before);
        let on = binding_names(before, field, true);
        let off = binding_names(before, field, false);
        if a.kind == ActionType::Deploy && !seen.contains(a.name@) {
            lemma_push_members(seen, a.name@);
            if field.contains(a.name@) {
                assert(!on.contains(a.name@));
                lemma_push_contains(on, a.name@);
            } else {
                assert(!off.contains(a.name@));
                lemma_push_contains(off, a.name@);
            }
        }
    }
}

proof fn lemma_push_members(s: Seq<Seq<char>>, v: Seq<char>)
    ensures
        forall|x: Seq<char>| #[trigger] s.push(v).contains(x) <==> (s.contains(x) || x == v),
{
    assert forall|x: Seq<char>| #[trigger] s.push(v).contains(x) implies (s.contains(x) || x == v) by {
        let j = choose|j: int| 0 <= j < s.len() + 1 && s.push(v)[j] == x;
        if j < s.len() {
            assert(s[j] == x);
        }
    }
    assert forall|x: Seq<char>| s.contains(x) implies #[trigger] s.push(v).contains(x) by {
        let j = choose|j: int| 0 <= j < s.len() && s[j] == x;
        assert(s.push(v)[j] == x);
    }
    assert(s.push(v)[s.len() as int] == v);
}

proof fn lemma_push_contains(s: Seq<Seq<char>>, v: Seq<char>)
    requires
        s.no_duplicates(),
        !s.contains(v),
    ensures
        forall|x: Seq<char>| #[trigger] s.push(v).contains(x) <==> (s.contains(x) || x == v),
        s.push(v).no_duplicates(),
{
    lemma_push_members(s, v);
    assert forall|i: int, j: int| 0 <= i < s.push(v).len() && 0 <= j < s.push(v).len() && i != j implies s.push(v)[i] != s.push(v)[j] by {
        if i < s.len() && j < s.len() {
        } else if i < s.len() {
            assert(s.contains(s[i]));
        } else if j < s.len() {
            assert(s.contains(s[j]));
        }
    }
}

/// The continuation plan for cutting `actions` off at the action `n`.
pub open spec fn plan_holds(plan: ContinuationPlan, actions: Seq<Action>, cutoff: i64) -> bool {
    let n = plan.next_action_index as int;
    let field = replayed(Map::empty(), actions.subrange(0, n));
    let rest = actions.subrange(n, actions.len() as int);
    &&& plan.cutoff_frame == cutoff
    &&& n == first_after(actions, cutoff, 0)
    &&& n < actions.len()
    &&& plan.battlefield.wf()
    &&& plan.battlefield@ == field
    &&& plan.visible_binding_names@.map_values(|s: String| s@) == binding_names(
        rest,
        field.dom(),
        false,
    )
    &&& plan.archived_binding_names@.map_values(|s: String| s@) == binding_names(
        rest,
        field.dom(),
        true,
    )
}

/// How a job continues after a frozen cutoff frame.
#[derive(Clone, Debug, PartialEq)]
pub struct ContinuationPlan {
    pub cutoff_frame: i64,
    pub next_action_index: usize,
    /// Who the job prefix leaves on the field, and where.
    pub battlefield: Battlefield,
    /// Operators that are still to be deployed and should be on the deploy bar now.
    pub visible_binding_names: Vec<String>,
    /// Operators that the prefix leaves on the field but that are deployed again later;
    /// they can only be recognised from stored avatars.
    pub archived_binding_names: Vec<String>,
}

/// Why a job cannot continue from a cutoff frame.
#[derive(Clone, Debug, PartialEq)]
pub enum ContinuationError {
    ZeroFrame,
    NoRemainingActions { cutoff_frame: i64 },
    UnknownFutureTarget { index: usize, name: String },
}

/// The user-facing explanation of a refused continuation.
pub open spec fn continuation_error_message(e: ContinuationError) -> Seq<char> {
    match e {
        ContinuationError::ZeroFrame => "继续截止帧必须大于 0"@,
        ContinuationError::NoRemainingActions { cutoff_frame } => "当前已到第 "@ + text::decimal(
            cutoff_frame as int,
        ) + " 帧，作业没有后续动作"@,
        ContinuationError::UnknownFutureTarget { index, name } => "继续后的动作 #"@
            + text::decimal(index as int) + " 无法定位干员「"@ + name@
            + "」；作业前缀没有可用的在场格子"@,
    }
}

impl ContinuationError {
    /// The user-facing explanation; see [`continuation_error_message`].
    pub fn message(&self) -> (s: String)
        ensures
            s@ == continuation_error_message(*self),
    {
        match self {
            ContinuationError::ZeroFrame => String::from_str("继续截止帧必须大于 0"),
            ContinuationError::NoRemainingActions { cutoff_frame } => {
                let mut s = String::from_str("当前已到第 ");
                text::push_decimal_i64(&mut s, *cutoff_frame);
                s.append(" 帧，作业没有后续动作");
                s
            },
            ContinuationError::UnknownFutureTarget { index, name } => {
                let mut s = String::from_str("继续后的动作 #");
                text::push_decimal_u64(&mut s, *index as u64);
                s.append(" 无法定位干员「");
                s.append(name.as_str());
                s.append("」；作业前缀没有可用的在场格子");
                s
            },
        }
    }
}

/// Replays `actions[..end]` on `field`.
fn replay_lifecycle(field: &mut Battlefield, actions: &Vec<Action>, end: usize)
    requires
        old(field).wf(),
        end <= actions@.len(),
    ensures
        final(field).wf(),
        final(field)@ == replayed(old(field)@, actions@.subrange(0, end as int)),
{
    let ghost start = field@;
    let mut k: usize = 0;
    assert(actions@.subrange(0, 0) =~= Seq::<Action>::empty());
    while k < end
        invariant
            k <= end,
            end <= actions@.len(),
            field.wf(),
            field@ == replayed(start, actions@.subrange(0, k as int)),
        decreases end - k,
    {
        let action = &actions[k];
        assert(actions@.subrange(0, k + 1).drop_last() =~= actions@.subrange(0, k as int));
        if action.kind == ActionType::Deploy {
            if let Some(at) = action.location {
                field.insert(action.name.clone(), at);
            }
        } else if action.kind == ActionType::Retreat {
            field.remove(action.name.as_str());
        }
        k = k + 1;
    }
}

/// Whether `name` is among `names`.
fn listed(names: &Vec<String>, name: &str) -> (r: bool)
    ensures
        r == names@.map_values(|s: String| s@).contains(name@),
{
    let ghost view = names@.map_values(|s: String| s@);
    let mut k: usize = 0;
    while k < names.len()
        invariant
            k <= names@.len(),
            view == names@.map_values(|s: String| s@),
            forall|j: int| 0 <= j < k ==> view[j] != name@,
        decreases names@.len() - k,
    {
        if text::str_eq(names[k].as_str(), name) {
            assert(view[k as int] == name@);
            return true;
        }
        k = k + 1;
    }
    false
}

impl ContinuationPlan {
    /// Plans continuing `copilot` after `cutoff_frame`: every action at or before that
    /// frame counts as done, and the plan starts at the first later action. Actions
    /// after the cutoff that target an operator by name alone must find it on the
    /// field as the job leaves it.
    pub fn build(copilot: &Copilot, cutoff_frame: i64) -> (r: Result<Self, ContinuationError>)
        requires
            cutoff_frame > 0 ==> forall|i: int|
                first_after(copilot.actions@, cutoff_frame, 0) <= i < copilot.actions@.len()
                    ==> supported_spec((#[trigger] copilot.actions@[i]).kind),
        ensures
            ({
                let actions = copilot.actions@;
                let n = first_after(actions, cutoff_frame, 0);
                let field = replayed(Map::empty(), actions.subrange(0, n));
                if cutoff_frame <= 0 {
                    r == Err::<Self, ContinuationError>(ContinuationError::ZeroFrame)
                } else if n == actions.len() {
                    r == Err::<Self, ContinuationError>(
                        ContinuationError::NoRemainingActions { cutoff_frame },
                    )
                } else {
                    match first_lost_target(actions, n, field.dom()) {
                        Some(i) => r == Err::<Self, ContinuationError>(
                            ContinuationError::UnknownFutureTarget {
                                index: i as usize,
                                name: actions[i].name,
                            },
                        ),
                        None => r is Ok && plan_holds(r->Ok_0, actions, cutoff_frame),
                    }
                }
            }),
    {
        if cutoff_frame <= 0 {
            return Err(ContinuationError::ZeroFrame);
        }
        let ghost actions = copilot.actions@;
        let len = copilot.actions.len();
        let mut n: usize = 0;
        while n < len && copilot.actions[n].frame <= cutoff_frame
            invariant
                actions == copilot.actions@,
                len == actions.len(),
                n <= len,
                first_after(actions, cutoff_frame, 0) == first_after(actions, cutoff_frame, n as int),
            decreases len - n,
        {
            n = n + 1;
        }
        assert(first_after(actions, cutoff_frame, n as int) == n as int);
        if n == len {
            return Err(ContinuationError::NoRemainingActions { cutoff_frame });
        }
        let mut battlefield = Battlefield::new();
        replay_lifecycle(&mut battlefield, &copilot.actions, n);
        let ghost field = battlefield@;

        // Every later action that targets by name alone must find its operator, with
        // the whole later lifecycle played through.
        let mut future = battlefield.clone();
        let mut k: usize = n;
        while k < len
            invariant
                actions == copilot.actions@,
                len == actions.len(),
                n <= k <= len,
                cutoff_frame > 0,
                field == replayed(Map::empty(), actions.subrange(0, n as int)),
                first_after(actions, cutoff_frame, 0) == n,
                future.wf(),
                first_lost_target(actions, n as int, field.dom()) == first_lost_target(
                    actions,
                    k as int,
                    future@.dom(),
                ),
            decreases len - k,
        {
            let action = &copilot.actions[k];
            if (action.kind == ActionType::UseSkill || action.kind == ActionType::Retreat)
                && action.location.is_none() && !future.contains_key(action.name.as_str()) {
                assert(first_lost_target(actions, k as int, future@.dom()) == Some(k as int));
                return Err(
                    ContinuationError::UnknownFutureTarget { index: k, name: action.name.clone() },
                );
            }
            if action.kind == ActionType::Deploy {
                if let Some(at) = action.location {
                    future.insert(action.name.clone(), at);
                }
            } else if action.kind == ActionType::Retreat {
                future.remove(action.name.as_str());
            }
            k = k + 1;
        }

        let mut visible_binding_names: Vec<String> = Vec::new();
        let mut archived_binding_names: Vec<String> = Vec::new();
        let mut seen: Vec<String> = Vec::new();
        let mut k: usize = n;
        assert(actions.subrange(n as int, n as int) =~= Seq::<Action>::empty());
        while k < len
            invariant
                actions == copilot.actions@,
                len == actions.len(),
                n <= k <= len,
                cutoff_frame > 0,
                field == replayed(Map::empty(), actions.subrange(0, n as int)),
                first_after(actions, cutoff_frame, 0) == n,
                battlefield.wf(),
                battlefield@ == field,
                seen@.map_values(|s: String| s@) == deploy_names(
                    actions.subrange(n as int, k as int),
                ),
                visible_binding_names@.map_values(|s: String| s@) == binding_names(
                    actions.subrange(n as int, k as int),
                    field.dom(),
                    false,
                ),
                archived_binding_names@.map_values(|s: String| s@) == binding_names(
                    actions.subrange(n as int, k as int),
                    field.dom(),
                    true,
                ),
            decreases len - k,
        {
            let action = &copilot.actions[k];
            let ghost done = actions.subrange(n as int, k as int);
            assert(actions.subrange(n as int, k + 1).drop_last() =~= done);
            assert(actions.subrange(n as int, k + 1).last() == actions[k as int]);
            if action.kind == ActionType::Deploy && !listed(&seen, action.name.as_str()) {
                let ghost seen_before = seen@.map_values(|s: String| s@);
                seen.push(action.name.clone());
                assert(seen@.map_values(|s: String| s@) =~= seen_before.push(action.name@));
                if battlefield.contains_key(action.name.as_str()) {
                    let ghost before = archived_binding_names@.map_values(|s: String| s@);
                    archived_binding_names.push(action.name.clone());
                    assert(archived_binding_names@.map_values(|s: String| s@) =~= before.push(
                        action.name@,
                    ));
                } else {
                    let ghost before = visible_binding_names@.map_values(|s: String| s@);
                    visible_binding_names.push(action.name.clone());
                    assert(visible_binding_names@.map_values(|s: String| s@) =~= before.push(
                        action.name@,
                    ));
                }
            }
            k = k + 1;
        }
        assert(actions.subrange(n as int, len as int) == actions.subrange(n as int, k as int));
        Ok(
            ContinuationPlan {
                cutoff_frame,
                next_action_index: n,
                battlefield,
                visible_binding_names,
                archived_binding_names,
            },
        )
    }

    /// How many actions the plan counts as done.
    pub fn assumed_action_count(&self) -> (n: usize)
        ensures
            n == self.next_action_index,
    {
        self.next_action_index
    }

    /// The action the continuation starts with.
    pub fn next_action<'a>(&self, copilot: &'a Copilot) -> (a: &'a Action)
        requires
            self.next_action_index < copilot.actions@.len(),
        ensures
            *a == copilot.actions@[self.next_action_index as int],
    {
        &copilot.actions[self.next_action_index]
    }
}

} // verus!
