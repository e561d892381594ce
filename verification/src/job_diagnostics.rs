//! The editor's checks of a job document: errors that keep it from compiling and
//! warnings about a run that would likely go wrong.
use vstd::prelude::*;

use crate::copilot::{
    action_type_from, action_type_name, copilot_error_message, parse_outcome, supported_spec,
    text_or, ActionType, Copilot, CopilotError,
};
use crate::job_document::{
    action_items, deferred_items, entry_text, frame_of, location_of, ActionId, Diagnostic,
    DiagnosticSeverity, JobDocument,
};
use crate::job_items::{listed_names, listed_texts, merged_names};
use crate::json::{self, member, JsonValue};
use crate::sorting::views;
use crate::text;

verus! {

/// A finding as plain values: severity, action, field and message.
pub type Finding = (DiagnosticSeverity, Option<ActionId>, Seq<char>, Seq<char>);

pub open spec fn finding_of(d: Diagnostic) -> Finding {
    (d.severity, d.action_id, d.field@, d.message@)
}

pub open spec fn findings_of(ds: Seq<Diagnostic>) -> Seq<Finding> {
    ds.map_values(|d: Diagnostic| finding_of(d))
}

pub open spec fn error(id: Option<ActionId>, field: Seq<char>, message: Seq<char>) -> Finding {
    (DiagnosticSeverity::Error, id, field, message)
}

pub open spec fn warning(id: Option<ActionId>, field: Seq<char>, message: Seq<char>) -> Finding {
    (DiagnosticSeverity::Warning, id, field, message)
}

/// Whether one of the findings is an error.
pub open spec fn any_error(fs: Seq<Finding>) -> bool {
    exists|i: int| 0 <= i < fs.len() && (#[trigger] fs[i]).0 == DiagnosticSeverity::Error
}

/// What is carried from one action to the next: the declared targets, the targets
/// deployed and not yet retreated, and the last frame seen.
pub type CheckState = (Set<Seq<char>>, Set<Seq<char>>, i64);

/// The findings about the type of an action.
pub open spec fn kind_findings(id: Option<ActionId>, kind: Seq<char>) -> Seq<Finding> {
    match action_type_from(text::ascii_lower(kind)) {
        None => seq![error(id, "type"@, "无法识别动作类型 `"@ + kind + "`"@)],
        Some(k) => if supported_spec(k) {
            Seq::empty()
        } else {
            seq![error(id, "type"@, "帧复刻不支持动作 `"@ + action_type_name(k) + "`"@)]
        },
    }
}

/// The findings about the frame of an action, and the frame the next one is compared
/// with.
pub open spec fn frame_findings(id: Option<ActionId>, frame: Option<i64>, previous: i64) -> (Seq<Finding>, i64) {
    match frame {
        None => (seq![error(id, "frame"@, "动作缺少绝对帧"@)], previous),
        Some(f) => if f < 0 {
            (seq![error(id, "frame"@, "帧号不能为负数"@)], previous)
        } else if f < previous {
            (seq![error(id, "frame"@, "动作帧号必须按非递减顺序排列"@)], f)
        } else {
            (Seq::empty(), f)
        },
    }
}

/// Whether an action of this kind needs a target.
pub open spec fn needs_target(k: Option<ActionType>) -> bool {
    k == Some(ActionType::Deploy) || k == Some(ActionType::UseSkill) || k == Some(ActionType::Retreat)
}

/// The findings about the deployment record, and the record after the action.
pub open spec fn deployment_findings(
    id: Option<ActionId>,
    k: Option<ActionType>,
    name: Seq<char>,
    has_location: bool,
    deployed: Set<Seq<char>>,
) -> (Seq<Finding>, Set<Seq<char>>) {
    if k == Some(ActionType::Deploy) {
        let missing = if has_location {
            Seq::<Finding>::empty()
        } else {
            seq![error(id, "location"@, "部署动作缺少格子"@)]
        };
        if name.len() > 0 {
            if deployed.contains(name) {
                (missing.push(warning(id, "name"@, "干员 `"@ + name + "` 在未记录撤退前再次部署"@)), deployed)
            } else {
                (missing, deployed.insert(name))
            }
        } else {
            (missing, deployed)
        }
    } else if k == Some(ActionType::UseSkill) {
        if name.len() > 0 && !deployed.contains(name) {
            (seq![warning(id, "name"@, "干员 `"@ + name + "` 在部署记录之前使用技能"@)], deployed)
        } else {
            (Seq::empty(), deployed)
        }
    } else if k == Some(ActionType::Retreat) {
        if name.len() > 0 {
            if deployed.contains(name) {
                (Seq::empty(), deployed.remove(name))
            } else {
                (seq![warning(id, "name"@, "干员 `"@ + name + "` 在部署记录之前撤退"@)], deployed)
            }
        } else {
            (Seq::empty(), deployed)
        }
    } else {
        (Seq::empty(), deployed)
    }
}

/// The findings about one action object, and the state after it.
pub open spec fn action_findings(v: JsonValue, id: ActionId, st: CheckState) -> (Seq<Finding>, CheckState) {
    let i = Some(id);
    let kind = text_or(v, "type"@, Seq::empty());
    let name = text_or(v, "name"@, Seq::empty());
    let k = action_type_from(text::ascii_lower(kind));
    let f_kind = kind_findings(i, kind);
    let (f_frame, previous) = frame_findings(i, frame_of(v), st.2);
    let f_target = if text::is_blank(name) && needs_target(k) {
        seq![error(i, "name"@, "动作缺少目标干员"@)]
    } else {
        Seq::empty()
    };
    let declared = if k == Some(ActionType::Deploy) && name.len() > 0 {
        st.0.insert(name)
    } else {
        st.0
    };
    let f_declared = if name.len() > 0 && declared != Set::<Seq<char>>::empty() && !declared.contains(
        name,
    ) {
        seq![error(i, "name"@, "目标 `"@ + name + "` 未在编队或延迟目标中声明"@)]
    } else {
        Seq::empty()
    };
    let (f_deploy, deployed) = deployment_findings(i, k, name, location_of(v) is Some, st.1);
    (f_kind + f_frame + f_target + f_declared + f_deploy, (declared, deployed, previous))
}

/// The findings about the actions from position `i` on, starting in state `st`.
pub open spec fn findings_from(items: Seq<JsonValue>, ids: Seq<ActionId>, i: int, st: CheckState) -> Seq<Finding>
    decreases items.len() - i,
{
    if i < 0 || i >= items.len() {
        Seq::empty()
    } else {
        let (f, next) = action_findings(items[i], ids[i], st);
        f + findings_from(items, ids, i + 1, next)
    }
}

/// The findings about the document before it is compiled: stage, frame-replication
/// block, an empty action list, then each action in order.
pub open spec fn document_findings(root: Seq<(String, JsonValue)>, ids: Seq<ActionId>) -> Seq<Finding> {
    let f_stage = if text::is_blank(entry_text(root, "stage_name"@)) {
        seq![error(None, "stage_name"@, "作业缺少关卡标识"@)]
    } else {
        Seq::empty()
    };
    let f_meta = match member(root, "frame_replicator"@) {
        None => seq![error(None, "frame_replicator"@, "作业缺少 frame_replicator 标记"@)],
        Some(m) => match m.field("speed"@) {
            Some(s) => match s.text() {
                Some(t) => if t != "1x"@ {
                    seq![error(None, "frame_replicator.speed"@, "帧复刻当前只支持 1x"@)]
                } else {
                    Seq::empty()
                },
                None => Seq::empty(),
            },
            None => Seq::empty(),
        },
    };
    let items = action_items(root);
    let f_empty = if items.len() == 0 {
        seq![error(None, "actions"@, "作业里一个动作都没有"@)]
    } else {
        Seq::empty()
    };
    let declared = merged_names(
        listed_names(crate::job_document::array_items(root, "opers"@)),
        listed_texts(deferred_items(root)),
    ).to_set();
    f_stage + f_meta + f_empty + findings_from(items, ids, 0, (declared, Set::empty(), -1i64))
}

/// The finding added when a document without errors does not compile.
pub open spec fn compile_finding(e: CopilotError) -> Finding {
    error(None, "document"@, "作业无法编译："@ + copilot_error_message(e))
}

/// An error that parsing and validating `text` gives.
pub open spec fn possible_compile_error(text: Seq<char>, e: CopilotError) -> bool {
    parse_outcome(text, Err(e))
}

fn make(severity: DiagnosticSeverity, id: Option<ActionId>, field: &str, message: String) -> (d: Diagnostic)
    ensures
        finding_of(d) == (severity, id, field@, message@),
{
    Diagnostic { severity, action_id: id, field: field.to_owned(), message }
}

fn quoted(before: &str, middle: &str, after: &str) -> (s: String)
    ensures
        s@ == before@ + middle@ + after@,
{
    let mut s = String::from_str(before);
    s.append(middle);
    s.append(after);
    s
}

proof fn lemma_push_contains<A>(s: Seq<A>, a: A, x: A)
    ensures
        s.push(a).contains(x) <==> (s.contains(x) || x == a),
{
    if s.contains(x) {
        let j = choose|j: int| 0 <= j < s.len() && s[j] == x;
        assert(s.push(a)[j] == x);
    }
    if x == a {
        assert(s.push(a)[s.len() as int] == x);
    }
    if s.push(a).contains(x) {
        let j = choose|j: int| 0 <= j < s.push(a).len() && s.push(a)[j] == x;
        if j < s.len() {
            assert(s[j] == x);
        }
    }
}

proof fn lemma_findings_push(ds: Seq<Diagnostic>, d: Diagnostic)
    ensures
        findings_of(ds.push(d)) == findings_of(ds).push(finding_of(d)),
{
    assert(findings_of(ds.push(d)) =~= findings_of(ds).push(finding_of(d)));
}

/// Whether `name` is in the set that `names` holds.
fn holds_name(names: &Vec<String>, name: &str) -> (b: bool)
    ensures
        b == name_set(names@).contains(name@),
{
    crate::job_items::contains_text(names, name)
}

/// Removes `name` from the set that `names` holds.
fn drop_name(names: &mut Vec<String>, name: &str)
    ensures
        name_set(final(names)@) == name_set(old(names)@).remove(name@),
{
    let ghost orig = names@;
    let mut out: Vec<String> = Vec::new();
    let mut i: usize = 0;
    while i < names.len()
        invariant
            names@ == orig,
            i <= orig.len(),
            forall|x: Seq<char>| #[trigger] views(out@).contains(x) <==> (views(orig.take(i as int)).contains(x) && x != name@),
        decreases orig.len() - i,
    {
        let ghost prev = out@;
        if !text::str_eq(names[i].as_str(), name) {
            out.push(names[i].as_str().to_owned());
        }
        proof {
            assert(views(orig.take(i + 1)) =~= views(orig.take(i as int)).push(orig[i as int]@));
            assert forall|x: Seq<char>| #[trigger] views(out@).contains(x) <==> (views(orig.take(i + 1)).contains(x) && x != name@) by {
                lemma_push_contains(views(orig.take(i as int)), orig[i as int]@, x);
                if orig[i as int]@ != name@ {
                    assert(views(out@) =~= views(prev).push(orig[i as int]@));
                    lemma_push_contains(views(prev), orig[i as int]@, x);
                } else {
                    assert(views(out@) =~= views(prev));
                }
            }
        }
        i = i + 1;
    }
    assert(orig.take(i as int) =~= orig);
    *names = out;
    assert(name_set(names@) =~= name_set(orig).remove(name@));
}

/// Adds `name` to the set that `names` holds.
fn add_name(names: &mut Vec<String>, name: &str)
    ensures
        name_set(final(names)@) == name_set(old(names)@).insert(name@),
{
    if !holds_name(names, name) {
        let ghost prev = names@;
        names.push(name.to_owned());
        assert(views(names@) =~= views(prev).push(name@));
        assert forall|x: Seq<char>| #[trigger] views(names@).contains(x) <==> (views(prev).contains(x) || x == name@) by {
            lemma_push_contains(views(prev), name@, x);
        }
        assert(name_set(names@) =~= name_set(prev).insert(name@));
    } else {
        assert(name_set(names@) =~= name_set(names@).insert(name@));
    }
}

/// The set that `names` holds.
pub open spec fn name_set(names: Seq<String>) -> Set<Seq<char>> {
    views(names).to_set()
}

proof fn lemma_name_set_empty(names: Seq<String>)
    ensures
        (name_set(names) == Set::<Seq<char>>::empty()) <==> names.len() == 0,
{
    if names.len() > 0 {
        assert(views(names)[0] == names[0]@);
        assert(name_set(names).contains(names[0]@));
    } else {
        assert(name_set(names) =~= Set::<Seq<char>>::empty());
    }
}

fn push_diagnostic(out: &mut Vec<Diagnostic>, d: Diagnostic)
    ensures
        findings_of(final(out)@) == findings_of(old(out)@).push(finding_of(d)),
{
    let ghost before = out@;
    out.push(d);
    proof {
        lemma_findings_push(before, d);
    }
}

fn push_kind_findings(out: &mut Vec<Diagnostic>, id: Option<ActionId>, kind: &str, k: Option<ActionType>)
    requires
        k == action_type_from(text::ascii_lower(kind@)),
    ensures
        findings_of(final(out)@) == findings_of(old(out)@) + kind_findings(id, kind@),
{
    let ghost before = findings_of(out@);
    match k {
        None => {
            push_diagnostic(out, make(DiagnosticSeverity::Error, id, "type", quoted("无法识别动作类型 `", kind, "`")));
        },
        Some(kk) => {
            if !kk.supported_in_frame_mode() {
                push_diagnostic(out, make(DiagnosticSeverity::Error, id, "type", quoted("帧复刻不支持动作 `", kk.as_str(), "`")));
            }
        },
    }
    assert(findings_of(out@) =~= before + kind_findings(id, kind@));
}

fn push_frame_findings(out: &mut Vec<Diagnostic>, id: Option<ActionId>, frame: Option<i64>, previous: &mut i64)
    ensures
        findings_of(final(out)@) == findings_of(old(out)@) + frame_findings(id, frame, *old(previous)).0,
        *final(previous) == frame_findings(id, frame, *old(previous)).1,
{
    let ghost before = findings_of(out@);
    match frame {
        None => {
            push_diagnostic(out, make(DiagnosticSeverity::Error, id, "frame", String::from_str("动作缺少绝对帧")));
        },
        Some(f) => {
            if f < 0 {
                push_diagnostic(out, make(DiagnosticSeverity::Error, id, "frame", String::from_str("帧号不能为负数")));
            } else {
                if f < *previous {
                    push_diagnostic(out, make(DiagnosticSeverity::Error, id, "frame", String::from_str("动作帧号必须按非递减顺序排列")));
                }
                *previous = f;
            }
        },
    }
    assert(findings_of(out@) =~= before + frame_findings(id, frame, *old(previous)).0);
}

/// The findings about a missing or undeclared target, and the declared set after the
/// action.
pub open spec fn target_findings(id: Option<ActionId>, k: Option<ActionType>, name: Seq<char>, declared: Set<Seq<char>>) -> (Seq<Finding>, Set<Seq<char>>) {
    let f_target = if text::is_blank(name) && needs_target(k) {
        seq![error(id, "name"@, "动作缺少目标干员"@)]
    } else {
        Seq::empty()
    };
    let d = if k == Some(ActionType::Deploy) && name.len() > 0 {
        declared.insert(name)
    } else {
        declared
    };
    let f_declared = if name.len() > 0 && d != Set::<Seq<char>>::empty() && !d.contains(name) {
        seq![error(id, "name"@, "目标 `"@ + name + "` 未在编队或延迟目标中声明"@)]
    } else {
        Seq::empty()
    };
    (f_target + f_declared, d)
}

fn push_target_findings(out: &mut Vec<Diagnostic>, id: Option<ActionId>, k: Option<ActionType>, name: &str, declared: &mut Vec<String>)
    ensures
        findings_of(final(out)@) == findings_of(old(out)@) + target_findings(id, k, name@, name_set(old(declared)@)).0,
        name_set(final(declared)@) == target_findings(id, k, name@, name_set(old(declared)@)).1,
{
    let ghost before = findings_of(out@);
    let ghost d0 = name_set(declared@);
    let needs = match k {
        Some(ActionType::Deploy) => true,
        Some(ActionType::UseSkill) => true,
        Some(ActionType::Retreat) => true,
        _ => false,
    };
    if text::is_blank_str(name) && needs {
        push_diagnostic(out, make(DiagnosticSeverity::Error, id, "name", String::from_str("动作缺少目标干员")));
    }
    let ghost mid = findings_of(out@);
    let has_name = name.unicode_len() > 0;
    let is_deploy = match k {
        Some(ActionType::Deploy) => true,
        _ => false,
    };
    if is_deploy && has_name {
        add_name(declared, name);
    }
    proof {
        lemma_name_set_empty(declared@);
    }
    if has_name && declared.len() > 0 && !holds_name(declared, name) {
        push_diagnostic(out, make(DiagnosticSeverity::Error, id, "name", quoted("目标 `", name, "` 未在编队或延迟目标中声明")));
    }
    assert(findings_of(out@) =~= before + target_findings(id, k, name@, d0).0);
}

fn push_deployment_findings(
    out: &mut Vec<Diagnostic>,
    id: Option<ActionId>,
    k: Option<ActionType>,
    name: &str,
    has_location: bool,
    deployed: &mut Vec<String>,
)
    ensures
        findings_of(final(out)@) == findings_of(old(out)@) + deployment_findings(id, k, name@, has_location, name_set(old(deployed)@)).0,
        name_set(final(deployed)@) == deployment_findings(id, k, name@, has_location, name_set(old(deployed)@)).1,
{
    let ghost before = findings_of(out@);
    let ghost d0 = name_set(deployed@);
    let has_name = name.unicode_len() > 0;
    match k {
        Some(ActionType::Deploy) => {
            if !has_location {
                push_diagnostic(out, make(DiagnosticSeverity::Error, id, "location", String::from_str("部署动作缺少格子")));
            }
            if has_name {
                if holds_name(deployed, name) {
                    push_diagnostic(out, make(DiagnosticSeverity::Warning, id, "name", quoted("干员 `", name, "` 在未记录撤退前再次部署")));
                } else {
                    add_name(deployed, name);
                }
            }
        },
        Some(ActionType::UseSkill) => {
            if has_name && !holds_name(deployed, name) {
                push_diagnostic(out, make(DiagnosticSeverity::Warning, id, "name", quoted("干员 `", name, "` 在部署记录之前使用技能")));
            }
        },
        Some(ActionType::Retreat) => {
            if has_name {
                if holds_name(deployed, name) {
                    drop_name(deployed, name);
                } else {
                    push_diagnostic(out, make(DiagnosticSeverity::Warning, id, "name", quoted("干员 `", name, "` 在部署记录之前撤退")));
                }
            }
        },
        _ => {},
    }
    assert(findings_of(out@) =~= before + deployment_findings(id, k, name@, has_location, d0).0);
}

/// Checks one action: pushes its findings and moves the state on.
fn check_action(
    v: &JsonValue,
    id: ActionId,
    declared: &mut Vec<String>,
    deployed: &mut Vec<String>,
    previous: &mut i64,
    out: &mut Vec<Diagnostic>,
)
    ensures
        ({
            let (f, st) = action_findings(*v, id, (name_set(old(declared)@), name_set(old(deployed)@), *old(previous)));
            &&& findings_of(final(out)@) == findings_of(old(out)@) + f
            &&& name_set(final(declared)@) == st.0
            &&& name_set(final(deployed)@) == st.1
            &&& *final(previous) == st.2
        }),
{
    let ghost st0 = (name_set(declared@), name_set(deployed@), *previous);
    let ghost out0 = findings_of(out@);
    let i = Some(id);
    let kind = crate::copilot::text_member_or_empty(v, "type");
    let name = crate::copilot::text_member_or_empty(v, "name");
    let k = ActionType::parse(kind.as_str());
    push_kind_findings(out, i, kind.as_str(), k);
    let ghost out1 = findings_of(out@);
    push_frame_findings(out, i, crate::job_document::action_frame(v), previous);
    let ghost out2 = findings_of(out@);
    push_target_findings(out, i, k, name.as_str(), declared);
    let ghost out3 = findings_of(out@);
    let has_location = crate::job_document::parse_location(v).is_some();
    push_deployment_findings(out, i, k, name.as_str(), has_location, deployed);
    proof {
        let (f, st) = action_findings(*v, id, st0);
        let (ft, dt) = target_findings(i, k, name@, st0.0);
        assert(f =~= kind_findings(i, kind@) + frame_findings(i, frame_of(*v), st0.2).0 + ft
            + deployment_findings(i, k, name@, location_of(*v) is Some, st0.1).0);
        assert(findings_of(out@) =~= out0 + f);
    }
}


/// Whether one of the diagnostics is an error.
pub(crate) fn has_error(ds: &Vec<Diagnostic>) -> (b: bool)
    ensures
        b == any_error(findings_of(ds@)),
{
    let mut i: usize = 0;
    while i < ds.len()
        invariant
            i <= ds@.len(),
            forall|j: int| 0 <= j < i ==> (#[trigger] ds@[j]).severity != DiagnosticSeverity::Error,
        decreases ds@.len() - i,
    {
        if ds[i].severity == DiagnosticSeverity::Error {
            assert(findings_of(ds@)[i as int].0 == DiagnosticSeverity::Error);
            return true;
        }
        i = i + 1;
    }
    assert(!any_error(findings_of(ds@))) by {
        if any_error(findings_of(ds@)) {
            let j = choose|j: int| 0 <= j < findings_of(ds@).len() && (#[trigger] findings_of(ds@)[j]).0 == DiagnosticSeverity::Error;
            assert(ds@[j].severity == DiagnosticSeverity::Error);
        }
    }
    false
}

impl JobDocument {
    /// Checks the document: each error keeps it from compiling, each warning points at a
    /// run that would likely go wrong. When nothing else is an error, a document that
    /// still does not compile gets one more error saying why.
    pub fn diagnostics(&self) -> (r: Vec<Diagnostic>)
        requires
            self.wf(),
        ensures
            ({
                let base = document_findings(self.entries(), self.ids());
                let text = json::compact_object_text(self.entries());
                &&& any_error(base) ==> findings_of(r@) == base
                &&& !any_error(base) ==> (findings_of(r@) == base && exists|c: Copilot|
                    parse_outcome(text, Ok(c))) || exists|e: CopilotError|
                    possible_compile_error(text, e) && findings_of(r@) == #[trigger] base.push(
                        compile_finding(e),
                    )
                &&& (exists|c: Copilot| parse_outcome(text, Ok(c))) ==> findings_of(r@) == base
            }),
    {
        let ghost base = document_findings(self.entries(), self.ids());
        let mut out: Vec<Diagnostic> = Vec::new();
        let stage = self.stage_name();
        if text::is_blank_str(stage.as_str()) {
            push_diagnostic(&mut out, make(DiagnosticSeverity::Error, None, "stage_name", String::from_str("作业缺少关卡标识")));
        }
        match json::lookup(self.root(), "frame_replicator") {
            None => {
                push_diagnostic(
                    &mut out,
                    make(DiagnosticSeverity::Error, None, "frame_replicator", String::from_str("作业缺少 frame_replicator 标记")),
                );
            },
            Some(m) => match m.get("speed") {
                Some(sp) => match sp.as_str() {
                    Some(t) => {
                        if !text::str_eq(t, "1x") {
                            push_diagnostic(
                                &mut out,
                                make(DiagnosticSeverity::Error, None, "frame_replicator.speed", String::from_str("帧复刻当前只支持 1x")),
                            );
                        }
                    },
                    None => {},
                },
                None => {},
            },
        }
        let mut declared = self.target_names();
        let empty: Vec<JsonValue> = Vec::new();
        let items: &Vec<JsonValue> = match json::lookup(self.root(), "actions") {
            Some(v) => match v.as_array() {
                Some(a) => a,
                None => &empty,
            },
            None => &empty,
        };
        assert(items@ == action_items(self.entries()));
        if items.len() == 0 {
            push_diagnostic(&mut out, make(DiagnosticSeverity::Error, None, "actions", String::from_str("作业里一个动作都没有")));
        }
        let ids = self.id_list();
        let mut deployed: Vec<String> = Vec::new();
        let mut previous: i64 = -1;
        proof {
            assert(name_set(deployed@) =~= Set::<Seq<char>>::empty());
            assert(findings_of(out@) + findings_from(items@, ids@, 0, (name_set(declared@), name_set(deployed@), previous)) =~= base);
        }
        let mut i: usize = 0;
        while i < items.len()
            invariant
                i <= items@.len(),
                ids@.len() == items@.len(),
                findings_of(out@) + findings_from(items@, ids@, i as int, (name_set(declared@), name_set(deployed@), previous)) == base,
            decreases items@.len() - i,
        {
            let ghost before = findings_of(out@);
            let ghost st = (name_set(declared@), name_set(deployed@), previous);
            check_action(&items[i], ids[i], &mut declared, &mut deployed, &mut previous, &mut out);
            proof {
                let (f, next) = action_findings(items@[i as int], ids@[i as int], st);
                let rest = findings_from(items@, ids@, i + 1, next);
                assert(findings_from(items@, ids@, i as int, st) == f + rest);
                assert(findings_of(out@) + rest =~= before + (f + rest));
            }
            i = i + 1;
        }
        proof {
            assert(findings_of(out@) =~= base);
        }
        if !has_error(&out) {
            let compiled = self.compile();
            match compiled {
                Ok(c) => {
                    assert(parse_outcome(json::compact_object_text(self.entries()), Ok(c)));
                },
                Err(e) => {
                    let mut message = String::from_str("作业无法编译：");
                    let reason = e.message();
                    message.append(reason.as_str());
                    push_diagnostic(&mut out, make(DiagnosticSeverity::Error, None, "document", message));
                    assert(possible_compile_error(json::compact_object_text(self.entries()), e));
                    assert(findings_of(out@) == base.push(compile_finding(e)));
                    assert forall|c: Copilot| !parse_outcome(json::compact_object_text(self.entries()), Ok(c)) by {
                        if parse_outcome(json::compact_object_text(self.entries()), Ok(c)) {
                            crate::copilot::lemma_parse_outcome_exclusive(
                                json::compact_object_text(self.entries()),
                                c,
                                e,
                            );
                        }
                    }
                },
            }
        }
        out
    }

    /// Whether the document has an error or does not compile.
    pub fn has_errors(&self) -> (r: bool)
        requires
            self.wf(),
        ensures
            ({
                let base = document_findings(self.entries(), self.ids());
                let text = json::compact_object_text(self.entries());
                &&& r == (any_error(base) || !exists|c: Copilot| parse_outcome(text, Ok(c)))
                &&& r ==> any_error(base) || exists|e: CopilotError| possible_compile_error(text, e)
            }),
    {
        let ghost text = json::compact_object_text(self.entries());
        let ds = self.diagnostics();
        if has_error(&ds) {
            proof {
                let base = document_findings(self.entries(), self.ids());
                if !any_error(base) {
                    if findings_of(ds@) == base {
                        assert(!any_error(findings_of(ds@)));
                    } else {
                        let e = choose|e: CopilotError| possible_compile_error(text, e) && findings_of(ds@)
                            == #[trigger] base.push(compile_finding(e));
                        assert forall|c: Copilot| !parse_outcome(text, Ok(c)) by {
                            if parse_outcome(text, Ok(c)) {
                                crate::copilot::lemma_parse_outcome_exclusive(text, c, e);
                            }
                        }
                    }
                }
            }
            return true;
        }
        let compiled = self.compile();
        match compiled {
            Ok(c) => {
                assert(parse_outcome(text, Ok(c)));
                false
            },
            Err(e) => {
                assert(possible_compile_error(text, e));
                assert forall|c: Copilot| !parse_outcome(text, Ok(c)) by {
                    if parse_outcome(text, Ok(c)) {
                        crate::copilot::lemma_parse_outcome_exclusive(text, c, e);
                    }
                }
                true
            },
        }
    }
}

} // verus!
