//! What the job editor shows of a document: one row per action on a split-track
//! timeline, with the track of each action, its worst diagnostic and whether it is
//! selected, and whether the job can be run as it stands.
use vstd::prelude::*;

use crate::copilot::{lemma_parse_outcome_exclusive, parse_outcome, Copilot};
use crate::job_diagnostics::{any_error, document_findings, findings_of, has_error, Finding};
use crate::job_document::{
    action_items, draft_matches, ActionDraft, ActionId, Diagnostic, DiagnosticSeverity, JobDocument,
};
use crate::json;
use crate::text;

verus! {

/// The timeline track an action is drawn on.
#[derive(Clone, Copy, Debug, PartialEq, Eq, Structural)]
pub enum Lane {
    /// Comments (`Output`): no input.
    Output,
    /// A skill used on a tile without a named target: a map device.
    MapDevice,
    /// An action that names no target yet.
    Unassigned,
    /// The track of the named operator (the row's `action.name`).
    Operator,
}

/// The track of `d`: comments first, then map-device skills, then actions without a
/// target; everything else goes on its target's track. Kinds compare ASCII-case-blind.
pub open spec fn lane_of(d: ActionDraft) -> Lane {
    let kind = text::ascii_lower(d.kind@);
    if kind == "output"@ {
        Lane::Output
    } else if kind == "skill"@ && d.name@.len() == 0 && d.location is Some {
        Lane::MapDevice
    } else if d.name@.len() == 0 {
        Lane::Unassigned
    } else {
        Lane::Operator
    }
}

/// The worst finding about action `id`: 2 for an error, 1 for a warning only, 0 for none.
pub open spec fn worst_severity(fs: Seq<Finding>, id: ActionId) -> u8 {
    if exists|i: int| 0 <= i < fs.len() && (#[trigger] fs[i]).1 == Some(id) && fs[i].0
        == DiagnosticSeverity::Error {
        2
    } else if exists|i: int| 0 <= i < fs.len() && (#[trigger] fs[i]).1 == Some(id) {
        1
    } else {
        0
    }
}

/// One row of the editor's timeline.
#[derive(Debug)]
pub struct EditorRow {
    pub action: ActionDraft,
    pub lane: Lane,
    pub selected: bool,
    /// See [`worst_severity`].
    pub severity: u8,
}

fn lane(d: &ActionDraft) -> (l: Lane)
    ensures
        l == lane_of(*d),
{
    let kind = text::ascii_lower_chars(d.kind.as_str());
    let unnamed = d.name.as_str().unicode_len() == 0;
    if text::chars_eq_str(&kind, "output") {
        Lane::Output
    } else if text::chars_eq_str(&kind, "skill") && unnamed && d.location.is_some() {
        Lane::MapDevice
    } else if unnamed {
        Lane::Unassigned
    } else {
        Lane::Operator
    }
}

fn severity_of(ds: &Vec<Diagnostic>, id: ActionId) -> (s: u8)
    ensures
        s == worst_severity(findings_of(ds@), id),
{
    let ghost fs = findings_of(ds@);
    let mut error = false;
    let mut any = false;
    let mut i: usize = 0;
    while i < ds.len()
        invariant
            fs == findings_of(ds@),
            i <= ds@.len(),
            error == exists|j: int| 0 <= j < i && (#[trigger] fs[j]).1 == Some(id) && fs[j].0
                == DiagnosticSeverity::Error,
            any == exists|j: int| 0 <= j < i && (#[trigger] fs[j]).1 == Some(id),
        decreases ds@.len() - i,
    {
        assert(fs[i as int] == (ds@[i as int].severity, ds@[i as int].action_id, ds@[i as int].field@, ds@[i as int].message@));
        if ds[i].action_id == Some(id) {
            any = true;
            if ds[i].severity == DiagnosticSeverity::Error {
                error = true;
            }
        }
        i = i + 1;
    }
    if error {
        2
    } else if any {
        1
    } else {
        0
    }
}

proof fn lemma_worst_ignores_documentwide(fs: Seq<Finding>, f: Finding, id: ActionId)
    requires
        f.1 is None,
    ensures
        worst_severity(fs.push(f), id) == worst_severity(fs, id),
{
    let g = fs.push(f);
    assert forall|i: int| 0 <= i < g.len() && (#[trigger] g[i]).1 == Some(id) implies i < fs.len()
        && g[i] == fs[i] by {}
    if exists|i: int| 0 <= i < g.len() && (#[trigger] g[i]).1 == Some(id) {
        let i = choose|i: int| 0 <= i < g.len() && (#[trigger] g[i]).1 == Some(id);
        assert(fs[i].1 == Some(id));
    }
    if exists|i: int| 0 <= i < fs.len() && (#[trigger] fs[i]).1 == Some(id) {
        let i = choose|i: int| 0 <= i < fs.len() && (#[trigger] fs[i]).1 == Some(id);
        assert(g[i] == fs[i]);
    }
    if exists|i: int| 0 <= i < g.len() && (#[trigger] g[i]).1 == Some(id) && g[i].0 == DiagnosticSeverity::Error {
        let i = choose|i: int| 0 <= i < g.len() && (#[trigger] g[i]).1 == Some(id) && g[i].0 == DiagnosticSeverity::Error;
        assert(fs[i].1 == Some(id));
    }
    if exists|i: int| 0 <= i < fs.len() && (#[trigger] fs[i]).1 == Some(id) && fs[i].0 == DiagnosticSeverity::Error {
        let i = choose|i: int| 0 <= i < fs.len() && (#[trigger] fs[i]).1 == Some(id) && fs[i].0 == DiagnosticSeverity::Error;
        assert(g[i] == fs[i]);
    }
}

/// The editor's timeline rows, one per action in document order: the action as the
/// property panel shows it, its track, whether it is `selected`, and its worst
/// diagnostic.
pub fn editor_rows(doc: &JobDocument, selected: Option<ActionId>) -> (rows: Vec<EditorRow>)
    requires
        doc.wf(),
    ensures
        rows@.len() == action_items(doc.entries()).len(),
        forall|i: int|
            0 <= i < rows@.len() ==> {
                let row = #[trigger] rows@[i];
                &&& draft_matches(row.action, doc.ids()[i], action_items(doc.entries())[i])
                &&& row.lane == lane_of(row.action)
                &&& row.selected == (selected == Some(doc.ids()[i]))
                &&& row.severity == worst_severity(
                    document_findings(doc.entries(), doc.ids()),
                    doc.ids()[i],
                )
            },
{
    let ds = doc.diagnostics();
    let ghost base = document_findings(doc.entries(), doc.ids());
    proof {
        if findings_of(ds@) != base {
            let e = choose|e: crate::copilot::CopilotError|
                crate::job_diagnostics::possible_compile_error(json::compact_object_text(doc.entries()), e)
                    && findings_of(ds@) == #[trigger] base.push(crate::job_diagnostics::compile_finding(e));
            assert forall|id: ActionId| worst_severity(findings_of(ds@), id) == #[trigger] worst_severity(base, id) by {
                lemma_worst_ignores_documentwide(base, crate::job_diagnostics::compile_finding(e), id);
            }
        }
    }
    let mut drafts = doc.actions();
    let ghost all = drafts@;
    assert(all.len() == drafts.len());
    let mut rows: Vec<EditorRow> = Vec::new();
    let mut i: usize = 0;
    while drafts.len() > 0
        invariant
            all.len() == action_items(doc.entries()).len(),
            all.len() <= usize::MAX,
            forall|j: int|
                0 <= j < all.len() ==> draft_matches(
                    #[trigger] all[j],
                    doc.ids()[j],
                    action_items(doc.entries())[j],
                ),
            forall|id: ActionId| worst_severity(findings_of(ds@), id) == #[trigger] worst_severity(base, id),
            base == document_findings(doc.entries(), doc.ids()),
            i <= all.len(),
            drafts@ == all.subrange(i as int, all.len() as int),
            rows@.len() == i,
            forall|j: int|
                0 <= j < i ==> {
                    let row = #[trigger] rows@[j];
                    &&& row.action == all[j]
                    &&& row.lane == lane_of(row.action)
                    &&& row.selected == (selected == Some(all[j].id))
                    &&& row.severity == worst_severity(base, all[j].id)
                },
        decreases drafts@.len(),
    {
        let d = drafts.remove(0);
        assert(d == all[i as int]);
        let l = lane(&d);
        let s = severity_of(&ds, d.id);
        let sel = match selected {
            Some(x) => x == d.id,
            None => false,
        };
        rows.push(EditorRow { action: d, lane: l, selected: sel, severity: s });
        proof {
            assert(drafts@ =~= all.subrange(i + 1, all.len() as int));
        }
        i = i + 1;
    }
    proof {
        assert forall|j: int| 0 <= j < rows@.len() implies all[j].id == doc.ids()[j] by {
            assert(draft_matches(all[j], doc.ids()[j], action_items(doc.entries())[j]));
        }
    }
    rows
}

/// Whether the job can run as the editor holds it: no diagnostic is an error and the
/// document compiles.
pub fn editor_can_run(doc: &JobDocument) -> (b: bool)
    requires
        doc.wf(),
    ensures
        b == (!any_error(document_findings(doc.entries(), doc.ids())) && exists|c: Copilot|
            parse_outcome(json::compact_object_text(doc.entries()), Ok(c))),
{
    let ghost text = json::compact_object_text(doc.entries());
    let ds = doc.diagnostics();
    if has_error(&ds) {
        proof {
            let base = document_findings(doc.entries(), doc.ids());
            if !any_error(base) {
                if findings_of(ds@) != base {
                    let e = choose|e: crate::copilot::CopilotError|
                        crate::job_diagnostics::possible_compile_error(text, e) && findings_of(ds@)
                            == #[trigger] base.push(crate::job_diagnostics::compile_finding(e));
                    assert forall|c: Copilot| !parse_outcome(text, Ok(c)) by {
                        if parse_outcome(text, Ok(c)) {
                            lemma_parse_outcome_exclusive(text, c, e);
                        }
                    }
                }
            }
        }
        return false;
    }
    match doc.compile() {
        Ok(c) => {
            assert(parse_outcome(text, Ok(c)));
            true
        },
        Err(e) => {
            assert forall|c: Copilot| !parse_outcome(text, Ok(c)) by {
                if parse_outcome(text, Ok(c)) {
                    lemma_parse_outcome_exclusive(text, c, e);
                }
            }
            false
        },
    }
}

} // verus!
