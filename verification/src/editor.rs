//! The job editor's state: the open document, the selection, the timeline cursor and an
//! undo/redo history of whole-document snapshots.
//!
//! Nothing here touches a window, the ruler or the input device: the editor works
//! without the game. Writing the file is the caller's; it reports the result with
//! [`EditorState::mark_saved`].
use vstd::prelude::*;

use std::path::PathBuf;

use crate::job_document::{
    action_drafted, action_duplicated, action_inserted, action_moved, action_removed,
    action_updated, deferred_target_added, deferred_target_removed, deferred_target_renamed,
    details_set, doc_entry_text, drafts_equal, entry_text, is_new_document, looked_up, opened,
    operator_added, operator_removed, operator_renamed, same_document, stage_name_set,
    title_set, ActionDraft, ActionId, JobDocument, JobDocumentError,
};
use crate::text;

verus! {

/// How many edits can be undone.
pub const HISTORY_LIMIT: usize = 200;

/// The editor as it was before an edit.
pub struct Snapshot {
    document: JobDocument,
    selected: Option<ActionId>,
    state_id: u64,
}

impl Snapshot {
    pub closed spec fn doc(self) -> JobDocument {
        self.document
    }

    pub closed spec fn sel(self) -> Option<ActionId> {
        self.selected
    }

    pub closed spec fn revision(self) -> u64 {
        self.state_id
    }
}

/// An open editing session.
pub struct EditorState {
    document: JobDocument,
    path: Option<PathBuf>,
    selected: Option<ActionId>,
    undo: Vec<Snapshot>,
    redo: Vec<Snapshot>,
    state_id: u64,
    saved_state_id: u64,
    next_state_id: u64,
    cursor_frame: i64,
    follow_ruler: bool,
}

impl EditorState {
    pub closed spec fn doc(self) -> JobDocument {
        self.document
    }

    pub closed spec fn file(self) -> Option<PathBuf> {
        self.path
    }

    pub closed spec fn sel(self) -> Option<ActionId> {
        self.selected
    }

    pub closed spec fn undo_stack(self) -> Seq<Snapshot> {
        self.undo@
    }

    pub closed spec fn redo_stack(self) -> Seq<Snapshot> {
        self.redo@
    }

    /// The revision of the document shown; every recorded edit makes a new one.
    pub closed spec fn revision(self) -> u64 {
        self.state_id
    }

    /// The revision last written to the file.
    pub closed spec fn saved_revision(self) -> u64 {
        self.saved_state_id
    }

    /// The revision the next recorded edit makes.
    pub closed spec fn next_revision(self) -> u64 {
        self.next_state_id
    }

    pub closed spec fn cursor(self) -> i64 {
        self.cursor_frame
    }

    pub closed spec fn follows(self) -> bool {
        self.follow_ruler
    }

    /// Every snapshot of the history holds a well-formed document.
    pub open spec fn history_wf(self) -> bool {
        &&& forall|i: int| 0 <= i < self.undo_stack().len() ==> (#[trigger] self.undo_stack()[i]).doc().wf()
        &&& forall|i: int| 0 <= i < self.redo_stack().len() ==> (#[trigger] self.redo_stack()[i]).doc().wf()
    }

    /// The document and every snapshot of it are well formed.
    pub open spec fn wf(self) -> bool {
        &&& self.doc().wf()
        &&& self.history_wf()
    }

    /// Whether another edit can be recorded (the revision counter is not exhausted).
    pub open spec fn can_record(self) -> bool {
        self.next_revision() < u64::MAX
    }
}

proof fn lemma_history_kept(a: EditorState, b: EditorState)
    requires
        a.history_wf(),
        b.undo_stack() == a.undo_stack(),
        b.redo_stack() == a.redo_stack(),
    ensures
        b.history_wf(),
{
}

/// `s` is a snapshot of `e`.
pub open spec fn snapshot_of(e: EditorState, s: Snapshot) -> bool {
    same_document(e.doc(), s.doc()) && s.sel() == e.sel() && s.revision() == e.revision()
}

/// What is kept by everything but the document, the selection and the history.
pub open spec fn same_setting(a: EditorState, b: EditorState) -> bool {
    &&& b.file() == a.file()
    &&& b.saved_revision() == a.saved_revision()
    &&& b.cursor() == a.cursor()
    &&& b.follows() == a.follows()
}

/// `after` recorded an edit of `before`: the snapshot of `before` is the newest undo
/// step (the oldest falls off beyond [`HISTORY_LIMIT`]), nothing is left to redo, and
/// the revision is new.
pub open spec fn recorded(before: EditorState, after: EditorState) -> bool {
    &&& after.undo_stack().len() > 0
    &&& snapshot_of(before, after.undo_stack().last())
    &&& after.undo_stack().drop_last() == if before.undo_stack().len() >= HISTORY_LIMIT {
        before.undo_stack().drop_first()
    } else {
        before.undo_stack()
    }
    &&& after.redo_stack().len() == 0
    &&& after.revision() == before.next_revision()
    &&& after.next_revision() == before.next_revision() + 1
    &&& same_setting(before, after)
}

/// `after` is `before` untouched.
pub open spec fn untouched(before: EditorState, after: EditorState) -> bool {
    &&& after.doc() == before.doc()
    &&& after.sel() == before.sel()
    &&& after.undo_stack() == before.undo_stack()
    &&& after.redo_stack() == before.redo_stack()
    &&& after.revision() == before.revision()
    &&& after.next_revision() == before.next_revision()
    &&& same_setting(before, after)
}

/// `after` is `before` with the newest snapshot of `from` restored and the snapshot of
/// `before` pushed on `to` (what undo and redo do, with the stacks swapped).
pub open spec fn stepped(
    before: EditorState,
    after: EditorState,
    from: Seq<Snapshot>,
    to: Seq<Snapshot>,
    from_after: Seq<Snapshot>,
    to_after: Seq<Snapshot>,
) -> bool {
    &&& from.len() > 0
    &&& after.doc() == from.last().doc()
    &&& after.sel() == from.last().sel()
    &&& after.revision() == from.last().revision()
    &&& from_after == from.drop_last()
    &&& to_after.len() > 0
    &&& to_after.drop_last() == to
    &&& snapshot_of(before, to_after.last())
    &&& after.next_revision() == before.next_revision()
    &&& same_setting(before, after)
}

/// What `undo` does: `r` tells whether there was a step to undo.
pub open spec fn undone(before: EditorState, after: EditorState, r: bool) -> bool {
    if before.undo_stack().len() == 0 {
        !r && untouched(before, after)
    } else {
        r && stepped(
            before,
            after,
            before.undo_stack(),
            before.redo_stack(),
            after.undo_stack(),
            after.redo_stack(),
        )
    }
}

/// What `redo` does: `r` tells whether there was a step to redo.
pub open spec fn redone(before: EditorState, after: EditorState, r: bool) -> bool {
    if before.redo_stack().len() == 0 {
        !r && untouched(before, after)
    } else {
        r && stepped(
            before,
            after,
            before.redo_stack(),
            before.undo_stack(),
            after.redo_stack(),
            after.undo_stack(),
        )
    }
}

fn drafts_match(a: &ActionDraft, b: &ActionDraft) -> (r: bool)
    ensures
        r == drafts_equal(*a, *b),
{
    let frames = match (a.frame, b.frame) {
        (Some(x), Some(y)) => x == y,
        (None, None) => true,
        _ => false,
    };
    let locations = match (a.location, b.location) {
        (Some(x), Some(y)) => x == y,
        (None, None) => true,
        _ => false,
    };
    a.id == b.id && text::str_eq(a.kind.as_str(), b.kind.as_str()) && frames && text::str_eq(
        a.name.as_str(),
        b.name.as_str(),
    ) && locations && a.direction == b.direction && text::str_eq(a.doc.as_str(), b.doc.as_str())
}

impl Default for EditorState {
    /// A session on a new, unsaved document.
    fn default() -> (e: Self)
        ensures
            e.wf(),
            is_new_document(e.doc().entries()),
            e.doc().ids().len() == 0,
            e.doc().next_id() == 1,
            e.file() is None,
            e.sel() is None,
            e.undo_stack().len() == 0,
            e.redo_stack().len() == 0,
            e.revision() == 0,
            e.saved_revision() == 0,
            e.next_revision() == 1,
            e.cursor() == 0,
            !e.follows(),
    {
        EditorState {
            document: JobDocument::default(),
            path: None,
            selected: None,
            undo: Vec::new(),
            redo: Vec::new(),
            state_id: 0,
            saved_state_id: 0,
            next_state_id: 1,
            cursor_frame: 0,
            follow_ruler: false,
        }
    }
}

impl EditorState {
    /// Opens a document read from `path` (or from nowhere yet).
    pub fn open(json: &str, path: Option<PathBuf>) -> (r: Result<Self, JobDocumentError>)
        ensures
            match r {
                Ok(e) => {
                    &&& opened(json@, Ok(e.doc()))
                    &&& e.wf()
                    &&& e.file() == path
                    &&& e.sel() is None
                    &&& e.undo_stack().len() == 0
                    &&& e.redo_stack().len() == 0
                    &&& e.revision() == 0
                    &&& e.saved_revision() == 0
                    &&& e.next_revision() == 1
                    &&& e.cursor() == 0
                    &&& !e.follows()
                },
                Err(err) => opened(json@, Err(err)),
            },
    {
        match JobDocument::parse(json) {
            Ok(document) => Ok(
                EditorState {
                    document,
                    path,
                    selected: None,
                    undo: Vec::new(),
                    redo: Vec::new(),
                    state_id: 0,
                    saved_state_id: 0,
                    next_state_id: 1,
                    cursor_frame: 0,
                    follow_ruler: false,
                },
            ),
            Err(e) => Err(e),
        }
    }

    pub fn document(&self) -> (d: &JobDocument)
        ensures
            *d == self.doc(),
    {
        &self.document
    }

    pub fn path(&self) -> (p: Option<&PathBuf>)
        ensures
            match p {
                Some(q) => self.file() == Some(*q),
                None => self.file() is None,
            },
    {
        match &self.path {
            Some(q) => Some(q),
            None => None,
        }
    }

    pub fn selected(&self) -> (s: Option<ActionId>)
        ensures
            s == self.sel(),
    {
        self.selected
    }

    /// Selects `id` when the document has such an action; clears the selection
    /// otherwise.
    pub fn select(&mut self, id: Option<ActionId>)
        requires
            old(self).wf(),
        ensures
            final(self).wf(),
            final(self).sel() == match id {
                Some(i) => if old(self).doc().ids().contains(i) {
                    Some(i)
                } else {
                    None
                },
                None => None,
            },
            final(self).doc() == old(self).doc(),
            final(self).undo_stack() == old(self).undo_stack(),
            final(self).redo_stack() == old(self).redo_stack(),
            final(self).revision() == old(self).revision(),
            final(self).next_revision() == old(self).next_revision(),
            same_setting(*old(self), *final(self)),
    {
        self.selected = match id {
            Some(i) => {
                let found = self.document.action(i);
                proof {
                    if self.doc().ids().contains(i) {
                        let j = choose|j: int| 0 <= j < self.doc().ids().len() && self.doc().ids()[j] == i;
                        assert(self.doc().ids()[j] == i);
                    }
                    if found is Some {
                        let j = choose|j: int|
                            crate::job_document::first_position(self.doc().ids(), i, j) && crate::job_document::draft_matches(
                                found.unwrap(),
                                i,
                                #[trigger] crate::job_document::action_items(self.doc().entries())[j],
                            );
                        assert(self.doc().ids()[j] == i);
                    }
                }
                if found.is_some() {
                    Some(i)
                } else {
                    None
                }
            },
            None => None,
        };
        proof {
            lemma_history_kept(*old(self), *self);
        }
    }

    /// What the panel shows of the selected action.
    pub fn selected_action(&self) -> (r: Option<ActionDraft>)
        requires
            self.wf(),
        ensures
            match self.sel() {
                Some(i) => looked_up(self.doc(), i, r),
                None => r is None,
            },
    {
        match self.selected {
            Some(i) => self.document.action(i),
            None => None,
        }
    }

    pub fn cursor_frame(&self) -> (f: i64)
        ensures
            f == self.cursor(),
    {
        self.cursor_frame
    }

    /// Moves the timeline cursor; frames before 0 become 0.
    pub fn set_cursor_frame(&mut self, frame: i64)
        ensures
            final(self).cursor() == if frame < 0 {
                0
            } else {
                frame
            },
            final(self).doc() == old(self).doc(),
            final(self).sel() == old(self).sel(),
            final(self).undo_stack() == old(self).undo_stack(),
            final(self).redo_stack() == old(self).redo_stack(),
            final(self).revision() == old(self).revision(),
            final(self).next_revision() == old(self).next_revision(),
            final(self).file() == old(self).file(),
            final(self).saved_revision() == old(self).saved_revision(),
            final(self).follows() == old(self).follows(),
    {
        self.cursor_frame = if frame < 0 {
            0
        } else {
            frame
        };
    }

    pub fn follow_ruler(&self) -> (b: bool)
        ensures
            b == self.follows(),
    {
        self.follow_ruler
    }

    pub fn set_follow_ruler(&mut self, follow: bool)
        ensures
            final(self).follows() == follow,
            final(self).doc() == old(self).doc(),
            final(self).sel() == old(self).sel(),
            final(self).undo_stack() == old(self).undo_stack(),
            final(self).redo_stack() == old(self).redo_stack(),
            final(self).revision() == old(self).revision(),
            final(self).next_revision() == old(self).next_revision(),
            final(self).file() == old(self).file(),
            final(self).saved_revision() == old(self).saved_revision(),
            final(self).cursor() == old(self).cursor(),
    {
        self.follow_ruler = follow;
    }

    /// Whether the document was never saved or changed since it last was.
    pub fn is_dirty(&self) -> (b: bool)
        ensures
            b == (self.file() is None || self.revision() != self.saved_revision()),
    {
        self.path.is_none() || self.state_id != self.saved_state_id
    }

    pub fn can_undo(&self) -> (b: bool)
        ensures
            b == (self.undo_stack().len() > 0),
    {
        self.undo.len() > 0
    }

    pub fn can_redo(&self) -> (b: bool)
        ensures
            b == (self.redo_stack().len() > 0),
    {
        self.redo.len() > 0
    }

    /// Whether the revision counter leaves room for another recorded edit.
    pub fn can_record_edit(&self) -> (b: bool)
        ensures
            b == self.can_record(),
    {
        self.next_state_id < u64::MAX
    }

    fn snapshot(&self) -> (s: Snapshot)
        requires
            self.doc().wf(),
        ensures
            snapshot_of(*self, s),
            s.doc().wf(),
    {
        Snapshot { document: self.document.copy(), selected: self.selected, state_id: self.state_id }
    }

    /// Records `before` as the newest undo step of an edit just made.
    fn commit(&mut self, before: Snapshot)
        requires
            old(self).can_record(),
            before.doc().wf(),
            forall|i: int| 0 <= i < old(self).undo_stack().len() ==> (#[trigger] old(self).undo_stack()[i]).doc().wf(),
        ensures
            final(self).undo_stack().len() > 0,
            final(self).undo_stack().last() == before,
            final(self).undo_stack().drop_last() == if old(self).undo_stack().len() >= HISTORY_LIMIT {
                old(self).undo_stack().drop_first()
            } else {
                old(self).undo_stack()
            },
            forall|i: int| 0 <= i < final(self).undo_stack().len() ==> (#[trigger] final(self).undo_stack()[i]).doc().wf(),
            final(self).redo_stack().len() == 0,
            final(self).revision() == old(self).next_revision(),
            final(self).next_revision() == old(self).next_revision() + 1,
            final(self).doc() == old(self).doc(),
            final(self).sel() == old(self).sel(),
            same_setting(*old(self), *final(self)),
    {
        let ghost prev = self.undo@;
        self.undo.push(before);
        if self.undo.len() > HISTORY_LIMIT {
            self.undo.remove(0);
            assert(self.undo@.drop_last() =~= prev.drop_first());
        } else {
            assert(self.undo@.drop_last() =~= prev);
        }
        self.redo.clear();
        self.state_id = self.next_state_id;
        self.next_state_id = self.next_state_id + 1;
    }

    fn restore(&mut self, snapshot: Snapshot)
        ensures
            final(self).doc() == snapshot.doc(),
            final(self).sel() == snapshot.sel(),
            final(self).revision() == snapshot.revision(),
            final(self).undo_stack() == old(self).undo_stack(),
            final(self).redo_stack() == old(self).redo_stack(),
            final(self).next_revision() == old(self).next_revision(),
            same_setting(*old(self), *final(self)),
    {
        self.document = snapshot.document;
        self.selected = snapshot.selected;
        self.state_id = snapshot.state_id;
    }

    /// Sets the job's title; an unchanged title records nothing.
    pub fn set_title(&mut self, value: String)
        requires
            old(self).wf(),
            old(self).can_record(),
        ensures
            final(self).wf(),
            doc_entry_text(old(self).doc().entries(), "title"@) == value@ ==> untouched(*old(self), *final(self)),
            doc_entry_text(old(self).doc().entries(), "title"@) != value@ ==> recorded(*old(self), *final(self))
                && title_set(old(self).doc(), final(self).doc(), value) && final(self).sel() == old(self).sel(),
    {
        let current = self.document.title();
        if !text::str_eq(current.as_str(), value.as_str()) {
            let before = self.snapshot();
            self.document.set_title(value);
            proof {
                lemma_history_kept(*old(self), *self);
            }
            self.commit(before);
        }
    }

    /// Sets the stage name; an unchanged name records nothing.
    pub fn set_stage_name(&mut self, value: String)
        requires
            old(self).wf(),
            old(self).can_record(),
        ensures
            final(self).wf(),
            entry_text(old(self).doc().entries(), "stage_name"@) == value@ ==> untouched(*old(self), *final(self)),
            entry_text(old(self).doc().entries(), "stage_name"@) != value@ ==> recorded(*old(self), *final(self))
                && stage_name_set(old(self).doc(), final(self).doc(), value) && final(self).sel() == old(self).sel(),
    {
        let current = self.document.stage_name();
        if !text::str_eq(current.as_str(), value.as_str()) {
            let before = self.snapshot();
            self.document.set_stage_name(value);
            proof {
                lemma_history_kept(*old(self), *self);
            }
            self.commit(before);
        }
    }

    /// Sets the job's details; unchanged details record nothing.
    pub fn set_details(&mut self, value: String)
        requires
            old(self).wf(),
            old(self).can_record(),
        ensures
            final(self).wf(),
            doc_entry_text(old(self).doc().entries(), "details"@) == value@ ==> untouched(*old(self), *final(self)),
            doc_entry_text(old(self).doc().entries(), "details"@) != value@ ==> recorded(*old(self), *final(self))
                && details_set(old(self).doc(), final(self).doc(), value) && final(self).sel() == old(self).sel(),
    {
        let current = self.document.details();
        if !text::str_eq(current.as_str(), value.as_str()) {
            let before = self.snapshot();
            self.document.set_details(value);
            proof {
                lemma_history_kept(*old(self), *self);
            }
            self.commit(before);
        }
    }

    /// Adds an action of `kind` at the timeline cursor and selects it.
    pub fn add_action(&mut self, kind: String) -> (id: ActionId)
        requires
            old(self).wf(),
            old(self).can_record(),
            old(self).doc().next_id() < u64::MAX,
        ensures
            final(self).wf(),
            recorded(*old(self), *final(self)),
            final(self).sel() == Some(id),
            exists|mid: JobDocument, d: ActionDraft|
                action_drafted(old(self).doc(), mid, kind, Some(old(self).cursor()), d) && d.id == id
                    && #[trigger] action_inserted(mid, final(self).doc(), d),
    {
        let before = self.snapshot();
        let action = self.document.new_action(kind, Some(self.cursor_frame));
        let ghost mid = self.document;
        let ghost d = action;
        let id = action.id;
        self.document.insert_action(action);
        self.selected = Some(id);
        proof {
            lemma_history_kept(*old(self), *self);
        }
        self.commit(before);
        assert(action_inserted(mid, self.doc(), d));
        id
    }

    /// Writes the panel's fields into the action with the same identifier and selects
    /// it; a draft equal to what the panel already shows changes nothing.
    pub fn update_action(&mut self, action: ActionDraft) -> (r: Result<(), JobDocumentError>)
        requires
            old(self).wf(),
            old(self).can_record(),
        ensures
            final(self).wf(),
            ({
                let unchanged = exists|d: ActionDraft| looked_up(old(self).doc(), action.id, Some(d))
                    && drafts_equal(d, action);
                &&& unchanged ==> r is Ok && untouched(*old(self), *final(self))
                &&& !unchanged && r is Err ==> action_updated(old(self).doc(), final(self).doc(), action, r)
                    && final(self).sel() == old(self).sel() && final(self).undo_stack() == old(self).undo_stack()
                    && final(self).redo_stack() == old(self).redo_stack() && final(self).revision() == old(self).revision()
                    && final(self).next_revision() == old(self).next_revision() && same_setting(*old(self), *final(self))
                &&& !unchanged && r is Ok ==> action_updated(old(self).doc(), final(self).doc(), action, r)
                    && recorded(*old(self), *final(self)) && final(self).sel() == Some(action.id)
            }),
    {
        let current = self.document.action(action.id);
        let same = match &current {
            Some(d) => drafts_match(d, &action),
            None => false,
        };
        proof {
            if exists|d: ActionDraft| looked_up(self.doc(), action.id, Some(d)) && drafts_equal(d, action) {
                let d = choose|d: ActionDraft| looked_up(self.doc(), action.id, Some(d)) && drafts_equal(d, action);
                crate::job_document::lemma_lookup_unique(self.doc(), action.id, d, current);
            }
        }
        if same {
            return Ok(());
        }
        let before = self.snapshot();
        let outcome = self.document.update_action(&action);
        proof {
            lemma_history_kept(*old(self), *self);
        }
        match outcome {
            Ok(()) => {},
            Err(e) => {
                return Err(e);
            },
        }
        self.selected = Some(action.id);
        self.commit(before);
        Ok(())
    }

    /// Removes the selected action; tells whether there was one.
    pub fn remove_selected(&mut self) -> (removed: bool)
        requires
            old(self).wf(),
            old(self).can_record(),
        ensures
            final(self).wf(),
            removed ==> recorded(*old(self), *final(self)) && final(self).sel() is None && exists|d: ActionDraft|
                #[trigger] action_removed(old(self).doc(), final(self).doc(), old(self).sel().unwrap(), Some(d))
                    && old(self).sel() is Some,
            !removed ==> (old(self).sel() is None && untouched(*old(self), *final(self))) || (old(self).sel() is Some
                && action_removed(old(self).doc(), final(self).doc(), old(self).sel().unwrap(), None)
                && final(self).sel() == old(self).sel() && final(self).undo_stack() == old(self).undo_stack()
                && final(self).redo_stack() == old(self).redo_stack() && final(self).revision() == old(self).revision()
                && final(self).next_revision() == old(self).next_revision() && same_setting(*old(self), *final(self))),
    {
        let id = match self.selected {
            Some(id) => id,
            None => {
                return false;
            },
        };
        let before = self.snapshot();
        let removed = self.document.remove_action(id);
        proof {
            lemma_history_kept(*old(self), *self);
        }
        match removed {
            Some(d) => {
                self.selected = None;
                proof {
                    lemma_history_kept(*old(self), *self);
                }
                self.commit(before);
                assert(action_removed(old(self).doc(), self.doc(), id, Some(d)));
                true
            },
            None => false,
        }
    }

    /// Duplicates the selected action and selects the copy.
    pub fn duplicate_selected(&mut self) -> (r: Option<ActionId>)
        requires
            old(self).wf(),
            old(self).can_record(),
            old(self).doc().next_id() < u64::MAX,
        ensures
            final(self).wf(),
            match r {
                Some(n) => recorded(*old(self), *final(self)) && final(self).sel() == Some(n)
                    && old(self).sel() is Some && action_duplicated(old(self).doc(), final(self).doc(), old(self).sel().unwrap(), Some(n)),
                None => (old(self).sel() is None && untouched(*old(self), *final(self))) || (old(self).sel() is Some
                    && action_duplicated(old(self).doc(), final(self).doc(), old(self).sel().unwrap(), None)
                    && final(self).sel() == old(self).sel() && final(self).undo_stack() == old(self).undo_stack()
                    && final(self).redo_stack() == old(self).redo_stack() && final(self).revision() == old(self).revision()
                    && final(self).next_revision() == old(self).next_revision() && same_setting(*old(self), *final(self))),
            },
    {
        let id = match self.selected {
            Some(id) => id,
            None => {
                return None;
            },
        };
        let before = self.snapshot();
        let outcome = self.document.duplicate_action(id);
        proof {
            lemma_history_kept(*old(self), *self);
        }
        match outcome {
            Some(n) => {
                self.selected = Some(n);
                self.commit(before);
                Some(n)
            },
            None => None,
        }
    }

    /// Moves the selected action `delta` places within its frame.
    pub fn move_selected_same_frame(&mut self, delta: isize) -> (moved: bool)
        requires
            old(self).wf(),
            old(self).can_record(),
        ensures
            final(self).wf(),
            moved ==> recorded(*old(self), *final(self)) && final(self).sel() == old(self).sel()
                && old(self).sel() is Some && action_moved(old(self).doc(), final(self).doc(), old(self).sel().unwrap(), delta, true),
            !moved ==> (old(self).sel() is None && untouched(*old(self), *final(self))) || (old(self).sel() is Some
                && action_moved(old(self).doc(), final(self).doc(), old(self).sel().unwrap(), delta, false)
                && final(self).sel() == old(self).sel() && final(self).undo_stack() == old(self).undo_stack()
                && final(self).redo_stack() == old(self).redo_stack() && final(self).revision() == old(self).revision()
                && final(self).next_revision() == old(self).next_revision() && same_setting(*old(self), *final(self))),
    {
        let id = match self.selected {
            Some(id) => id,
            None => {
                return false;
            },
        };
        let before = self.snapshot();
        let changed = self.document.move_within_same_frame(id, delta);
        proof {
            lemma_history_kept(*old(self), *self);
        }
        if !changed {
            return false;
        }
        self.commit(before);
        true
    }

    pub fn add_operator(&mut self, name: String, skill: u8)
        requires
            old(self).wf(),
            old(self).can_record(),
        ensures
            final(self).wf(),
            recorded(*old(self), *final(self)),
            final(self).sel() == old(self).sel(),
            operator_added(old(self).doc(), final(self).doc(), name, skill),
    {
        let before = self.snapshot();
        self.document.add_operator(name, skill);
        proof {
            lemma_history_kept(*old(self), *self);
        }
        self.commit(before);
    }

    pub fn rename_operator(&mut self, old_name: &str, new_name: &str) -> (renamed: bool)
        requires
            old(self).wf(),
            old(self).can_record(),
        ensures
            final(self).wf(),
            operator_renamed(old(self).doc(), final(self).doc(), old_name, new_name, renamed),
            final(self).sel() == old(self).sel(),
            renamed ==> recorded(*old(self), *final(self)),
            !renamed ==> final(self).undo_stack() == old(self).undo_stack() && final(self).redo_stack()
                == old(self).redo_stack() && final(self).revision() == old(self).revision()
                && final(self).next_revision() == old(self).next_revision() && same_setting(*old(self), *final(self)),
    {
        let before = self.snapshot();
        let changed = self.document.rename_operator(old_name, new_name);
        proof {
            lemma_history_kept(*old(self), *self);
        }
        if !changed {
            return false;
        }
        self.commit(before);
        true
    }

    pub fn remove_operator(&mut self, name: &str) -> (removed: bool)
        requires
            old(self).wf(),
            old(self).can_record(),
        ensures
            final(self).wf(),
            operator_removed(old(self).doc(), final(self).doc(), name, removed),
            final(self).sel() == old(self).sel(),
            removed ==> recorded(*old(self), *final(self)),
            !removed ==> final(self).undo_stack() == old(self).undo_stack() && final(self).redo_stack()
                == old(self).redo_stack() && final(self).revision() == old(self).revision()
                && final(self).next_revision() == old(self).next_revision() && same_setting(*old(self), *final(self)),
    {
        let before = self.snapshot();
        let changed = self.document.remove_operator(name);
        proof {
            lemma_history_kept(*old(self), *self);
        }
        if !changed {
            return false;
        }
        self.commit(before);
        true
    }

    pub fn add_deferred_target(&mut self, name: String)
        requires
            old(self).wf(),
            old(self).can_record(),
        ensures
            final(self).wf(),
            recorded(*old(self), *final(self)),
            final(self).sel() == old(self).sel(),
            deferred_target_added(old(self).doc(), final(self).doc(), name),
    {
        let before = self.snapshot();
        self.document.add_deferred_target(name);
        proof {
            lemma_history_kept(*old(self), *self);
        }
        self.commit(before);
    }

    pub fn rename_deferred_target(&mut self, old_name: &str, new_name: &str) -> (renamed: bool)
        requires
            old(self).wf(),
            old(self).can_record(),
        ensures
            final(self).wf(),
            deferred_target_renamed(old(self).doc(), final(self).doc(), old_name, new_name, renamed),
            final(self).sel() == old(self).sel(),
            renamed ==> recorded(*old(self), *final(self)),
            !renamed ==> final(self).undo_stack() == old(self).undo_stack() && final(self).redo_stack()
                == old(self).redo_stack() && final(self).revision() == old(self).revision()
                && final(self).next_revision() == old(self).next_revision() && same_setting(*old(self), *final(self)),
    {
        let before = self.snapshot();
        let changed = self.document.rename_deferred_target(old_name, new_name);
        proof {
            lemma_history_kept(*old(self), *self);
        }
        if !changed {
            return false;
        }
        self.commit(before);
        true
    }

    pub fn remove_deferred_target(&mut self, name: &str) -> (removed: bool)
        requires
            old(self).wf(),
            old(self).can_record(),
        ensures
            final(self).wf(),
            deferred_target_removed(old(self).doc(), final(self).doc(), name, removed),
            final(self).sel() == old(self).sel(),
            removed ==> recorded(*old(self), *final(self)),
            !removed ==> final(self).undo_stack() == old(self).undo_stack() && final(self).redo_stack()
                == old(self).redo_stack() && final(self).revision() == old(self).revision()
                && final(self).next_revision() == old(self).next_revision() && same_setting(*old(self), *final(self)),
    {
        let before = self.snapshot();
        let changed = self.document.remove_deferred_target(name);
        proof {
            lemma_history_kept(*old(self), *self);
        }
        if !changed {
            return false;
        }
        self.commit(before);
        true
    }

    /// Goes back one recorded edit; tells whether there was one.
    pub fn undo(&mut self) -> (r: bool)
        requires
            old(self).wf(),
        ensures
            final(self).wf(),
            undone(*old(self), *final(self), r),
    {
        let ghost before_undo = self.undo@;
        let previous = match self.undo.pop() {
            Some(s) => s,
            None => {
                proof {
                    lemma_history_kept(*old(self), *self);
                }
                return false;
            },
        };
        proof {
            assert(before_undo == old(self).undo_stack());
            assert(previous == before_undo.last());
            assert(old(self).undo_stack()[before_undo.len() - 1].doc().wf());
        }
        let now = self.snapshot();
        assert(snapshot_of(*old(self), now));
        self.redo.push(now);
        self.restore(previous);
        assert(self.redo_stack().drop_last() =~= old(self).redo_stack());
        assert(self.undo_stack() =~= before_undo.drop_last());
        proof {
            assert forall|i: int| 0 <= i < self.undo_stack().len() implies (#[trigger] self.undo_stack()[i]).doc().wf() by {
                assert(self.undo_stack()[i] == before_undo[i]);
                assert(old(self).undo_stack()[i].doc().wf());
            }
            assert forall|i: int| 0 <= i < self.redo_stack().len() implies (#[trigger] self.redo_stack()[i]).doc().wf() by {
                if i < old(self).redo_stack().len() {
                    assert(self.redo_stack()[i] == old(self).redo_stack()[i]);
                }
            }
        }
        true
    }

    /// Goes forward one undone edit; tells whether there was one.
    pub fn redo(&mut self) -> (r: bool)
        requires
            old(self).wf(),
        ensures
            final(self).wf(),
            redone(*old(self), *final(self), r),
    {
        let ghost before_redo = self.redo@;
        let next = match self.redo.pop() {
            Some(s) => s,
            None => {
                proof {
                    lemma_history_kept(*old(self), *self);
                }
                return false;
            },
        };
        proof {
            assert(before_redo == old(self).redo_stack());
            assert(next == before_redo.last());
            assert(old(self).redo_stack()[before_redo.len() - 1].doc().wf());
        }
        let now = self.snapshot();
        assert(snapshot_of(*old(self), now));
        self.undo.push(now);
        self.restore(next);
        assert(self.undo_stack().drop_last() =~= old(self).undo_stack());
        assert(self.redo_stack() =~= before_redo.drop_last());
        proof {
            assert forall|i: int| 0 <= i < self.redo_stack().len() implies (#[trigger] self.redo_stack()[i]).doc().wf() by {
                assert(self.redo_stack()[i] == before_redo[i]);
                assert(old(self).redo_stack()[i].doc().wf());
            }
            assert forall|i: int| 0 <= i < self.undo_stack().len() implies (#[trigger] self.undo_stack()[i]).doc().wf() by {
                if i < old(self).undo_stack().len() {
                    assert(self.undo_stack()[i] == old(self).undo_stack()[i]);
                }
            }
        }
        true
    }

    /// Notes that the current revision was written to `path`.
    pub fn mark_saved(&mut self, path: PathBuf)
        ensures
            final(self).file() == Some(path),
            final(self).saved_revision() == old(self).revision(),
            final(self).doc() == old(self).doc(),
            final(self).sel() == old(self).sel(),
            final(self).undo_stack() == old(self).undo_stack(),
            final(self).redo_stack() == old(self).redo_stack(),
            final(self).revision() == old(self).revision(),
            final(self).next_revision() == old(self).next_revision(),
            final(self).cursor() == old(self).cursor(),
            final(self).follows() == old(self).follows(),
    {
        self.path = Some(path);
        self.saved_state_id = self.state_id;
    }
}


/// Undoing a recorded edit brings back the document, the selection and the revision
/// from before the edit, so the editor is exactly as dirty as it was; the edit can then
/// be redone.
pub proof fn lemma_undo_reverts_an_edit(s0: EditorState, s1: EditorState, s2: EditorState, r: bool)
    requires
        recorded(s0, s1),
        undone(s1, s2, r),
    ensures
        r,
        same_document(s0.doc(), s2.doc()),
        s2.sel() == s0.sel(),
        s2.revision() == s0.revision(),
        same_setting(s0, s2),
        s2.redo_stack().len() == 1,
        snapshot_of(s1, s2.redo_stack().last()),
{
}

/// Redoing an undone edit brings back the document, the selection and the revision
/// from before the undo.
pub proof fn lemma_redo_reverts_an_undo(s1: EditorState, s2: EditorState, s3: EditorState, r: bool)
    requires
        undone(s1, s2, true),
        redone(s2, s3, r),
    ensures
        r,
        same_document(s1.doc(), s3.doc()),
        s3.sel() == s1.sel(),
        s3.revision() == s1.revision(),
        same_setting(s1, s3),
{
}

} // verus!
