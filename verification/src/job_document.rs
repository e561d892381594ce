//! The editable job document.
//!
//! [`Copilot`] is the strict, runnable model of a job; a [`JobDocument`] keeps the raw
//! JSON object instead, lets fields be missing for a while, and keeps every member it
//! does not know. An editor saves drafts from it and calls [`JobDocument::compile`] to
//! get back to the strict model.
use vstd::prelude::*;

use crate::copilot::{action_direction_of, action_type_from, text_or, ActionType, Copilot, CopilotError};
use crate::geom::{Direction, Point};
use crate::json::{
    self, keys_unique, lookup, member, object_insert, object_take, JsonError, JsonNumber,
    JsonValue,
};
use crate::job_items::{
    any_named, any_text, count_named, listed_names, listed_texts, merged_names, object_renamed,
    text_renamed, without_named, without_text,
};
use crate::sorting::views;
use crate::text;

verus! {

/// Identifies an action for the length of an editing session; never written to the job.
#[derive(Clone, Copy, Debug, PartialEq, Eq, Structural, Hash, PartialOrd, Ord)]
pub struct ActionId(u64);

impl ActionId {
    pub closed spec fn value(self) -> u64 {
        self.0
    }

    pub fn get(self) -> (v: u64)
        ensures
            v == self.value(),
    {
        self.0
    }
}

/// The fields of one action as the property panel shows them. Members it does not know
/// stay in the document's JSON.
#[derive(Clone, Debug, PartialEq, Eq)]
pub struct ActionDraft {
    pub id: ActionId,
    pub kind: String,
    pub frame: Option<i64>,
    pub name: String,
    pub location: Option<Point>,
    pub direction: Direction,
    pub doc: String,
}

impl ActionDraft {
    /// A draft with no target, no tile, facing right and no comment.
    pub fn new(id: ActionId, kind: String, frame: Option<i64>) -> (d: Self)
        ensures
            d.id == id,
            d.kind@ == kind@,
            d.frame == frame,
            d.name@ == Seq::<char>::empty(),
            d.location is None,
            d.direction == Direction::Right,
            d.doc@ == Seq::<char>::empty(),
    {
        ActionDraft {
            id,
            kind,
            frame,
            name: String::new(),
            location: None,
            direction: Direction::Right,
            doc: String::new(),
        }
    }
}

#[derive(Clone, Copy, Debug, PartialEq, Eq, Structural)]
pub enum DiagnosticSeverity {
    Error,
    Warning,
}

/// One finding of [`JobDocument::diagnostics`].
#[derive(Clone, Debug, PartialEq, Eq)]
pub struct Diagnostic {
    pub severity: DiagnosticSeverity,
    pub action_id: Option<ActionId>,
    pub field: String,
    pub message: String,
}

/// Why a document could not be opened or edited.
#[derive(Debug)]
pub enum JobDocumentError {
    Json(JsonError),
    RootNotObject,
    ActionNotFound(u64),
}

pub open spec fn job_document_error_message(e: JobDocumentError) -> Seq<char> {
    match e {
        JobDocumentError::Json(j) => "作业 JSON 解析失败："@ + j.message@,
        JobDocumentError::RootNotObject => "作业 JSON 顶层必须是对象"@,
        JobDocumentError::ActionNotFound(id) => "找不到动作 "@ + text::decimal_nat(id as nat),
    }
}

impl JobDocumentError {
    /// The user-facing explanation; what `Display` would print.
    pub fn message(&self) -> (s: String)
        ensures
            s@ == job_document_error_message(*self),
    {
        match self {
            JobDocumentError::Json(j) => {
                let mut s = String::from_str("作业 JSON 解析失败：");
                s.append(j.message.as_str());
                s
            },
            JobDocumentError::RootNotObject => String::from_str("作业 JSON 顶层必须是对象"),
            JobDocumentError::ActionNotFound(id) => {
                let mut s = String::from_str("找不到动作 ");
                text::push_decimal_u64(&mut s, *id);
                s
            },
        }
    }
}

// ---------------------------------------------------------------------------
// Reading the raw document.
// ---------------------------------------------------------------------------

/// The elements of member `key` when it is an array; nothing otherwise.
pub open spec fn array_items(root: Seq<(String, JsonValue)>, key: Seq<char>) -> Seq<JsonValue> {
    match member(root, key) {
        Some(v) => match v.items() {
            Some(a) => a,
            None => Seq::empty(),
        },
        None => Seq::empty(),
    }
}

/// The action objects of a document.
pub open spec fn action_items(root: Seq<(String, JsonValue)>) -> Seq<JsonValue> {
    array_items(root, "actions"@)
}

/// The members of an object value; nothing for anything else.
pub open spec fn object_members(v: Option<JsonValue>) -> Seq<(String, JsonValue)> {
    match v {
        Some(JsonValue::Object(e)) => e@,
        _ => Seq::empty(),
    }
}

/// `v` is a string value with text `t`.
pub open spec fn is_text(v: Option<JsonValue>, t: Seq<char>) -> bool {
    v matches Some(JsonValue::Str(s)) && s@ == t
}

/// `v` is the integer `n`, as `serde_json` holds a small non-negative integer.
pub open spec fn is_small_number(v: Option<JsonValue>, n: u64) -> bool {
    v == Some(JsonValue::Number(JsonNumber { as_i64: Some(n as i64), as_u64: Some(n) }))
}

/// `v` is an empty array.
pub open spec fn is_empty_array(v: Option<JsonValue>) -> bool {
    v matches Some(JsonValue::Array(a)) && a@.len() == 0
}

/// The members of a new document: an empty stage name, the frame-replication block of
/// version 1 at 1x that pauses after the last action, an untitled `doc`, no operators and
/// no actions.
pub open spec fn is_new_document(root: Seq<(String, JsonValue)>) -> bool {
    &&& root.len() == 5
    &&& is_text(member(root, "stage_name"@), ""@)
    &&& member(root, "frame_replicator"@) matches Some(JsonValue::Object(m)) && m@.len() == 3
        && is_small_number(member(m@, "version"@), 1) && is_text(member(m@, "speed"@), "1x"@)
        && is_text(member(m@, "after_last_action"@), "pause"@)
    &&& member(root, "doc"@) matches Some(JsonValue::Object(d)) && d@.len() == 2 && is_text(
        member(d@, "title"@),
        "未命名作业"@,
    ) && is_text(member(d@, "details"@), ""@)
    &&& is_empty_array(member(root, "opers"@))
    &&& is_empty_array(member(root, "actions"@))
}

/// The number after the last of `count` actions numbered from 1 (saturating).
pub open spec fn id_after(count: nat) -> u64 {
    if count < u64::MAX {
        (count + 1) as u64
    } else {
        u64::MAX
    }
}

/// The text of member `key` when it is a string; empty otherwise.
pub open spec fn entry_text(root: Seq<(String, JsonValue)>, key: Seq<char>) -> Seq<char> {
    match member(root, key) {
        Some(v) => match v.text() {
            Some(t) => t,
            None => Seq::empty(),
        },
        None => Seq::empty(),
    }
}

/// The text at `/doc/<key>`, or the empty string.
pub open spec fn doc_entry_text(root: Seq<(String, JsonValue)>, key: Seq<char>) -> Seq<char> {
    match member(root, "doc"@) {
        Some(d) => text_or(d, key, Seq::empty()),
        None => Seq::empty(),
    }
}

/// The raw document.
pub struct JobDocument {
    root: Vec<(String, JsonValue)>,
    action_ids: Vec<ActionId>,
    next_action_id: u64,
}

impl JobDocument {
    /// The members of the document's JSON object.
    pub closed spec fn entries(self) -> Seq<(String, JsonValue)> {
        self.root@
    }

    /// The identifiers of the action objects, position for position.
    pub closed spec fn ids(self) -> Seq<ActionId> {
        self.action_ids@
    }

    /// The identifier the next new action gets.
    pub closed spec fn next_id(self) -> u64 {
        self.next_action_id
    }

    /// Members have distinct keys and every action object has an identifier.
    pub open spec fn wf(self) -> bool {
        &&& keys_unique(self.entries())
        &&& self.ids().len() == action_items(self.entries()).len()
    }

    /// Every identifier in use is below the next one.
    pub open spec fn ids_below_next(self) -> bool {
        forall|i: int| 0 <= i < self.ids().len() ==> (#[trigger] self.ids()[i]).value() < self.next_id()
    }
}


impl Default for JobDocument {
    /// A new, empty document.
    fn default() -> (d: Self)
        ensures
            d.wf(),
            is_new_document(d.entries()),
            d.ids().len() == 0,
            d.next_id() == 1,
    {
        let mut meta: Vec<(String, JsonValue)> = Vec::new();
        meta.push(
            (String::from_str("after_last_action"), JsonValue::Str(String::from_str("pause"))),
        );
        meta.push((String::from_str("speed"), JsonValue::Str(String::from_str("1x"))));
        meta.push(
            (
                String::from_str("version"),
                JsonValue::Number(JsonNumber { as_i64: Some(1), as_u64: Some(1) }),
            ),
        );
        let mut doc: Vec<(String, JsonValue)> = Vec::new();
        doc.push((String::from_str("details"), JsonValue::Str(String::new())));
        doc.push((String::from_str("title"), JsonValue::Str(String::from_str("未命名作业"))));
        let mut root: Vec<(String, JsonValue)> = Vec::new();
        root.push((String::from_str("actions"), JsonValue::Array(Vec::new())));
        root.push((String::from_str("doc"), JsonValue::Object(doc)));
        root.push((String::from_str("frame_replicator"), JsonValue::Object(meta)));
        root.push((String::from_str("opers"), JsonValue::Array(Vec::new())));
        root.push((String::from_str("stage_name"), JsonValue::Str(String::new())));
        proof {
            reveal_strlit("after_last_action");
            reveal_strlit("speed");
            reveal_strlit("version");
            reveal_strlit("details");
            reveal_strlit("title");
            reveal_strlit("actions");
            reveal_strlit("doc");
            reveal_strlit("frame_replicator");
            reveal_strlit("opers");
            reveal_strlit("stage_name");
            assert(meta@[0].0@ == "after_last_action"@ && meta@[1].0@ == "speed"@);
            assert(meta@[2].0@ == "version"@);
            assert(meta@[0].0@.len() != meta@[1].0@.len());
            assert(meta@[0].0@.len() != meta@[2].0@.len());
            assert(meta@[1].0@.len() != meta@[2].0@.len());
            assert(keys_unique(meta@));
            assert(doc@[0].0@ == "details"@ && doc@[1].0@ == "title"@);
            assert(doc@[0].0@.len() != doc@[1].0@.len());
            assert(keys_unique(doc@));
            assert(root@[0].0@ == "actions"@ && root@[0].0@.len() == 7);
            assert(root@[1].0@ == "doc"@ && root@[1].0@.len() == 3);
            assert(root@[2].0@ == "frame_replicator"@ && root@[2].0@.len() == 16);
            assert(root@[3].0@ == "opers"@ && root@[3].0@.len() == 5);
            assert(root@[4].0@ == "stage_name"@ && root@[4].0@.len() == 10);
            assert(keys_unique(root@));
            json::lemma_member_at(meta@, 0);
            json::lemma_member_at(meta@, 1);
            json::lemma_member_at(meta@, 2);
            json::lemma_member_at(doc@, 0);
            json::lemma_member_at(doc@, 1);
            json::lemma_member_at(root@, 0);
            json::lemma_member_at(root@, 1);
            json::lemma_member_at(root@, 2);
            json::lemma_member_at(root@, 3);
            json::lemma_member_at(root@, 4);
            assert(member(root@, "stage_name"@) == Some(root@[4].1));
            reveal_strlit("");
            assert(root@[4].1 matches JsonValue::Str(t) && t@ =~= ""@);
            assert(is_text(member(root@, "stage_name"@), ""@));
            assert(is_small_number(member(meta@, "version"@), 1));
            assert(is_text(member(meta@, "speed"@), "1x"@));
            assert(is_text(member(meta@, "after_last_action"@), "pause"@));
            assert(is_text(member(doc@, "title"@), "未命名作业"@));
            assert(is_text(member(doc@, "details"@), ""@));
            assert(is_empty_array(member(root@, "opers"@)));
            assert(is_empty_array(member(root@, "actions"@)));
        }
        JobDocument { root, action_ids: Vec::new(), next_action_id: 1 }
    }
}

/// The number of elements of member `key` when it is an array; 0 otherwise.
fn array_len(root: &Vec<(String, JsonValue)>, key: &str) -> (n: usize)
    ensures
        n == array_items(root@, key@).len(),
{
    match lookup(root, key) {
        Some(v) => match v.as_array() {
            Some(a) => a.len(),
            None => 0,
        },
        None => 0,
    }
}

impl JobDocument {
    /// Opens a document. Members are kept as the parser yields them; actions are
    /// numbered from 1 in document order.
    pub fn parse(json: &str) -> (r: Result<Self, JobDocumentError>)
        ensures
            opened(json@, r),
    {
        let parsed = json::parse_json(json);
        let mut members = match parsed {
            Err(e) => {
                return Err(JobDocumentError::Json(e));
            },
            Ok(JsonValue::Object(members)) => members,
            Ok(_) => {
                return Err(JobDocumentError::RootNotObject);
            },
        };
        let ghost orig = members@;
        let ghost mut taken: int = 0;
        let mut root: Vec<(String, JsonValue)> = Vec::new();
        while members.len() > 0
            invariant
                0 <= taken <= orig.len(),
                members@ == orig.skip(taken),
                keys_unique(root@),
                forall|k: Seq<char>| #[trigger] member(root@, k) == member(orig.take(taken), k),
            decreases members@.len(),
        {
            let e = members.remove(0);
            proof {
                assert(members@ =~= orig.skip(taken + 1));
                assert(orig.take(taken + 1) =~= orig.take(taken).push(e));
            }
            let ghost before = root@;
            let ghost prefix = orig.take(taken);
            match json::member_index(&root, e.0.as_str()) {
                None => {
                    root.push(e);
                    proof {
                        json::lemma_member_absent(before, e.0@);
                        assert forall|a: int, b: int| 0 <= a < b < root@.len() implies (
                        #[trigger] root@[a]).0@ != (#[trigger] root@[b]).0@ by {
                            assert(root@[a] == before[a]);
                            if b < before.len() {
                                assert(root@[b] == before[b]);
                            }
                        }
                        assert forall|k: Seq<char>| #[trigger]
                            member(root@, k) == member(orig.take(taken + 1), k) by {
                            if k == e.0@ {
                                json::lemma_member_push_new(before, e);
                                json::lemma_member_push_new(prefix, e);
                            } else {
                                json::lemma_member_push(before, e, k);
                                json::lemma_member_push(prefix, e, k);
                            }
                        }
                    }
                },
                Some(i) => {
                    proof {
                        json::lemma_member_first(before, i as int);
                        assert(member(prefix, e.0@) is Some);
                        assert forall|k: Seq<char>| #[trigger]
                            member(root@, k) == member(orig.take(taken + 1), k) by {
                            json::lemma_member_push(prefix, e, k);
                        }
                    }
                },
            }
            proof {
                taken = taken + 1;
            }
        }
        proof {
            assert(orig.take(taken) =~= orig);
        }
        let count = array_len(&root, "actions");
        let mut action_ids: Vec<ActionId> = Vec::new();
        let mut i: usize = 0;
        while i < count
            invariant
                i <= count,
                action_ids@.len() == i,
                forall|j: int| 0 <= j < i ==> (#[trigger] action_ids@[j]).value() == j + 1,
            decreases count - i,
        {
            action_ids.push(ActionId(i as u64 + 1));
            i = i + 1;
        }
        let next_action_id: u64 = match (count as u64).checked_add(1) {
            Some(n) => n,
            None => u64::MAX,
        };
        Ok(JobDocument { root, action_ids, next_action_id })
    }

    /// Prints the document with `serde_json`'s pretty printer; printing a document
    /// always succeeds.
    pub fn to_pretty_json(&self) -> (r: Result<String, JsonError>)
        ensures
            r matches Ok(s) && s@ == json::pretty_object_text(self.entries()),
    {
        json::object_to_pretty_string(&self.root)
    }

    /// Prints the document compactly and reads it back as a strict job.
    pub fn compile(&self) -> (r: Result<Copilot, CopilotError>)
        ensures
            crate::copilot::parse_outcome(json::compact_object_text(self.entries()), r),
    {
        match json::object_to_string(&self.root) {
            Ok(text) => Copilot::parse(text.as_str()),
            Err(e) => Err(CopilotError::Json(e)),
        }
    }

    /// The identifiers of the actions, position for position.
    pub(crate) fn id_list(&self) -> (r: &Vec<ActionId>)
        ensures
            r@ == self.ids(),
    {
        &self.action_ids
    }

    /// The members of the document's JSON object.
    pub fn root(&self) -> (r: &Vec<(String, JsonValue)>)
        ensures
            r@ == self.entries(),
    {
        &self.root
    }

    pub fn stage_name(&self) -> (s: String)
        ensures
            s@ == entry_text(self.entries(), "stage_name"@),
    {
        match lookup(&self.root, "stage_name") {
            Some(v) => match v.as_str() {
                Some(t) => t.to_owned(),
                None => String::new(),
            },
            None => String::new(),
        }
    }

    pub fn set_stage_name(&mut self, stage_name: String)
        requires
            old(self).wf(),
        ensures
            final(self).wf(),
            stage_name_set(*old(self), *final(self), stage_name),
    {
        proof {
            reveal_strlit("stage_name");
            reveal_strlit("actions");
            assert("actions"@.len() != "stage_name"@.len());
        }
        object_insert(&mut self.root, String::from_str("stage_name"), JsonValue::Str(stage_name));
        assert(member(self.root@, "actions"@) == member(old(self).root@, "actions"@));
    }

    pub fn title(&self) -> (s: String)
        ensures
            s@ == doc_entry_text(self.entries(), "title"@),
    {
        self.doc_string("title")
    }

    pub fn set_title(&mut self, title: String)
        requires
            old(self).wf(),
        ensures
            final(self).wf(),
            title_set(*old(self), *final(self), title),
    {
        self.set_doc_string("title", title);
    }

    pub fn details(&self) -> (s: String)
        ensures
            s@ == doc_entry_text(self.entries(), "details"@),
    {
        self.doc_string("details")
    }

    pub fn set_details(&mut self, details: String)
        requires
            old(self).wf(),
        ensures
            final(self).wf(),
            details_set(*old(self), *final(self), details),
    {
        self.set_doc_string("details", details);
    }

    fn doc_string(&self, field: &str) -> (s: String)
        ensures
            s@ == doc_entry_text(self.entries(), field@),
    {
        match lookup(&self.root, "doc") {
            Some(d) => crate::copilot::text_member_or_empty(d, field),
            None => String::new(),
        }
    }

    fn set_doc_string(&mut self, field: &str, value: String)
        requires
            old(self).wf(),
        ensures
            final(self).wf(),
            final(self).ids() == old(self).ids(),
            final(self).next_id() == old(self).next_id(),
            doc_set(old(self).entries(), final(self).entries(), field@, value@),
    {
        proof {
            reveal_strlit("doc");
            reveal_strlit("actions");
            assert("actions"@.len() != "doc"@.len());
        }
        let taken = object_take(&mut self.root, "doc");
        let mut members: Vec<(String, JsonValue)> = match taken {
            Some(JsonValue::Object(m)) => m,
            _ => Vec::new(),
        };
        object_insert(&mut members, field.to_owned(), JsonValue::Str(value));
        object_insert(&mut self.root, String::from_str("doc"), JsonValue::Object(members));
        assert(member(self.root@, "actions"@) == member(old(self).root@, "actions"@));
    }
}

/// `after` is `before` with the text at `/doc/<field>` set to `value`: a `doc` member
/// that is not an object is replaced by one, its other members are kept, and nothing
/// else changes.
pub open spec fn doc_set(
    before: Seq<(String, JsonValue)>,
    after: Seq<(String, JsonValue)>,
    field: Seq<char>,
    value: Seq<char>,
) -> bool {
    &&& member(after, "doc"@) matches Some(JsonValue::Object(d)) && is_text(
        member(d@, field),
        value,
    ) && forall|k: Seq<char>|
        k != field ==> #[trigger] member(d@, k) == member(
            object_members(member(before, "doc"@)),
            k,
        )
    &&& forall|k: Seq<char>| k != "doc"@ ==> #[trigger] member(after, k) == member(before, k)
}


// ---------------------------------------------------------------------------
// Operators and deferred targets.
// ---------------------------------------------------------------------------

/// The elements of `/frame_replicator/deferred_targets`, when both are what they should
/// be (an object and an array); nothing otherwise.
pub open spec fn deferred_items(root: Seq<(String, JsonValue)>) -> Seq<JsonValue> {
    match member(root, "frame_replicator"@) {
        Some(JsonValue::Object(m)) => array_items(m@, "deferred_targets"@),
        _ => Seq::empty(),
    }
}

/// `v` is the operator object `{"name": name, "skill": skill}`.
pub open spec fn is_oper_item(v: JsonValue, name: Seq<char>, skill: u8) -> bool {
    v matches JsonValue::Object(e) && e@.len() == 2 && e@[0].0@ == "name"@ && is_text(
        Some(e@[0].1),
        name,
    ) && e@[1].0@ == "skill"@ && is_small_number(Some(e@[1].1), skill as u64)
}

/// An array member renamed element by element (objects named `from` get the name `to`);
/// a member that is no array is left as it is.
pub open spec fn objects_renamed_at(
    before: Option<JsonValue>,
    after: Option<JsonValue>,
    from: Seq<char>,
    to: Seq<char>,
) -> bool {
    match before {
        Some(JsonValue::Array(b)) => after matches Some(JsonValue::Array(a)) && a@.len()
            == b@.len() && forall|i: int|
            0 <= i < b@.len() ==> object_renamed(#[trigger] b@[i], a@[i], from, to),
        _ => after == before,
    }
}

/// An array member renamed element by element (strings `from` become `to`); a member
/// that is no array is left as it is.
pub open spec fn texts_renamed_at(
    before: Option<JsonValue>,
    after: Option<JsonValue>,
    from: Seq<char>,
    to: Seq<char>,
) -> bool {
    match before {
        Some(JsonValue::Array(b)) => after matches Some(JsonValue::Array(a)) && a@.len()
            == b@.len() && forall|i: int|
            0 <= i < b@.len() ==> text_renamed(#[trigger] b@[i], a@[i], from, to),
        _ => after == before,
    }
}

/// The deferred targets renamed as [`texts_renamed_at`] says, inside a
/// `frame_replicator` object; anything else about that member is left as it is.
pub open spec fn deferred_renamed(
    before: Seq<(String, JsonValue)>,
    after: Seq<(String, JsonValue)>,
    from: Seq<char>,
    to: Seq<char>,
) -> bool {
    match member(before, "frame_replicator"@) {
        Some(JsonValue::Object(b)) => member(after, "frame_replicator"@) matches Some(
            JsonValue::Object(a),
        ) && texts_renamed_at(
            member(b@, "deferred_targets"@),
            member(a@, "deferred_targets"@),
            from,
            to,
        ) && forall|k: Seq<char>|
            k != "deferred_targets"@ ==> #[trigger] member(a@, k) == member(b@, k),
        _ => member(after, "frame_replicator"@) == member(before, "frame_replicator"@),
    }
}

/// An array member without its objects named `name`; a member that is no array is
/// left as it is.
pub open spec fn objects_removed_at(
    before: Option<JsonValue>,
    after: Option<JsonValue>,
    name: Seq<char>,
) -> bool {
    match before {
        Some(JsonValue::Array(b)) => after matches Some(JsonValue::Array(a)) && a@
            == without_named(b@, name),
        _ => after == before,
    }
}

/// The deferred targets without the strings `name`, inside a `frame_replicator` object;
/// anything else about that member is left as it is.
pub open spec fn deferred_removed(
    before: Seq<(String, JsonValue)>,
    after: Seq<(String, JsonValue)>,
    name: Seq<char>,
) -> bool {
    match member(before, "frame_replicator"@) {
        Some(JsonValue::Object(b)) => member(after, "frame_replicator"@) matches Some(
            JsonValue::Object(a),
        ) && (match member(b@, "deferred_targets"@) {
            Some(JsonValue::Array(bt)) => member(a@, "deferred_targets"@) matches Some(
                JsonValue::Array(at),
            ) && at@ == without_text(bt@, name),
            _ => member(a@, "deferred_targets"@) == member(b@, "deferred_targets"@),
        }) && forall|k: Seq<char>|
            k != "deferred_targets"@ ==> #[trigger] member(a@, k) == member(b@, k),
        _ => member(after, "frame_replicator"@) == member(before, "frame_replicator"@),
    }
}

proof fn lemma_actions_key_differs()
    ensures
        "actions"@ != "opers"@,
        "actions"@ != "frame_replicator"@,
        "actions"@ != "stage_name"@,
        "actions"@ != "doc"@,
{
    reveal_strlit("actions");
    reveal_strlit("opers");
    reveal_strlit("frame_replicator");
    reveal_strlit("stage_name");
    reveal_strlit("doc");
    assert("actions"@.len() != "opers"@.len());
    assert("actions"@.len() != "frame_replicator"@.len());
    assert("actions"@.len() != "stage_name"@.len());
    assert("actions"@.len() != "doc"@.len());
}

/// Appends `item` to the array member `key`, which becomes an empty array first when it
/// is missing or no array.
fn push_item_at(root: &mut Vec<(String, JsonValue)>, key: &str, item: JsonValue)
    ensures
        keys_unique(old(root)@) ==> keys_unique(final(root)@),
        member(final(root)@, key@) matches Some(JsonValue::Array(a)) && a@ == array_items(
            old(root)@,
            key@,
        ).push(item),
        forall|k: Seq<char>|
            k != key@ ==> #[trigger] member(final(root)@, k) == member(old(root)@, k),
{
    let mut items = match object_take(root, key) {
        Some(JsonValue::Array(a)) => a,
        _ => Vec::new(),
    };
    items.push(item);
    object_insert(root, key.to_owned(), JsonValue::Array(items));
}

/// Renames the objects of the array member `key`; tells whether one was named `from`.
fn rename_objects_at(root: &mut Vec<(String, JsonValue)>, key: &str, from: &str, to: &str) -> (changed: bool)
    ensures
        keys_unique(old(root)@) ==> keys_unique(final(root)@),
        objects_renamed_at(member(old(root)@, key@), member(final(root)@, key@), from@, to@),
        array_items(final(root)@, key@).len() == array_items(old(root)@, key@).len(),
        forall|k: Seq<char>|
            k != key@ ==> #[trigger] member(final(root)@, k) == member(old(root)@, k),
        changed == any_named(array_items(old(root)@, key@), from@),
{
    match object_take(root, key) {
        Some(JsonValue::Array(mut items)) => {
            let changed = crate::job_items::rename_objects(&mut items, from, to);
            object_insert(root, key.to_owned(), JsonValue::Array(items));
            changed
        },
        Some(other) => {
            object_insert(root, key.to_owned(), other);
            false
        },
        None => false,
    }
}

/// Renames the strings of the array member `key`; tells whether one was `from`.
fn rename_texts_at(root: &mut Vec<(String, JsonValue)>, key: &str, from: &str, to: &str) -> (changed: bool)
    ensures
        keys_unique(old(root)@) ==> keys_unique(final(root)@),
        texts_renamed_at(member(old(root)@, key@), member(final(root)@, key@), from@, to@),
        forall|k: Seq<char>|
            k != key@ ==> #[trigger] member(final(root)@, k) == member(old(root)@, k),
        changed == any_text(array_items(old(root)@, key@), from@),
{
    match object_take(root, key) {
        Some(JsonValue::Array(mut items)) => {
            let changed = crate::job_items::rename_texts(&mut items, from, to);
            object_insert(root, key.to_owned(), JsonValue::Array(items));
            changed
        },
        Some(other) => {
            object_insert(root, key.to_owned(), other);
            false
        },
        None => false,
    }
}

impl JobDocument {
    /// The names of the operators of the starting formation.
    pub fn operator_names(&self) -> (r: Vec<String>)
        ensures
            views(r@) == listed_names(array_items(self.entries(), "opers"@)),
    {
        match lookup(&self.root, "opers") {
            Some(v) => match v.as_array() {
                Some(items) => crate::job_items::names_of(items),
                None => Vec::new(),
            },
            None => Vec::new(),
        }
    }

    /// Adds an operator to the starting formation.
    pub fn add_operator(&mut self, name: String, skill: u8)
        requires
            old(self).wf(),
        ensures
            final(self).wf(),
            operator_added(*old(self), *final(self), name, skill),
    {
        proof {
            lemma_actions_key_differs();
            reveal_strlit("name");
            reveal_strlit("skill");
        }
        let mut oper: Vec<(String, JsonValue)> = Vec::new();
        oper.push((String::from_str("name"), JsonValue::Str(name)));
        oper.push(
            (
                String::from_str("skill"),
                JsonValue::Number(JsonNumber { as_i64: Some(skill as i64), as_u64: Some(skill as u64) }),
            ),
        );
        push_item_at(&mut self.root, "opers", JsonValue::Object(oper));
        assert(member(self.root@, "actions"@) == member(old(self).root@, "actions"@));
    }

    /// Renames an operator of the starting formation and, when there was one by that
    /// name, every action aimed at it.
    pub fn rename_operator(&mut self, old_name: &str, new_name: &str) -> (renamed: bool)
        requires
            old(self).wf(),
        ensures
            final(self).wf(),
            operator_renamed(*old(self), *final(self), old_name, new_name, renamed),
    {
        proof {
            lemma_actions_key_differs();
        }
        let renamed = rename_objects_at(&mut self.root, "opers", old_name, new_name);
        if renamed {
            rename_objects_at(&mut self.root, "actions", old_name, new_name);
        }
        renamed
    }

    /// How many actions are aimed at `name`.
    pub fn operator_reference_count(&self, name: &str) -> (n: usize)
        ensures
            n == count_named(action_items(self.entries()), name@),
    {
        match lookup(&self.root, "actions") {
            Some(v) => match v.as_array() {
                Some(items) => crate::job_items::count_named_items(items, name),
                None => 0,
            },
            None => 0,
        }
    }

    /// Removes an operator from the starting formation unless an action is aimed at it;
    /// tells whether one was removed.
    pub fn remove_operator(&mut self, name: &str) -> (removed: bool)
        requires
            old(self).wf(),
        ensures
            final(self).wf(),
            operator_removed(*old(self), *final(self), name, removed),
    {
        proof {
            lemma_actions_key_differs();
        }
        if self.operator_reference_count(name) > 0 {
            return false;
        }
        match object_take(&mut self.root, "opers") {
            Some(JsonValue::Array(mut items)) => {
                let before_len = items.len();
                crate::job_items::retain_unnamed(&mut items, name);
                let removed = items.len() != before_len;
                object_insert(&mut self.root, String::from_str("opers"), JsonValue::Array(items));
                assert(member(self.root@, "actions"@) == member(old(self).root@, "actions"@));
                removed
            },
            Some(other) => {
                object_insert(&mut self.root, String::from_str("opers"), other);
                assert(member(self.root@, "actions"@) == member(old(self).root@, "actions"@));
                false
            },
            None => false,
        }
    }

    /// Summons and stage devices: targets that actions may name but that are not part of
    /// the starting formation.
    pub fn deferred_target_names(&self) -> (r: Vec<String>)
        ensures
            views(r@) == listed_texts(deferred_items(self.entries())),
    {
        match lookup(&self.root, "frame_replicator") {
            Some(meta) => match meta {
                JsonValue::Object(members) => match lookup(members, "deferred_targets") {
                    Some(v) => match v.as_array() {
                        Some(items) => crate::job_items::texts_of(items),
                        None => Vec::new(),
                    },
                    None => Vec::new(),
                },
                _ => Vec::new(),
            },
            None => Vec::new(),
        }
    }

    /// The operators followed by the deferred targets that are not operators too.
    pub fn target_names(&self) -> (r: Vec<String>)
        ensures
            views(r@) == merged_names(
                listed_names(array_items(self.entries(), "opers"@)),
                listed_texts(deferred_items(self.entries())),
            ),
    {
        let mut names = self.operator_names();
        let deferred = self.deferred_target_names();
        let ghost start = views(names@);
        let mut i: usize = 0;
        while i < deferred.len()
            invariant
                i <= deferred@.len(),
                views(names@) == merged_names(start, views(deferred@).take(i as int)),
            decreases deferred@.len() - i,
        {
            assert(views(deferred@).take(i + 1).drop_last() =~= views(deferred@).take(i as int));
            assert(views(deferred@).take(i + 1).last() == deferred@[i as int]@);
            if !crate::job_items::contains_text(&names, deferred[i].as_str()) {
                names.push(deferred[i].as_str().to_owned());
                assert(views(names@) =~= merged_names(start, views(deferred@).take(i as int)).push(
                    deferred@[i as int]@,
                ));
            }
            i = i + 1;
        }
        assert(views(deferred@).take(i as int) =~= views(deferred@));
        names
    }

    /// Adds a deferred target; the `frame_replicator` member becomes an object and its
    /// `deferred_targets` an array first, when they are not.
    pub fn add_deferred_target(&mut self, name: String)
        requires
            old(self).wf(),
        ensures
            final(self).wf(),
            deferred_target_added(*old(self), *final(self), name),
    {
        proof {
            lemma_actions_key_differs();
        }
        let mut meta: Vec<(String, JsonValue)> = match object_take(&mut self.root, "frame_replicator") {
            Some(JsonValue::Object(m)) => m,
            _ => Vec::new(),
        };
        push_item_at(&mut meta, "deferred_targets", JsonValue::Str(name));
        object_insert(&mut self.root, String::from_str("frame_replicator"), JsonValue::Object(meta));
        assert(member(self.root@, "actions"@) == member(old(self).root@, "actions"@));
    }

    /// Renames a deferred target and, when there was one by that name, every action aimed
    /// at it.
    pub fn rename_deferred_target(&mut self, old_name: &str, new_name: &str) -> (renamed: bool)
        requires
            old(self).wf(),
        ensures
            final(self).wf(),
            deferred_target_renamed(*old(self), *final(self), old_name, new_name, renamed),
    {
        proof {
            lemma_actions_key_differs();
        }
        let renamed = match object_take(&mut self.root, "frame_replicator") {
            Some(JsonValue::Object(mut meta)) => {
                let changed = rename_texts_at(&mut meta, "deferred_targets", old_name, new_name);
                object_insert(
                    &mut self.root,
                    String::from_str("frame_replicator"),
                    JsonValue::Object(meta),
                );
                changed
            },
            Some(other) => {
                object_insert(&mut self.root, String::from_str("frame_replicator"), other);
                false
            },
            None => false,
        };
        assert(member(self.root@, "actions"@) == member(old(self).root@, "actions"@));
        if renamed {
            rename_objects_at(&mut self.root, "actions", old_name, new_name);
        }
        renamed
    }

    /// Removes a deferred target unless an action is aimed at it; tells whether one was
    /// removed.
    pub fn remove_deferred_target(&mut self, name: &str) -> (removed: bool)
        requires
            old(self).wf(),
        ensures
            final(self).wf(),
            deferred_target_removed(*old(self), *final(self), name, removed),
    {
        proof {
            lemma_actions_key_differs();
        }
        if self.operator_reference_count(name) > 0 {
            return false;
        }
        let removed = match object_take(&mut self.root, "frame_replicator") {
            Some(JsonValue::Object(mut meta)) => {
                let changed = match object_take(&mut meta, "deferred_targets") {
                    Some(JsonValue::Array(mut targets)) => {
                        let before_len = targets.len();
                        crate::job_items::retain_other_texts(&mut targets, name);
                        let changed = targets.len() != before_len;
                        object_insert(
                            &mut meta,
                            String::from_str("deferred_targets"),
                            JsonValue::Array(targets),
                        );
                        changed
                    },
                    Some(other) => {
                        object_insert(&mut meta, String::from_str("deferred_targets"), other);
                        false
                    },
                    None => false,
                };
                object_insert(
                    &mut self.root,
                    String::from_str("frame_replicator"),
                    JsonValue::Object(meta),
                );
                changed
            },
            Some(other) => {
                object_insert(&mut self.root, String::from_str("frame_replicator"), other);
                false
            },
            None => false,
        };
        assert(member(self.root@, "actions"@) == member(old(self).root@, "actions"@));
        removed
    }
}


// ---------------------------------------------------------------------------
// Actions.
// ---------------------------------------------------------------------------

/// The `frame` of an action object, when it is an integer that fits `i64`.
pub open spec fn frame_of(v: JsonValue) -> Option<i64> {
    match v.field("frame"@) {
        Some(f) => f.integer(),
        None => None,
    }
}

/// Whether `n` fits `i32`.
pub open spec fn fits_i32(n: i64) -> bool {
    i32::MIN <= n <= i32::MAX
}

/// The tile of an action object: the first two elements of `location`, when both are
/// integers that fit `i32`.
pub open spec fn location_of(v: JsonValue) -> Option<Point> {
    match v.field("location"@) {
        Some(l) => match l.items() {
            Some(a) => if a.len() >= 2 && a[0].integer() is Some && fits_i32(
                a[0].integer().unwrap(),
            ) && a[1].integer() is Some && fits_i32(a[1].integer().unwrap()) {
                Some(Point { x: a[0].integer().unwrap() as i32, y: a[1].integer().unwrap() as i32 })
            } else {
                None
            },
            None => None,
        },
        None => None,
    }
}

/// `d` is what the property panel shows of the action object `v` with identifier `id`:
/// missing or malformed fields read as empty, absent or facing right.
pub open spec fn draft_matches(d: ActionDraft, id: ActionId, v: JsonValue) -> bool {
    &&& d.id == id
    &&& d.kind@ == text_or(v, "type"@, Seq::empty())
    &&& d.frame == frame_of(v)
    &&& d.name@ == text_or(v, "name"@, Seq::empty())
    &&& d.location == location_of(v)
    &&& d.direction == action_direction_of(v)
    &&& d.doc@ == text_or(v, "doc"@, Seq::empty())
}

/// `i` is the first position of `id` among `ids`.
pub open spec fn first_position(ids: Seq<ActionId>, id: ActionId, i: int) -> bool {
    0 <= i < ids.len() && ids[i] == id && forall|j: int| 0 <= j < i ==> #[trigger] ids[j] != id
}

/// The key actions are ordered by: the frame, with actions without one last.
pub open spec fn frame_key(v: JsonValue) -> i64 {
    match frame_of(v) {
        Some(f) => f,
        None => i64::MAX,
    }
}

/// Action objects paired with their identifiers.
pub open spec fn paired(items: Seq<JsonValue>, ids: Seq<ActionId>) -> Seq<(JsonValue, ActionId)> {
    Seq::new(items.len(), |i: int| (items[i], ids[i]))
}

/// Where an action with key `k` goes in a list ordered by key: after every action whose
/// key is not greater.
pub open spec fn insertion_point(sorted: Seq<(JsonValue, ActionId)>, k: i64) -> int
    decreases sorted.len(),
{
    if sorted.len() == 0 {
        0
    } else if frame_key(sorted[0].0) > k {
        0
    } else {
        1 + insertion_point(sorted.drop_first(), k)
    }
}

pub open spec fn insert_by_frame(sorted: Seq<(JsonValue, ActionId)>, x: (JsonValue, ActionId)) -> Seq<
    (JsonValue, ActionId),
> {
    let p = insertion_point(sorted, frame_key(x.0));
    sorted.take(p).push(x) + sorted.skip(p)
}

/// The actions ordered by frame; actions with equal keys keep their order.
pub open spec fn sorted_by_frame(s: Seq<(JsonValue, ActionId)>) -> Seq<(JsonValue, ActionId)>
    decreases s.len(),
{
    if s.len() == 0 {
        s
    } else {
        insert_by_frame(sorted_by_frame(s.drop_last()), s.last())
    }
}

/// The JSON number `serde_json` makes of an `i64`.
pub open spec fn int_number(n: i64) -> JsonValue {
    JsonValue::Number(
        JsonNumber { as_i64: Some(n), as_u64: if n >= 0 { Some(n as u64) } else { None } },
    )
}

/// `v` is the action object written for draft `d` over the members `existing`: the
/// panel's fields are set (an empty or absent one is removed; a facing is kept only for
/// a deployment) and every other member is kept.
pub open spec fn written_action(v: JsonValue, d: ActionDraft, existing: Seq<(String, JsonValue)>) -> bool {
    v matches JsonValue::Object(e) && {
        let m = e@;
        &&& is_text(member(m, "type"@), d.kind@)
        &&& member(m, "frame"@) == match d.frame {
            Some(f) => Some(int_number(f)),
            None => None,
        }
        &&& if d.name@.len() > 0 {
            is_text(member(m, "name"@), d.name@)
        } else {
            member(m, "name"@) is None
        }
        &&& match d.location {
            Some(p) => member(m, "location"@) matches Some(JsonValue::Array(a)) && a@.len() == 2
                && a@[0] == int_number(p.x as i64) && a@[1] == int_number(p.y as i64),
            None => member(m, "location"@) is None,
        }
        &&& if action_type_from(text::ascii_lower(d.kind@)) == Some(ActionType::Deploy) {
            is_text(member(m, "direction"@), crate::labels::direction_name_spec(d.direction))
        } else {
            member(m, "direction"@) is None
        }
        &&& if d.doc@.len() > 0 {
            is_text(member(m, "doc"@), d.doc@)
        } else {
            member(m, "doc"@) is None
        }
        &&& forall|k: Seq<char>|
            k != "type"@ && k != "frame"@ && k != "name"@ && k != "location"@ && k
                != "direction"@ && k != "doc"@ ==> #[trigger] member(m, k) == member(existing, k)
    }
}

/// The frame of an action object.
pub(crate) fn action_frame(v: &JsonValue) -> (f: Option<i64>)
    ensures
        f == frame_of(*v),
{
    match v.get("frame") {
        Some(f) => f.as_i64(),
        None => None,
    }
}

fn action_key(v: &JsonValue) -> (k: i64)
    ensures
        k == frame_key(*v),
{
    match action_frame(v) {
        Some(f) => f,
        None => i64::MAX,
    }
}

pub(crate) fn parse_location(v: &JsonValue) -> (p: Option<Point>)
    ensures
        p == location_of(*v),
{
    let l = match v.get("location") {
        Some(l) => l,
        None => {
            return None;
        },
    };
    let a = match l.as_array() {
        Some(a) => a,
        None => {
            return None;
        },
    };
    if a.len() < 2 {
        return None;
    }
    match (a[0].as_i64(), a[1].as_i64()) {
        (Some(x), Some(y)) => if i32::MIN as i64 <= x && x <= i32::MAX as i64 && i32::MIN as i64
            <= y && y <= i32::MAX as i64 {
            Some(Point::new(x as i32, y as i32))
        } else {
            None
        },
        _ => None,
    }
}

/// Reads the panel's fields out of an action object.
fn draft_from_value(id: ActionId, v: &JsonValue) -> (d: ActionDraft)
    ensures
        draft_matches(d, id, *v),
{
    let kind = crate::copilot::text_member_or_empty(v, "type");
    let frame = action_frame(v);
    let name = crate::copilot::text_member_or_empty(v, "name");
    let location = parse_location(v);
    let direction = match v.get("direction") {
        Some(d) => match d.as_str() {
            Some(t) => crate::copilot::parse_direction(t),
            None => Direction::Right,
        },
        None => Direction::Right,
    };
    let doc = crate::copilot::text_member_or_empty(v, "doc");
    ActionDraft { id, kind, frame, name, location, direction, doc }
}

fn int_value(n: i64) -> (v: JsonValue)
    ensures
        v == int_number(n),
{
    JsonValue::Number(
        JsonNumber {
            as_i64: Some(n),
            as_u64: if n >= 0 {
                Some(n as u64)
            } else {
                None
            },
        },
    )
}

/// Sets member `key` to `value`, or removes it when there is none.
fn set_optional(object: &mut Vec<(String, JsonValue)>, key: &str, value: Option<JsonValue>)
    ensures
        member(final(object)@, key@) == value,
        forall|k: Seq<char>|
            k != key@ ==> #[trigger] member(final(object)@, k) == member(old(object)@, k),
{
    match value {
        Some(v) => object_insert(object, key.to_owned(), v),
        None => json::object_remove_all(object, key),
    }
}

/// Writes the panel's fields of `draft` over the members `existing`.
fn action_to_value(draft: &ActionDraft, existing: Vec<(String, JsonValue)>) -> (v: JsonValue)
    ensures
        written_action(v, *draft, existing@),
{
    proof {
        reveal_strlit("type");
        reveal_strlit("frame");
        reveal_strlit("name");
        reveal_strlit("location");
        reveal_strlit("direction");
        reveal_strlit("doc");
        assert("type"@[0] != "name"@[0]);
        assert("type"@ != "name"@);
        assert("type"@.len() != "frame"@.len() && "type"@.len() != "location"@.len());
        assert("type"@.len() != "direction"@.len() && "type"@.len() != "doc"@.len());
        assert("frame"@.len() != "name"@.len() && "frame"@.len() != "location"@.len());
        assert("frame"@.len() != "direction"@.len() && "frame"@.len() != "doc"@.len());
        assert("name"@.len() != "location"@.len() && "name"@.len() != "direction"@.len());
        assert("name"@.len() != "doc"@.len() && "location"@.len() != "direction"@.len());
        assert("location"@.len() != "doc"@.len() && "direction"@.len() != "doc"@.len());
    }
    let ghost e0 = existing@;
    let mut object = existing;
    object_insert(&mut object, String::from_str("type"), JsonValue::Str(draft.kind.clone()));
    let ghost e1 = object@;
    let frame = match draft.frame {
        Some(f) => Some(int_value(f)),
        None => None,
    };
    set_optional(&mut object, "frame", frame);
    let ghost e2 = object@;
    let name = if draft.name.as_str().unicode_len() > 0 {
        Some(JsonValue::Str(draft.name.clone()))
    } else {
        None
    };
    set_optional(&mut object, "name", name);
    let ghost e3 = object@;
    let location = match draft.location {
        Some(p) => {
            let mut a: Vec<JsonValue> = Vec::new();
            a.push(int_value(p.x as i64));
            a.push(int_value(p.y as i64));
            Some(JsonValue::Array(a))
        },
        None => None,
    };
    set_optional(&mut object, "location", location);
    let ghost e4 = object@;
    let direction = match ActionType::parse(draft.kind.as_str()) {
        Some(ActionType::Deploy) => Some(
            JsonValue::Str(String::from_str(crate::labels::direction_name(draft.direction))),
        ),
        _ => None,
    };
    set_optional(&mut object, "direction", direction);
    let ghost e5 = object@;
    let doc = if draft.doc.as_str().unicode_len() > 0 {
        Some(JsonValue::Str(draft.doc.clone()))
    } else {
        None
    };
    set_optional(&mut object, "doc", doc);
    proof {
        assert(member(object@, "type"@) == member(e1, "type"@));
        assert(member(object@, "frame"@) == member(e2, "frame"@));
        assert(member(object@, "name"@) == member(e3, "name"@));
        assert(member(object@, "location"@) == member(e4, "location"@));
        assert(member(object@, "direction"@) == member(e5, "direction"@));
    }
    JsonValue::Object(object)
}

proof fn lemma_insertion_point(sorted: Seq<(JsonValue, ActionId)>, k: i64, p: int)
    requires
        0 <= p <= sorted.len(),
        forall|j: int| 0 <= j < p ==> frame_key((#[trigger] sorted[j]).0) <= k,
        p == sorted.len() || frame_key(sorted[p].0) > k,
    ensures
        insertion_point(sorted, k) == p,
    decreases p,
{
    if p > 0 {
        let t = sorted.drop_first();
        assert forall|j: int| 0 <= j < p - 1 implies frame_key((#[trigger] t[j]).0) <= k by {
            assert(t[j] == sorted[j + 1]);
        }
        if p < sorted.len() {
            assert(t[p - 1] == sorted[p]);
        }
        assert(frame_key(sorted[0].0) <= k);
        lemma_insertion_point(t, k, p - 1);
    }
}

/// Orders actions by frame, keeping the order of actions with equal keys.
fn sort_by_frame(pairs: Vec<(JsonValue, ActionId)>) -> (r: Vec<(JsonValue, ActionId)>)
    ensures
        r@ == sorted_by_frame(pairs@),
{
    let ghost orig = pairs@;
    let mut pairs = pairs;
    let mut out: Vec<(JsonValue, ActionId)> = Vec::new();
    let ghost mut t: int = 0;
    while pairs.len() > 0
        invariant
            0 <= t <= orig.len(),
            pairs@ == orig.skip(t),
            out@ == sorted_by_frame(orig.take(t)),
        decreases pairs@.len(),
    {
        let e = pairs.remove(0);
        proof {
            assert(pairs@ =~= orig.skip(t + 1));
            assert(orig.take(t + 1).drop_last() =~= orig.take(t));
            assert(orig.take(t + 1).last() == e);
        }
        let k = action_key(&e.0);
        let mut p: usize = 0;
        let mut found = false;
        while p < out.len() && !found
            invariant
                p <= out@.len(),
                forall|j: int| 0 <= j < p ==> frame_key((#[trigger] out@[j]).0) <= k,
                found ==> p < out@.len() && frame_key(out@[p as int].0) > k,
            decreases out@.len() - p + if found {
                0int
            } else {
                1int
            },
        {
            if action_key(&out[p].0) > k {
                found = true;
            } else {
                p = p + 1;
            }
        }
        proof {
            lemma_insertion_point(out@, k, p as int);
        }
        let ghost before = out@;
        out.insert(p, e);
        proof {
            assert(out@ =~= before.take(p as int).push(e) + before.skip(p as int));
            t = t + 1;
        }
    }
    proof {
        assert(orig.take(t) =~= orig);
    }
    out
}

/// The first position of `id`.
fn position_of(ids: &Vec<ActionId>, id: ActionId) -> (r: Option<usize>)
    ensures
        match r {
            Some(i) => first_position(ids@, id, i as int),
            None => forall|j: int| 0 <= j < ids@.len() ==> #[trigger] ids@[j] != id,
        },
{
    let mut i: usize = 0;
    while i < ids.len()
        invariant
            i <= ids@.len(),
            forall|j: int| 0 <= j < i ==> #[trigger] ids@[j] != id,
        decreases ids@.len() - i,
    {
        if ids[i] == id {
            return Some(i);
        }
        i = i + 1;
    }
    None
}


/// Swaps the elements at `i` and `j`.
pub open spec fn swapped<T>(s: Seq<T>, i: int, j: int) -> Seq<T> {
    s.update(i, s[j]).update(j, s[i])
}

/// The action objects of `root`, with `ids`, are `pairs` ordered by frame.
pub open spec fn holds_sorted(root: Seq<(String, JsonValue)>, ids: Seq<ActionId>, pairs: Seq<(JsonValue, ActionId)>) -> bool {
    &&& ids.len() == action_items(root).len()
    &&& paired(action_items(root), ids) == sorted_by_frame(pairs)
}

proof fn lemma_insertion_point_bounds(sorted: Seq<(JsonValue, ActionId)>, k: i64)
    ensures
        0 <= insertion_point(sorted, k) <= sorted.len(),
    decreases sorted.len(),
{
    if sorted.len() > 0 {
        lemma_insertion_point_bounds(sorted.drop_first(), k);
    }
}

pub proof fn lemma_sorted_len(s: Seq<(JsonValue, ActionId)>)
    ensures
        sorted_by_frame(s).len() == s.len(),
    decreases s.len(),
{
    if s.len() > 0 {
        lemma_sorted_len(s.drop_last());
        lemma_insertion_point_bounds(sorted_by_frame(s.drop_last()), frame_key(s.last().0));
    }
}

/// Orders action objects and their identifiers by frame, together.
fn sort_actions(items: Vec<JsonValue>, ids: Vec<ActionId>) -> (r: (Vec<JsonValue>, Vec<ActionId>))
    requires
        items@.len() == ids@.len(),
    ensures
        r.0@.len() == r.1@.len(),
        paired(r.0@, r.1@) == sorted_by_frame(paired(items@, ids@)),
{
    let ghost start = paired(items@, ids@);
    let mut items = items;
    let mut ids = ids;
    let mut pairs: Vec<(JsonValue, ActionId)> = Vec::new();
    let ghost mut t: int = 0;
    while items.len() > 0
        invariant
            items@.len() == ids@.len(),
            0 <= t <= start.len(),
            t + items@.len() == start.len(),
            forall|j: int| 0 <= j < items@.len() ==> (#[trigger] items@[j], ids@[j]) == start[t + j],
            pairs@ == start.take(t),
        decreases items@.len(),
    {
        let ghost old_items = items@;
        let ghost old_ids = ids@;
        let v = items.remove(0);
        let id = ids.remove(0);
        proof {
            assert((v, id) == (old_items[0], old_ids[0]));
            assert forall|j: int| 0 <= j < items@.len() implies (#[trigger] items@[j], ids@[j]) == start[t + 1 + j] by {
                assert(items@[j] == old_items[j + 1]);
                assert(ids@[j] == old_ids[j + 1]);
            }
        }
        pairs.push((v, id));
        proof {
            assert(pairs@ =~= start.take(t + 1));
            t = t + 1;
        }
    }
    proof {
        assert(pairs@ =~= start);
    }
    let mut sorted = sort_by_frame(pairs);
    proof {
        lemma_sorted_len(start);
    }
    let ghost goal = sorted@;
    let mut out_items: Vec<JsonValue> = Vec::new();
    let mut out_ids: Vec<ActionId> = Vec::new();
    let ghost mut u: int = 0;
    while sorted.len() > 0
        invariant
            0 <= u <= goal.len(),
            sorted@ == goal.skip(u),
            out_items@.len() == u,
            out_ids@.len() == u,
            paired(out_items@, out_ids@) == goal.take(u),
        decreases sorted@.len(),
    {
        let (v, id) = sorted.remove(0);
        proof {
            assert(sorted@ =~= goal.skip(u + 1));
        }
        out_items.push(v);
        out_ids.push(id);
        proof {
            assert(paired(out_items@, out_ids@) =~= goal.take(u + 1));
            u = u + 1;
        }
    }
    proof {
        assert(goal.take(u) =~= goal);
    }
    (out_items, out_ids)
}

impl JobDocument {
    /// Takes the action objects out (an empty list when the member is missing or no
    /// array) together with their identifiers.
    fn take_actions(&mut self) -> (r: (Vec<JsonValue>, Vec<ActionId>))
        requires
            old(self).wf(),
        ensures
            r.0@ == action_items(old(self).entries()),
            r.1@ == old(self).ids(),
            keys_unique(final(self).entries()),
            final(self).next_id() == old(self).next_id(),
            forall|k: Seq<char>|
                k != "actions"@ ==> #[trigger] member(final(self).entries(), k) == member(
                    old(self).entries(),
                    k,
                ),
    {
        let items = match object_take(&mut self.root, "actions") {
            Some(JsonValue::Array(a)) => a,
            _ => Vec::new(),
        };
        let mut ids: Vec<ActionId> = Vec::new();
        std::mem::swap(&mut ids, &mut self.action_ids);
        (items, ids)
    }

    /// Puts action objects and their identifiers back.
    fn put_actions(&mut self, items: Vec<JsonValue>, ids: Vec<ActionId>)
        requires
            keys_unique(old(self).entries()),
            items@.len() == ids@.len(),
        ensures
            final(self).wf(),
            action_items(final(self).entries()) == items@,
            final(self).ids() == ids@,
            final(self).next_id() == old(self).next_id(),
            forall|k: Seq<char>|
                k != "actions"@ ==> #[trigger] member(final(self).entries(), k) == member(
                    old(self).entries(),
                    k,
                ),
    {
        object_insert(&mut self.root, String::from_str("actions"), JsonValue::Array(items));
        self.action_ids = ids;
    }

    /// What the property panel shows of every action, in document order.
    pub fn actions(&self) -> (r: Vec<ActionDraft>)
        requires
            self.wf(),
        ensures
            r@.len() == action_items(self.entries()).len(),
            forall|i: int|
                0 <= i < r@.len() ==> draft_matches(
                    #[trigger] r@[i],
                    self.ids()[i],
                    action_items(self.entries())[i],
                ),
    {
        let mut r: Vec<ActionDraft> = Vec::new();
        let items = match lookup(&self.root, "actions") {
            Some(v) => match v.as_array() {
                Some(a) => a,
                None => {
                    return r;
                },
            },
            None => {
                return r;
            },
        };
        let mut i: usize = 0;
        while i < items.len()
            invariant
                items@ == action_items(self.entries()),
                self.wf(),
                i <= items@.len(),
                r@.len() == i,
                forall|j: int|
                    0 <= j < i ==> draft_matches(#[trigger] r@[j], self.ids()[j], items@[j]),
            decreases items@.len() - i,
        {
            r.push(draft_from_value(self.action_ids[i], &items[i]));
            i = i + 1;
        }
        r
    }

    /// What the property panel shows of the action `id`.
    pub fn action(&self, id: ActionId) -> (r: Option<ActionDraft>)
        requires
            self.wf(),
        ensures
            looked_up(*self, id, r),
    {
        let i = match position_of(&self.action_ids, id) {
            Some(i) => i,
            None => {
                return None;
            },
        };
        match lookup(&self.root, "actions") {
            Some(v) => match v.as_array() {
                Some(items) => Some(draft_from_value(id, &items[i])),
                None => None,
            },
            None => None,
        }
    }

    /// A draft for a new action with the next identifier; the document does not hold it
    /// until [`JobDocument::insert_action`].
    pub fn new_action(&mut self, kind: String, frame: Option<i64>) -> (d: ActionDraft)
        requires
            old(self).next_id() < u64::MAX,
        ensures
            action_drafted(*old(self), *final(self), kind, frame, d),
    {
        let id = ActionId(self.next_action_id);
        self.next_action_id = self.next_action_id + 1;
        ActionDraft::new(id, kind, frame)
    }

    /// Adds the action of `draft` and orders the actions by frame; actions with the same
    /// frame keep their order, so the new one comes after them.
    pub fn insert_action(&mut self, draft: ActionDraft)
        requires
            old(self).wf(),
        ensures
            final(self).wf(),
            action_inserted(*old(self), *final(self), draft),
    {
        let value = action_to_value(&draft, Vec::new());
        let (mut items, mut ids) = self.take_actions();
        let ghost old_pairs = paired(items@, ids@);
        let ghost v = value;
        items.push(value);
        ids.push(draft.id);
        assert(paired(items@, ids@) =~= old_pairs.push((v, draft.id)));
        let (items, ids) = sort_actions(items, ids);
        self.put_actions(items, ids);
        assert(written_action(v, draft, Seq::empty()));
    }
}


impl JobDocument {
    /// Writes the panel's fields of `draft` into the action with its identifier (other
    /// members of that action are kept) and orders the actions by frame again.
    pub fn update_action(&mut self, draft: &ActionDraft) -> (r: Result<(), JobDocumentError>)
        requires
            old(self).wf(),
        ensures
            final(self).wf(),
            action_updated(*old(self), *final(self), *draft, r),
    {
        let i = match position_of(&self.action_ids, draft.id) {
            Some(i) => i,
            None => {
                return Err(JobDocumentError::ActionNotFound(draft.id.get()));
            },
        };
        let (mut items, ids) = self.take_actions();
        let ghost before = items@;
        let existing = items.remove(i);
        let members = match existing {
            JsonValue::Object(m) => m,
            _ => Vec::new(),
        };
        let ghost em = members@;
        assert(em == object_members(Some(before[i as int])));
        let value = action_to_value(draft, members);
        let ghost v = value;
        items.insert(i, value);
        assert(items@ =~= before.update(i as int, v));
        let (items, ids) = sort_actions(items, ids);
        self.put_actions(items, ids);
        assert(written_action(v, *draft, object_members(Some(before[i as int]))));
        Ok(())
    }

    /// Removes the action `id` and gives back what the panel showed of it.
    pub fn remove_action(&mut self, id: ActionId) -> (r: Option<ActionDraft>)
        requires
            old(self).wf(),
        ensures
            final(self).wf(),
            action_removed(*old(self), *final(self), id, r),
    {
        let i = match position_of(&self.action_ids, id) {
            Some(i) => i,
            None => {
                return None;
            },
        };
        let (mut items, mut ids) = self.take_actions();
        let ghost before = items@;
        let value = items.remove(i);
        ids.remove(i);
        let draft = draft_from_value(id, &value);
        self.put_actions(items, ids);
        assert(draft_matches(draft, id, before[i as int]));
        Some(draft)
    }

    /// Copies the action `id` right after itself under the next identifier, then orders
    /// the actions by frame again.
    pub fn duplicate_action(&mut self, id: ActionId) -> (r: Option<ActionId>)
        requires
            old(self).wf(),
            old(self).ids().contains(id) ==> old(self).next_id() < u64::MAX,
        ensures
            final(self).wf(),
            action_duplicated(*old(self), *final(self), id, r),
    {
        let i = match position_of(&self.action_ids, id) {
            Some(i) => i,
            None => {
                return None;
            },
        };
        assert(self.ids()[i as int] == id);
        assert(self.ids().contains(id));
        let (mut items, mut ids) = self.take_actions();
        let ghost before = items@;
        let ghost before_ids = ids@;
        let count = items.len();
        assert(i < count);
        let copy = json::copy_value(&items[i]);
        let ghost c = copy;
        let new_id = ActionId(self.next_action_id);
        self.next_action_id = self.next_action_id + 1;
        items.insert(i + 1, copy);
        ids.insert(i + 1, new_id);
        assert(items@ == before.insert(i + 1, c));
        assert(ids@ == before_ids.insert(i + 1, new_id));
        let (items, ids) = sort_actions(items, ids);
        self.put_actions(items, ids);
        assert(holds_sorted(
            self.entries(),
            self.ids(),
            paired(
                action_items(old(self).entries()).insert(i + 1, c),
                old(self).ids().insert(i + 1, new_id),
            ),
        ));
        assert(json::same_value(action_items(old(self).entries())[i as int], c));
        proof {
            lemma_duplicated_witness(*old(self), *self, id, new_id, i as int, c);
        }
        Some(new_id)
    }

    /// Swaps the action `id` with the one `delta` places away when both exist and have
    /// the same frame (or both have none); tells whether it did.
    pub fn move_within_same_frame(&mut self, id: ActionId, delta: isize) -> (moved: bool)
        requires
            old(self).wf(),
        ensures
            final(self).wf(),
            action_moved(*old(self), *final(self), id, delta, moved),
    {
        let i = match position_of(&self.action_ids, id) {
            Some(i) => i,
            None => {
                return false;
            },
        };
        proof {
            assert forall|j: int| first_position(self.ids(), id, j) implies j == i by {
                lemma_first_position_unique(self.ids(), id, i as int, j);
            }
        }
        let target: i128 = i as i128 + delta as i128;
        let same = match lookup(&self.root, "actions") {
            Some(v) => match v.as_array() {
                Some(items) => same_frame_at(items, i, target),
                None => false,
            },
            None => false,
        };
        if !same {
            return false;
        }
        let count = self.action_ids.len();
        assert(0 <= target < count);
        let t = target as usize;
        assert(t == i + delta);
        assert(first_position(self.ids(), id, i as int));
        let (mut items, mut ids) = self.take_actions();
        swap_actions(&mut items, &mut ids, i, t);
        self.put_actions(items, ids);
        true
    }
}


proof fn lemma_first_position_unique(ids: Seq<ActionId>, id: ActionId, i: int, j: int)
    requires
        first_position(ids, id, i),
        first_position(ids, id, j),
    ensures
        i == j,
{
    if i < j {
        assert(ids[i] != id);
    } else if j < i {
        assert(ids[j] != id);
    }
}

/// Whether `target` is a position of `items` whose frame is that of position `i`.
fn same_frame_at(items: &Vec<JsonValue>, i: usize, target: i128) -> (b: bool)
    requires
        i < items@.len(),
    ensures
        b == (0 <= target < items@.len() && frame_of(items@[target as int]) == frame_of(items@[i as int])),
{
    if target < 0 || target >= items.len() as i128 {
        return false;
    }
    let t = target as usize;
    match (action_frame(&items[i]), action_frame(&items[t])) {
        (Some(a), Some(b)) => a == b,
        (None, None) => true,
        _ => false,
    }
}

/// Swaps two actions together with their identifiers.
fn swap_actions(items: &mut Vec<JsonValue>, ids: &mut Vec<ActionId>, i: usize, t: usize)
    requires
        i < old(items)@.len(),
        t < old(items)@.len(),
        old(ids)@.len() == old(items)@.len(),
    ensures
        final(items)@ == swapped(old(items)@, i as int, t as int),
        final(ids)@ == swapped(old(ids)@, i as int, t as int),
{
    let ghost before = items@;
    let ghost before_ids = ids@;
    if i != t {
        let (lo, hi) = if i < t {
            (i, t)
        } else {
            (t, i)
        };
        let b = items.remove(hi);
        let a = items.remove(lo);
        items.insert(lo, b);
        items.insert(hi, a);
        assert(items@ =~= swapped(before, i as int, t as int));
        let x = ids[i];
        let y = ids[t];
        ids.set(i, y);
        ids.set(t, x);
        assert(ids@ =~= swapped(before_ids, i as int, t as int));
    } else {
        assert(items@ =~= swapped(before, i as int, t as int));
        assert(ids@ =~= swapped(before_ids, i as int, t as int));
    }
}


// ---------------------------------------------------------------------------
// What each edit does, as relations between the document before and after.
// ---------------------------------------------------------------------------

/// What [`JobDocument::set_stage_name`] makes of document `before`: document `after`.
pub open spec fn stage_name_set(before: JobDocument, after: JobDocument, stage_name: String) -> bool {
    &&& after.ids() == before.ids()
    &&& after.next_id() == before.next_id()
    &&& member(after.entries(), "stage_name"@) == Some(JsonValue::Str(stage_name))
    &&& forall|k: Seq<char>|
            k != "stage_name"@ ==> #[trigger] member(after.entries(), k) == member(
                before.entries(),
                k,
            )
}

/// What [`JobDocument::set_title`] makes of document `before`: document `after`.
pub open spec fn title_set(before: JobDocument, after: JobDocument, title: String) -> bool {
    &&& after.ids() == before.ids()
    &&& after.next_id() == before.next_id()
    &&& doc_set(before.entries(), after.entries(), "title"@, title@)
}

/// What [`JobDocument::set_details`] makes of document `before`: document `after`.
pub open spec fn details_set(before: JobDocument, after: JobDocument, details: String) -> bool {
    &&& after.ids() == before.ids()
    &&& after.next_id() == before.next_id()
    &&& doc_set(before.entries(), after.entries(), "details"@, details@)
}

/// What [`JobDocument::add_operator`] makes of document `before`: document `after`.
pub open spec fn operator_added(before: JobDocument, after: JobDocument, name: String, skill: u8) -> bool {
    &&& after.ids() == before.ids()
    &&& after.next_id() == before.next_id()
    &&& member(after.entries(), "opers"@) matches Some(JsonValue::Array(a)) && a@
            == array_items(before.entries(), "opers"@).push(a@.last()) && is_oper_item(
            a@.last(),
            name@,
            skill,
        )
    &&& forall|k: Seq<char>|
            k != "opers"@ ==> #[trigger] member(after.entries(), k) == member(
                before.entries(),
                k,
            )
}

/// What [`JobDocument::rename_operator`] makes of document `before`: document `after`.
pub open spec fn operator_renamed(before: JobDocument, after: JobDocument, old_name: &str, new_name: &str, renamed: bool) -> bool {
    &&& after.ids() == before.ids()
    &&& after.next_id() == before.next_id()
    &&& renamed == any_named(array_items(before.entries(), "opers"@), old_name@)
    &&& objects_renamed_at(
            member(before.entries(), "opers"@),
            member(after.entries(), "opers"@),
            old_name@,
            new_name@,
        )
    &&& renamed ==> objects_renamed_at(
            member(before.entries(), "actions"@),
            member(after.entries(), "actions"@),
            old_name@,
            new_name@,
        )
    &&& !renamed ==> member(after.entries(), "actions"@) == member(
            before.entries(),
            "actions"@,
        )
    &&& forall|k: Seq<char>|
            k != "opers"@ && k != "actions"@ ==> #[trigger] member(after.entries(), k)
                == member(before.entries(), k)
}

/// What [`JobDocument::remove_operator`] makes of document `before`: document `after`.
pub open spec fn operator_removed(before: JobDocument, after: JobDocument, name: &str, removed: bool) -> bool {
    &&& after.ids() == before.ids()
    &&& after.next_id() == before.next_id()
    &&& count_named(action_items(before.entries()), name@) > 0 ==> !removed && after.entries() == before.entries()
    &&& count_named(action_items(before.entries()), name@) == 0 ==> objects_removed_at(
            member(before.entries(), "opers"@),
            member(after.entries(), "opers"@),
            name@,
        ) && removed == (array_items(after.entries(), "opers"@).len() != array_items(
            before.entries(),
            "opers"@,
        ).len())
    &&& forall|k: Seq<char>|
            k != "opers"@ ==> #[trigger] member(after.entries(), k) == member(
                before.entries(),
                k,
            )
}

/// What [`JobDocument::add_deferred_target`] makes of document `before`: document `after`.
pub open spec fn deferred_target_added(before: JobDocument, after: JobDocument, name: String) -> bool {
    &&& after.ids() == before.ids()
    &&& after.next_id() == before.next_id()
    &&& member(after.entries(), "frame_replicator"@) matches Some(JsonValue::Object(m))
            && member(m@, "deferred_targets"@) matches Some(JsonValue::Array(a)) && a@
            == deferred_items(before.entries()).push(JsonValue::Str(name)) && forall|
            k: Seq<char>,
        | k != "deferred_targets"@ ==> #[trigger] member(m@, k) == member(
            object_members(member(before.entries(), "frame_replicator"@)),
            k,
        )
    &&& forall|k: Seq<char>|
            k != "frame_replicator"@ ==> #[trigger] member(after.entries(), k) == member(
                before.entries(),
                k,
            )
}

/// What [`JobDocument::rename_deferred_target`] makes of document `before`: document `after`.
pub open spec fn deferred_target_renamed(before: JobDocument, after: JobDocument, old_name: &str, new_name: &str, renamed: bool) -> bool {
    &&& after.ids() == before.ids()
    &&& after.next_id() == before.next_id()
    &&& renamed == any_text(deferred_items(before.entries()), old_name@)
    &&& deferred_renamed(before.entries(), after.entries(), old_name@, new_name@)
    &&& renamed ==> objects_renamed_at(
            member(before.entries(), "actions"@),
            member(after.entries(), "actions"@),
            old_name@,
            new_name@,
        )
    &&& !renamed ==> member(after.entries(), "actions"@) == member(
            before.entries(),
            "actions"@,
        )
    &&& forall|k: Seq<char>|
            k != "frame_replicator"@ && k != "actions"@ ==> #[trigger] member(
                after.entries(),
                k,
            ) == member(before.entries(), k)
}

/// What [`JobDocument::remove_deferred_target`] makes of document `before`: document `after`.
pub open spec fn deferred_target_removed(before: JobDocument, after: JobDocument, name: &str, removed: bool) -> bool {
    &&& after.ids() == before.ids()
    &&& after.next_id() == before.next_id()
    &&& count_named(action_items(before.entries()), name@) > 0 ==> !removed && after.entries() == before.entries()
    &&& count_named(action_items(before.entries()), name@) == 0 ==> deferred_removed(
            before.entries(),
            after.entries(),
            name@,
        ) && removed == (deferred_items(after.entries()).len() != deferred_items(
            before.entries(),
        ).len())
    &&& forall|k: Seq<char>|
            k != "frame_replicator"@ ==> #[trigger] member(after.entries(), k) == member(
                before.entries(),
                k,
            )
}

/// What [`JobDocument::new_action`] makes of document `before`: document `after`.
pub open spec fn action_drafted(before: JobDocument, after: JobDocument, kind: String, frame: Option<i64>, d: ActionDraft) -> bool {
    &&& d.id.value() == before.next_id()
    &&& d.kind@ == kind@
    &&& d.frame == frame
    &&& d.name@ == Seq::<char>::empty()
    &&& d.location is None
    &&& d.direction == Direction::Right
    &&& d.doc@ == Seq::<char>::empty()
    &&& after.next_id() == before.next_id() + 1
    &&& after.entries() == before.entries()
    &&& after.ids() == before.ids()
}

/// What [`JobDocument::insert_action`] makes of document `before`: document `after`.
pub open spec fn action_inserted(before: JobDocument, after: JobDocument, draft: ActionDraft) -> bool {
    &&& after.next_id() == before.next_id()
    &&& exists|v: JsonValue|
            written_action(v, draft, Seq::empty()) && holds_sorted(
                after.entries(),
                after.ids(),
                #[trigger] paired(action_items(before.entries()), before.ids()).push(
                    (v, draft.id),
                ),
            )
    &&& forall|k: Seq<char>|
            k != "actions"@ ==> #[trigger] member(after.entries(), k) == member(
                before.entries(),
                k,
            )
}

/// What [`JobDocument::update_action`] makes of document `before`: document `after`.
pub open spec fn action_updated(before: JobDocument, after: JobDocument, draft: ActionDraft, r: Result<(), JobDocumentError>) -> bool {
    &&& after.next_id() == before.next_id()
    &&& match r {
            Err(e) => e == JobDocumentError::ActionNotFound(draft.id.value()) && (forall|j: int|
                0 <= j < before.ids().len() ==> #[trigger] before.ids()[j] != draft.id)
                && after.entries() == before.entries() && after.ids() == before.ids(),
            Ok(()) => exists|i: int, v: JsonValue|
                first_position(before.ids(), draft.id, i) && written_action(
                    v,
                    draft,
                    object_members(Some(action_items(before.entries())[i])),
                ) && holds_sorted(
                    after.entries(),
                    after.ids(),
                    #[trigger] paired(action_items(before.entries()).update(i, v), before.ids()),
                ),
        }
    &&& forall|k: Seq<char>|
            k != "actions"@ ==> #[trigger] member(after.entries(), k) == member(
                before.entries(),
                k,
            )
}

/// What [`JobDocument::remove_action`] makes of document `before`: document `after`.
pub open spec fn action_removed(before: JobDocument, after: JobDocument, id: ActionId, r: Option<ActionDraft>) -> bool {
    &&& after.next_id() == before.next_id()
    &&& match r {
            None => (forall|j: int|
                0 <= j < before.ids().len() ==> #[trigger] before.ids()[j] != id)
                && after.entries() == before.entries() && after.ids() == before.ids(),
            Some(d) => exists|i: int|
                first_position(before.ids(), id, i) && draft_matches(
                    d,
                    id,
                    #[trigger] action_items(before.entries())[i],
                ) && action_items(after.entries()) == action_items(
                    before.entries(),
                ).remove(i) && after.ids() == before.ids().remove(i),
        }
    &&& forall|k: Seq<char>|
            k != "actions"@ ==> #[trigger] member(after.entries(), k) == member(
                before.entries(),
                k,
            )
}

/// What [`JobDocument::duplicate_action`] makes of document `before`: document `after`.
pub open spec fn action_duplicated(before: JobDocument, after: JobDocument, id: ActionId, r: Option<ActionId>) -> bool {
    &&& match r {
            None => (forall|j: int|
                0 <= j < before.ids().len() ==> #[trigger] before.ids()[j] != id)
                && after.entries() == before.entries() && after.ids() == before.ids() && after.next_id() == before.next_id(),
            Some(n) => n.value() == before.next_id() && after.next_id() == before.next_id() + 1 && exists|i: int, c: JsonValue|
                first_position(before.ids(), id, i) && json::same_value(
                    action_items(before.entries())[i],
                    c,
                ) && holds_sorted(
                    after.entries(),
                    after.ids(),
                    #[trigger] paired(
                        action_items(before.entries()).insert(i + 1, c),
                        before.ids().insert(i + 1, n),
                    ),
                ),
        }
    &&& forall|k: Seq<char>|
            k != "actions"@ ==> #[trigger] member(after.entries(), k) == member(
                before.entries(),
                k,
            )
}

/// What [`JobDocument::move_within_same_frame`] makes of document `before`: document `after`.
pub open spec fn action_moved(before: JobDocument, after: JobDocument, id: ActionId, delta: isize, moved: bool) -> bool {
    &&& after.next_id() == before.next_id()
    &&& moved == exists|i: int|
            #[trigger] first_position(before.ids(), id, i) && 0 <= i + delta < before.ids().len()
                && frame_of(action_items(before.entries())[i + delta]) == frame_of(
                action_items(before.entries())[i],
            )
    &&& moved ==> exists|i: int|
            #[trigger] first_position(before.ids(), id, i) && action_items(after.entries())
                == swapped(action_items(before.entries()), i, i + delta) && after.ids() == swapped(before.ids(), i, i + delta)
    &&& !moved ==> after.entries() == before.entries() && after.ids() == before.ids()
    &&& forall|k: Seq<char>|
            k != "actions"@ ==> #[trigger] member(after.entries(), k) == member(
                before.entries(),
                k,
            )
}


proof fn lemma_duplicated_witness(before: JobDocument, after: JobDocument, id: ActionId, n: ActionId, i: int, c: JsonValue)
    requires
        n.value() == before.next_id(),
        after.next_id() == before.next_id() + 1,
        first_position(before.ids(), id, i),
        json::same_value(action_items(before.entries())[i], c),
        holds_sorted(
            after.entries(),
            after.ids(),
            paired(action_items(before.entries()).insert(i + 1, c), before.ids().insert(i + 1, n)),
        ),
        forall|k: Seq<char>|
            k != "actions"@ ==> #[trigger] member(after.entries(), k) == member(before.entries(), k),
    ensures
        action_duplicated(before, after, id, Some(n)),
{
    assert(exists|ii: int, cc: JsonValue|
        first_position(before.ids(), id, ii) && json::same_value(action_items(before.entries())[ii], cc)
            && holds_sorted(
            after.entries(),
            after.ids(),
            #[trigger] paired(action_items(before.entries()).insert(ii + 1, cc), before.ids().insert(ii + 1, n)),
        ));
    let r = Some(n);
    assert(r matches Some(m) && m.value() == before.next_id());
    assert(match r {
        None => false,
        Some(m) => m.value() == before.next_id() && after.next_id() == before.next_id() + 1,
    });
}


/// `r` is what opening the text `json` gives: the parser's error, a refusal of anything
/// but an object, or a document with the object's members and actions numbered from 1.
pub open spec fn opened(json: Seq<char>, r: Result<JobDocument, JobDocumentError>) -> bool {
    match json::json_document(json) {
        Err(je) => r matches Err(JobDocumentError::Json(e)) && e == je,
        Ok(JsonValue::Object(members)) => r matches Ok(d) && d.wf() && (forall|k: Seq<char>|
            #[trigger] member(d.entries(), k) == member(members@, k)) && (forall|i: int|
            0 <= i < d.ids().len() ==> (#[trigger] d.ids()[i]).value() == i + 1) && d.next_id()
            == id_after(d.ids().len()),
        Ok(_) => r matches Err(JobDocumentError::RootNotObject),
    }
}

/// `r` is what the panel shows of the action `id` of `doc`, or `None` when there is none.
pub open spec fn looked_up(doc: JobDocument, id: ActionId, r: Option<ActionDraft>) -> bool {
    match r {
        Some(d) => exists|i: int|
            first_position(doc.ids(), id, i) && draft_matches(
                d,
                id,
                #[trigger] action_items(doc.entries())[i],
            ),
        None => forall|j: int| 0 <= j < doc.ids().len() ==> #[trigger] doc.ids()[j] != id,
    }
}

/// `a` and `b` hold the same JSON members, identifiers and counter.
pub open spec fn same_document(a: JobDocument, b: JobDocument) -> bool {
    &&& a.entries().len() == b.entries().len()
    &&& forall|i: int|
        0 <= i < a.entries().len() ==> (#[trigger] a.entries()[i]).0@ == b.entries()[i].0@
            && json::same_value(a.entries()[i].1, b.entries()[i].1)
    &&& a.ids() == b.ids()
    &&& a.next_id() == b.next_id()
}

proof fn lemma_same_members(a: Seq<(String, JsonValue)>, b: Seq<(String, JsonValue)>, k: Seq<char>)
    requires
        a.len() == b.len(),
        forall|i: int|
            0 <= i < a.len() ==> (#[trigger] a[i]).0@ == b[i].0@ && json::same_value(a[i].1, b[i].1),
    ensures
        member(a, k) is Some <==> member(b, k) is Some,
        member(a, k) is Some ==> json::same_value(member(a, k).unwrap(), member(b, k).unwrap()),
    decreases a.len(),
{
    if a.len() > 0 {
        let ta = a.drop_first();
        let tb = b.drop_first();
        assert forall|i: int| 0 <= i < ta.len() implies (#[trigger] ta[i]).0@ == tb[i].0@
            && json::same_value(ta[i].1, tb[i].1) by {
            assert(ta[i] == a[i + 1]);
            assert(tb[i] == b[i + 1]);
        }
        assert(a[0].0@ == b[0].0@);
        lemma_same_members(ta, tb, k);
    }
}

impl JobDocument {
    /// A deep copy of the document.
    pub fn copy(&self) -> (r: Self)
        requires
            self.wf(),
        ensures
            r.wf(),
            same_document(*self, r),
    {
        let mut root: Vec<(String, JsonValue)> = Vec::new();
        let mut i: usize = 0;
        while i < self.root.len()
            invariant
                i <= self.root@.len(),
                root@.len() == i,
                forall|j: int|
                    0 <= j < i ==> (#[trigger] self.root@[j]).0@ == root@[j].0@ && json::same_value(
                        self.root@[j].1,
                        root@[j].1,
                    ),
            decreases self.root@.len() - i,
        {
            let value = json::copy_value(&self.root[i].1);
            root.push((self.root[i].0.as_str().to_owned(), value));
            i = i + 1;
        }
        let mut action_ids: Vec<ActionId> = Vec::new();
        let mut j: usize = 0;
        while j < self.action_ids.len()
            invariant
                j <= self.action_ids@.len(),
                action_ids@ == self.action_ids@.take(j as int),
            decreases self.action_ids@.len() - j,
        {
            action_ids.push(self.action_ids[j]);
            assert(action_ids@ =~= self.action_ids@.take(j + 1));
            j = j + 1;
        }
        assert(action_ids@ =~= self.action_ids@);
        let r = JobDocument { root, action_ids, next_action_id: self.next_action_id };
        proof {
            assert forall|a: int, b: int| 0 <= a < b < r.root@.len() implies (
            #[trigger] r.root@[a]).0@ != (#[trigger] r.root@[b]).0@ by {
                assert(self.root@[a].0@ == r.root@[a].0@);
                assert(self.root@[b].0@ == r.root@[b].0@);
            }
            lemma_same_members(self.root@, r.root@, "actions"@);
            let m = member(self.root@, "actions"@);
            if m is Some {
                let n = member(r.root@, "actions"@);
                assert(json::same_value(m.unwrap(), n.unwrap()));
                assert(m.unwrap().items() is Some <==> n.unwrap().items() is Some);
            }
        }
        r
    }
}


/// `a` and `b` show the same fields.
pub open spec fn drafts_equal(a: ActionDraft, b: ActionDraft) -> bool {
    &&& a.id == b.id
    &&& a.kind@ == b.kind@
    &&& a.frame == b.frame
    &&& a.name@ == b.name@
    &&& a.location == b.location
    &&& a.direction == b.direction
    &&& a.doc@ == b.doc@
}

/// Two look-ups of the same action show the same fields.
pub proof fn lemma_lookup_unique(doc: JobDocument, id: ActionId, d: ActionDraft, r: Option<ActionDraft>)
    requires
        looked_up(doc, id, Some(d)),
        looked_up(doc, id, r),
    ensures
        r matches Some(e) && drafts_equal(d, e),
{
    let i = choose|i: int|
        first_position(doc.ids(), id, i) && draft_matches(d, id, #[trigger] action_items(doc.entries())[i]);
    match r {
        None => {
            assert(doc.ids()[i] == id);
        },
        Some(e) => {
            let j = choose|j: int|
                first_position(doc.ids(), id, j) && draft_matches(e, id, #[trigger] action_items(doc.entries())[j]);
            lemma_first_position_unique(doc.ids(), id, i, j);
        },
    }
}


/// Actions ordered by frame key.
pub open spec fn frames_ordered(s: Seq<(JsonValue, ActionId)>) -> bool {
    forall|i: int, j: int| 0 <= i <= j < s.len() ==> frame_key((#[trigger] s[i]).0) <= frame_key((#[trigger] s[j]).0)
}

proof fn lemma_insertion_point_splits(sorted: Seq<(JsonValue, ActionId)>, k: i64)
    requires
        frames_ordered(sorted),
    ensures
        forall|j: int| 0 <= j < insertion_point(sorted, k) ==> frame_key((#[trigger] sorted[j]).0) <= k,
        forall|j: int| insertion_point(sorted, k) <= j < sorted.len() ==> frame_key((#[trigger] sorted[j]).0) > k,
    decreases sorted.len(),
{
    lemma_insertion_point_bounds(sorted, k);
    if sorted.len() > 0 {
        let t = sorted.drop_first();
        assert(frames_ordered(t)) by {
            assert forall|i: int, j: int| 0 <= i <= j < t.len() implies frame_key((#[trigger] t[i]).0) <= frame_key((#[trigger] t[j]).0) by {
                assert(t[i] == sorted[i + 1]);
                assert(t[j] == sorted[j + 1]);
            }
        }
        lemma_insertion_point_splits(t, k);
        if frame_key(sorted[0].0) > k {
            assert forall|j: int| 0 <= j < sorted.len() implies frame_key((#[trigger] sorted[j]).0) > k by {
                assert(frame_key(sorted[0].0) <= frame_key(sorted[j].0));
            }
        } else {
            assert forall|j: int| 0 <= j < insertion_point(sorted, k) implies frame_key((#[trigger] sorted[j]).0) <= k by {
                if j > 0 {
                    assert(sorted[j] == t[j - 1]);
                }
            }
            assert forall|j: int| insertion_point(sorted, k) <= j < sorted.len() implies frame_key((#[trigger] sorted[j]).0) > k by {
                assert(sorted[j] == t[j - 1]);
            }
        }
    }
}

/// However the actions came, after ordering every action's frame key is at most that of
/// every action after it: actions without a frame come last.
pub proof fn lemma_sorted_by_frame_is_ordered(s: Seq<(JsonValue, ActionId)>)
    ensures
        frames_ordered(sorted_by_frame(s)),
    decreases s.len(),
{
    if s.len() > 0 {
        let rest = sorted_by_frame(s.drop_last());
        lemma_sorted_by_frame_is_ordered(s.drop_last());
        let x = s.last();
        let k = frame_key(x.0);
        let p = insertion_point(rest, k);
        lemma_insertion_point_splits(rest, k);
        lemma_insertion_point_bounds(rest, k);
        let out = rest.take(p).push(x) + rest.skip(p);
        assert(out == sorted_by_frame(s));
        assert forall|i: int, j: int| 0 <= i <= j < out.len() implies frame_key((#[trigger] out[i]).0) <= frame_key((#[trigger] out[j]).0) by {
            let ki = if i < p { frame_key(rest[i].0) } else if i == p { k } else { frame_key(rest[i - 1].0) };
            let kj = if j < p { frame_key(rest[j].0) } else if j == p { k } else { frame_key(rest[j - 1].0) };
            assert(frame_key(out[i].0) == ki);
            assert(frame_key(out[j].0) == kj);
            if i < p && j > p {
                assert(frame_key(rest[i].0) <= frame_key(rest[j - 1].0));
            }
            if i > p {
                assert(frame_key(rest[i - 1].0) <= frame_key(rest[j - 1].0));
            }
        }
    }
}

/// Every action of a document that orders its actions is at a frame no later than the
/// actions after it.
pub proof fn lemma_kept_actions_are_ordered(root: Seq<(String, JsonValue)>, ids: Seq<ActionId>, pairs: Seq<(JsonValue, ActionId)>)
    requires
        holds_sorted(root, ids, pairs),
    ensures
        forall|i: int, j: int|
            0 <= i <= j < action_items(root).len() ==> frame_key(#[trigger] action_items(root)[i]) <= frame_key(
                #[trigger] action_items(root)[j],
            ),
{
    lemma_sorted_by_frame_is_ordered(pairs);
    let items = action_items(root);
    assert forall|i: int, j: int| 0 <= i <= j < items.len() implies frame_key(#[trigger] items[i]) <= frame_key(#[trigger] items[j]) by {
        assert(paired(items, ids)[i].0 == items[i]);
        assert(paired(items, ids)[j].0 == items[j]);
    }
}

/// An action drafted while every identifier is below the counter gets an identifier no
/// action has, and the counter stays above every identifier.
pub proof fn lemma_drafted_ids_are_fresh(before: JobDocument, after: JobDocument, kind: String, frame: Option<i64>, d: ActionDraft)
    requires
        before.ids_below_next(),
        action_drafted(before, after, kind, frame, d),
    ensures
        forall|i: int| 0 <= i < before.ids().len() ==> #[trigger] before.ids()[i] != d.id,
        d.id.value() < after.next_id(),
        after.ids_below_next(),
{
    assert forall|i: int| 0 <= i < before.ids().len() implies #[trigger] before.ids()[i] != d.id by {
        assert(before.ids()[i].value() < before.next_id());
    }
}

} // verus!
