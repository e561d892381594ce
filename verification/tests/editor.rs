use std::path::PathBuf;

use replicator::editor::{EditorState, HISTORY_LIMIT};
use replicator::job_document::JobDocument;

#[test]
fn edits_undo_redo_and_dirty_state_follow_document_revisions() {
    let json = JobDocument::default().to_pretty_json().unwrap();
    let mut editor = EditorState::open(&json, Some(PathBuf::from("job.json"))).unwrap();
    assert!(!editor.is_dirty());
    editor.set_title("测试作业".to_string());
    let action_id = editor.add_action("Output".to_string());
    assert_eq!(editor.selected(), Some(action_id));
    assert!(editor.is_dirty());
    assert!(editor.undo());
    assert!(editor.document().actions().is_empty());
    assert!(editor.undo());
    assert_eq!(editor.document().title(), "未命名作业");
    assert!(!editor.is_dirty());
    assert!(editor.redo());
    assert!(editor.is_dirty());
}

#[test]
fn new_action_uses_the_timeline_cursor_frame() {
    let mut editor = EditorState::default();
    editor.set_cursor_frame(321);
    editor.add_action("Deploy".to_string());
    assert_eq!(editor.selected_action().unwrap().frame, Some(321));
}

#[test]
fn invalid_draft_saves_and_reopens_without_becoming_runnable() {
    let path = PathBuf::from("repl-editor-draft.json");
    let mut editor = EditorState::default();
    editor.add_action("Deploy".to_string());
    let json = editor.document().to_pretty_json().unwrap();
    editor.mark_saved(path.clone());
    assert!(!editor.is_dirty());

    let reopened = EditorState::open(&json, Some(path)).unwrap();
    assert!(reopened.document().has_errors());
    assert_eq!(reopened.document().actions().len(), 1);
}

#[test]
fn a_new_edit_after_undo_clears_redo_history() {
    let mut editor = EditorState::default();
    editor.set_title("一".to_string());
    editor.set_title("二".to_string());
    assert!(editor.undo());
    assert!(editor.can_redo());
    editor.set_title("三".to_string());
    assert!(!editor.can_redo());
}

#[test]
fn setting_the_same_text_records_nothing() {
    let mut editor = EditorState::default();
    editor.set_title("未命名作业".to_string());
    assert!(!editor.can_undo());
    editor.set_stage_name("main_01-07".to_string());
    assert!(editor.can_undo());
    assert_eq!(editor.document().stage_name(), "main_01-07");
    assert!(editor.undo());
    assert_eq!(editor.document().stage_name(), "");
    assert!(!editor.undo());
}

#[test]
fn history_keeps_the_newest_edits_only() {
    let mut editor = EditorState::default();
    for i in 0..(HISTORY_LIMIT + 5) {
        editor.set_details(format!("第 {i} 次"));
    }
    let mut undone = 0;
    while editor.undo() {
        undone += 1;
    }
    assert_eq!(undone, HISTORY_LIMIT);
    assert_eq!(editor.document().details(), "第 4 次");
}

#[test]
fn selection_follows_the_document() {
    let mut editor = EditorState::default();
    let id = editor.add_action("Output".to_string());
    editor.select(None);
    assert_eq!(editor.selected(), None);
    assert!(!editor.remove_selected());
    editor.select(Some(id));
    assert_eq!(editor.selected(), Some(id));
    let copy = editor.duplicate_selected().unwrap();
    assert_eq!(editor.selected(), Some(copy));
    assert_eq!(editor.document().actions().len(), 2);
    assert!(editor.move_selected_same_frame(-1));
    assert_eq!(editor.document().actions()[0].id, copy);
    assert!(editor.remove_selected());
    assert_eq!(editor.selected(), None);
    assert_eq!(editor.document().actions().len(), 1);
    editor.select(Some(copy));
    assert_eq!(editor.selected(), None);
}

#[test]
fn an_unchanged_draft_is_not_an_edit() {
    let mut editor = EditorState::default();
    editor.add_action("Deploy".to_string());
    let draft = editor.selected_action().unwrap();
    let revisions_before = editor.can_redo();
    assert!(editor.undo());
    assert!(editor.redo());
    editor.update_action(draft.clone()).unwrap();
    assert!(editor.can_redo() == revisions_before);
    let mut changed = draft;
    changed.frame = Some(30);
    editor.update_action(changed).unwrap();
    assert_eq!(editor.selected_action().unwrap().frame, Some(30));
    assert!(editor.undo());
    assert_eq!(editor.selected_action().unwrap().frame, Some(0));
}

#[test]
fn cursor_and_follow_mode_are_plain_settings() {
    let mut editor = EditorState::default();
    editor.set_cursor_frame(-5);
    assert_eq!(editor.cursor_frame(), 0);
    editor.set_follow_ruler(true);
    assert!(editor.follow_ruler());
    assert!(editor.is_dirty());
    editor.mark_saved(PathBuf::from("a.json"));
    assert!(!editor.is_dirty());
    assert_eq!(editor.path(), Some(&PathBuf::from("a.json")));
}

#[test]
fn roster_edits_are_undoable() {
    let mut editor = EditorState::default();
    editor.add_operator("桃金娘".to_string(), 1);
    editor.add_deferred_target("Mon3tr".to_string());
    assert!(editor.rename_operator("桃金娘", "风笛"));
    assert!(!editor.rename_operator("桃金娘", "风笛"));
    assert!(editor.rename_deferred_target("Mon3tr", "召唤物"));
    assert_eq!(editor.document().target_names(), vec!["风笛", "召唤物"]);
    assert!(editor.remove_deferred_target("召唤物"));
    assert!(editor.remove_operator("风笛"));
    assert!(editor.document().target_names().is_empty());
    assert!(editor.undo());
    assert!(editor.undo());
    assert_eq!(editor.document().target_names(), vec!["风笛", "召唤物"]);
}

#[test]
fn confirmed_frame_edit_is_one_undo_step() {
    let mut editor = EditorState::default();
    editor.add_action("Deploy".to_string());
    let mut action = editor.selected_action().unwrap();
    assert_eq!(action.frame, Some(0));

    action.frame = Some(249);
    editor.update_action(action).unwrap();
    assert_eq!(editor.selected_action().unwrap().frame, Some(249));

    assert!(editor.undo());
    assert_eq!(editor.selected_action().unwrap().frame, Some(0));
    assert!(editor.undo());
    assert!(editor.document().actions().is_empty());
}
