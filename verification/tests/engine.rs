use sound_garden::crdt::{CharId, Delta, Edit, UndoGroupId, ValueId, ValueOp};
use sound_garden::engine::{gone_values_of, lay_out, TextEngine};

fn text(e: &TextEngine) -> String {
    e.text().text().to_string()
}

fn insert(at: usize, s: &str, color: u64) -> Delta<String, String> {
    Delta::Text { range: (at, at), new_text: s.to_string(), color }
}

#[test]
fn edit_applies_text_deltas_by_range_start() {
    let mut e = TextEngine::new();
    e.edit(&[insert(0, "hello", 0)], &[None]);
    assert_eq!(text(&e), "hello");
    // Both deltas are written against "hello"; the later one in the list
    // starts first and goes first.
    let deltas = vec![
        insert(5, "!", 0),
        Delta::Text { range: (0, 1), new_text: "j".to_string(), color: 0 },
    ];
    e.edit(&deltas, &[None, None]);
    assert_eq!(text(&e), "jello!");
    assert_eq!(e.text().ids().len(), 6);
}

#[test]
fn a_text_delta_moves_by_the_length_the_earlier_ones_changed() {
    let mut e = TextEngine::new();
    e.edit(&[insert(0, "abc", 0)], &[None]);
    // "abc": "XY" before "a" shifts the delete of "c" by two.
    let deltas = vec![
        insert(0, "XY", 0),
        Delta::Text { range: (2, 3), new_text: String::new(), color: 0 },
    ];
    e.edit(&deltas, &[None, None]);
    assert_eq!(text(&e), "XYab");
}

#[test]
fn undo_then_redo_restores_a_single_edit() {
    let mut e = TextEngine::new();
    e.edit(&[insert(0, "hello", 0)], &[None]);
    assert!(e.undo().is_some());
    assert_eq!(text(&e), "");
    // Nothing is left to undo, and nothing changes.
    assert!(e.undo().is_none());
    assert_eq!(text(&e), "");
    assert!(e.redo().is_some());
    assert_eq!(text(&e), "hello");
    assert!(e.redo().is_none());
}

#[test]
fn a_new_color_opens_a_new_undo_group() {
    let mut e = TextEngine::new();
    e.edit(&[insert(0, "ab", 0)], &[None]);
    e.edit(&[insert(2, "cd", 7)], &[None]);
    assert_eq!(text(&e), "abcd");
    e.undo();
    assert_eq!(text(&e), "ab");
    e.undo();
    assert_eq!(text(&e), "");
}

#[test]
fn another_session_takes_in_an_edit() {
    let mut a = TextEngine::new();
    let mut b = TextEngine::new();
    let patch = a.edit(&[insert(0, "shared", 0)], &[None]);
    b.apply_patch(patch);
    assert_eq!(text(&b), "shared");
}

#[test]
fn meta_data_ids_go_into_the_edit() {
    let mut e = TextEngine::new();
    let deltas: Vec<Delta<String, String>> =
        vec![Delta::Value { op: ValueOp::Assign("k".to_string(), "v".to_string()), color: 0 }];
    let patch = e.edit(&deltas, &[Some(42)]);
    assert_eq!(patch.edits.len(), 1);
    assert_eq!(text(&e), "");
    let gone = e.undo().expect("an undo").1;
    assert_eq!(gone.iter().map(|v| v.0).collect::<Vec<_>>(), vec![42]);
}

fn deleting(group: u64, chars: &[u64], values: &[u64]) -> Edit {
    let mut e = Edit::new(UndoGroupId(group));
    e.char_deletes = chars.iter().map(|&c| CharId(c)).collect();
    e.value_deletes = values.iter().map(|&v| ValueId(v)).collect();
    e
}

#[test]
fn lay_out_follows_the_edges_and_leaves_out_gone_characters() {
    let cs = [(10, 'a'), (11, 'b'), (12, 'c')];
    let es = [(10, 11), (11, 12)];
    let eds = [deleting(1, &[11], &[])];
    let (ids, text) = lay_out(&cs, &es, &eds, &[]);
    assert_eq!(text, "ac");
    assert_eq!(ids, vec![CharId(10), CharId(12)]);
    // With the group undone, its deletion is undone too.
    let (ids, text) = lay_out(&cs, &es, &eds, &[1]);
    assert_eq!(text, "abc");
    assert_eq!(ids.len(), 3);
}

#[test]
fn values_deleted_by_an_edit_are_gone_unless_its_group_is_undone() {
    let eds = [deleting(1, &[], &[7])];
    assert_eq!(gone_values_of(&eds, &[]), vec![ValueId(7)]);
    assert_eq!(gone_values_of(&eds, &[1]), Vec::<ValueId>::new());
}

#[test]
fn deltas_of_one_color_join_the_open_group() {
    let mut e = TextEngine::new();
    e.edit(&[insert(0, "ab", 0)], &[None]);
    e.edit(&[insert(2, "cd", 0)], &[None]);
    assert_eq!(text(&e), "abcd");
    // Both edits joined the one open group: one undo takes out both.
    assert!(e.undo().is_some());
    assert_eq!(text(&e), "");
    assert!(e.undo().is_none());
}

#[test]
fn a_change_of_color_within_an_edit_splits_it() {
    let mut e = TextEngine::new();
    let deltas = vec![insert(0, "ab", 0), Delta::Text { range: (0, 0), new_text: "x".to_string(), color: 3 }];
    let patch = e.edit(&deltas, &[None, None]);
    assert_eq!(text(&e), "abx");
    // Two groups, each with its edit.
    assert_eq!(patch.edits.len(), 2);
    e.undo();
    assert_eq!(text(&e), "ab");
    e.undo();
    assert_eq!(text(&e), "");
}

#[test]
fn an_edit_leaves_nothing_to_redo() {
    let mut e = TextEngine::new();
    e.edit(&[insert(0, "ab", 0)], &[None]);
    e.undo();
    e.edit(&[insert(0, "z", 0)], &[None]);
    assert_eq!(text(&e), "z");
    assert!(e.redo().is_none());
    assert_eq!(text(&e), "z");
}

#[test]
fn undoing_a_delete_brings_the_characters_back() {
    let mut e = TextEngine::new();
    e.edit(&[insert(0, "abc", 0)], &[None]);
    e.edit(&[Delta::<String, String>::Text { range: (1, 2), new_text: String::new(), color: 5 }], &[None]);
    assert_eq!(text(&e), "ac");
    e.undo();
    assert_eq!(text(&e), "abc");
}
