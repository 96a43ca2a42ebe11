use sound_garden::crdt::{
    delta_order, gone, thread, CharId, Edit, TextState, UndoGroupId, UndoHistory, ValueId, END_ID, START_ID,
};

#[test]
fn replacing_text_keeps_ids_in_step() {
    let mut t = TextState::new();
    let rep = t.replace(0, 0, "héllo");
    assert_eq!(rep.inserted.len(), 5);
    assert_eq!((rep.before, rep.after), (CharId(START_ID), CharId(END_ID)));
    assert_eq!(t.text().to_string(), "héllo");
    assert_eq!(t.ids(), &rep.inserted);
    let ids = rep.inserted.clone();
    let rep = t.replace(1, 3, "a");
    assert_eq!(t.text().to_string(), "halo");
    assert_eq!(rep.deleted, vec![ids[1], ids[2]]);
    assert_eq!((rep.before, rep.after), (ids[0], ids[3]));
    assert_eq!(t.len(), 4);
    assert!(t.ids().iter().all(|id| id.0 != START_ID && id.0 != END_ID));
}

#[test]
fn deltas_shift_by_earlier_changes() {
    let mut t = TextState::from_parts("abcdef".to_string(), (10..16).map(CharId).collect()).unwrap();
    let mut shift: isize = 0;
    assert!(t.apply_delta(&mut shift, (1, 2), "XYZ").is_some());
    assert_eq!(shift, 2);
    assert!(t.apply_delta(&mut shift, (4, 6), "").is_some());
    assert_eq!(t.text().to_string(), "aXYZcd");
    assert_eq!(shift, 0);
    assert!(t.apply_delta(&mut shift, (7, 8), "q").is_none());
    assert_eq!(t.text().to_string(), "aXYZcd");
}

#[test]
fn mismatched_parts_are_refused() {
    assert!(TextState::from_parts("ab".to_string(), vec![CharId(5)]).is_none());
}

#[test]
fn new_characters_are_threaded_between_their_neighbours() {
    let (a, b, x, y) = (CharId(7), CharId(8), CharId(20), CharId(21));
    assert_eq!(thread(a, &[x, y], b), vec![(a, x), (x, y), (x, y), (y, b)]);
    assert_eq!(thread(CharId(START_ID), &[x], CharId(END_ID)), vec![]);
    assert_eq!(thread(a, &[], b), vec![]);
}

#[test]
fn deltas_apply_in_stable_order_of_key() {
    assert_eq!(delta_order(&[5, 0, 3, 0, 5]), vec![1, 3, 2, 0, 4]);
    assert_eq!(delta_order(&[]), Vec::<usize>::new());
}

#[test]
fn undo_and_redo_move_groups_between_stacks() {
    let mut h = UndoHistory::new();
    let first = h.begin_edit();
    let second = h.recolor(3).unwrap();
    assert!(h.recolor(3).is_none());
    assert_eq!(h.undo(), Some(second));
    assert_eq!(h.undo(), Some(first));
    assert_eq!(h.undo(), None);
    assert_eq!(h.redo(), Some(first));
    assert_eq!(h.redo(), Some(second));
    assert_eq!(h.redo(), None);
    let _ = h.undo();
    let _ = h.begin_edit();
    assert_eq!(h.redo(), None);
}

#[test]
fn undone_edits_lose_their_inserts_and_keep_their_deletes() {
    let g1 = UndoGroupId(1);
    let g2 = UndoGroupId(2);
    let mut e1 = Edit::new(g1);
    e1.char_inserts = vec![CharId(10)];
    e1.char_deletes = vec![CharId(11)];
    e1.value_inserts = vec![ValueId(5)];
    let mut e2 = Edit::new(g2);
    e2.char_inserts = vec![CharId(12)];
    e2.char_deletes = vec![CharId(13)];
    e2.value_deletes = vec![ValueId(6)];
    assert!(!e1.is_empty());
    assert!(Edit::new(g1).is_empty());
    let (chars, values) = gone(&[e1, e2], &[g1]);
    assert_eq!(chars, vec![CharId(10), CharId(13)]);
    assert_eq!(values, vec![ValueId(5), ValueId(6)]);
}
