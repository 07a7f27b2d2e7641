use ropey::Rope;
use rust_editor::{copy, paste, redo, undo, Buffer, Op, Selection};

fn buffer_with(text: &str) -> Buffer {
    Buffer::new_from_contents("scratch.txt".to_string(), Rope::from_str(text))
}

#[test]
fn scratch_buffer_is_empty() {
    let buffer = Buffer::new_scratch();
    assert_eq!(buffer.contents(), "");
    assert_eq!(buffer.selections(), &vec![Selection::new_at_end(0, 0)]);
    assert_eq!(buffer.primary_index(), 0);
    assert_eq!(buffer.primary_selection(), &Selection::new_at_end(0, 0));
    assert_eq!(buffer.filename(), None);
}

#[test]
fn buffer_from_contents_keeps_name_and_text() {
    let buffer = buffer_with("hello");
    assert_eq!(buffer.contents(), "hello");
    assert_eq!(buffer.filename(), Some(&"scratch.txt".to_string()));
    assert_eq!(buffer.selections(), &vec![Selection::new_at_end(0, 0)]);
}

#[test]
fn insert_undo_redo() {
    let mut buffer = buffer_with("hello world");
    buffer.apply_operations(&[Op::InsertStr("> ")]);
    assert_eq!(buffer.contents(), "> hello world");
    assert_eq!(buffer.selections(), &vec![Selection::new_at_end(2, 2)]);
    undo(&mut buffer);
    assert_eq!(buffer.contents(), "hello world");
    assert_eq!(buffer.selections(), &vec![Selection::new_at_end(0, 0)]);
    redo(&mut buffer);
    assert_eq!(buffer.contents(), "> hello world");
    assert_eq!(buffer.selections(), &vec![Selection::new_at_end(0, 1)]);
}

#[test]
fn one_call_is_one_undo_step() {
    let mut buffer = buffer_with("abc def");
    buffer.set_selections(vec![Selection::new_at_end(0, 2), Selection::new_at_end(4, 6)]);
    buffer.apply_operations(&[Op::InsertChar('x'), Op::InsertChar('y'), Op::Remove]);
    assert_eq!(buffer.contents(), "abxc dexf");
    undo(&mut buffer);
    assert_eq!(buffer.contents(), "abc def");
    undo(&mut buffer);
    assert_eq!(buffer.contents(), "abc def");
}

#[test]
fn two_calls_are_two_undo_steps() {
    let mut buffer = buffer_with("abc");
    buffer.apply_operations(&[Op::InsertChar('x')]);
    buffer.apply_operations(&[Op::InsertChar('y')]);
    assert_eq!(buffer.contents(), "xyabc");
    undo(&mut buffer);
    assert_eq!(buffer.contents(), "xabc");
    undo(&mut buffer);
    assert_eq!(buffer.contents(), "abc");
    redo(&mut buffer);
    redo(&mut buffer);
    assert_eq!(buffer.contents(), "xyabc");
}

#[test]
fn undo_then_redo_restores_the_text() {
    let mut buffer = buffer_with("one two three");
    buffer.set_selections(vec![
        Selection::new_at_end(0, 2),
        Selection::new_at_start(4, 6),
        Selection::new_at_end(8, 12),
    ]);
    buffer.apply_operations(&[Op::RemoveAll, Op::InsertStr("<>"), Op::MoveByChar(-1), Op::Remove]);
    let after = buffer.contents().to_string();
    undo(&mut buffer);
    assert_eq!(buffer.contents(), "one two three");
    redo(&mut buffer);
    assert_eq!(buffer.contents().to_string(), after);
}

#[test]
fn new_edits_forget_what_was_undone() {
    let mut buffer = buffer_with("abc");
    buffer.apply_operations(&[Op::InsertChar('x')]);
    undo(&mut buffer);
    assert_eq!(buffer.contents(), "abc");
    buffer.apply_operations(&[Op::InsertChar('y')]);
    assert_eq!(buffer.contents(), "yabc");
    redo(&mut buffer);
    assert_eq!(buffer.contents(), "yabc");
}

#[test]
fn undo_and_redo_without_history_do_nothing() {
    let mut buffer = buffer_with("abc");
    undo(&mut buffer);
    redo(&mut buffer);
    assert_eq!(buffer.contents(), "abc");
    assert_eq!(buffer.selections(), &vec![Selection::new_at_end(0, 0)]);
}

#[test]
fn moves_leave_no_undo_step() {
    let mut buffer = buffer_with("abc");
    buffer.apply_operations(&[Op::InsertChar('x')]);
    buffer.apply_operations(&[Op::MoveByChar(1), Op::Swap]);
    undo(&mut buffer);
    assert_eq!(buffer.contents(), "abc");
}

#[test]
fn edits_shift_the_selections_behind() {
    let mut buffer = buffer_with("0123456789");
    buffer.set_selections(vec![Selection::new_at_end(0, 0), Selection::new_at_end(5, 6)]);
    buffer.apply_operations(&[Op::InsertStr("ab")]);
    assert_eq!(buffer.contents(), "ab012345ab6789");
    assert_eq!(
        buffer.selections(),
        &vec![Selection::new_at_end(2, 2), Selection::new_at_end(7, 10)]
    );
}

#[test]
fn set_selections_orders_and_merges() {
    let mut buffer = buffer_with("0123456789abcdef");
    buffer.set_selections(vec![
        Selection::new_at_end(5, 8),
        Selection::new_at_end(0, 3),
        Selection::new_at_end(2, 6),
        Selection::new_at_end(10, 12),
    ]);
    assert_eq!(
        buffer.selections(),
        &vec![Selection::new_at_end(0, 8), Selection::new_at_end(10, 12)]
    );
}

#[test]
fn set_selections_refuses_an_empty_list() {
    let mut buffer = buffer_with("0123456789");
    buffer.set_selections(vec![Selection::new_at_end(3, 4)]);
    buffer.set_selections(vec![]);
    assert_eq!(buffer.selections(), &vec![Selection::new_at_end(3, 4)]);
}

#[test]
fn set_selections_clamps_the_primary_index() {
    let mut buffer = buffer_with("0123456789");
    buffer.set_selections(vec![
        Selection::new_at_end(0, 0),
        Selection::new_at_end(2, 2),
        Selection::new_at_end(4, 4),
    ]);
    buffer.set_primary_selection(2);
    assert_eq!(buffer.primary_index(), 2);
    assert_eq!(buffer.primary_selection(), &Selection::new_at_end(4, 4));
    buffer.set_selections(vec![Selection::new_at_end(0, 1), Selection::new_at_end(1, 2)]);
    assert_eq!(buffer.selections(), &vec![Selection::new_at_end(0, 2)]);
    assert_eq!(buffer.primary_index(), 0);
    buffer.set_primary_selection(7);
    assert_eq!(buffer.primary_index(), 0);
}

#[test]
fn operations_leave_the_selections_in_order() {
    let mut buffer = buffer_with("0123456789");
    buffer.set_selections(vec![
        Selection::new_at_end(0, 1),
        Selection::new_at_end(3, 4),
        Selection::new_at_end(6, 9),
    ]);
    buffer.apply_operations(&[Op::MoveByChar(-3)]);
    assert_eq!(
        buffer.selections(),
        &vec![
            Selection::new_at_end(0, 0),
            Selection::new_at_start(1, 3),
            Selection::new_at_end(6, 6),
        ]
    );
    buffer.apply_operations(&[Op::MoveByChar(-1), Op::Swap, Op::MoveByChar(4)]);
    assert_eq!(buffer.selections(), &vec![Selection::new_at_end(0, 10)]);
    for pair in buffer.selections().windows(2) {
        assert!(pair[0].end() < pair[1].start());
    }
}

#[test]
fn repeated_removal_keeps_every_cursor_in_the_text() {
    let mut buffer = buffer_with("0123456789abc");
    buffer.set_selections(vec![Selection::new_at_end(0, 11), Selection::new_at_end(13, 13)]);
    buffer.apply_operations(&[Op::Remove, Op::Remove, Op::InsertChar('x')]);
    let len = buffer.contents().len_chars();
    for selection in buffer.selections().iter() {
        assert!(selection.end() <= len);
    }
    let after = buffer.contents().to_string();
    undo(&mut buffer);
    assert_eq!(buffer.contents(), "0123456789abc");
    redo(&mut buffer);
    assert_eq!(buffer.contents().to_string(), after);
}

#[test]
fn copy_starts_with_the_primary_selection() {
    let mut buffer = buffer_with("abc def ghi");
    buffer.set_selections(vec![
        Selection::new_at_end(0, 2),
        Selection::new_at_end(4, 6),
        Selection::new_at_end(8, 10),
    ]);
    assert_eq!(copy(&buffer), vec!["abc", "def", "ghi"]);
    buffer.set_primary_selection(1);
    assert_eq!(copy(&buffer), vec!["def", "ghi", "abc"]);
}

#[test]
fn paste_inserts_one_piece_for_each_selection() {
    let mut buffer = buffer_with("abc def");
    buffer.set_selections(vec![Selection::new_at_end(0, 2), Selection::new_at_end(4, 6)]);
    paste(&mut buffer, &["X".to_string(), "Y".to_string()]);
    assert_eq!(buffer.contents(), "abXc deYf");
    assert_eq!(
        buffer.selections(),
        &vec![Selection::new_at_end(0, 3), Selection::new_at_end(5, 8)]
    );
    undo(&mut buffer);
    assert_eq!(buffer.contents(), "abc def");
}

#[test]
fn paste_with_fewer_pieces_leaves_the_other_selections() {
    let mut buffer = buffer_with("abc def");
    buffer.set_selections(vec![Selection::new_at_end(0, 2), Selection::new_at_end(4, 6)]);
    buffer.set_primary_selection(1);
    paste(&mut buffer, &["Y".to_string()]);
    assert_eq!(buffer.contents(), "abc deYf");
    assert_eq!(
        buffer.selections(),
        &vec![Selection::new_at_end(0, 2), Selection::new_at_end(4, 7)]
    );
}

#[test]
fn paste_with_more_pieces_drops_the_rest() {
    let mut buffer = buffer_with("abc");
    buffer.set_selections(vec![Selection::new_at_start(1, 2)]);
    paste(&mut buffer, &["X".to_string(), "Y".to_string(), "Z".to_string()]);
    assert_eq!(buffer.contents(), "aXbc");
}

#[test]
fn paste_of_nothing_changes_nothing() {
    let mut buffer = buffer_with("abc");
    paste(&mut buffer, &[]);
    assert_eq!(buffer.contents(), "abc");
    undo(&mut buffer);
    assert_eq!(buffer.contents(), "abc");
}

#[test]
fn what_was_undone_stays_to_be_redone_after_a_move() {
    let mut buffer = buffer_with("");
    buffer.apply_operations(&[Op::InsertChar('a')]);
    undo(&mut buffer);
    assert_eq!(buffer.contents(), "");
    buffer.apply_operations(&[Op::Swap]);
    undo(&mut buffer);
    assert_eq!(buffer.contents(), "");
    redo(&mut buffer);
    assert_eq!(buffer.contents(), "a");
}
