use ropey::Rope;
use rust_editor::{merge_overlapping_selections, step, Change, Op, Selection, Side};

#[test]
fn constructors_set_bounds_and_side() {
    let a = Selection::new_at_start(2, 7);
    assert_eq!(a.start(), 2);
    assert_eq!(a.end(), 7);
    assert_eq!(a.side(), Side::Start);
    assert_eq!(a.cursor(), 2);
    assert_eq!(a.size(), 6);
    let b = Selection::new_at_end(2, 7);
    assert_eq!(b.side(), Side::End);
    assert_eq!(b.cursor(), 7);
    assert_eq!(Selection::new_at_end(4, 4).size(), 1);
}

#[test]
fn try_merge_overlapping() {
    let a = Selection::new_at_end(0, 5);
    let b = Selection::new_at_end(3, 8);
    assert_eq!(a.try_merge(&b), Some(Selection::new_at_end(0, 8)));
    assert_eq!(b.try_merge(&a), Some(Selection::new_at_end(0, 8)));
}

#[test]
fn try_merge_apart() {
    let a = Selection::new_at_end(0, 2);
    let b = Selection::new_at_end(4, 6);
    assert_eq!(a.try_merge(&b), None);
    assert_eq!(b.try_merge(&a), None);
}

#[test]
fn try_merge_touching() {
    let a = Selection::new_at_end(0, 3);
    let b = Selection::new_at_end(3, 5);
    assert_eq!(a.try_merge(&b), Some(Selection::new_at_end(0, 5)));
}

#[test]
fn try_merge_contained_keeps_the_larger_end() {
    let a = Selection::new_at_start(0, 9);
    let b = Selection::new_at_start(3, 5);
    assert_eq!(a.try_merge(&b), Some(Selection::new_at_end(0, 9)));
}

#[test]
fn step_moves_and_clamps() {
    assert_eq!(step(10, 5, 3), 8);
    assert_eq!(step(10, 5, 100), 10);
    assert_eq!(step(10, 5, -2), 3);
    assert_eq!(step(10, 5, -7), 0);
    assert_eq!(step(10, 5, 0), 5);
    assert_eq!(step(10, 5, isize::MIN), 0);
    assert_eq!(step(usize::MAX, usize::MAX, isize::MIN), usize::MAX / 2);
    assert_eq!(step(10, 5, isize::MAX), 10);
}

#[test]
fn adjust_after_addition_before_a_selection() {
    let contents = Rope::from_str("01abc23456789xyz");
    let change = Change::Addition(2, "abc".into());
    let mut a = Selection::new_at_end(0, 0);
    let mut b = Selection::new_at_end(10, 10);
    a.adjust(&contents, Some(&change));
    b.adjust(&contents, Some(&change));
    assert_eq!(a, Selection::new_at_end(0, 0));
    assert_eq!(b, Selection::new_at_end(13, 13));
}

#[test]
fn adjust_after_addition_at_a_bound_shifts_it() {
    let contents = Rope::from_str("0123456789");
    let change = Change::Addition(2, "ab".into());
    let mut a = Selection::new_at_start(2, 4);
    a.adjust(&contents, Some(&change));
    assert_eq!(a, Selection::new_at_start(4, 6));
}

#[test]
fn adjust_after_removal() {
    let contents = Rope::from_str("0123456789");
    let change = Change::Removal(2, "abc".into());
    let mut behind = Selection::new_at_end(10, 10);
    behind.adjust(&contents, Some(&change));
    assert_eq!(behind, Selection::new_at_end(7, 7));
    let mut inside = Selection::new_at_start(3, 4);
    inside.adjust(&contents, Some(&change));
    assert_eq!(inside, Selection::new_at_end(2, 2));
    let mut across = Selection::new_at_start(1, 6);
    across.adjust(&contents, Some(&change));
    assert_eq!(across, Selection::new_at_start(1, 3));
    let mut before = Selection::new_at_start(0, 1);
    before.adjust(&contents, Some(&change));
    assert_eq!(before, Selection::new_at_start(0, 1));
    let mut at_removed_end = Selection::new_at_end(5, 5);
    at_removed_end.adjust(&contents, Some(&change));
    assert_eq!(at_removed_end, Selection::new_at_end(2, 2));
}

#[test]
fn adjust_without_change_clamps_to_the_text() {
    let contents = Rope::from_str("abc");
    let mut a = Selection::new_at_start(1, 10);
    a.adjust(&contents, None);
    assert_eq!(a, Selection::new_at_start(1, 3));
    let mut b = Selection::new_at_start(7, 10);
    b.adjust(&contents, None);
    assert_eq!(b, Selection::new_at_end(3, 3));
}

#[test]
fn adjust_puts_crossed_bounds_in_order() {
    let contents = Rope::from_str("0123456789");
    let mut a = Selection::new_at_start(7, 3);
    a.adjust(&contents, None);
    assert_eq!(a, Selection::new_at_end(3, 7));
    let mut b = Selection::new_at_end(7, 3);
    b.adjust(&contents, None);
    assert_eq!(b, Selection::new_at_start(3, 7));
}

#[test]
fn swap_flips_the_cursor() {
    let mut contents = Rope::from_str("0123456789");
    let mut a = Selection::new_at_end(2, 5);
    assert_eq!(a.apply_operation(&mut contents, Op::Swap), None);
    assert_eq!(a, Selection::new_at_start(2, 5));
    assert_eq!(a.cursor(), 2);
}

#[test]
fn collapse_snaps_the_anchor_to_the_cursor() {
    let mut contents = Rope::from_str("0123456789");
    let mut a = Selection::new_at_end(2, 5);
    assert_eq!(a.apply_operation(&mut contents, Op::Collapse), None);
    assert_eq!(a, Selection::new_at_end(5, 5));
    let mut b = Selection::new_at_start(2, 5);
    assert_eq!(b.apply_operation(&mut contents, Op::Collapse), None);
    assert_eq!(b, Selection::new_at_end(2, 2));
}

#[test]
fn move_by_char_clamps_and_flips() {
    let mut contents = Rope::from_str("0123456789");
    let mut a = Selection::new_at_end(2, 5);
    a.apply_operation(&mut contents, Op::MoveByChar(3));
    assert_eq!(a, Selection::new_at_end(2, 8));
    a.apply_operation(&mut contents, Op::MoveByChar(100));
    assert_eq!(a, Selection::new_at_end(2, 10));
    a.apply_operation(&mut contents, Op::MoveByChar(-9));
    assert_eq!(a, Selection::new_at_start(1, 2));
    a.apply_operation(&mut contents, Op::MoveByChar(-9));
    assert_eq!(a, Selection::new_at_start(0, 2));
}

#[test]
fn move_by_line_keeps_the_column() {
    let mut contents = Rope::from_str("ab\ncdef\ng");
    let mut a = Selection::new_at_end(1, 1);
    assert_eq!(a.cursor_line(&contents), 0);
    a.apply_operation(&mut contents, Op::MoveByLine(1));
    assert_eq!((a.start(), a.end(), a.side()), (1, 4, Side::End));
    a.apply_operation(&mut contents, Op::MoveByLine(1));
    assert_eq!((a.start(), a.end(), a.side()), (1, 8, Side::End));
    assert_eq!(a.cursor_line(&contents), 2);
    a.apply_operation(&mut contents, Op::MoveByLine(1));
    assert_eq!((a.start(), a.end(), a.side()), (1, 8, Side::End));
    a.apply_operation(&mut contents, Op::MoveByLine(-1));
    assert_eq!((a.start(), a.end(), a.side()), (1, 4, Side::End));
    a.apply_operation(&mut contents, Op::MoveByLine(-5));
    assert_eq!((a.start(), a.end(), a.side()), (1, 1, Side::End));
}

#[test]
fn cursor_line_of_an_empty_text_is_zero() {
    let contents = Rope::new();
    assert_eq!(Selection::new_at_end(0, 0).cursor_line(&contents), 0);
    assert_eq!(Selection::new_at_end(0, 5).cursor_line(&contents), 0);
}

#[test]
fn cursor_line_past_the_end_is_the_line_count() {
    let contents = Rope::from_str("a\nb");
    assert_eq!(Selection::new_at_end(0, 9).cursor_line(&contents), 2);
    assert_eq!(Selection::new_at_end(0, 3).cursor_line(&contents), 1);
}

#[test]
fn insert_char_at_the_cursor() {
    let mut contents = Rope::from_str("hello");
    let mut a = Selection::new_at_end(1, 3);
    let change = a.apply_operation(&mut contents, Op::InsertChar('X'));
    assert_eq!(change, Some(Change::Addition(3, "X".into())));
    assert_eq!(contents, "helXlo");
    assert_eq!(a, Selection::new_at_end(1, 4));
}

#[test]
fn insert_str_at_the_cursor() {
    let mut contents = Rope::from_str("hello");
    let mut a = Selection::new_at_start(1, 3);
    let change = a.apply_operation(&mut contents, Op::InsertStr("ab"));
    assert_eq!(change, Some(Change::Addition(1, "ab".into())));
    assert_eq!(contents, "habello");
    assert_eq!(a, Selection::new_at_start(3, 5));
}

#[test]
fn insert_past_the_end_edits_nothing() {
    let mut contents = Rope::from_str("abc");
    let mut a = Selection::new_at_end(1, 9);
    assert_eq!(a.apply_operation(&mut contents, Op::InsertChar('X')), None);
    assert_eq!(contents, "abc");
    assert_eq!(a, Selection::new_at_end(1, 3));
}

#[test]
fn remove_deletes_the_char_before_the_cursor() {
    let mut contents = Rope::from_str("hello");
    let mut a = Selection::new_at_end(1, 3);
    let change = a.apply_operation(&mut contents, Op::Remove);
    assert_eq!(change, Some(Change::Removal(2, "l".into())));
    assert_eq!(contents, "helo");
    assert_eq!(a, Selection::new_at_end(1, 2));
}

#[test]
fn remove_at_the_start_of_the_text_does_nothing() {
    let mut contents = Rope::from_str("hello");
    let mut a = Selection::new_at_start(0, 3);
    assert_eq!(a.apply_operation(&mut contents, Op::Remove), None);
    assert_eq!(contents, "hello");
    assert_eq!(a, Selection::new_at_start(0, 3));
}

#[test]
fn remove_all_deletes_the_span() {
    let mut contents = Rope::from_str("hello world");
    let mut a = Selection::new_at_end(2, 6);
    let change = a.apply_operation(&mut contents, Op::RemoveAll);
    assert_eq!(change, Some(Change::Removal(2, "llo w".into())));
    assert_eq!(contents, "heorld");
    assert_eq!(a, Selection::new_at_end(2, 2));
}

#[test]
fn remove_all_stops_at_the_end_of_the_text() {
    let mut contents = Rope::from_str("hello");
    let mut a = Selection::new_at_end(3, 5);
    let change = a.apply_operation(&mut contents, Op::RemoveAll);
    assert_eq!(change, Some(Change::Removal(3, "lo".into())));
    assert_eq!(contents, "hel");
    assert_eq!(a, Selection::new_at_end(3, 3));
    let mut b = Selection::new_at_end(3, 3);
    assert_eq!(b.apply_operation(&mut contents, Op::RemoveAll), None);
    assert_eq!(contents, "hel");
}

#[test]
fn slice_gives_the_covered_text() {
    let contents = Rope::from_str("hello world");
    assert_eq!(Selection::new_at_end(0, 4).slice(&contents), "hello");
    assert_eq!(Selection::new_at_end(6, 20).slice(&contents), "world");
    assert_eq!(Selection::new_at_end(11, 11).slice(&contents), "");
    assert_eq!(Selection::new_at_end(0, 0).slice(&Rope::new()), "");
}

#[test]
fn merge_sorts_and_merges() {
    let mut selections = vec![
        Selection::new_at_end(5, 8),
        Selection::new_at_start(0, 3),
        Selection::new_at_end(2, 6),
        Selection::new_at_start(10, 12),
    ];
    merge_overlapping_selections(&mut selections);
    assert_eq!(
        selections,
        vec![Selection::new_at_end(0, 8), Selection::new_at_start(10, 12)]
    );
}

#[test]
fn merge_keeps_separate_selections() {
    let mut selections = vec![
        Selection::new_at_start(4, 5),
        Selection::new_at_end(0, 2),
        Selection::new_at_end(7, 9),
    ];
    merge_overlapping_selections(&mut selections);
    assert_eq!(
        selections,
        vec![
            Selection::new_at_end(0, 2),
            Selection::new_at_start(4, 5),
            Selection::new_at_end(7, 9),
        ]
    );
}

#[test]
fn merge_of_an_empty_list_is_empty() {
    let mut selections: Vec<Selection> = vec![];
    merge_overlapping_selections(&mut selections);
    assert!(selections.is_empty());
}

#[test]
fn merge_result_is_sorted_and_separated() {
    let mut selections = vec![
        Selection::new_at_end(9, 9),
        Selection::new_at_end(3, 3),
        Selection::new_at_end(4, 4),
        Selection::new_at_end(0, 1),
        Selection::new_at_end(20, 30),
        Selection::new_at_end(25, 26),
        Selection::new_at_end(6, 7),
    ];
    merge_overlapping_selections(&mut selections);
    for pair in selections.windows(2) {
        assert!(pair[0].start() <= pair[1].start());
        assert!(pair[0].end() < pair[1].start());
    }
    assert_eq!(selections.len(), 6);
}

#[test]
fn move_by_line_from_past_the_end_comes_back_into_the_text() {
    let mut contents = Rope::from_str("a\nb");
    let mut a = Selection::new_at_end(0, 9);
    a.apply_operation(&mut contents, Op::MoveByLine(-1));
    assert_eq!((a.start(), a.end(), a.side()), (0, 2, Side::End));
    let mut b = Selection::new_at_end(0, 9);
    b.apply_operation(&mut contents, Op::MoveByLine(1));
    assert_eq!((b.start(), b.end(), b.side()), (0, 3, Side::End));
}

#[test]
fn a_text_that_ends_with_a_line_break_has_an_empty_last_line() {
    let mut contents = Rope::from_str("ab\n");
    let mut a = Selection::new_at_end(1, 1);
    assert_eq!(Selection::new_at_end(3, 3).cursor_line(&contents), 1);
    a.apply_operation(&mut contents, Op::MoveByLine(1));
    assert_eq!((a.start(), a.end(), a.side()), (1, 3, Side::End));
    a.apply_operation(&mut contents, Op::MoveByLine(1));
    assert_eq!((a.start(), a.end(), a.side()), (1, 3, Side::End));
    a.apply_operation(&mut contents, Op::MoveByLine(-1));
    assert_eq!((a.start(), a.end(), a.side()), (1, 1, Side::End));
}

#[test]
fn the_remembered_column_lasts_only_through_vertical_moves() {
    let mut contents = Rope::from_str("abc\nd\nefg");
    let mut a = Selection::new_at_end(2, 2);
    a.apply_operation(&mut contents, Op::MoveByLine(1));
    assert_eq!((a.start(), a.end()), (2, 5));
    a.apply_operation(&mut contents, Op::MoveByLine(1));
    assert_eq!((a.start(), a.end()), (2, 8));
    let mut b = Selection::new_at_end(2, 2);
    b.apply_operation(&mut contents, Op::MoveByLine(1));
    b.apply_operation(&mut contents, Op::Collapse);
    assert_eq!(b, Selection::new_at_end(5, 5));
    b.apply_operation(&mut contents, Op::MoveByLine(1));
    assert_eq!((b.start(), b.end()), (5, 7));
    let mut c = Selection::new_at_end(2, 2);
    c.apply_operation(&mut contents, Op::MoveByLine(1));
    c.apply_operation(&mut contents, Op::Swap);
    c.apply_operation(&mut contents, Op::Swap);
    assert_eq!(c, Selection::new_at_end(2, 5));
    let mut d = Selection::new_at_end(2, 2);
    d.apply_operation(&mut contents, Op::MoveByLine(1));
    d.apply_operation(&mut contents, Op::MoveByChar(0));
    assert_eq!(d, Selection::new_at_end(2, 5));
}
