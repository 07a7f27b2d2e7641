use ropey::Rope;
use rust_editor::{Change, Changes, History, Selection};

fn add(index: usize, content: &str) -> Change {
    Change::Addition(index, content.into())
}

fn del(index: usize, content: &str) -> Change {
    Change::Removal(index, content.into())
}

fn test_record(contents: &mut Rope, change: &Change, expected: &str) {
    change.apply(contents);
    assert_eq!(contents, expected);
}

fn test_seek(contents: &mut Rope, changes: &Changes, expected: &str) {
    changes.apply(contents);
    assert_eq!(contents, expected);
}

#[test]
fn kitchen_sink() {
    let mut c = Rope::new();
    let mut h = History::default();
    test_record(&mut c, h.record(add(0, "hello world")), "hello world");
    test_record(&mut c, h.record(del(6, "world")), "hello ");
    h.commit();
    test_record(&mut c, h.record(add(6, "there")), "hello there");
    h.commit();
    test_record(&mut c, h.record(add(11, " yall")), "hello there yall");
    test_seek(&mut c, h.backward().unwrap(), "hello there");
    test_record(&mut c, h.record(del(9, "re")), "hello the");
    test_seek(&mut c, h.backward().unwrap(), "hello there");
    test_seek(&mut c, h.backward().unwrap(), "hello ");
    test_seek(&mut c, h.backward().unwrap(), "");
    assert_eq!(h.backward(), None);
    test_seek(&mut c, h.forward().unwrap(), "hello ");
    test_seek(&mut c, h.forward().unwrap(), "hello there");
    test_seek(&mut c, h.forward().unwrap(), "hello the");
    assert_eq!(h.forward(), None);
    test_seek(&mut c, h.backward().unwrap(), "hello there");
    test_seek(&mut c, h.backward().unwrap(), "hello ");
    test_record(&mut c, h.record(add(6, "friends")), "hello friends");
    test_record(
        &mut c,
        h.record(add(13, " and countrymen")),
        "hello friends and countrymen",
    );
    h.commit();
    test_seek(&mut c, h.backward().unwrap(), "hello ");
    test_seek(&mut c, h.forward().unwrap(), "hello friends and countrymen");
}

#[test]
fn invert_swaps_addition_and_removal() {
    assert_eq!(add(3, "abc").invert(), del(3, "abc"));
    assert_eq!(del(0, "x").invert(), add(0, "x"));
    assert_eq!(add(3, "abc").invert().invert(), add(3, "abc"));
}

#[test]
fn a_change_leaves_a_selection_at_its_place() {
    let mut c = Rope::from_str("hello");
    assert_eq!(add(2, "abc").apply(&mut c), Selection::new_at_end(2, 4));
    assert_eq!(c, "heabcllo");
    assert_eq!(del(1, "eab").apply(&mut c), Selection::new_at_end(1, 1));
    assert_eq!(c, "hcllo");
    assert_eq!(add(5, "").apply(&mut c), Selection::new_at_end(5, 5));
    assert_eq!(c, "hcllo");
}

#[test]
fn a_batch_inverts_in_reverse_order() {
    let mut batch = Changes::default();
    assert_eq!(batch.push(add(0, "ab")), &add(0, "ab"));
    assert_eq!(batch.push(del(1, "b")), &del(1, "b"));
    batch.push(add(1, "xyz"));
    let mut expected = Changes::default();
    expected.push(del(1, "xyz"));
    expected.push(add(1, "b"));
    expected.push(del(0, "ab"));
    let inverse = batch.invert();
    assert_eq!(inverse, expected);
    let mut c = Rope::from_str("axyz");
    inverse.apply(&mut c);
    assert_eq!(c, "");
}

#[test]
fn a_batch_leaves_the_selections_of_its_changes() {
    let mut batch = Changes::default();
    batch.push(add(0, "ab"));
    batch.push(add(6, "cd"));
    batch.push(del(4, "x"));
    let mut c = Rope::from_str("01x23");
    let selections = batch.apply(&mut c);
    assert_eq!(c, "ab012cd3");
    assert_eq!(
        selections,
        vec![
            Selection::new_at_end(0, 1),
            Selection::new_at_end(4, 4),
            Selection::new_at_end(5, 6),
        ]
    );
    assert_eq!(Changes::default().apply(&mut c), vec![]);
}

#[test]
fn commit_without_pending_changes_keeps_what_can_be_redone() {
    let mut c = Rope::new();
    let mut h = History::default();
    h.commit();
    assert_eq!(h.backward(), None);
    test_record(&mut c, h.record(add(0, "a")), "a");
    h.commit();
    test_seek(&mut c, h.backward().unwrap(), "");
    h.commit();
    test_seek(&mut c, h.forward().unwrap(), "a");
    assert_eq!(h.forward(), None);
}

#[test]
fn a_recorded_change_forgets_what_was_undone() {
    let mut c = Rope::new();
    let mut h = History::default();
    test_record(&mut c, h.record(add(0, "a")), "a");
    h.commit();
    test_seek(&mut c, h.backward().unwrap(), "");
    test_record(&mut c, h.record(add(0, "b")), "b");
    assert_eq!(h.forward(), None);
    test_seek(&mut c, h.backward().unwrap(), "");
    assert_eq!(h.backward(), None);
    test_seek(&mut c, h.forward().unwrap(), "b");
}
