use ropey::Rope;
use rust_editor::mode::{filter, search, seek, split};
use rust_editor::regex::char_matches;
use rust_editor::{Buffer, ModeResult, Regex, Selection};

#[test]
fn regex_refuses_a_broken_pattern() {
    assert!(Regex::new("(").is_none());
    assert!(Regex::new("a+").is_some());
}

#[test]
fn find_gives_char_indices_with_both_ends() {
    let contents = Rope::from_str("foo1 foo12 foo123");
    let regex = Regex::new("foo[0-9]+").unwrap();
    assert_eq!(regex.find(&contents, 0, 16), vec![(0, 3), (5, 9), (11, 16)]);
    assert_eq!(regex.find(&contents, 1, 16), vec![(5, 9), (11, 16)]);
    assert_eq!(regex.find(&contents, 0, 9), vec![(0, 3), (5, 9)]);
    assert_eq!(regex.find(&contents, 0, 8), vec![(0, 3), (5, 8)]);
}

#[test]
fn find_counts_chars_not_bytes() {
    let contents = Rope::from_str("héllo wörld");
    let regex = Regex::new("ö").unwrap();
    assert_eq!(regex.find(&contents, 0, 10), vec![(7, 7)]);
    assert_eq!(regex.find(&contents, 7, 7), vec![(7, 7)]);
    assert_eq!(regex.find(&contents, 0, 6), vec![]);
    let word = Regex::new("w.r").unwrap();
    assert_eq!(word.find(&contents, 2, 9), vec![(6, 8)]);
}

#[test]
fn find_clips_the_range_to_the_text() {
    let contents = Rope::from_str("aXbXcXd");
    let regex = Regex::new("X").unwrap();
    assert_eq!(regex.find(&contents, 0, 9), vec![(1, 1), (3, 3), (5, 5)]);
    assert_eq!(regex.find(&contents, 20, 30), vec![]);
    assert_eq!(regex.find(&contents, 5, 2), vec![]);
    assert_eq!(regex.find(&Rope::new(), 0, 0), vec![]);
}

#[test]
fn find_matches_across_lines() {
    let contents = Rope::from_str("ab\ncd\nef");
    assert_eq!(Regex::new("b.c").unwrap().find(&contents, 0, 7), vec![(1, 3)]);
    assert_eq!(
        Regex::new("^[a-z]").unwrap().find(&contents, 0, 7),
        vec![(0, 0), (3, 3), (6, 6)]
    );
    assert_eq!(Regex::new("B").unwrap().find(&contents, 0, 7), vec![]);
}

#[test]
fn char_matches_turns_byte_offsets_into_char_indices() {
    let contents = Rope::from_str("héllo");
    assert_eq!(
        char_matches(&contents, &vec![(0, 1), (1, 3), (3, 3), (3, 6), (6, 6)]),
        vec![(0, 0), (1, 1), (2, 2), (2, 4), (5, 5)]
    );
}

#[test]
fn filter_accept_keeps_selections_with_a_match() {
    let contents = Rope::from_str("foo bar foo");
    let selections = vec![
        Selection::new_at_end(0, 2),
        Selection::new_at_start(4, 6),
        Selection::new_at_end(8, 10),
    ];
    assert_eq!(
        filter::accept(&contents, &selections, "foo"),
        ModeResult::Done(vec![Selection::new_at_end(0, 2), Selection::new_at_end(8, 10)])
    );
}

#[test]
fn filter_reject_keeps_selections_without_a_match() {
    let contents = Rope::from_str("foo bar foo");
    let selections = vec![
        Selection::new_at_end(0, 2),
        Selection::new_at_start(4, 6),
        Selection::new_at_end(8, 10),
    ];
    assert_eq!(
        filter::reject(&contents, &selections, "foo"),
        ModeResult::Done(vec![Selection::new_at_start(4, 6)])
    );
}

#[test]
fn filter_looks_only_inside_the_selection() {
    let contents = Rope::from_str("foo bar foo");
    let selections = vec![Selection::new_at_end(0, 1), Selection::new_at_end(3, 8)];
    assert_eq!(
        filter::accept(&contents, &selections, "foo"),
        ModeResult::Done(vec![])
    );
}

#[test]
fn filter_twice_is_filter_once() {
    let contents = Rope::from_str("one two three four five");
    let selections = vec![
        Selection::new_at_end(0, 2),
        Selection::new_at_end(4, 6),
        Selection::new_at_end(8, 12),
        Selection::new_at_end(14, 17),
        Selection::new_at_end(19, 22),
    ];
    let once = match filter::accept(&contents, &selections, "o") {
        ModeResult::Done(list) => list,
        other => panic!("{other:?}"),
    };
    assert_eq!(
        once,
        vec![
            Selection::new_at_end(0, 2),
            Selection::new_at_end(4, 6),
            Selection::new_at_end(14, 17),
        ]
    );
    assert_eq!(filter::accept(&contents, &once, "o"), ModeResult::Done(once.clone()));
    let rejected = match filter::reject(&contents, &selections, "o") {
        ModeResult::Done(list) => list,
        other => panic!("{other:?}"),
    };
    assert_eq!(
        filter::reject(&contents, &rejected, "o"),
        ModeResult::Done(rejected.clone())
    );
}

#[test]
fn transforms_tell_an_empty_pattern_from_a_broken_one() {
    let contents = Rope::from_str("abc");
    let selections = vec![Selection::new_at_end(0, 2)];
    assert_eq!(filter::accept(&contents, &selections, ""), ModeResult::Empty);
    assert_eq!(filter::reject(&contents, &selections, ""), ModeResult::Empty);
    assert_eq!(split::accept(&contents, &selections, ""), ModeResult::Empty);
    assert_eq!(split::reject(&contents, &selections, ""), ModeResult::Empty);
    assert_eq!(seek::forward(&contents, &selections, ""), ModeResult::Empty);
    assert_eq!(seek::reverse(&contents, &selections, ""), ModeResult::Empty);
    assert_eq!(filter::accept(&contents, &selections, "("), ModeResult::Error);
    assert_eq!(filter::reject(&contents, &selections, "("), ModeResult::Error);
    assert_eq!(split::accept(&contents, &selections, "["), ModeResult::Error);
    assert_eq!(split::reject(&contents, &selections, "["), ModeResult::Error);
    assert_eq!(seek::forward(&contents, &selections, "("), ModeResult::Error);
    assert_eq!(seek::reverse(&contents, &selections, "("), ModeResult::Error);
    assert_eq!(search::forward(&contents, &selections, ""), None);
    assert_eq!(search::reverse(&contents, &selections, "("), None);
}

#[test]
fn split_accept_selects_each_match() {
    let contents = Rope::from_str("a1b22c333 d4");
    let selections = vec![Selection::new_at_start(0, 8), Selection::new_at_end(10, 11)];
    assert_eq!(
        split::accept(&contents, &selections, "[0-9]+"),
        ModeResult::Done(vec![
            Selection::new_at_end(1, 1),
            Selection::new_at_end(3, 4),
            Selection::new_at_end(6, 8),
            Selection::new_at_end(11, 11),
        ])
    );
}

#[test]
fn split_reject_selects_what_lies_between_the_matches() {
    let contents = Rope::from_str("aXbXcXd");
    let selections = vec![Selection::new_at_end(0, 9)];
    let result = match split::reject(&contents, &selections, "X") {
        ModeResult::Done(list) => list,
        other => panic!("{other:?}"),
    };
    assert_eq!(
        result,
        vec![
            Selection::new_at_end(0, 0),
            Selection::new_at_end(2, 2),
            Selection::new_at_end(4, 4),
            Selection::new_at_end(6, 9),
        ]
    );
    let covered: Vec<String> = result.iter().map(|s| s.slice(&contents)).collect();
    assert_eq!(covered, vec!["a", "b", "c", "d"]);
    for pair in result.windows(2) {
        assert!(pair[0].end() < pair[1].start());
    }
}

#[test]
fn split_reject_keeps_a_last_gap_of_one_char() {
    let contents = Rope::from_str("aXbXcXd");
    assert_eq!(
        split::reject(&contents, &[Selection::new_at_end(0, 6)], "X"),
        ModeResult::Done(vec![
            Selection::new_at_end(0, 0),
            Selection::new_at_end(2, 2),
            Selection::new_at_end(4, 4),
            Selection::new_at_end(6, 6),
        ])
    );
}

#[test]
fn split_reject_leaves_no_gap_between_adjacent_matches() {
    let contents = Rope::from_str("aXXb");
    assert_eq!(
        split::reject(&contents, &[Selection::new_at_end(0, 3)], "X"),
        ModeResult::Done(vec![Selection::new_at_end(0, 0), Selection::new_at_end(3, 3)])
    );
    assert_eq!(
        split::reject(&contents, &[Selection::new_at_end(1, 2)], "X"),
        ModeResult::Done(vec![])
    );
}

#[test]
fn split_reject_passes_a_selection_without_match() {
    let contents = Rope::from_str("hello world");
    assert_eq!(
        split::reject(
            &contents,
            &[Selection::new_at_start(0, 4), Selection::new_at_end(7, 7)],
            "X"
        ),
        ModeResult::Done(vec![Selection::new_at_end(0, 4), Selection::new_at_end(7, 7)])
    );
}

#[test]
fn gap_selections_follow_the_given_matches() {
    let selection = Selection::new_at_end(2, 12);
    assert_eq!(
        split::gap_selections(&selection, &vec![(2, 3), (6, 6), (7, 9)]),
        vec![Selection::new_at_end(4, 5), Selection::new_at_end(10, 12)]
    );
    assert_eq!(
        split::gap_selections(&selection, &vec![(4, 12)]),
        vec![Selection::new_at_end(2, 3)]
    );
    assert_eq!(
        split::gap_selections(&selection, &vec![]),
        vec![Selection::new_at_end(2, 12)]
    );
    assert_eq!(
        split::match_selections(&vec![(2, 3), (6, 6)]),
        vec![Selection::new_at_end(2, 3), Selection::new_at_end(6, 6)]
    );
}

#[test]
fn move_cursor_extends_without_crossing() {
    let selection = Selection::new_at_end(5, 5);
    assert_eq!(seek::move_cursor(selection, 8, 8), Selection::new_at_end(5, 8));
    assert_eq!(search::move_cursor(selection, 8, 8), Selection::new_at_end(5, 8));
}

#[test]
fn move_cursor_flips_when_it_crosses_the_anchor() {
    let at_end = Selection::new_at_end(5, 9);
    assert_eq!(seek::move_cursor(at_end, 2, 3), Selection::new_at_start(2, 5));
    assert_eq!(seek::move_cursor(at_end, 6, 7), Selection::new_at_end(5, 7));
    let at_start = Selection::new_at_start(5, 9);
    assert_eq!(seek::move_cursor(at_start, 11, 12), Selection::new_at_end(9, 12));
    assert_eq!(seek::move_cursor(at_start, 2, 3), Selection::new_at_start(2, 9));
    assert_eq!(search::move_cursor(at_start, 11, 12), Selection::new_at_end(9, 12));
}

#[test]
fn pick_takes_the_first_or_the_last_match() {
    let found = vec![(1, 2), (4, 5), (7, 8)];
    assert_eq!(seek::pick(&found, false), Some((1, 2)));
    assert_eq!(seek::pick(&found, true), Some((7, 8)));
    assert_eq!(seek::pick(&vec![], false), None);
    assert_eq!(filter::is_kept(&found, false), true);
    assert_eq!(filter::is_kept(&found, true), false);
    assert_eq!(filter::is_kept(&vec![], false), false);
    assert_eq!(filter::is_kept(&vec![], true), true);
}

#[test]
fn seek_forward_moves_to_the_next_match() {
    let contents = Rope::from_str("hello world hello");
    let selections = vec![Selection::new_at_end(0, 0)];
    assert_eq!(
        seek::forward(&contents, &selections, "hello"),
        ModeResult::Done(vec![Selection::new_at_end(0, 16)])
    );
    assert_eq!(
        search::forward(&contents, &selections, "hello"),
        Some(vec![Selection::new_at_end(0, 16)])
    );
    assert_eq!(
        seek::forward(&contents, &selections, "o"),
        ModeResult::Done(vec![Selection::new_at_end(0, 4)])
    );
}

#[test]
fn seek_reverse_moves_to_the_match_before() {
    let contents = Rope::from_str("hello world hello");
    let selections = vec![Selection::new_at_end(14, 14)];
    assert_eq!(
        seek::reverse(&contents, &selections, "hello"),
        ModeResult::Done(vec![Selection::new_at_start(0, 14)])
    );
    assert_eq!(
        seek::reverse(&contents, &selections, "o"),
        ModeResult::Done(vec![Selection::new_at_start(7, 14)])
    );
    assert_eq!(
        search::reverse(&contents, &selections, "o"),
        Some(vec![Selection::new_at_start(7, 14)])
    );
}

#[test]
fn seek_without_a_match_reports_no_change() {
    let contents = Rope::from_str("hello world");
    let selections = vec![Selection::new_at_end(0, 0), Selection::new_at_end(3, 5)];
    assert_eq!(seek::forward(&contents, &selections, "z"), ModeResult::Same);
    assert_eq!(seek::reverse(&contents, &selections, "z"), ModeResult::Same);
    assert_eq!(
        search::forward(&contents, &selections, "z"),
        Some(selections.clone())
    );
}

#[test]
fn seek_moves_each_selection_for_itself() {
    let contents = Rope::from_str("a-b-c");
    let selections = vec![Selection::new_at_end(0, 0), Selection::new_at_end(4, 4)];
    assert_eq!(
        seek::forward(&contents, &selections, "-"),
        ModeResult::Done(vec![Selection::new_at_end(0, 1), Selection::new_at_end(4, 4)])
    );
    assert_eq!(
        seek::reverse(&contents, &selections, "-"),
        ModeResult::Done(vec![Selection::new_at_end(0, 0), Selection::new_at_start(3, 4)])
    );
}

#[test]
fn a_transform_result_is_installed_in_order() {
    let mut buffer = Buffer::new_from_contents("t".to_string(), Rope::from_str("a b x c"));
    buffer.set_selections(vec![
        Selection::new_at_end(6, 6),
        Selection::new_at_end(0, 0),
        Selection::new_at_end(2, 2),
    ]);
    let result = seek::forward(buffer.contents(), buffer.selections(), "x");
    let list = match result {
        ModeResult::Done(list) => list,
        other => panic!("{other:?}"),
    };
    assert_eq!(
        list,
        vec![
            Selection::new_at_end(0, 4),
            Selection::new_at_end(2, 4),
            Selection::new_at_end(6, 6),
        ]
    );
    buffer.set_selections(list);
    assert_eq!(
        buffer.selections(),
        &vec![Selection::new_at_end(0, 4), Selection::new_at_end(6, 6)]
    );
}

#[test]
fn a_match_of_no_chars_counts_as_one_position() {
    let contents = Rope::from_str("axxb");
    let regex = Regex::new("x*").unwrap();
    let found = regex.find(&contents, 0, 3);
    for (start, end) in found.iter() {
        assert!(start <= end);
        assert!(*end <= 4);
    }
    assert_eq!(found, vec![(0, 0), (1, 2), (4, 4)]);
}

#[test]
fn matches_come_in_order_and_inside_the_range() {
    let contents = Rope::from_str("aééb ééé");
    for pattern in ["é*", "é", ".", "b|é+", "$", "^", "[aé]{2}"] {
        let regex = Regex::new(pattern).unwrap();
        for (from, to) in [(0, 7), (1, 2), (2, 6), (3, 3), (0, 20), (8, 9)] {
            let found = regex.find(&contents, from, to);
            let low = from.min(8);
            let high = (to + 1).min(8);
            for (start, end) in found.iter() {
                assert!(low <= *start && start <= end && *end <= high);
            }
            for pair in found.windows(2) {
                assert!(pair[0].1 <= pair[1].0);
            }
        }
    }
    let regex = Regex::new("é*").unwrap();
    assert_eq!(regex.find(&contents, 0, 3), vec![(0, 0), (1, 2), (4, 4)]);
}
