use ropey::Rope;
use rust_editor::mode::pipe;
use rust_editor::{
    center, move_by_window_page, replace_selections, undo, wrap_add, Buffer, Filter, Insert, Key,
    Mode, Modifiers, Normal, Pipe, Register, Registry, Search, Seek, Selection, Split,
    UpdateCommand, Window,
};

fn plain() -> Modifiers {
    Modifiers { control: false, shift: false, alt: false }
}

fn control() -> Modifiers {
    Modifiers { control: true, shift: false, alt: false }
}

fn buffer_with(text: &str) -> Buffer {
    Buffer::new_from_contents("scratch.txt".to_string(), Rope::from_str(text))
}

fn bounds(buffer: &Buffer) -> Vec<(usize, usize)> {
    buffer.selections().iter().map(|s| (s.start(), s.end())).collect()
}

fn mode_of(command: UpdateCommand) -> Mode {
    match command {
        UpdateCommand::Switch(mode) => mode,
        _ => panic!("the command does not switch modes"),
    }
}

fn press(mode: &mut Mode, buffer: &mut Buffer, modifiers: Modifiers, key: Key) -> UpdateCommand {
    let mut registry = Registry::default();
    let mut window = Window::new();
    mode.update(buffer, &mut registry, &mut window, modifiers, key)
}

fn type_text(mode: &mut Mode, buffer: &mut Buffer, text: &str) {
    for ch in text.chars() {
        let command = press(mode, buffer, plain(), Key::Char(ch));
        assert!(matches!(command, UpdateCommand::Nothing));
    }
}

#[test]
fn wrap_add_wraps_both_ways() {
    assert_eq!(wrap_add(3, 2, 1), 0);
    assert_eq!(wrap_add(3, 0, -1), 2);
    assert_eq!(wrap_add(3, 1, 1), 2);
    assert_eq!(wrap_add(5, 3, -13), 0);
    assert_eq!(wrap_add(5, 3, 7), 0);
    assert_eq!(wrap_add(7, 10, 0), 3);
    assert_eq!(wrap_add(1, 0, 5), 0);
    assert_eq!(wrap_add(4, 1, isize::MIN), 1);
    assert_eq!(wrap_add(usize::MAX, usize::MAX - 1, 3), 2);
}

#[test]
fn insert_mode_types_into_the_text() {
    let mut buffer = buffer_with("ab");
    let mut mode = mode_of(Insert::switch_to());
    assert_eq!(mode.status(), "insert");
    assert_eq!(mode.preview_selections(), None);
    type_text(&mut mode, &mut buffer, "xy");
    assert_eq!(buffer.contents(), "xyab");
    press(&mut mode, &mut buffer, plain(), Key::Tab);
    assert_eq!(buffer.contents(), "xy  ab");
    press(&mut mode, &mut buffer, plain(), Key::Enter);
    assert_eq!(buffer.contents(), "xy  \nab");
    press(&mut mode, &mut buffer, plain(), Key::Backspace);
    press(&mut mode, &mut buffer, plain(), Key::Backspace);
    assert_eq!(buffer.contents(), "xy ab");
    press(&mut mode, &mut buffer, plain(), Key::F(1));
    assert_eq!(buffer.contents(), "xy ab");
    let next = mode_of(press(&mut mode, &mut buffer, plain(), Key::Esc));
    assert!(matches!(next, Mode::Normal(_)));
    assert_eq!(next.status(), "normal");
    let next = mode_of(press(&mut mode, &mut buffer, control(), Key::Char('q')));
    assert!(matches!(next, Mode::Normal(_)));
    assert_eq!(buffer.contents(), "xy ab");
}

#[test]
fn normal_mode_leads_to_the_other_modes() {
    let mut buffer = buffer_with("hello");
    let mut mode = mode_of(Normal::switch_to());
    assert!(matches!(
        press(&mut mode, &mut buffer, control(), Key::Char('q')),
        UpdateCommand::Quit
    ));
    assert!(matches!(
        press(&mut mode, &mut buffer, control(), Key::Char('w')),
        UpdateCommand::Save
    ));
    let next = mode_of(press(&mut mode, &mut buffer, plain(), Key::Char('a')));
    assert!(matches!(next, Mode::Insert(_)));
    let next = mode_of(press(&mut mode, &mut buffer, plain(), Key::Char('r')));
    assert_eq!(next.status(), "pipe > ");
    let next = mode_of(press(&mut mode, &mut buffer, plain(), Key::Char('g')));
    assert_eq!(next.status(), "seek [_] > ");
    let next = mode_of(press(&mut mode, &mut buffer, plain(), Key::Char('G')));
    assert!(matches!(next, Mode::Seek(_)));
    let next = mode_of(press(&mut mode, &mut buffer, plain(), Key::Char('s')));
    assert_eq!(next.status(), "split [_] > ");
    let next = mode_of(press(&mut mode, &mut buffer, plain(), Key::Char('S')));
    assert!(matches!(next, Mode::Split(_)));
    let next = mode_of(press(&mut mode, &mut buffer, plain(), Key::Char('f')));
    assert_eq!(next.status(), "filter [_] > ");
    let next = mode_of(press(&mut mode, &mut buffer, plain(), Key::Char('F')));
    assert!(matches!(next, Mode::Filter(_)));
    assert_eq!(buffer.contents(), "hello");
}

#[test]
fn normal_mode_moves_and_edits() {
    let mut buffer = buffer_with("ab\ncdef\ng");
    let mut mode = mode_of(Normal::switch_to());
    press(&mut mode, &mut buffer, plain(), Key::Char('l'));
    assert_eq!(buffer.selections(), &vec![Selection::new_at_end(0, 1)]);
    press(&mut mode, &mut buffer, plain(), Key::Char('j'));
    assert_eq!(buffer.selections()[0].end(), 4);
    press(&mut mode, &mut buffer, plain(), Key::Char('k'));
    assert_eq!(buffer.selections()[0].end(), 1);
    press(&mut mode, &mut buffer, plain(), Key::Char('b'));
    assert_eq!(buffer.selections(), &vec![Selection::new_at_start(0, 1)]);
    press(&mut mode, &mut buffer, plain(), Key::Char('b'));
    press(&mut mode, &mut buffer, plain(), Key::Char('n'));
    assert_eq!(buffer.selections(), &vec![Selection::new_at_end(1, 1)]);
    press(&mut mode, &mut buffer, plain(), Key::Char('h'));
    assert_eq!(buffer.selections(), &vec![Selection::new_at_start(0, 1)]);
    press(&mut mode, &mut buffer, plain(), Key::Char('d'));
    assert_eq!(buffer.contents(), "\ncdef\ng");
    press(&mut mode, &mut buffer, plain(), Key::Char('z'));
    assert_eq!(buffer.contents(), "ab\ncdef\ng");
    press(&mut mode, &mut buffer, plain(), Key::Char('Z'));
    assert_eq!(buffer.contents(), "\ncdef\ng");
    press(&mut mode, &mut buffer, plain(), Key::Char('u'));
    assert_eq!(buffer.selections(), &vec![Selection::new_at_end(0, 7)]);
    press(&mut mode, &mut buffer, plain(), Key::Char('x'));
    assert_eq!(buffer.selections(), &vec![Selection::new_at_end(0, 7)]);
}

#[test]
fn normal_mode_picks_the_primary_selection() {
    let mut buffer = buffer_with("0123456789");
    buffer.set_selections(vec![
        Selection::new_at_end(0, 1),
        Selection::new_at_end(3, 4),
        Selection::new_at_end(6, 7),
    ]);
    let mut mode = mode_of(Normal::switch_to());
    press(&mut mode, &mut buffer, plain(), Key::Char('T'));
    assert_eq!(buffer.primary_index(), 2);
    press(&mut mode, &mut buffer, plain(), Key::Char('t'));
    assert_eq!(buffer.primary_index(), 0);
    press(&mut mode, &mut buffer, plain(), Key::Char('t'));
    assert_eq!(buffer.primary_index(), 1);
    press(&mut mode, &mut buffer, plain(), Key::Char('Y'));
    assert_eq!(
        buffer.selections(),
        &vec![Selection::new_at_end(0, 1), Selection::new_at_end(6, 7)]
    );
    assert_eq!(buffer.primary_index(), 1);
    press(&mut mode, &mut buffer, plain(), Key::Char('y'));
    assert_eq!(buffer.selections(), &vec![Selection::new_at_end(6, 7)]);
    assert_eq!(buffer.primary_index(), 0);
    press(&mut mode, &mut buffer, plain(), Key::Char('Y'));
    assert_eq!(buffer.selections(), &vec![Selection::new_at_end(6, 7)]);
}

#[test]
fn normal_mode_copies_and_pastes() {
    let mut buffer = buffer_with("abc def");
    buffer.set_selections(vec![Selection::new_at_end(0, 2), Selection::new_at_end(4, 6)]);
    let mut mode = mode_of(Normal::switch_to());
    let mut registry = Registry::default();
    let mut window = Window::new();
    mode.update(&mut buffer, &mut registry, &mut window, plain(), Key::Char('Q'));
    assert_eq!(buffer.contents(), "abc def");
    mode.update(&mut buffer, &mut registry, &mut window, plain(), Key::Char('q'));
    match registry.get("clipboard") {
        Some(Register::Content(pieces)) => assert_eq!(pieces, &vec!["abc", "def"]),
        _ => panic!("the clipboard holds no text"),
    }
    assert!(registry.get("other").is_none());
    mode.update(&mut buffer, &mut registry, &mut window, plain(), Key::Char('Q'));
    assert_eq!(buffer.contents(), "ababcc dedeff");
    undo(&mut buffer);
    assert_eq!(buffer.contents(), "abc def");
}

#[test]
fn normal_mode_scrolls_the_window() {
    let mut buffer = buffer_with("a\nb\nc\nd\ne\nf\ng\nh");
    let mut mode = mode_of(Normal::switch_to());
    let mut registry = Registry::default();
    let mut window = Window::new();
    window.set_size((10, 4));
    mode.update(&mut buffer, &mut registry, &mut window, plain(), Key::Up);
    assert_eq!(window.scroll_top, 0);
    mode.update(&mut buffer, &mut registry, &mut window, plain(), Key::Down);
    mode.update(&mut buffer, &mut registry, &mut window, plain(), Key::Down);
    assert_eq!(window.scroll_top, 2);
    mode.update(&mut buffer, &mut registry, &mut window, plain(), Key::Right);
    assert_eq!(window.scroll_left, 1);
    mode.update(&mut buffer, &mut registry, &mut window, plain(), Key::Left);
    mode.update(&mut buffer, &mut registry, &mut window, plain(), Key::Left);
    assert_eq!(window.scroll_left, 0);
    mode.update(&mut buffer, &mut registry, &mut window, plain(), Key::Char('v'));
    assert_eq!(window.scroll_top, 0);
    mode.update(&mut buffer, &mut registry, &mut window, plain(), Key::Char('p'));
    assert_eq!(bounds(&buffer), vec![(4, 4)]);
    assert_eq!(window.scroll_top, 0);
    mode.update(&mut buffer, &mut registry, &mut window, plain(), Key::Char('p'));
    mode.update(&mut buffer, &mut registry, &mut window, plain(), Key::Char('p'));
    assert_eq!(bounds(&buffer), vec![(12, 12)]);
    assert_eq!(window.scroll_top, 4);
    mode.update(&mut buffer, &mut registry, &mut window, plain(), Key::Char('P'));
    assert_eq!(bounds(&buffer), vec![(8, 8)]);
    assert_eq!(window.scroll_top, 2);
}

#[test]
fn page_moves_and_centering() {
    let mut buffer = buffer_with("a\nb\nc\nd\ne\nf");
    let mut window = Window::new();
    window.set_size((10, 6));
    move_by_window_page(&mut buffer, &mut window, 1);
    assert_eq!(bounds(&buffer), vec![(6, 6)]);
    assert_eq!(window.scroll_top, 0);
    window.set_size((10, 2));
    center(&buffer, &mut window);
    assert_eq!(window.scroll_top, 2);
}

#[test]
fn normal_mode_shows_how_saving_went() {
    let mut normal = Normal::default();
    assert_eq!(normal.status(), "normal");
    normal.saved(true);
    assert_eq!(normal.status(), "file saved!");
    normal.saved(false);
    assert_eq!(normal.status(), "error: could not save file");
    let mut buffer = buffer_with("");
    let mut registry = Registry::default();
    let mut window = Window::new();
    normal.update(&mut buffer, &mut registry, &mut window, plain(), Key::Null);
    assert_eq!(normal.status(), "normal");
    let shown = mode_of(Normal::switch_to_with_toast("oops".to_string()));
    assert_eq!(shown.status(), "oops");
}

#[test]
fn filter_mode_previews_and_installs() {
    let mut buffer = buffer_with("foo bar foo");
    buffer.set_selections(vec![
        Selection::new_at_end(0, 2),
        Selection::new_at_end(4, 6),
        Selection::new_at_end(8, 10),
    ]);
    let mut mode = mode_of(Filter::switch_to(false));
    assert_eq!(mode.status(), "filter [_] > ");
    assert_eq!(mode.preview_selections(), None);
    type_text(&mut mode, &mut buffer, "fo(");
    assert_eq!(mode.status(), "filter [!] > fo(");
    assert_eq!(mode.preview_selections(), None);
    press(&mut mode, &mut buffer, plain(), Key::Backspace);
    assert_eq!(mode.status(), "filter [*] > fo");
    assert_eq!(
        mode.preview_selections(),
        Some(&vec![Selection::new_at_end(0, 2), Selection::new_at_end(8, 10)])
    );
    type_text(&mut mode, &mut buffer, "x");
    assert_eq!(mode.status(), "filter [_] > fox");
    assert_eq!(mode.preview_selections(), None);
    press(&mut mode, &mut buffer, plain(), Key::Backspace);
    assert_eq!(buffer.selections().len(), 3);
    let next = mode_of(press(&mut mode, &mut buffer, plain(), Key::Enter));
    assert!(matches!(next, Mode::Normal(_)));
    assert_eq!(
        buffer.selections(),
        &vec![Selection::new_at_end(0, 2), Selection::new_at_end(8, 10)]
    );
    assert_eq!(buffer.primary_index(), 1);
}

#[test]
fn filter_mode_with_reject_drops_the_matching_selections() {
    let mut buffer = buffer_with("foo bar foo");
    buffer.set_selections(vec![
        Selection::new_at_end(0, 2),
        Selection::new_at_end(4, 6),
        Selection::new_at_end(8, 10),
    ]);
    let mut mode = mode_of(Filter::switch_to(true));
    type_text(&mut mode, &mut buffer, "foo");
    press(&mut mode, &mut buffer, plain(), Key::Enter);
    assert_eq!(buffer.selections(), &vec![Selection::new_at_end(4, 6)]);
    assert_eq!(buffer.primary_index(), 0);
}

#[test]
fn a_filter_that_keeps_nothing_is_not_installed() {
    let mut buffer = buffer_with("foo bar foo");
    buffer.set_selections(vec![Selection::new_at_end(0, 2), Selection::new_at_end(4, 6)]);
    buffer.set_primary_selection(1);
    let mut mode = mode_of(Filter::switch_to(false));
    type_text(&mut mode, &mut buffer, "zzz");
    let next = mode_of(press(&mut mode, &mut buffer, plain(), Key::Enter));
    assert!(matches!(next, Mode::Normal(_)));
    assert_eq!(
        buffer.selections(),
        &vec![Selection::new_at_end(0, 2), Selection::new_at_end(4, 6)]
    );
    assert_eq!(buffer.primary_index(), 0);
}

#[test]
fn leaving_a_prompt_changes_nothing() {
    let mut buffer = buffer_with("foo bar foo");
    buffer.set_selections(vec![Selection::new_at_end(0, 2), Selection::new_at_end(4, 6)]);
    let mut filter = mode_of(Filter::switch_to(false));
    type_text(&mut filter, &mut buffer, "foo");
    assert!(matches!(
        mode_of(press(&mut filter, &mut buffer, plain(), Key::Esc)),
        Mode::Normal(_)
    ));
    assert!(matches!(
        mode_of(press(&mut filter, &mut buffer, control(), Key::Char('q'))),
        Mode::Normal(_)
    ));
    assert_eq!(filter.status(), "filter [*] > foo");
    let mut split = mode_of(Split::switch_to(false));
    assert!(matches!(
        mode_of(press(&mut split, &mut buffer, control(), Key::Char('q'))),
        Mode::Normal(_)
    ));
    let mut seek = mode_of(Seek::switch_to(false));
    assert!(matches!(
        press(&mut seek, &mut buffer, control(), Key::Char('q')),
        UpdateCommand::Nothing
    ));
    assert_eq!(seek.status(), "seek [_] > q");
    assert!(matches!(
        mode_of(press(&mut seek, &mut buffer, plain(), Key::Esc)),
        Mode::Normal(_)
    ));
    assert_eq!(
        buffer.selections(),
        &vec![Selection::new_at_end(0, 2), Selection::new_at_end(4, 6)]
    );
}

#[test]
fn split_mode_previews_and_installs() {
    let mut buffer = buffer_with("a1b22c333");
    buffer.set_selections(vec![Selection::new_at_end(0, 8)]);
    let mut mode = mode_of(Split::switch_to(false));
    type_text(&mut mode, &mut buffer, "[0-9]+");
    assert_eq!(mode.status(), "split [*] > [0-9]+");
    assert_eq!(
        mode.preview_selections(),
        Some(&vec![
            Selection::new_at_end(1, 1),
            Selection::new_at_end(3, 4),
            Selection::new_at_end(6, 8),
        ])
    );
    press(&mut mode, &mut buffer, plain(), Key::Enter);
    assert_eq!(
        buffer.selections(),
        &vec![
            Selection::new_at_end(1, 1),
            Selection::new_at_end(3, 4),
            Selection::new_at_end(6, 8),
        ]
    );
    assert_eq!(buffer.primary_index(), 2);
    let mut mode = mode_of(Split::switch_to(true));
    buffer.set_selections(vec![Selection::new_at_end(0, 8)]);
    type_text(&mut mode, &mut buffer, "[0-9]+");
    press(&mut mode, &mut buffer, plain(), Key::Enter);
    assert_eq!(
        buffer.selections(),
        &vec![
            Selection::new_at_end(0, 0),
            Selection::new_at_end(2, 2),
            Selection::new_at_end(5, 5),
        ]
    );
}

#[test]
fn seek_mode_previews_and_installs() {
    let mut buffer = buffer_with("hello world hello");
    let mut mode = mode_of(Seek::switch_to(false));
    type_text(&mut mode, &mut buffer, "wor");
    assert_eq!(mode.status(), "seek [*] > wor");
    assert_eq!(mode.preview_selections(), Some(&vec![Selection::new_at_end(0, 8)]));
    type_text(&mut mode, &mut buffer, "x");
    assert_eq!(mode.status(), "seek [_] > worx");
    assert_eq!(mode.preview_selections(), None);
    press(&mut mode, &mut buffer, plain(), Key::Backspace);
    press(&mut mode, &mut buffer, plain(), Key::Enter);
    assert_eq!(buffer.selections(), &vec![Selection::new_at_end(0, 8)]);
    let mut back = mode_of(Seek::switch_to(true));
    type_text(&mut back, &mut buffer, "l+");
    press(&mut back, &mut buffer, plain(), Key::Enter);
    assert_eq!(buffer.selections(), &vec![Selection::new_at_end(0, 3)]);
}

#[test]
fn search_mode_previews_and_installs() {
    let mut buffer = buffer_with("hello world hello");
    let mut mode = mode_of(Search::switch_to(false));
    assert_eq!(mode.status(), "search > ");
    type_text(&mut mode, &mut buffer, "wor");
    assert_eq!(mode.status(), "search > wor");
    assert_eq!(mode.preview_selections(), Some(&vec![Selection::new_at_end(0, 8)]));
    type_text(&mut mode, &mut buffer, "x");
    assert_eq!(mode.preview_selections(), Some(&vec![Selection::new_at_end(0, 0)]));
    type_text(&mut mode, &mut buffer, "(");
    assert_eq!(mode.preview_selections(), None);
    press(&mut mode, &mut buffer, plain(), Key::Backspace);
    press(&mut mode, &mut buffer, plain(), Key::Backspace);
    let next = mode_of(press(&mut mode, &mut buffer, plain(), Key::Enter));
    assert!(matches!(next, Mode::Normal(_)));
    assert_eq!(mode.preview_selections(), None);
    assert_eq!(buffer.selections(), &vec![Selection::new_at_end(0, 8)]);
    let mut back = mode_of(Search::switch_to(true));
    type_text(&mut back, &mut buffer, "e");
    assert!(matches!(
        mode_of(press(&mut back, &mut buffer, plain(), Key::Esc)),
        Mode::Normal(_)
    ));
    assert_eq!(back.preview_selections(), None);
    assert_eq!(buffer.selections(), &vec![Selection::new_at_end(0, 8)]);
}

#[test]
fn pipe_mode_asks_for_the_script_to_be_run() {
    let mut buffer = buffer_with("abc");
    let mut mode = mode_of(Pipe::switch_to());
    type_text(&mut mode, &mut buffer, "tr a-z A-ZZ");
    press(&mut mode, &mut buffer, plain(), Key::Backspace);
    assert_eq!(mode.status(), "pipe > tr a-z A-Z");
    assert_eq!(mode.preview_selections(), None);
    match press(&mut mode, &mut buffer, plain(), Key::Enter) {
        UpdateCommand::Pipe(script) => assert_eq!(script, "tr a-z A-Z"),
        _ => panic!("the command does not ask for the script"),
    }
    assert!(matches!(
        mode_of(press(&mut mode, &mut buffer, plain(), Key::Esc)),
        Mode::Normal(_)
    ));
    assert_eq!(buffer.contents(), "abc");
    let mut empty = Pipe::default();
    let mut registry = Registry::default();
    let mut window = Window::new();
    empty.update(&mut buffer, &mut registry, &mut window, plain(), Key::Backspace);
    assert_eq!(empty.status(), "pipe > ");
}

#[test]
fn pipe_outputs_replace_the_selections() {
    let mut buffer = buffer_with("abc def ghi");
    let results = vec![
        (Selection::new_at_end(0, 2), "X".to_string()),
        (Selection::new_at_end(4, 6), "LONGER".to_string()),
        (Selection::new_at_start(8, 10), "".to_string()),
    ];
    let next = mode_of(pipe::finish(&mut buffer, Ok(results)));
    assert_eq!(next.status(), "normal");
    assert_eq!(buffer.contents(), "X LONGER ");
    assert_eq!(
        buffer.selections(),
        &vec![
            Selection::new_at_end(1, 1),
            Selection::new_at_end(8, 8),
            Selection::new_at_end(9, 9),
        ]
    );
    undo(&mut buffer);
    assert_eq!(buffer.contents(), "abc def ghi");
}

#[test]
fn a_failed_pipe_is_shown_and_changes_nothing() {
    let mut buffer = buffer_with("abc");
    let next = mode_of(pipe::finish(&mut buffer, Err("no such script".to_string())));
    assert_eq!(next.status(), "no such script");
    assert_eq!(buffer.contents(), "abc");
    replace_selections(&mut buffer, &vec![]);
    assert_eq!(buffer.contents(), "abc");
    assert_eq!(buffer.selections(), &vec![Selection::new_at_end(0, 0)]);
}

#[test]
fn registry_keeps_one_value_for_each_name() {
    let mut registry = Registry::default();
    assert!(registry.get("a").is_none());
    registry.set("a", Register::Content(vec!["one".to_string()]));
    registry.set("b", Register::Content(vec!["two".to_string()]));
    registry.set("a", Register::Content(vec!["three".to_string()]));
    match registry.get("a") {
        Some(Register::Content(pieces)) => assert_eq!(pieces, &vec!["three"]),
        _ => panic!("no text under the name"),
    }
    match registry.get("b") {
        Some(Register::Content(pieces)) => assert_eq!(pieces, &vec!["two"]),
        _ => panic!("no text under the name"),
    }
    assert!(registry.get("c").is_none());
}
