//! Normal mode: keys move and reshape the selections, edit the text at
//! them, and lead to the other modes.

use crate::buffer::{copy, op_views, paste, redo, string_views, undo, Buffer, BufferView};
use crate::key::{Key, Modifiers};
use crate::mode::filter::Filter;
use crate::mode::insert::Insert;
use crate::mode::pipe::Pipe;
use crate::mode::seek::Seek;
use crate::mode::split::Split;
use crate::mode::{Mode, UpdateCommand};
use crate::overlap::selection_views;
use crate::register::{Register, Registry};
use crate::selection::{Op, OpView, Selection, SelectionView, Side};
use crate::text::rope_len_chars;
use crate::window::Window;
use vstd::arithmetic::div_mod::{
    lemma_add_mod_noop, lemma_mod_add_multiples_vanish, lemma_small_mod, lemma_sub_mod_noop,
};
use vstd::prelude::*;

verus! {

/// Normal mode, with a message to show, if there is one.
pub struct Normal {
    toast: Option<String>,
}

impl View for Normal {
    type V = Option<Seq<char>>;

    closed spec fn view(&self) -> Option<Seq<char>> {
        match self.toast {
            Some(toast) => Some(toast@),
            None => None,
        }
    }
}

/// The operations of a move by half a window: that many moves by a line,
/// then a collapse.
pub open spec fn page_ops(height: usize, delta: int) -> Seq<OpView> {
    Seq::new((height / 2) as nat, |i: int| OpView::MoveByLine(delta)).push(
        OpView::Collapse,
    )
}

/// The operations that a key stands for in normal mode, if it stands for
/// operations on every selection.
pub open spec fn normal_ops(key: Key, height: usize) -> Option<Seq<OpView>> {
    match key {
        Key::Char('d') => Some(seq![OpView::RemoveAll]),
        Key::Char('h') => Some(seq![OpView::MoveByChar(-1)]),
        Key::Char('j') => Some(seq![OpView::MoveByLine(1)]),
        Key::Char('k') => Some(seq![OpView::MoveByLine(-1)]),
        Key::Char('l') => Some(seq![OpView::MoveByChar(1)]),
        Key::Char('b') => Some(seq![OpView::Swap]),
        Key::Char('n') => Some(seq![OpView::Collapse]),
        Key::Char('p') => Some(page_ops(height, 1)),
        Key::Char('P') => Some(page_ops(height, -1)),
        _ => None,
    }
}

/// The window with the line of the primary cursor in its middle, as far
/// as the text goes up.
pub open spec fn centered(window: Window, buffer: BufferView) -> Window {
    let line = buffer.selections[buffer.primary as int].line_of_cursor(buffer.text);
    Window {
        scroll_top: if line >= window.height / 2 {
            (line - window.height / 2) as usize
        } else {
            0
        },
        ..window
    }
}

/// The window after a key of normal mode.
pub open spec fn window_after(window: Window, key: Key, buffer: BufferView) -> Window {
    match key {
        Key::Char('p') => centered(window, buffer),
        Key::Char('P') => centered(window, buffer),
        Key::Char('v') => centered(window, buffer),
        Key::Up => Window {
            scroll_top: if window.scroll_top >= 1 {
                (window.scroll_top - 1) as usize
            } else {
                0
            },
            ..window
        },
        Key::Down => Window {
            scroll_top: if window.scroll_top < usize::MAX {
                (window.scroll_top + 1) as usize
            } else {
                usize::MAX
            },
            ..window
        },
        Key::Left => Window {
            scroll_left: if window.scroll_left >= 1 {
                (window.scroll_left - 1) as usize
            } else {
                0
            },
            ..window
        },
        Key::Right => Window {
            scroll_left: if window.scroll_left < usize::MAX {
                (window.scroll_left + 1) as usize
            } else {
                usize::MAX
            },
            ..window
        },
        _ => window,
    }
}

/// The selections without the primary one.
pub open spec fn without_primary(buffer: BufferView) -> Seq<SelectionView> {
    buffer.selections.subrange(0, buffer.primary as int) + buffer.selections.subrange(
        buffer.primary as int + 1,
        buffer.selections.len() as int,
    )
}

/// The buffer after a key of normal mode that works on the buffer, with
/// the pieces of the clipboard where it holds any.
pub open spec fn buffer_after(
    buffer: BufferView,
    key: Key,
    height: usize,
    clipboard: Option<Seq<Seq<char>>>,
) -> BufferView {
    match normal_ops(key, height) {
        Some(ops) => buffer.after_operations(ops),
        None => match key {
            Key::Char('Q') => match clipboard {
                Some(pieces) => buffer.pasted(pieces),
                None => buffer,
            },
            Key::Char('z') => buffer.undone(),
            Key::Char('Z') => buffer.redone(),
            Key::Char('u') => buffer.with_selections(
                seq![
                    SelectionView {
                        start: 0,
                        end: buffer.text.len(),
                        side: Side::End,
                        line_offset: None,
                    },
                ],
            ),
            Key::Char('t') => BufferView {
                primary: ((buffer.primary as int + 1) % (buffer.selections.len() as int)) as nat,
                ..buffer
            },
            Key::Char('T') => BufferView {
                primary: ((buffer.primary as int - 1) % (buffer.selections.len() as int)) as nat,
                ..buffer
            },
            Key::Char('y') => buffer.with_selections(
                seq![buffer.selections[buffer.primary as int]],
            ),
            Key::Char('Y') => buffer.with_selections(without_primary(buffer)),
            _ => buffer,
        },
    }
}

/// The pieces of text that the clipboard holds, if it holds any.
pub open spec fn clipboard_of(registry: Registry) -> Option<Seq<Seq<char>>> {
    match registry.value_of("clipboard"@) {
        Some(Register::Content(pieces)) => Some(string_views(pieces@)),
        _ => None,
    }
}

/// The mode that a key of normal mode leads to, if it leads to one.
pub open spec fn leads_to(key: Key, mode: Mode) -> bool {
    match key {
        Key::Char('a') => mode is Insert,
        Key::Char('r') => mode matches Mode::Pipe(pipe) && pipe@ == Seq::<char>::empty(),
        Key::Char('g') => mode matches Mode::Seek(seek) && seek@.flag == false
            && seek@.command == Seq::<char>::empty() && seek@.preview is Empty,
        Key::Char('G') => mode matches Mode::Seek(seek) && seek@.flag == true
            && seek@.command == Seq::<char>::empty() && seek@.preview is Empty,
        Key::Char('s') => mode matches Mode::Split(split) && split@.flag == false
            && split@.command == Seq::<char>::empty() && split@.preview is Empty,
        Key::Char('S') => mode matches Mode::Split(split) && split@.flag == true
            && split@.command == Seq::<char>::empty() && split@.preview is Empty,
        Key::Char('f') => mode matches Mode::Filter(filter) && filter@.flag == false
            && filter@.command == Seq::<char>::empty() && filter@.preview is Empty,
        Key::Char('F') => mode matches Mode::Filter(filter) && filter@.flag == true
            && filter@.command == Seq::<char>::empty() && filter@.preview is Empty,
        _ => false,
    }
}

/// The key leads to another mode.
pub open spec fn is_switch(key: Key) -> bool {
    key == Key::Char('a') || key == Key::Char('r') || key == Key::Char('g') || key == Key::Char(
        'G',
    ) || key == Key::Char('s') || key == Key::Char('S') || key == Key::Char('f') || key
        == Key::Char('F')
}

impl Normal {
    /// What a key does in normal mode. With control, `q` leaves the editor
    /// and `w` asks for the document to be saved. `a`, `r`, `g`, `G`, `s`,
    /// `S`, `f` and `F` lead to other modes. `q` copies the selections to the
    /// clipboard. The other keys work on the buffer and the window as
    /// `buffer_after` and `window_after` say. The message is gone after any
    /// key.
    pub open spec fn stepped(
        before: BufferView,
        after: BufferView,
        registry_before: Registry,
        registry_after: Registry,
        window_before: Window,
        window_after_key: Window,
        modifiers: Modifiers,
        key: Key,
        command: UpdateCommand,
    ) -> bool {
        if key == Key::Char('q') && modifiers.control {
            &&& command is Quit
            &&& after == before
            &&& registry_after == registry_before
            &&& window_after_key == window_before
        } else if key == Key::Char('w') && modifiers.control {
            &&& command is Save
            &&& after == before
            &&& registry_after == registry_before
            &&& window_after_key == window_before
        } else if is_switch(key) {
            &&& command matches UpdateCommand::Switch(mode) && leads_to(key, mode)
            &&& after == before
            &&& registry_after == registry_before
            &&& window_after_key == window_before
        } else if key == Key::Char('q') {
            &&& command is Nothing
            &&& after == before
            &&& window_after_key == window_before
            &&& clipboard_of(registry_after) == Some(before.copied())
            &&& forall|name: Seq<char>|
                name != "clipboard"@ ==> registry_after.value_of(name)
                    == registry_before.value_of(name)
        } else {
            &&& command is Nothing
            &&& after == buffer_after(
                before,
                key,
                window_before.height,
                clipboard_of(registry_before),
            )
            &&& registry_after == registry_before
            &&& window_after_key == window_after(window_before, key, after)
        }
    }

    /// The command that goes to normal mode.
    pub fn switch_to() -> (command: UpdateCommand)
        ensures
            command matches UpdateCommand::Switch(Mode::Normal(normal)) && normal@.is_none(),
    {
        UpdateCommand::Switch(Mode::Normal(Self { toast: None }))
    }

    /// The command that goes to normal mode with a message to show.
    pub fn switch_to_with_toast(toast: String) -> (command: UpdateCommand)
        ensures
            command matches UpdateCommand::Switch(Mode::Normal(normal)) && normal@ == Some(
                toast@,
            ),
    {
        UpdateCommand::Switch(Mode::Normal(Self { toast: Some(toast) }))
    }

    /// Takes note of how saving the document went, to show it.
    pub fn saved(&mut self, ok: bool)
        ensures
            final(self)@ == Some(
                if ok {
                    "file saved!"@
                } else {
                    "error: could not save file"@
                },
            ),
    {
        self.toast = if ok {
            Some("file saved!".to_owned())
        } else {
            Some("error: could not save file".to_owned())
        };
    }

    /// Does what a key stands for in normal mode.
    #[verifier::rlimit(30)]
    pub fn update(
        &mut self,
        buffer: &mut Buffer,
        registry: &mut Registry,
        window: &mut Window,
        modifiers: Modifiers,
        key: Key,
    ) -> (command: UpdateCommand)
        requires
            old(buffer)@.wf(),
            old(registry).wf(),
        ensures
            Normal::stepped(
                old(buffer)@,
                final(buffer)@,
                *old(registry),
                *final(registry),
                *old(window),
                *final(window),
                modifiers,
                key,
                command,
            ),
            final(self)@.is_none(),
            final(buffer)@.wf(),
            final(registry).wf(),
            final(buffer).file() == old(buffer).file(),
    {
        self.toast = None;
        match key {
            Key::Char(ch) => {
                if ch == 'q' && modifiers.control {
                    return UpdateCommand::Quit;
                } else if ch == 'w' && modifiers.control {
                    return UpdateCommand::Save;
                } else if ch == 'd' {
                    let ops = [Op::RemoveAll];
                    assert(op_views(ops@) =~= seq![OpView::RemoveAll]);
                    buffer.apply_operations(&ops);
                } else if ch == 'a' {
                    return Insert::switch_to();
                } else if ch == 'q' {
                    let contents = copy(buffer);
                    registry.set("clipboard", Register::Content(contents));
                } else if ch == 'Q' {
                    match registry.get("clipboard") {
                        Some(Register::Content(contents)) => {
                            paste(buffer, contents.as_slice());
                        },
                        _ => {},
                    }
                } else if ch == 'z' {
                    undo(buffer);
                } else if ch == 'Z' {
                    redo(buffer);
                } else if ch == 'r' {
                    return Pipe::switch_to();
                } else if ch == 'h' {
                    let ops = [Op::MoveByChar(-1)];
                    assert(op_views(ops@) =~= seq![OpView::MoveByChar(-1)]);
                    buffer.apply_operations(&ops);
                } else if ch == 'j' {
                    let ops = [Op::MoveByLine(1)];
                    assert(op_views(ops@) =~= seq![OpView::MoveByLine(1)]);
                    buffer.apply_operations(&ops);
                } else if ch == 'k' {
                    let ops = [Op::MoveByLine(-1)];
                    assert(op_views(ops@) =~= seq![OpView::MoveByLine(-1)]);
                    buffer.apply_operations(&ops);
                } else if ch == 'l' {
                    let ops = [Op::MoveByChar(1)];
                    assert(op_views(ops@) =~= seq![OpView::MoveByChar(1)]);
                    buffer.apply_operations(&ops);
                } else if ch == 'g' {
                    return Seek::switch_to(false);
                } else if ch == 'G' {
                    return Seek::switch_to(true);
                } else if ch == 'b' {
                    let ops = [Op::Swap];
                    assert(op_views(ops@) =~= seq![OpView::Swap]);
                    buffer.apply_operations(&ops);
                } else if ch == 'n' {
                    let ops = [Op::Collapse];
                    assert(op_views(ops@) =~= seq![OpView::Collapse]);
                    buffer.apply_operations(&ops);
                } else if ch == 'p' {
                    move_by_window_page(buffer, window, 1);
                } else if ch == 'P' {
                    move_by_window_page(buffer, window, -1);
                } else if ch == 'u' {
                    let mut selections = Vec::new();
                    selections.push(Selection::new_at_end(0, rope_len_chars(buffer.contents())));
                    assert(selection_views(selections@) =~= seq![
                        SelectionView {
                            start: 0,
                            end: old(buffer)@.text.len(),
                            side: Side::End,
                            line_offset: None,
                        },
                    ]);
                    buffer.set_selections(selections);
                } else if ch == 't' {
                    let index = wrap_add(buffer.selections().len(), buffer.primary_index(), 1);
                    buffer.set_primary_selection(index);
                } else if ch == 'T' {
                    let index = wrap_add(buffer.selections().len(), buffer.primary_index(), -1);
                    buffer.set_primary_selection(index);
                } else if ch == 'y' {
                    let mut selections = Vec::new();
                    selections.push(*buffer.primary_selection());
                    assert(selection_views(selections@) =~= seq![
                        old(buffer)@.selections[old(buffer)@.primary as int],
                    ]);
                    buffer.set_selections(selections);
                } else if ch == 'Y' {
                    let selections = other_selections(buffer);
                    buffer.set_selections(selections);
                } else if ch == 's' {
                    return Split::switch_to(false);
                } else if ch == 'S' {
                    return Split::switch_to(true);
                } else if ch == 'f' {
                    return Filter::switch_to(false);
                } else if ch == 'F' {
                    return Filter::switch_to(true);
                } else if ch == 'v' {
                    center(buffer, window);
                }
            },
            Key::Up => {
                window.scroll_top = window.scroll_top.saturating_sub(1);
            },
            Key::Down => {
                window.scroll_top = window.scroll_top.saturating_add(1);
            },
            Key::Left => {
                window.scroll_left = window.scroll_left.saturating_sub(1);
            },
            Key::Right => {
                window.scroll_left = window.scroll_left.saturating_add(1);
            },
            _ => {},
        }
        UpdateCommand::Nothing
    }

    /// The line that shows the mode: the message, or the name of the mode.
    pub fn status(&self) -> (status: String)
        ensures
            status@ == (match self@ {
                Some(toast) => toast,
                None => "normal"@,
            }),
    {
        match &self.toast {
            Some(toast) => toast.clone(),
            None => "normal".to_owned(),
        }
    }

    /// Normal mode shows no selections of its own.
    pub fn preview_selections(&self) -> (preview: Option<&Vec<Selection>>)
        ensures
            preview.is_none(),
    {
        None
    }
}

impl Default for Normal {
    fn default() -> (normal: Self)
        ensures
            normal@.is_none(),
    {
        Self { toast: None }
    }
}

/// The selections without the primary one, in their order.
fn other_selections(buffer: &Buffer) -> (selections: Vec<Selection>)
    requires
        buffer@.wf(),
    ensures
        selection_views(selections@) == without_primary(buffer@),
{
    let all = buffer.selections();
    let primary = buffer.primary_index();
    let mut selections: Vec<Selection> = Vec::new();
    let mut i: usize = 0;
    while i < all.len()
        invariant
            i <= all@.len(),
            primary < all@.len(),
            selection_views(all@) == buffer@.selections,
            primary == buffer@.primary,
            selection_views(selections@) == (if i <= primary {
                buffer@.selections.subrange(0, i as int)
            } else {
                buffer@.selections.subrange(0, primary as int) + buffer@.selections.subrange(
                    primary + 1,
                    i as int,
                )
            }),
        decreases all.len() - i,
    {
        let ghost before = selection_views(selections@);
        if i != primary {
            selections.push(all[i]);
            assert(selection_views(selections@) =~= before.push(all@[i as int]@));
            assert(selection_views(all@)[i as int] == all@[i as int]@);
        }
        i += 1;
        assert(selection_views(selections@) =~= (if i <= primary {
            buffer@.selections.subrange(0, i as int)
        } else {
            buffer@.selections.subrange(0, primary as int) + buffer@.selections.subrange(
                primary + 1,
                i as int,
            )
        }));
    }
    selections
}

/// Moves every cursor by half a window of lines, collapses the
/// selections, and brings the primary cursor to the middle of the window.
pub fn move_by_window_page(buffer: &mut Buffer, window: &mut Window, delta: isize)
    requires
        old(buffer)@.wf(),
    ensures
        final(buffer)@ == old(buffer)@.after_operations(
            page_ops(old(window).height, delta as int),
        ),
        final(buffer)@.wf(),
        final(buffer).file() == old(buffer).file(),
        *final(window) == centered(*old(window), final(buffer)@),
{
    let count = window.height / 2;
    let mut ops: Vec<Op> = Vec::new();
    let mut i: usize = 0;
    while i < count
        invariant
            i <= count,
            op_views(ops@) == Seq::new(i as nat, |k: int| OpView::MoveByLine(delta as int)),
        decreases count - i,
    {
        let ghost before = op_views(ops@);
        ops.push(Op::MoveByLine(delta));
        i += 1;
        assert(op_views(ops@) =~= before.push(OpView::MoveByLine(delta as int)));
        assert(op_views(ops@) =~= Seq::new(i as nat, |k: int| OpView::MoveByLine(delta as int)));
    }
    let ghost before = op_views(ops@);
    ops.push(Op::Collapse);
    assert(op_views(ops@) =~= before.push(OpView::Collapse));
    buffer.apply_operations(ops.as_slice());
    center(buffer, window);
}

/// Brings the line of the primary cursor to the middle of the window, as
/// far as the text goes up.
pub fn center(buffer: &Buffer, window: &mut Window)
    requires
        buffer@.wf(),
    ensures
        *final(window) == centered(*old(window), buffer@),
{
    window.scroll_top = buffer.primary_selection().cursor_line(
        buffer.contents(),
    ).saturating_sub(window.height / 2);
}

/// Adds `delta` to `value` and wraps the sum into a domain of `domain`
/// values, counted from 0.
pub fn wrap_add(domain: usize, value: usize, delta: isize) -> (wrapped: usize)
    requires
        domain > 0,
    ensures
        wrapped == (value + delta) % (domain as int),
{
    let base = value % domain;
    if delta >= 0 {
        let shift = (delta as usize) % domain;
        proof {
            lemma_add_mod_noop(value as int, delta as int, domain as int);
            if base + shift >= domain {
                lemma_mod_add_multiples_vanish(base + shift - domain, domain as int);
                lemma_small_mod((base + shift - domain) as nat, domain as nat);
            } else {
                lemma_small_mod((base + shift) as nat, domain as nat);
            }
        }
        if base >= domain - shift {
            base - (domain - shift)
        } else {
            base + shift
        }
    } else {
        let magnitude = if delta == isize::MIN {
            (isize::MAX as usize) + 1
        } else {
            (-delta) as usize
        };
        let shift = magnitude % domain;
        proof {
            lemma_sub_mod_noop(value as int, magnitude as int, domain as int);
            if base >= shift {
                lemma_small_mod((base - shift) as nat, domain as nat);
            } else {
                lemma_mod_add_multiples_vanish(base - shift, domain as int);
                lemma_small_mod((base - shift + domain) as nat, domain as nat);
            }
        }
        if base >= shift {
            base - shift
        } else {
            base + (domain - shift)
        }
    }
}

} // verus!
