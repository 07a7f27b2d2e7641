//! Insert mode: keys go into the text at every cursor.

use crate::buffer::{Buffer, BufferView};
use crate::key::{Key, Modifiers};
use crate::mode::normal::Normal;
use crate::mode::{is_leave, to_normal, Mode, UpdateCommand};
use crate::register::Registry;
use crate::selection::{Op, OpView, Selection};
use crate::window::Window;
use vstd::prelude::*;

verus! {

/// Insert mode.
pub struct Insert;

/// The operations that a key stands for in insert mode, if it stands for
/// any: `Backspace` removes, `Tab` inserts two spaces, `Enter` a line break,
/// a character itself.
pub open spec fn insert_ops(modifiers: Modifiers, key: Key) -> Option<Seq<OpView>> {
    if is_leave(modifiers, key) {
        None
    } else {
        match key {
            Key::Backspace => Some(seq![OpView::Remove]),
            Key::Tab => Some(seq![OpView::InsertChar(' '), OpView::InsertChar(' ')]),
            Key::Enter => Some(seq![OpView::InsertChar('\n')]),
            Key::Char(ch) => Some(seq![OpView::InsertChar(ch)]),
            _ => None,
        }
    }
}

impl Insert {
    /// What a key does in insert mode. `Esc`, or `q` with control, goes
    /// back to normal mode. A key that stands for operations applies them to
    /// the buffer. Other keys do nothing.
    pub open spec fn stepped(
        before: BufferView,
        after: BufferView,
        modifiers: Modifiers,
        key: Key,
        command: UpdateCommand,
    ) -> bool {
        if is_leave(modifiers, key) {
            to_normal(command) && after == before
        } else {
            &&& command is Nothing
            &&& after == (match insert_ops(modifiers, key) {
                Some(ops) => before.after_operations(ops),
                None => before,
            })
        }
    }

    /// The command that goes to insert mode.
    pub fn switch_to() -> (command: UpdateCommand)
        ensures
            command matches UpdateCommand::Switch(Mode::Insert(_)),
    {
        let mode = Self;
        UpdateCommand::Switch(Mode::Insert(mode))
    }

    /// Does what a key stands for in insert mode.
    pub fn update(
        &mut self,
        buffer: &mut Buffer,
        _registry: &mut Registry,
        _window: &mut Window,
        modifiers: Modifiers,
        key: Key,
    ) -> (command: UpdateCommand)
        requires
            old(buffer)@.wf(),
        ensures
            Insert::stepped(old(buffer)@, final(buffer)@, modifiers, key, command),
            final(buffer)@.wf(),
            final(buffer).file() == old(buffer).file(),
            *final(_registry) == *old(_registry),
            *final(_window) == *old(_window),
    {
        match key {
            Key::Esc => {
                return Normal::switch_to();
            },
            Key::Backspace => {
                let ops = [Op::Remove];
                assert(crate::buffer::op_views(ops@) =~= seq![OpView::Remove]);
                buffer.apply_operations(&ops);
            },
            Key::Tab => {
                let ops = [Op::InsertChar(' '), Op::InsertChar(' ')];
                assert(crate::buffer::op_views(ops@) =~= seq![
                    OpView::InsertChar(' '),
                    OpView::InsertChar(' '),
                ]);
                buffer.apply_operations(&ops);
            },
            Key::Enter => {
                let ops = [Op::InsertChar('\n')];
                assert(crate::buffer::op_views(ops@) =~= seq![OpView::InsertChar('\n')]);
                buffer.apply_operations(&ops);
            },
            Key::Char(ch) => {
                if ch == 'q' && modifiers.control {
                    return Normal::switch_to();
                }
                let ops = [Op::InsertChar(ch)];
                assert(crate::buffer::op_views(ops@) =~= seq![OpView::InsertChar(ch)]);
                buffer.apply_operations(&ops);
            },
            _ => {},
        }
        UpdateCommand::Nothing
    }

    /// The line that shows the mode.
    pub fn status(&self) -> (status: String)
        ensures
            status@ == "insert"@,
    {
        "insert".to_owned()
    }

    /// Insert mode shows no selections of its own.
    pub fn preview_selections(&self) -> (preview: Option<&Vec<Selection>>)
        ensures
            preview.is_none(),
    {
        None
    }
}

} // verus!
