//! Pipe mode: a command line for a script. The script itself is run by the
//! caller, once for each selection with the text of the selection as its
//! input; what it prints replaces the selection.

use crate::buffer::{
    replace_selections, result_selections, result_texts, Buffer, BufferView,
};
use crate::key::{Key, Modifiers};
use crate::mode::normal::Normal;
use crate::mode::{
    command_after, command_backspace, command_push, is_leave, to_normal, Mode, UpdateCommand,
};
use crate::register::Registry;
use crate::selection::Selection;
use crate::text::{push_str, rope_new, rope_text, rope_to_string};
use crate::window::Window;
use ropey::Rope;
use vstd::prelude::*;

verus! {

/// Pipe mode, with the script typed so far.
pub struct Pipe {
    command: Rope,
}

impl View for Pipe {
    type V = Seq<char>;

    closed spec fn view(&self) -> Seq<char> {
        rope_text(self.command)
    }
}

impl Pipe {
    /// What a key does in pipe mode. `Esc`, or `q` with control, goes back
    /// to normal mode. `Enter` asks for the script to be run. `Backspace` and
    /// characters edit the script. Other keys do nothing.
    pub open spec fn stepped(
        before: Seq<char>,
        after: Seq<char>,
        modifiers: Modifiers,
        key: Key,
        command: UpdateCommand,
    ) -> bool {
        if is_leave(modifiers, key) {
            to_normal(command) && after == before
        } else if key is Enter {
            &&& command matches UpdateCommand::Pipe(script) && script@ == before
            &&& after == before
        } else {
            command is Nothing && after == command_after(before, key)
        }
    }

    /// The command that goes to pipe mode, with an empty command line.
    pub fn switch_to() -> (command: UpdateCommand)
        ensures
            command matches UpdateCommand::Switch(Mode::Pipe(mode)) && mode@
                == Seq::<char>::empty(),
    {
        UpdateCommand::Switch(Mode::Pipe(Self { command: rope_new() }))
    }

    /// Does what a key stands for in pipe mode.
    pub fn update(
        &mut self,
        _buffer: &mut Buffer,
        _registry: &mut Registry,
        _window: &mut Window,
        modifiers: Modifiers,
        key: Key,
    ) -> (command: UpdateCommand)
        ensures
            Pipe::stepped(old(self)@, final(self)@, modifiers, key, command),
            *final(_buffer) == *old(_buffer),
            *final(_registry) == *old(_registry),
            *final(_window) == *old(_window),
    {
        match key {
            Key::Esc => {
                return Normal::switch_to();
            },
            Key::Backspace => {
                command_backspace(&mut self.command);
            },
            Key::Char(ch) => {
                if ch == 'q' && modifiers.control {
                    return Normal::switch_to();
                }
                command_push(&mut self.command, ch);
            },
            Key::Enter => {
                return UpdateCommand::Pipe(rope_to_string(&self.command));
            },
            _ => {},
        }
        UpdateCommand::Nothing
    }

    /// The line that shows the mode and the script.
    pub fn status(&self) -> (status: String)
        ensures
            status@ == "pipe > "@ + self@,
    {
        let mut status = "pipe > ".to_owned();
        let command = rope_to_string(&self.command);
        push_str(&mut status, command.as_str());
        status
    }

    /// Pipe mode shows no selections of its own.
    pub fn preview_selections(&self) -> (preview: Option<&Vec<Selection>>)
        ensures
            preview.is_none(),
    {
        None
    }
}

impl Default for Pipe {
    fn default() -> (pipe: Self)
        ensures
            pipe@ == Seq::<char>::empty(),
    {
        Self { command: rope_new() }
    }
}

/// The buffer after the script was run: where it failed nothing has
/// changed, else each selection is replaced by what the script printed for
/// it.
pub open spec fn finished(
    before: BufferView,
    results: Result<Vec<(Selection, String)>, String>,
) -> BufferView {
    match results {
        Ok(results) => before.piped(result_selections(results@), result_texts(results@)),
        Err(_) => before,
    }
}

/// Takes what the script gave for each selection, or the word of its
/// failure. The outputs replace the selections, as one step of the history;
/// a failure is shown in normal mode.
pub fn finish(buffer: &mut Buffer, results: Result<Vec<(Selection, String)>, String>) -> (command:
    UpdateCommand)
    requires
        old(buffer)@.wf(),
    ensures
        final(buffer)@ == finished(old(buffer)@, results),
        final(buffer)@.wf(),
        final(buffer).file() == old(buffer).file(),
        command matches UpdateCommand::Switch(Mode::Normal(normal)) && normal@ == (match results {
            Ok(_) => None,
            Err(error) => Some(error@),
        }),
{
    match results {
        Ok(results) => {
            replace_selections(buffer, &results);
            Normal::switch_to()
        },
        Err(error) => Normal::switch_to_with_toast(error),
    }
}

} // verus!
