//! The modes of the editor. Each mode decides what a key does: to the
//! buffer, to itself, and which mode comes next. The transforms that make a
//! new list of selections from the text, the selections and a pattern stand
//! with the modes that offer them; none of them changes the text or the
//! buffer before the mode installs its result.

pub mod filter;
pub mod insert;
pub mod normal;
pub mod pipe;
pub mod search;
pub mod seek;
pub mod split;

use crate::buffer::Buffer;
use crate::key::{Key, Modifiers};
use crate::mode::filter::Filter;
use crate::mode::insert::Insert;
use crate::mode::normal::Normal;
use crate::mode::pipe::Pipe;
use crate::mode::search::Search;
use crate::mode::seek::Seek;
use crate::mode::split::Split;
use crate::register::Registry;
use crate::selection::Selection;
use crate::text::{
    push_str, rope_insert_char, rope_len_chars, rope_remove, rope_text, rope_to_string,
};
use crate::window::Window;
use ropey::Rope;
use vstd::prelude::*;

verus! {

/// What a transform gives.
#[derive(Debug, Clone, PartialEq)]
pub enum ModeResult {
    /// The pattern is empty.
    Empty,
    /// The regex engine refuses the pattern.
    Error,
    /// No selection has changed.
    Same,
    /// The new selections. The list may be empty.
    Done(Vec<Selection>),
}

/// The mode that the editor is in.
pub enum Mode {
    Normal(Normal),
    Insert(Insert),
    Filter(Filter),
    Split(Split),
    Seek(Seek),
    Search(Search),
    Pipe(Pipe),
}

/// What the caller is to do after a key.
pub enum UpdateCommand {
    /// Go on in another mode.
    Switch(Mode),
    /// Leave the editor.
    Quit,
    /// Go on in the same mode.
    Nothing,
    /// Write the document to its file, and tell the mode how that went.
    Save,
    /// Run the script on the text of each selection, and hand what it
    /// printed to the buffer.
    Pipe(String),
}

/// A mode with a command line: a switch, the command typed so far, and the
/// result that the command would give now.
pub struct PromptView {
    pub flag: bool,
    pub command: Seq<char>,
    pub preview: ModeResult,
}

/// The command line after a key: `Backspace` takes the last character
/// off, a character goes to the end, other keys leave the line.
pub open spec fn command_after(command: Seq<char>, key: Key) -> Seq<char> {
    match key {
        Key::Backspace => if command.len() > 0 {
            command.drop_last()
        } else {
            command
        },
        Key::Char(ch) => command.push(ch),
        _ => command,
    }
}

/// The key leaves a mode with a command line: `Esc`, or `q` with control.
pub open spec fn is_leave(modifiers: Modifiers, key: Key) -> bool {
    key is Esc || (key == Key::Char('q') && modifiers.control)
}

/// The command says to go on in normal mode, with nothing to show.
pub open spec fn to_normal(command: UpdateCommand) -> bool {
    command matches UpdateCommand::Switch(Mode::Normal(normal)) && normal@.is_none()
}

/// Takes the last character off a command line, if it has one.
pub(crate) fn command_backspace(command: &mut Rope) -> (edited: bool)
    ensures
        rope_text(*final(command)) == command_after(rope_text(*old(command)), Key::Backspace),
        edited == (rope_text(*old(command)).len() > 0),
{
    let len = rope_len_chars(command);
    if len > 0 {
        rope_remove(command, len - 1, len);
        assert(rope_text(*command) =~= rope_text(*old(command)).drop_last());
        true
    } else {
        false
    }
}

/// Puts a character at the end of a command line.
pub(crate) fn command_push(command: &mut Rope, ch: char)
    ensures
        rope_text(*final(command)) == command_after(rope_text(*old(command)), Key::Char(ch)),
{
    let len = rope_len_chars(command);
    rope_insert_char(command, len, ch);
    assert(rope_text(*command) =~= rope_text(*old(command)).push(ch));
}

/// The mark that shows what a preview holds: `[!]` for a pattern that the
/// regex engine refuses, `[*]` for selections, `[_]` for nothing.
pub open spec fn indicator_of(preview: ModeResult) -> Seq<char> {
    match preview {
        ModeResult::Error => "[!]"@,
        ModeResult::Empty => "[_]"@,
        ModeResult::Same => "[_]"@,
        ModeResult::Done(list) => if list@.len() == 0 {
            "[_]"@
        } else {
            "[*]"@
        },
    }
}

/// The selections of a preview, if it holds any.
pub open spec fn shown(preview: ModeResult) -> Option<Vec<Selection>> {
    match preview {
        ModeResult::Done(list) => if list@.len() == 0 {
            None
        } else {
            Some(list)
        },
        _ => None,
    }
}

/// The mark that shows what a preview holds.
pub(crate) fn indicator(preview: &ModeResult) -> (mark: &'static str)
    ensures
        mark@ == indicator_of(*preview),
{
    match preview {
        ModeResult::Error => "[!]",
        ModeResult::Empty => "[_]",
        ModeResult::Same => "[_]",
        ModeResult::Done(list) => if list.len() == 0 {
            "[_]"
        } else {
            "[*]"
        },
    }
}

/// The selections of a preview, if it holds any.
pub(crate) fn preview_of(preview: &ModeResult) -> (selections: Option<&Vec<Selection>>)
    ensures
        selections.is_some() == shown(*preview).is_some(),
        selections matches Some(list) ==> Some(*list) == shown(*preview),
{
    match preview {
        ModeResult::Done(list) => if list.len() == 0 {
            None
        } else {
            Some(list)
        },
        _ => None,
    }
}

/// The status line of a mode with a command line: the name of the mode,
/// the mark of its preview, and the command.
pub(crate) fn prompt_status(name: &str, mark: &str, command: &Rope) -> (status: String)
    ensures
        status@ == name@ + " "@ + mark@ + " > "@ + rope_text(*command),
{
    let mut status = name.to_owned();
    push_str(&mut status, " ");
    push_str(&mut status, mark);
    push_str(&mut status, " > ");
    let command = rope_to_string(command);
    push_str(&mut status, command.as_str());
    status
}

impl Mode {
    /// Does what a key stands for in the mode that the editor is in. The
    /// mode itself stays; where another mode is to follow, the command says
    /// so.
    pub fn update(
        &mut self,
        buffer: &mut Buffer,
        registry: &mut Registry,
        window: &mut Window,
        modifiers: Modifiers,
        key: Key,
    ) -> (command: UpdateCommand)
        requires
            old(buffer)@.wf(),
            old(registry).wf(),
        ensures
            final(buffer)@.wf(),
            final(registry).wf(),
            final(buffer).file() == old(buffer).file(),
            match (*old(self), *final(self)) {
                (Mode::Normal(before), Mode::Normal(after)) => after@.is_none()
                    && Normal::stepped(
                    old(buffer)@,
                    final(buffer)@,
                    *old(registry),
                    *final(registry),
                    *old(window),
                    *final(window),
                    modifiers,
                    key,
                    command,
                ),
                (Mode::Insert(_), Mode::Insert(_)) => Insert::stepped(
                    old(buffer)@,
                    final(buffer)@,
                    modifiers,
                    key,
                    command,
                ) && *final(registry) == *old(registry) && *final(window) == *old(window),
                (Mode::Filter(before), Mode::Filter(after)) => Filter::stepped(
                    before@,
                    after@,
                    old(buffer)@,
                    final(buffer)@,
                    modifiers,
                    key,
                    command,
                ) && *final(registry) == *old(registry) && *final(window) == *old(window),
                (Mode::Split(before), Mode::Split(after)) => Split::stepped(
                    before@,
                    after@,
                    old(buffer)@,
                    final(buffer)@,
                    modifiers,
                    key,
                    command,
                ) && *final(registry) == *old(registry) && *final(window) == *old(window),
                (Mode::Seek(before), Mode::Seek(after)) => Seek::stepped(
                    before@,
                    after@,
                    old(buffer)@,
                    final(buffer)@,
                    key,
                    command,
                ) && *final(registry) == *old(registry) && *final(window) == *old(window),
                (Mode::Search(before), Mode::Search(after)) => Search::stepped(
                    before@,
                    after@,
                    old(buffer)@,
                    final(buffer)@,
                    key,
                    command,
                ) && *final(registry) == *old(registry) && *final(window) == *old(window),
                (Mode::Pipe(before), Mode::Pipe(after)) => Pipe::stepped(
                    before@,
                    after@,
                    modifiers,
                    key,
                    command,
                ) && final(buffer)@ == old(buffer)@ && *final(registry) == *old(registry)
                    && *final(window) == *old(window),
                _ => false,
            },
    {
        match self {
            Mode::Normal(mode) => mode.update(buffer, registry, window, modifiers, key),
            Mode::Insert(mode) => mode.update(buffer, registry, window, modifiers, key),
            Mode::Filter(mode) => mode.update(buffer, registry, window, modifiers, key),
            Mode::Split(mode) => mode.update(buffer, registry, window, modifiers, key),
            Mode::Seek(mode) => mode.update(buffer, registry, window, modifiers, key),
            Mode::Search(mode) => mode.update(buffer, registry, window, modifiers, key),
            Mode::Pipe(mode) => mode.update(buffer, registry, window, modifiers, key),
        }
    }

    /// The line that shows the mode.
    pub fn status(&self) -> (status: String)
        ensures
            status@ == (match *self {
                Mode::Normal(mode) => match mode@ {
                    Some(toast) => toast,
                    None => "normal"@,
                },
                Mode::Insert(_) => "insert"@,
                Mode::Filter(mode) => "filter"@ + " "@ + indicator_of(mode@.preview) + " > "@
                    + mode@.command,
                Mode::Split(mode) => "split"@ + " "@ + indicator_of(mode@.preview) + " > "@
                    + mode@.command,
                Mode::Seek(mode) => "seek"@ + " "@ + indicator_of(mode@.preview) + " > "@
                    + mode@.command,
                Mode::Search(mode) => "search > "@ + mode@.command,
                Mode::Pipe(mode) => "pipe > "@ + mode@,
            }),
    {
        match self {
            Mode::Normal(mode) => mode.status(),
            Mode::Insert(mode) => mode.status(),
            Mode::Filter(mode) => mode.status(),
            Mode::Split(mode) => mode.status(),
            Mode::Seek(mode) => mode.status(),
            Mode::Search(mode) => mode.status(),
            Mode::Pipe(mode) => mode.status(),
        }
    }

    /// The selections that the mode shows in place of those of the buffer,
    /// if it shows any.
    pub fn preview_selections(&self) -> (preview: Option<&Vec<Selection>>)
        ensures
            (match preview {
                Some(list) => Some(*list),
                None => None,
            }) == (match *self {
                Mode::Filter(mode) => shown(mode@.preview),
                Mode::Split(mode) => shown(mode@.preview),
                Mode::Seek(mode) => shown(mode@.preview),
                Mode::Search(mode) => mode@.preview,
                _ => None,
            }),
    {
        match self {
            Mode::Normal(mode) => mode.preview_selections(),
            Mode::Insert(mode) => mode.preview_selections(),
            Mode::Filter(mode) => mode.preview_selections(),
            Mode::Split(mode) => mode.preview_selections(),
            Mode::Seek(mode) => mode.preview_selections(),
            Mode::Search(mode) => mode.preview_selections(),
            Mode::Pipe(mode) => mode.preview_selections(),
        }
    }
}

} // verus!
