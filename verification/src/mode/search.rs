//! Search: like seek, but without word of whether anything was found. Each
//! selection for which the pattern has a match moves its cursor there; the
//! others stay as they are.

use crate::buffer::{Buffer, BufferView};
use crate::key::{Key, Modifiers};
use crate::mode::normal::Normal;
use crate::mode::seek::{seek_with, sought_all};
use crate::mode::{
    command_after, command_backspace, command_push, to_normal, Mode, UpdateCommand,
};
use crate::overlap::selection_views;
use crate::regex::{regex_compiles, Regex};
use crate::register::Registry;
use crate::selection::{Selection, SelectionView, Side};
use crate::text::{push_str, rope_new, rope_text, rope_to_string};
use crate::window::Window;
use ropey::Rope;
use vstd::prelude::*;

verus! {

/// What a search gives for a pattern: nothing for an empty pattern or one
/// that the regex engine refuses, else the selections, those with a match
/// moved.
pub open spec fn was_searched(
    result: Option<Vec<Selection>>,
    selections: Seq<SelectionView>,
    pattern: Seq<char>,
    text: Seq<char>,
    reverse: bool,
) -> bool {
    if pattern.len() == 0 || !regex_compiles(pattern) {
        result.is_none()
    } else {
        result matches Some(list) && selection_views(list@) == sought_all(
            selections,
            pattern,
            text,
            reverse,
        )
    }
}

/// Moves the cursor of each selection to the first match of the pattern
/// behind it.
pub fn forward(contents: &Rope, selections: &[Selection], pattern: &str) -> (result: Option<
    Vec<Selection>,
>)
    ensures
        was_searched(
            result,
            selection_views(selections@),
            pattern@,
            rope_text(*contents),
            false,
        ),
{
    if pattern.is_empty() {
        return None;
    }
    let regex = match Regex::new(pattern) {
        Some(regex) => regex,
        None => {
            return None;
        },
    };
    let (new_selections, _) = seek_with(&regex, contents, selections, false);
    Some(new_selections)
}

/// Moves the cursor of each selection to the last match of the pattern
/// before it.
pub fn reverse(contents: &Rope, selections: &[Selection], pattern: &str) -> (result: Option<
    Vec<Selection>,
>)
    ensures
        was_searched(
            result,
            selection_views(selections@),
            pattern@,
            rope_text(*contents),
            true,
        ),
{
    if pattern.is_empty() {
        return None;
    }
    let regex = match Regex::new(pattern) {
        Some(regex) => regex,
        None => {
            return None;
        },
    };
    let (new_selections, _) = seek_with(&regex, contents, selections, true);
    Some(new_selections)
}

/// Moves the cursor of a selection to a match. The anchor stays; where the
/// match lies across the anchor, the cursor changes sides.
pub fn move_cursor(selection: Selection, start: usize, end: usize) -> (moved: Selection)
    ensures
        moved@ == selection@.moved_to(start as nat, end as nat),
{
    match selection.side() {
        Side::Start => {
            if end > selection.end() {
                Selection::new_at_end(selection.end(), end)
            } else {
                Selection::new_at_start(start, selection.end())
            }
        },
        Side::End => {
            if start < selection.start() {
                Selection::new_at_start(start, selection.start())
            } else {
                Selection::new_at_end(selection.start(), end)
            }
        },
    }
}

/// The selections that a search installs, if it gives any: none for an
/// empty pattern or one that the regex engine refuses.
pub open spec fn search_outcome(
    selections: Seq<SelectionView>,
    pattern: Seq<char>,
    text: Seq<char>,
    reverse: bool,
) -> Option<Seq<SelectionView>> {
    if pattern.len() == 0 || !regex_compiles(pattern) {
        None
    } else {
        Some(sought_all(selections, pattern, text, reverse))
    }
}

/// Search mode: a command line for a pattern, whether the cursors go back
/// rather than forward, and the selections that the command would give now.
pub struct Search {
    pub command: Rope,
    pub reverse: bool,
    preview: Option<Vec<Selection>>,
}

/// Search mode as plain values.
pub struct SearchView {
    pub reverse: bool,
    pub command: Seq<char>,
    pub preview: Option<Vec<Selection>>,
}

impl View for Search {
    type V = SearchView;

    closed spec fn view(&self) -> SearchView {
        SearchView {
            reverse: self.reverse,
            command: rope_text(self.command),
            preview: self.preview,
        }
    }
}

impl Search {
    /// What a key does in search mode. `Esc` drops the preview and goes
    /// back to normal mode. `Enter` installs what the command gives, if it
    /// gives selections, drops the preview and goes back to normal mode.
    /// `Backspace` and characters edit the command, and the preview follows
    /// the command. Other keys do nothing.
    pub open spec fn stepped(
        before: SearchView,
        after: SearchView,
        buffer_before: BufferView,
        buffer_after: BufferView,
        key: Key,
        command: UpdateCommand,
    ) -> bool {
        if key is Esc {
            &&& to_normal(command)
            &&& after == (SearchView { preview: None, ..before })
            &&& buffer_after == buffer_before
        } else if key is Enter {
            &&& to_normal(command)
            &&& after == (SearchView { preview: None, ..before })
            &&& buffer_after == (match search_outcome(
                buffer_before.selections,
                before.command,
                buffer_before.text,
                before.reverse,
            ) {
                Some(list) => buffer_before.installed(list),
                None => buffer_before,
            })
        } else {
            &&& command is Nothing
            &&& buffer_after == buffer_before
            &&& after.reverse == before.reverse
            &&& after.command == command_after(before.command, key)
            &&& if (key is Backspace && before.command.len() > 0) || key is Char {
                was_searched(
                    after.preview,
                    buffer_before.selections,
                    after.command,
                    buffer_before.text,
                    before.reverse,
                )
            } else {
                after.preview == before.preview
            }
        }
    }

    /// The command that goes to search mode, with an empty command line.
    /// With `reverse` the cursors go to the match before them.
    pub fn switch_to(reverse: bool) -> (command: UpdateCommand)
        ensures
            command matches UpdateCommand::Switch(Mode::Search(mode)) && mode@.reverse == reverse
                && mode@.command == Seq::<char>::empty() && mode@.preview.is_none(),
    {
        let mode = Self { command: rope_new(), reverse, preview: None };
        UpdateCommand::Switch(Mode::Search(mode))
    }

    /// What the command gives for the buffer as it is.
    fn run(&self, buffer: &Buffer) -> (result: Option<Vec<Selection>>)
        ensures
            was_searched(
                result,
                buffer@.selections,
                self@.command,
                buffer@.text,
                self@.reverse,
            ),
    {
        let command = rope_to_string(&self.command);
        if self.reverse {
            reverse(buffer.contents(), buffer.selections().as_slice(), command.as_str())
        } else {
            forward(buffer.contents(), buffer.selections().as_slice(), command.as_str())
        }
    }

    /// Does what a key stands for in search mode.
    pub fn update(
        &mut self,
        buffer: &mut Buffer,
        _registry: &mut Registry,
        _window: &mut Window,
        _modifiers: Modifiers,
        key: Key,
    ) -> (command: UpdateCommand)
        requires
            old(buffer)@.wf(),
        ensures
            Search::stepped(old(self)@, final(self)@, old(buffer)@, final(buffer)@, key, command),
            final(buffer)@.wf(),
            final(buffer).file() == old(buffer).file(),
            *final(_registry) == *old(_registry),
            *final(_window) == *old(_window),
    {
        match key {
            Key::Esc => {
                self.preview = None;
                return Normal::switch_to();
            },
            Key::Backspace => {
                if command_backspace(&mut self.command) {
                    self.preview = self.run(buffer);
                }
            },
            Key::Enter => {
                let selections = self.run(buffer);
                match selections {
                    Some(selections) => {
                        buffer.install_selections(selections);
                    },
                    None => {},
                }
                self.preview = None;
                return Normal::switch_to();
            },
            Key::Char(ch) => {
                command_push(&mut self.command, ch);
                self.preview = self.run(buffer);
            },
            _ => {},
        }
        UpdateCommand::Nothing
    }

    /// The line that shows the mode and the command.
    pub fn status(&self) -> (status: String)
        ensures
            status@ == "search > "@ + self@.command,
    {
        let mut status = "search > ".to_owned();
        let command = rope_to_string(&self.command);
        push_str(&mut status, command.as_str());
        status
    }

    /// The selections that the command would give now, if it gives any.
    pub fn preview_selections(&self) -> (preview: Option<&Vec<Selection>>)
        ensures
            preview.is_some() == self@.preview.is_some(),
            preview matches Some(list) ==> Some(*list) == self@.preview,
    {
        self.preview.as_ref()
    }
}

} // verus!
