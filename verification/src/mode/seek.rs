//! Seek: moves the cursor of each selection to the next match of a pattern
//! behind it, or to the last match before it.

use crate::buffer::{Buffer, BufferView};
use crate::key::{Key, Modifiers};
use crate::mode::normal::Normal;
use crate::mode::{
    command_after, command_backspace, command_push, indicator, indicator_of, preview_of,
    prompt_status, shown, to_normal, Mode, ModeResult, PromptView, UpdateCommand,
};
use crate::register::Registry;
use crate::window::Window;
use crate::overlap::selection_views;
use crate::regex::{find_matches, regex_compiles, Regex};
use crate::selection::{Selection, SelectionView, Side};
use crate::text::{rope_len_chars, rope_new, rope_text, rope_to_string};
use ropey::Rope;
use vstd::prelude::*;

verus! {

impl SelectionView {
    /// The selection with its cursor moved to a match from `start` to
    /// `end`. The anchor stays. Where the match lies across the anchor, the
    /// anchor becomes the near edge of the new selection and the cursor changes
    /// sides.
    pub open spec fn moved_to(self, start: nat, end: nat) -> SelectionView {
        match self.side {
            Side::Start => if end > self.end {
                SelectionView { start: self.end, end, side: Side::End, line_offset: None }
            } else {
                SelectionView { start, end: self.end, side: Side::Start, line_offset: None }
            },
            Side::End => if start < self.start {
                SelectionView { start, end: self.start, side: Side::Start, line_offset: None }
            } else {
                SelectionView { start: self.start, end, side: Side::End, line_offset: None }
            },
        }
    }

    /// The match that a seek finds for the selection, if there is one.
    /// Forward it is the first match in the text behind the cursor, backward
    /// the last match before the cursor. The whole text is searched, not the
    /// span of the selection.
    pub open spec fn target(self, pattern: Seq<char>, text: Seq<char>, reverse: bool) -> Option<
        (usize, usize),
    > {
        if reverse {
            let to = if self.cursor() >= 1 {
                (self.cursor() - 1) as nat
            } else {
                0
            };
            let found = find_matches(pattern, text, 0, to);
            if found.len() > 0 {
                Some(found.last())
            } else {
                None
            }
        } else {
            let last = if text.len() >= 1 {
                (text.len() - 1) as nat
            } else {
                0
            };
            let from = if self.cursor() + 1 <= last {
                self.cursor() + 1
            } else {
                last
            };
            let found = find_matches(pattern, text, from, last);
            if found.len() > 0 {
                Some(found[0])
            } else {
                None
            }
        }
    }

    /// The selection after a seek: moved to its match, or as it was where
    /// there is none.
    pub open spec fn sought(
        self,
        pattern: Seq<char>,
        text: Seq<char>,
        reverse: bool,
    ) -> SelectionView {
        match self.target(pattern, text, reverse) {
            Some(found) => self.moved_to(found.0 as nat, found.1 as nat),
            None => self,
        }
    }
}

/// The selections after a seek, each one for itself.
pub open spec fn sought_all(
    selections: Seq<SelectionView>,
    pattern: Seq<char>,
    text: Seq<char>,
    reverse: bool,
) -> Seq<SelectionView> {
    selections.map_values(|selection: SelectionView| selection.sought(pattern, text, reverse))
}

/// A seek finds a match for one of the selections.
pub open spec fn any_target(
    selections: Seq<SelectionView>,
    pattern: Seq<char>,
    text: Seq<char>,
    reverse: bool,
) -> bool {
    exists|i: int|
        0 <= i < selections.len() && (#[trigger] selections[i]).target(
            pattern,
            text,
            reverse,
        ).is_some()
}

/// What a seek gives for a pattern: nothing to do for an empty pattern, an
/// error for one that the regex engine refuses, no change where no selection
/// has a match, else the selections, those with a match moved.
pub open spec fn was_sought(
    result: ModeResult,
    selections: Seq<SelectionView>,
    pattern: Seq<char>,
    text: Seq<char>,
    reverse: bool,
) -> bool {
    if pattern.len() == 0 {
        result is Empty
    } else if !regex_compiles(pattern) {
        result is Error
    } else if !any_target(selections, pattern, text, reverse) {
        result is Same
    } else {
        result matches ModeResult::Done(list) && selection_views(list@) == sought_all(
            selections,
            pattern,
            text,
            reverse,
        )
    }
}

/// A move to a match moves the cursor only: the anchor stays where it was.
pub proof fn lemma_moved_to_keeps_anchor(selection: SelectionView, start: nat, end: nat)
    ensures
        selection.moved_to(start, end).anchor() == selection.anchor(),
{
}

/// A selection with its bounds in order, moved to a match that starts no
/// later than it ends, has its bounds in order.
pub proof fn lemma_moved_to_wf(selection: SelectionView, start: nat, end: nat)
    requires
        selection.wf(),
        start <= end,
    ensures
        selection.moved_to(start, end).wf(),
{
}

/// Moves the cursor of a selection to a match. The anchor stays; where the
/// match lies across the anchor, the cursor changes sides.
pub fn move_cursor(selection: Selection, start: usize, end: usize) -> (moved: Selection)
    ensures
        moved@ == selection@.moved_to(start as nat, end as nat),
{
    match selection.side() {
        Side::Start => {
            if end > selection.end() {
                Selection::new_at_end(selection.end(), end)
            } else {
                Selection::new_at_start(start, selection.end())
            }
        },
        Side::End => {
            if start < selection.start() {
                Selection::new_at_start(start, selection.start())
            } else {
                Selection::new_at_end(selection.start(), end)
            }
        },
    }
}

/// The match that a seek takes from the matches `found`: the first one
/// forward, the last one backward.
pub fn pick(found: &Vec<(usize, usize)>, reverse: bool) -> (picked: Option<(usize, usize)>)
    ensures
        picked == (if found@.len() == 0 {
            None
        } else if reverse {
            Some(found@.last())
        } else {
            Some(found@[0])
        }),
{
    if found.len() == 0 {
        None
    } else if reverse {
        Some(found[found.len() - 1])
    } else {
        Some(found[0])
    }
}

/// Seeks with a compiled pattern: gives the selections, those with a match
/// moved, and whether any had a match.
pub fn seek_with(regex: &Regex, contents: &Rope, selections: &[Selection], reverse: bool) -> (sought:
    (Vec<Selection>, bool))
    ensures
        selection_views(sought.0@) == sought_all(
            selection_views(selections@),
            regex.pattern(),
            rope_text(*contents),
            reverse,
        ),
        sought.1 == any_target(
            selection_views(selections@),
            regex.pattern(),
            rope_text(*contents),
            reverse,
        ),
{
    let ghost views = selection_views(selections@);
    let ghost text = rope_text(*contents);
    let mut changed = false;
    let mut new_selections: Vec<Selection> = Vec::with_capacity(selections.len());
    let mut i: usize = 0;
    while i < selections.len()
        invariant
            i <= selections@.len(),
            views == selection_views(selections@),
            text == rope_text(*contents),
            new_selections@.len() == i,
            forall|k: int|
                0 <= k < i ==> (#[trigger] new_selections@[k])@ == views[k].sought(
                    regex.pattern(),
                    text,
                    reverse,
                ),
            changed == (exists|k: int|
                0 <= k < i && (#[trigger] views[k]).target(
                    regex.pattern(),
                    text,
                    reverse,
                ).is_some()),
        decreases selections.len() - i,
    {
        let selection = selections[i];
        assert(views[i as int] == selection@);
        let found = if reverse {
            let end = selection.cursor().saturating_sub(1);
            regex.find(contents, 0, end)
        } else {
            let contents_end = rope_len_chars(contents).saturating_sub(1);
            let next = selection.cursor().saturating_add(1);
            let start = if next <= contents_end {
                next
            } else {
                contents_end
            };
            regex.find(contents, start, contents_end)
        };
        let new_selection = match pick(&found, reverse) {
            Some((start, end)) => {
                changed = true;
                move_cursor(selection, start, end)
            },
            None => selection,
        };
        new_selections.push(new_selection);
        i += 1;
    }
    assert(selection_views(new_selections@) =~= sought_all(views, regex.pattern(), text, reverse));
    (new_selections, changed)
}

/// Moves the cursor of each selection to the first match of the pattern
/// behind it.
pub fn forward(contents: &Rope, selections: &[Selection], pattern: &str) -> (result: ModeResult)
    ensures
        was_sought(result, selection_views(selections@), pattern@, rope_text(*contents), false),
{
    if pattern.is_empty() {
        return ModeResult::Empty;
    }
    let regex = match Regex::new(pattern) {
        Some(regex) => regex,
        None => {
            return ModeResult::Error;
        },
    };
    let (new_selections, changed) = seek_with(&regex, contents, selections, false);
    if changed {
        ModeResult::Done(new_selections)
    } else {
        ModeResult::Same
    }
}

/// Moves the cursor of each selection to the last match of the pattern
/// before it.
pub fn reverse(contents: &Rope, selections: &[Selection], pattern: &str) -> (result: ModeResult)
    ensures
        was_sought(result, selection_views(selections@), pattern@, rope_text(*contents), true),
{
    if pattern.is_empty() {
        return ModeResult::Empty;
    }
    let regex = match Regex::new(pattern) {
        Some(regex) => regex,
        None => {
            return ModeResult::Error;
        },
    };
    let (new_selections, changed) = seek_with(&regex, contents, selections, true);
    if changed {
        ModeResult::Done(new_selections)
    } else {
        ModeResult::Same
    }
}


/// The selections that a seek installs, if it gives any: none for an
/// empty pattern, one that the regex engine refuses, or one without a match.
pub open spec fn seek_outcome(
    selections: Seq<SelectionView>,
    pattern: Seq<char>,
    text: Seq<char>,
    reverse: bool,
) -> Option<Seq<SelectionView>> {
    if pattern.len() == 0 || !regex_compiles(pattern) || !any_target(
        selections,
        pattern,
        text,
        reverse,
    ) {
        None
    } else {
        Some(sought_all(selections, pattern, text, reverse))
    }
}

/// Seek mode: a command line for a pattern, and whether the cursors go back rather than forward.
pub struct Seek {
    reverse: bool,
    command: Rope,
    preview: ModeResult,
}

impl View for Seek {
    type V = PromptView;

    closed spec fn view(&self) -> PromptView {
        PromptView { flag: self.reverse, command: rope_text(self.command), preview: self.preview }
    }
}

impl Seek {
    /// What a key does in this mode. `Esc` goes back to
    /// normal mode. `Enter` installs what the command gives, if it gives
    /// selections, and goes back to normal mode. `Backspace` and characters
    /// edit the command, and the preview follows the command. Other keys do
    /// nothing.
    pub open spec fn stepped(
        before: PromptView,
        after: PromptView,
        buffer_before: BufferView,
        buffer_after: BufferView,
        key: Key,
        command: UpdateCommand,
    ) -> bool {
        if key is Esc {
            to_normal(command) && after == before && buffer_after == buffer_before
        } else if key is Enter {
            &&& to_normal(command)
            &&& after == before
            &&& buffer_after == (match seek_outcome(
                buffer_before.selections,
                before.command,
                buffer_before.text,
                before.flag,
            ) {
                Some(list) => buffer_before.installed(list),
                None => buffer_before,
            })
        } else {
            &&& command is Nothing
            &&& buffer_after == buffer_before
            &&& after.flag == before.flag
            &&& after.command == command_after(before.command, key)
            &&& if (key is Backspace && before.command.len() > 0) || key is Char {
                was_sought(
                    after.preview,
                    buffer_before.selections,
                    after.command,
                    buffer_before.text,
                    before.flag,
                )
            } else {
                after.preview == before.preview
            }
        }
    }

    /// The command that goes to this mode, with an empty command line.
    /// With `reverse` the cursors go to the match before them.
    pub fn switch_to(reverse: bool) -> (command: UpdateCommand)
        ensures
            command matches UpdateCommand::Switch(Mode::Seek(mode)) && mode@.flag == reverse
                && mode@.command == Seq::<char>::empty() && mode@.preview is Empty,
    {
        let mode = Self { reverse, command: rope_new(), preview: ModeResult::Empty };
        UpdateCommand::Switch(Mode::Seek(mode))
    }

    /// What the command gives for the buffer as it is.
    fn run(&self, buffer: &Buffer) -> (result: ModeResult)
        ensures
            was_sought(
                result,
                buffer@.selections,
                self@.command,
                buffer@.text,
                self@.flag,
            ),
    {
        let command = rope_to_string(&self.command);
        if self.reverse {
            reverse(buffer.contents(), buffer.selections().as_slice(), command.as_str())
        } else {
            forward(buffer.contents(), buffer.selections().as_slice(), command.as_str())
        }
    }

    /// Does what a key stands for in this mode.
    pub fn update(
        &mut self,
        buffer: &mut Buffer,
        _registry: &mut Registry,
        _window: &mut Window,
        _modifiers: Modifiers,
        key: Key,
    ) -> (command: UpdateCommand)
        requires
            old(buffer)@.wf(),
        ensures
            Seek::stepped(
                old(self)@,
                final(self)@,
                old(buffer)@,
                final(buffer)@,
                key,
                command,
            ),
            final(buffer)@.wf(),
            final(buffer).file() == old(buffer).file(),
            *final(_registry) == *old(_registry),
            *final(_window) == *old(_window),
    {
        match key {
            Key::Esc => {
                return Normal::switch_to();
            },
            Key::Backspace => {
                if command_backspace(&mut self.command) {
                    self.preview = self.run(buffer);
                }
            },
            Key::Enter => {
                let result = self.run(buffer);
                match result {
                    ModeResult::Done(selections) => {
                        buffer.install_selections(selections);
                    },
                    _ => {},
                }
                return Normal::switch_to();
            },
            Key::Char(ch) => {
                command_push(&mut self.command, ch);
                self.preview = self.run(buffer);
            },
            _ => {},
        }
        UpdateCommand::Nothing
    }

    /// The line that shows the mode, the mark of the preview and the
    /// command.
    pub fn status(&self) -> (status: String)
        ensures
            status@ == "seek"@ + " "@ + indicator_of(self@.preview) + " > "@ + self@.command,
    {
        prompt_status("seek", indicator(&self.preview), &self.command)
    }

    /// The selections that the command would give now, if it gives any.
    pub fn preview_selections(&self) -> (preview: Option<&Vec<Selection>>)
        ensures
            preview.is_some() == shown(self@.preview).is_some(),
            preview matches Some(list) ==> Some(*list) == shown(self@.preview),
    {
        preview_of(&self.preview)
    }
}

} // verus!
