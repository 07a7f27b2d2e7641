//! Filter: keeps the selections in which a pattern matches, or those in
//! which it does not.

use crate::buffer::{Buffer, BufferView};
use crate::key::{Key, Modifiers};
use crate::mode::normal::Normal;
use crate::mode::{
    command_after, command_backspace, command_push, indicator, indicator_of, is_leave,
    preview_of, prompt_status, shown, to_normal, Mode, ModeResult, PromptView, UpdateCommand,
};
use crate::register::Registry;
use crate::window::Window;
use crate::overlap::selection_views;
use crate::regex::{find_matches, regex_compiles, Regex};
use crate::selection::{Selection, SelectionView};
use crate::text::{rope_new, rope_text, rope_to_string};
use ropey::Rope;
use vstd::prelude::*;

verus! {

/// The pattern matches somewhere in the span of the selection.
pub open spec fn has_match(pattern: Seq<char>, text: Seq<char>, selection: SelectionView) -> bool {
    find_matches(pattern, text, selection.start, selection.end).len() > 0
}

/// The selections that a filter keeps, in their order: those with a match,
/// or with `reject` those without one.
pub open spec fn kept(
    selections: Seq<SelectionView>,
    pattern: Seq<char>,
    text: Seq<char>,
    reject: bool,
) -> Seq<SelectionView>
    decreases selections.len(),
{
    if selections.len() == 0 {
        Seq::empty()
    } else if has_match(pattern, text, selections.last()) != reject {
        kept(selections.drop_last(), pattern, text, reject).push(selections.last())
    } else {
        kept(selections.drop_last(), pattern, text, reject)
    }
}

/// What a filter gives for a pattern: nothing to do for an empty pattern,
/// an error for one that the regex engine refuses, else the kept selections.
pub open spec fn filtered(
    result: ModeResult,
    selections: Seq<SelectionView>,
    pattern: Seq<char>,
    text: Seq<char>,
    reject: bool,
) -> bool {
    if pattern.len() == 0 {
        result is Empty
    } else if !regex_compiles(pattern) {
        result is Error
    } else {
        result matches ModeResult::Done(list) && selection_views(list@) == kept(
            selections,
            pattern,
            text,
            reject,
        )
    }
}

/// A filter applied to its own result changes nothing: every selection
/// that was kept is kept again, and no other is there.
pub proof fn lemma_filter_idempotent(
    selections: Seq<SelectionView>,
    pattern: Seq<char>,
    text: Seq<char>,
    reject: bool,
)
    ensures
        kept(kept(selections, pattern, text, reject), pattern, text, reject) == kept(
            selections,
            pattern,
            text,
            reject,
        ),
    decreases selections.len(),
{
    if selections.len() > 0 {
        let front = kept(selections.drop_last(), pattern, text, reject);
        lemma_filter_idempotent(selections.drop_last(), pattern, text, reject);
        if has_match(pattern, text, selections.last()) != reject {
            assert(front.push(selections.last()).drop_last() =~= front);
        }
    }
}

/// A filter keeps no more selections than it was given, and only
/// selections that it was given.
pub proof fn lemma_kept_subset(
    selections: Seq<SelectionView>,
    pattern: Seq<char>,
    text: Seq<char>,
    reject: bool,
)
    ensures
        kept(selections, pattern, text, reject).len() <= selections.len(),
        forall|i: int|
            0 <= i < kept(selections, pattern, text, reject).len() ==> selections.contains(
                #[trigger] kept(selections, pattern, text, reject)[i],
            ) && has_match(pattern, text, kept(selections, pattern, text, reject)[i]) != reject,
    decreases selections.len(),
{
    if selections.len() > 0 {
        let front = selections.drop_last();
        lemma_kept_subset(front, pattern, text, reject);
        let inner = kept(front, pattern, text, reject);
        let all = kept(selections, pattern, text, reject);
        assert forall|i: int| 0 <= i < all.len() implies selections.contains(#[trigger] all[i])
            && has_match(pattern, text, all[i]) != reject by {
            if i < inner.len() {
                assert(all[i] == inner[i]);
                let at = choose|at: int| 0 <= at < front.len() && front[at] == inner[i];
                assert(selections[at] == inner[i]);
            } else {
                assert(all[i] == selections.last());
                assert(selections[selections.len() - 1] == all[i]);
            }
        }
    }
}

/// Whether a filter keeps a selection in whose span the matches `found`
/// were found.
pub fn is_kept(found: &Vec<(usize, usize)>, reject: bool) -> (keep: bool)
    ensures
        keep == ((found@.len() > 0) != reject),
{
    (found.len() > 0) != reject
}

/// The selections that a compiled pattern keeps.
pub fn filter_with(regex: &Regex, contents: &Rope, selections: &[Selection], reject: bool) -> (list:
    Vec<Selection>)
    ensures
        selection_views(list@) == kept(
            selection_views(selections@),
            regex.pattern(),
            rope_text(*contents),
            reject,
        ),
{
    let mut new_selections: Vec<Selection> = Vec::new();
    let mut i: usize = 0;
    assert(selection_views(selections@.subrange(0, 0)) =~= Seq::empty());
    assert(selection_views(new_selections@) =~= Seq::empty());
    while i < selections.len()
        invariant
            i <= selections@.len(),
            selection_views(new_selections@) == kept(
                selection_views(selections@.subrange(0, i as int)),
                regex.pattern(),
                rope_text(*contents),
                reject,
            ),
        decreases selections.len() - i,
    {
        let selection = selections[i];
        let found = regex.find(contents, selection.start(), selection.end());
        let ghost before = selection_views(new_selections@);
        proof {
            let next = selection_views(selections@.subrange(0, i + 1));
            assert(next.drop_last() =~= selection_views(selections@.subrange(0, i as int)));
            assert(next.last() == selection@);
        }
        if is_kept(&found, reject) {
            new_selections.push(selection);
            assert(selection_views(new_selections@) =~= before.push(selection@));
        }
        i += 1;
    }
    assert(selections@.subrange(0, i as int) =~= selections@);
    new_selections
}

/// Keeps the selections in whose span the pattern matches.
pub fn accept(contents: &Rope, selections: &[Selection], pattern: &str) -> (result: ModeResult)
    ensures
        filtered(result, selection_views(selections@), pattern@, rope_text(*contents), false),
{
    if pattern.is_empty() {
        return ModeResult::Empty;
    }
    let regex = match Regex::new(pattern) {
        Some(regex) => regex,
        None => {
            return ModeResult::Error;
        },
    };
    ModeResult::Done(filter_with(&regex, contents, selections, false))
}

/// Keeps the selections in whose span the pattern does not match.
pub fn reject(contents: &Rope, selections: &[Selection], pattern: &str) -> (result: ModeResult)
    ensures
        filtered(result, selection_views(selections@), pattern@, rope_text(*contents), true),
{
    if pattern.is_empty() {
        return ModeResult::Empty;
    }
    let regex = match Regex::new(pattern) {
        Some(regex) => regex,
        None => {
            return ModeResult::Error;
        },
    };
    ModeResult::Done(filter_with(&regex, contents, selections, true))
}


/// The selections that a filter installs, if it gives any: none for an
/// empty pattern or one that the regex engine refuses.
pub open spec fn filter_outcome(
    selections: Seq<SelectionView>,
    pattern: Seq<char>,
    text: Seq<char>,
    reject: bool,
) -> Option<Seq<SelectionView>> {
    if pattern.len() == 0 || !regex_compiles(pattern) {
        None
    } else {
        Some(kept(selections, pattern, text, reject))
    }
}

/// Filter mode: a command line for a pattern, and whether the selections
/// with a match are dropped rather than kept.
pub struct Filter {
    reject: bool,
    command: Rope,
    preview: ModeResult,
}

impl View for Filter {
    type V = PromptView;

    closed spec fn view(&self) -> PromptView {
        PromptView { flag: self.reject, command: rope_text(self.command), preview: self.preview }
    }
}

impl Filter {
    /// What a key does in this mode. `Esc`, or `q` with control, goes back to
    /// normal mode. `Enter` installs what the command gives, if it gives
    /// selections, and goes back to normal mode. `Backspace` and characters
    /// edit the command, and the preview follows the command. Other keys do
    /// nothing.
    pub open spec fn stepped(
        before: PromptView,
        after: PromptView,
        buffer_before: BufferView,
        buffer_after: BufferView,
        modifiers: Modifiers,
        key: Key,
        command: UpdateCommand,
    ) -> bool {
        if is_leave(modifiers, key) {
            to_normal(command) && after == before && buffer_after == buffer_before
        } else if key is Enter {
            &&& to_normal(command)
            &&& after == before
            &&& buffer_after == (match filter_outcome(
                buffer_before.selections,
                before.command,
                buffer_before.text,
                before.flag,
            ) {
                Some(list) => buffer_before.installed(list),
                None => buffer_before,
            })
        } else {
            &&& command is Nothing
            &&& buffer_after == buffer_before
            &&& after.flag == before.flag
            &&& after.command == command_after(before.command, key)
            &&& if (key is Backspace && before.command.len() > 0) || key is Char {
                filtered(
                    after.preview,
                    buffer_before.selections,
                    after.command,
                    buffer_before.text,
                    before.flag,
                )
            } else {
                after.preview == before.preview
            }
        }
    }

    /// The command that goes to this mode, with an empty command line.
    /// With `reject` the selections with a match are dropped.
    pub fn switch_to(reject: bool) -> (command: UpdateCommand)
        ensures
            command matches UpdateCommand::Switch(Mode::Filter(mode)) && mode@.flag == reject
                && mode@.command == Seq::<char>::empty() && mode@.preview is Empty,
    {
        let mode = Self { reject, command: rope_new(), preview: ModeResult::Empty };
        UpdateCommand::Switch(Mode::Filter(mode))
    }

    /// What the command gives for the buffer as it is.
    fn run(&self, buffer: &Buffer) -> (result: ModeResult)
        ensures
            filtered(
                result,
                buffer@.selections,
                self@.command,
                buffer@.text,
                self@.flag,
            ),
    {
        let command = rope_to_string(&self.command);
        if self.reject {
            reject(buffer.contents(), buffer.selections().as_slice(), command.as_str())
        } else {
            accept(buffer.contents(), buffer.selections().as_slice(), command.as_str())
        }
    }

    /// Does what a key stands for in this mode.
    pub fn update(
        &mut self,
        buffer: &mut Buffer,
        _registry: &mut Registry,
        _window: &mut Window,
        modifiers: Modifiers,
        key: Key,
    ) -> (command: UpdateCommand)
        requires
            old(buffer)@.wf(),
        ensures
            Filter::stepped(
                old(self)@,
                final(self)@,
                old(buffer)@,
                final(buffer)@,
                modifiers,
                key,
                command,
            ),
            final(buffer)@.wf(),
            final(buffer).file() == old(buffer).file(),
            *final(_registry) == *old(_registry),
            *final(_window) == *old(_window),
    {
        match key {
            Key::Esc => {
                return Normal::switch_to();
            },
            Key::Backspace => {
                if command_backspace(&mut self.command) {
                    self.preview = self.run(buffer);
                }
            },
            Key::Enter => {
                let result = self.run(buffer);
                match result {
                    ModeResult::Done(selections) => {
                        buffer.install_selections(selections);
                    },
                    _ => {},
                }
                return Normal::switch_to();
            },
            Key::Char(ch) => {
                if ch == 'q' && modifiers.control {
                    return Normal::switch_to();
                }
                command_push(&mut self.command, ch);
                self.preview = self.run(buffer);
            },
            _ => {},
        }
        UpdateCommand::Nothing
    }

    /// The line that shows the mode, the mark of the preview and the
    /// command.
    pub fn status(&self) -> (status: String)
        ensures
            status@ == "filter"@ + " "@ + indicator_of(self@.preview) + " > "@ + self@.command,
    {
        prompt_status("filter", indicator(&self.preview), &self.command)
    }

    /// The selections that the command would give now, if it gives any.
    pub fn preview_selections(&self) -> (preview: Option<&Vec<Selection>>)
        ensures
            preview.is_some() == shown(self@.preview).is_some(),
            preview matches Some(list) ==> Some(*list) == shown(self@.preview),
    {
        preview_of(&self.preview)
    }
}

} // verus!
