//! Split: replaces each selection by the matches of a pattern in its span,
//! or by what lies between them.

use crate::buffer::{Buffer, BufferView};
use crate::key::{Key, Modifiers};
use crate::mode::normal::Normal;
use crate::mode::{
    command_after, command_backspace, command_push, indicator, indicator_of, is_leave,
    preview_of, prompt_status, shown, to_normal, Mode, ModeResult, PromptView, UpdateCommand,
};
use crate::register::Registry;
use crate::window::Window;
use crate::overlap::{in_span, lemma_in_span_first, selection_views, separated};
use crate::regex::{find_matches, ordered_matches, regex_compiles, Regex};
use crate::selection::{lesser, Selection, SelectionView, Side};
use crate::text::{rope_new, rope_text, rope_to_string};
use ropey::Rope;
use vstd::prelude::*;

verus! {

/// The selection from `start` to `end` with its cursor on the end.
pub open spec fn span(start: nat, end: nat) -> SelectionView {
    SelectionView { start, end, side: Side::End, line_offset: None }
}

/// One selection for each match.
pub open spec fn match_spans(found: Seq<(usize, usize)>) -> Seq<SelectionView> {
    found.map_values(|found: (usize, usize)| span(found.0 as nat, found.1 as nat))
}

/// What lies between the matches, from `next_start` to `end`: the gap
/// before each match, where there is one, and what is left behind the last
/// match. A selection without a match stays whole.
pub open spec fn gap_spans(next_start: nat, end: nat, found: Seq<(usize, usize)>) -> Seq<
    SelectionView,
>
    decreases found.len(),
{
    if found.len() == 0 {
        if next_start <= end {
            seq![span(next_start, end)]
        } else {
            Seq::empty()
        }
    } else {
        let rest = gap_spans(
            lesser((found[0].1 + 1) as nat, usize::MAX as nat),
            end,
            found.drop_first(),
        );
        if next_start < found[0].0 {
            seq![span(next_start, (found[0].0 - 1) as nat)] + rest
        } else {
            rest
        }
    }
}

/// The selections that a split gives: for each selection in turn its
/// matches, or with `reject` its gaps.
pub open spec fn split_spans(
    selections: Seq<SelectionView>,
    pattern: Seq<char>,
    text: Seq<char>,
    reject: bool,
) -> Seq<SelectionView>
    decreases selections.len(),
{
    if selections.len() == 0 {
        Seq::empty()
    } else {
        let last = selections.last();
        let found = find_matches(pattern, text, last.start, last.end);
        split_spans(selections.drop_last(), pattern, text, reject) + (if reject {
            gap_spans(last.start, last.end, found)
        } else {
            match_spans(found)
        })
    }
}

/// What a split gives for a pattern: nothing to do for an empty pattern,
/// an error for one that the regex engine refuses, else the new selections.
pub open spec fn was_split(
    result: ModeResult,
    selections: Seq<SelectionView>,
    pattern: Seq<char>,
    text: Seq<char>,
    reject: bool,
) -> bool {
    if pattern.len() == 0 {
        result is Empty
    } else if !regex_compiles(pattern) {
        result is Error
    } else {
        result matches ModeResult::Done(list) && selection_views(list@) == split_spans(
            selections,
            pattern,
            text,
            reject,
        )
    }
}

/// The position lies in one of the matches.
pub open spec fn in_match(found: Seq<(usize, usize)>, position: nat) -> bool {
    exists|k: int| 0 <= k < found.len() && (#[trigger] found[k]).0 <= position <= found[k].1
}

/// A position lies in a list of matches if it lies in the first match or
/// in one of the others.
proof fn lemma_in_match_first(found: Seq<(usize, usize)>, position: nat)
    requires
        found.len() > 0,
    ensures
        in_match(found, position) == (found[0].0 <= position <= found[0].1 || in_match(
            found.drop_first(),
            position,
        )),
{
    let tail = found.drop_first();
    if in_match(found, position) {
        let k = choose|k: int|
            0 <= k < found.len() && (#[trigger] found[k]).0 <= position <= found[k].1;
        if k > 0 {
            assert(tail[k - 1] == found[k]);
        }
    }
    if in_match(tail, position) {
        let k = choose|k: int|
            0 <= k < tail.len() && (#[trigger] tail[k]).0 <= position <= tail[k].1;
        assert(found[k + 1] == tail[k]);
    }
}

/// The matches behind the first one of an ordered list are in order, and
/// none of them ends before the first one.
proof fn lemma_ordered_tail(found: Seq<(usize, usize)>)
    requires
        ordered_matches(found),
        found.len() > 0,
    ensures
        ordered_matches(found.drop_first()),
        forall|k: int|
            0 <= k < found.drop_first().len() ==> found[0].1 <= (
            #[trigger] found.drop_first()[k]).0,
{
    let tail = found.drop_first();
    assert forall|k: int| 0 <= k < tail.len() implies (#[trigger] tail[k]).0 <= tail[k].1
        && found[0].1 <= tail[k].0 by {
        assert(tail[k] == found[k + 1]);
    }
    assert forall|i: int, j: int| 0 <= i < j < tail.len() implies (#[trigger] tail[i]).1 <= (
    #[trigger] tail[j]).0 by {
        assert(tail[i] == found[i + 1] && tail[j] == found[j + 1]);
    }
}

/// No gap starts before `bound`, where the walk starts no earlier and no
/// match ends more than one position before it.
proof fn lemma_gap_starts(next_start: nat, end: nat, found: Seq<(usize, usize)>, bound: nat)
    requires
        ordered_matches(found),
        bound <= next_start,
        forall|k: int| 0 <= k < found.len() ==> bound <= (#[trigger] found[k]).1 + 1,
        forall|k: int| 0 <= k < found.len() ==> (#[trigger] found[k]).1 < usize::MAX,
    ensures
        forall|i: int|
            0 <= i < gap_spans(next_start, end, found).len() ==> bound <= (#[trigger] gap_spans(
                next_start,
                end,
                found,
            )[i]).start,
    decreases found.len(),
{
    if found.len() > 0 {
        let tail = found.drop_first();
        let after = (found[0].1 + 1) as nat;
        lemma_ordered_tail(found);
        assert forall|k: int| 0 <= k < tail.len() implies bound <= (#[trigger] tail[k]).1 + 1
            && tail[k].1 < usize::MAX by {
            assert(tail[k] == found[k + 1]);
        }
        lemma_gap_starts(after, end, tail, bound);
        let rest = gap_spans(after, end, tail);
        let all = gap_spans(next_start, end, found);
        if next_start < found[0].0 {
            assert forall|i: int| 0 <= i < all.len() implies bound <= (#[trigger] all[i]).start by {
                if i > 0 {
                    assert(all[i] == rest[i - 1]);
                }
            }
        }
    }
}

/// The gaps are what the matches leave of a selection: a position from
/// `next_start` to `end` lies in a gap if and only if it lies in no match.
/// This holds of matches that come in order, as a search gives them.
pub proof fn lemma_gaps_complement(
    next_start: nat,
    end: nat,
    found: Seq<(usize, usize)>,
    position: nat,
)
    requires
        ordered_matches(found),
        forall|k: int| 0 <= k < found.len() ==> (#[trigger] found[k]).1 < usize::MAX,
        next_start <= position <= end,
    ensures
        in_span(gap_spans(next_start, end, found), position) == !in_match(found, position),
    decreases found.len(),
{
    if found.len() == 0 {
        let gaps = gap_spans(next_start, end, found);
        assert(gaps[0] == span(next_start, end));
    } else {
        let first = found[0];
        let tail = found.drop_first();
        let after = (first.1 + 1) as nat;
        let rest = gap_spans(after, end, tail);
        lemma_ordered_tail(found);
        lemma_in_match_first(found, position);
        assert forall|k: int| 0 <= k < tail.len() implies (#[trigger] tail[k]).1
            < usize::MAX by {
            assert(tail[k] == found[k + 1]);
        }
        if next_start < first.0 {
            lemma_in_span_first(span(next_start, (first.0 - 1) as nat), rest, position);
        }
        if position > first.1 {
            lemma_gaps_complement(after, end, tail, position);
        } else {
            assert forall|k: int| 0 <= k < tail.len() implies after <= (#[trigger] tail[k]).1
                + 1 by {
                assert(tail[k].0 <= tail[k].1);
            }
            lemma_gap_starts(after, end, tail, after);
            if in_span(rest, position) {
                let k = choose|k: int|
                    0 <= k < rest.len() && (#[trigger] rest[k]).start <= position <= rest[k].end;
                assert(after <= rest[k].start);
            }
            if in_match(tail, position) {
                let k = choose|k: int|
                    0 <= k < tail.len() && (#[trigger] tail[k]).0 <= position <= tail[k].1;
                assert(first.1 <= tail[k].0);
            }
        }
    }
}

/// The gaps between matches that come in order are in order themselves,
/// and each ends before the next one starts.
pub proof fn lemma_gaps_apart(next_start: nat, end: nat, found: Seq<(usize, usize)>)
    requires
        ordered_matches(found),
        forall|k: int| 0 <= k < found.len() ==> (#[trigger] found[k]).1 < usize::MAX,
    ensures
        separated(gap_spans(next_start, end, found)),
    decreases found.len(),
{
    if found.len() > 0 {
        let first = found[0];
        let tail = found.drop_first();
        let after = (first.1 + 1) as nat;
        let rest = gap_spans(after, end, tail);
        let all = gap_spans(next_start, end, found);
        lemma_ordered_tail(found);
        assert forall|k: int| 0 <= k < tail.len() implies (#[trigger] tail[k]).1 < usize::MAX
            && after <= tail[k].1 + 1 by {
            assert(tail[k] == found[k + 1]);
            assert(tail[k].0 <= tail[k].1);
        }
        lemma_gaps_apart(after, end, tail);
        lemma_gap_starts(after, end, tail, after);
        if next_start < first.0 {
            assert forall|i: int| 0 <= i < all.len() - 1 implies all[i].end < (#[trigger] all[i
                + 1]).start by {
                assert(all[i + 1] == rest[i]);
                if i > 0 {
                    assert(all[i] == rest[i - 1]);
                    assert(rest[i - 1].end < rest[i - 1 + 1].start);
                } else {
                    assert(all[0] == span(next_start, (first.0 - 1) as nat));
                    assert(after <= rest[0].start);
                }
            }
        }
    }
}

/// Every gap starts no later than it ends.
pub proof fn lemma_gap_spans(next_start: nat, end: nat, found: Seq<(usize, usize)>)
    ensures
        forall|i: int|
            0 <= i < gap_spans(next_start, end, found).len() ==> {
                let gap = #[trigger] gap_spans(next_start, end, found)[i];
                gap.wf()
            },
    decreases found.len(),
{
    if found.len() > 0 {
        let after = lesser((found[0].1 + 1) as nat, usize::MAX as nat);
        lemma_gap_spans(after, end, found.drop_first());
        let rest = gap_spans(after, end, found.drop_first());
        let all = gap_spans(next_start, end, found);
        if next_start < found[0].0 {
            assert forall|i: int| 0 <= i < all.len() implies {
                let gap = #[trigger] all[i];
                gap.wf()
            } by {
                if i > 0 {
                    assert(all[i] == rest[i - 1]);
                }
            }
        }
    }
}

/// One selection for each match, with its cursor on the end.
pub fn match_selections(found: &Vec<(usize, usize)>) -> (list: Vec<Selection>)
    ensures
        selection_views(list@) == match_spans(found@),
{
    let mut list: Vec<Selection> = Vec::with_capacity(found.len());
    let mut i: usize = 0;
    while i < found.len()
        invariant
            i <= found@.len(),
            list@.len() == i,
            forall|k: int|
                0 <= k < i ==> (#[trigger] list@[k])@ == span(
                    found@[k].0 as nat,
                    found@[k].1 as nat,
                ),
        decreases found.len() - i,
    {
        let (start, end) = found[i];
        list.push(Selection::new_at_end(start, end));
        i += 1;
    }
    assert(selection_views(list@) =~= match_spans(found@));
    list
}

/// The gaps that the matches leave in a selection: one selection for what
/// lies before each match, where anything does, and one for what is left
/// behind the last match.
pub fn gap_selections(selection: &Selection, found: &Vec<(usize, usize)>) -> (list: Vec<
    Selection,
>)
    ensures
        selection_views(list@) == gap_spans(selection@.start, selection@.end, found@),
        forall|i: int| 0 <= i < list@.len() ==> (#[trigger] list@[i])@.wf(),
{
    let mut list: Vec<Selection> = Vec::new();
    let mut next_start = selection.start();
    let mut i: usize = 0;
    assert(found@.subrange(0, found@.len() as int) =~= found@);
    assert(selection_views(list@) =~= Seq::empty());
    while i < found.len()
        invariant
            i <= found@.len(),
            selection_views(list@) + gap_spans(
                next_start as nat,
                selection@.end,
                found@.subrange(i as int, found@.len() as int),
            ) == gap_spans(selection@.start, selection@.end, found@),
        decreases found.len() - i,
    {
        let (match_start, match_end) = found[i];
        let ghost before = selection_views(list@);
        proof {
            let rest = found@.subrange(i as int, found@.len() as int);
            assert(rest[0] == found@[i as int]);
            assert(rest.drop_first() =~= found@.subrange(i + 1, found@.len() as int));
        }
        if next_start < match_start {
            list.push(Selection::new_at_end(next_start, match_start - 1));
            assert(selection_views(list@) =~= before + seq![
                span(next_start as nat, (match_start - 1) as nat),
            ]);
        }
        next_start = match_end.saturating_add(1);
        i += 1;
    }
    let ghost before = selection_views(list@);
    if next_start <= selection.end() {
        list.push(Selection::new_at_end(next_start, selection.end()));
        assert(selection_views(list@) =~= before + seq![
            span(next_start as nat, selection@.end),
        ]);
    }
    proof {
        assert(found@.subrange(i as int, found@.len() as int) =~= Seq::empty());
        lemma_gap_spans(selection@.start, selection@.end, found@);
        assert forall|k: int| 0 <= k < list@.len() implies (#[trigger] list@[k])@.wf() by {
            assert(selection_views(list@)[k] == list@[k]@);
        }
    }
    list
}

/// The selections that a compiled pattern splits the given ones into.
pub fn split_with(regex: &Regex, contents: &Rope, selections: &[Selection], reject: bool) -> (list:
    Vec<Selection>)
    ensures
        selection_views(list@) == split_spans(
            selection_views(selections@),
            regex.pattern(),
            rope_text(*contents),
            reject,
        ),
{
    let mut new_selections: Vec<Selection> = Vec::new();
    let mut i: usize = 0;
    assert(selection_views(selections@.subrange(0, 0)) =~= Seq::empty());
    assert(selection_views(new_selections@) =~= Seq::empty());
    while i < selections.len()
        invariant
            i <= selections@.len(),
            selection_views(new_selections@) == split_spans(
                selection_views(selections@.subrange(0, i as int)),
                regex.pattern(),
                rope_text(*contents),
                reject,
            ),
        decreases selections.len() - i,
    {
        let selection = selections[i];
        let found = regex.find(contents, selection.start(), selection.end());
        let mut pieces = if reject {
            gap_selections(&selection, &found)
        } else {
            match_selections(&found)
        };
        proof {
            let next = selection_views(selections@.subrange(0, i + 1));
            assert(next.drop_last() =~= selection_views(selections@.subrange(0, i as int)));
            assert(next.last() == selection@);
            assert(selection_views(new_selections@ + pieces@) =~= selection_views(
                new_selections@,
            ) + selection_views(pieces@));
        }
        new_selections.append(&mut pieces);
        i += 1;
    }
    assert(selections@.subrange(0, i as int) =~= selections@);
    new_selections
}

/// Replaces each selection by one selection for each match of the pattern
/// in its span.
pub fn accept(contents: &Rope, selections: &[Selection], pattern: &str) -> (result: ModeResult)
    ensures
        was_split(result, selection_views(selections@), pattern@, rope_text(*contents), false),
{
    if pattern.is_empty() {
        return ModeResult::Empty;
    }
    let regex = match Regex::new(pattern) {
        Some(regex) => regex,
        None => {
            return ModeResult::Error;
        },
    };
    ModeResult::Done(split_with(&regex, contents, selections, false))
}

/// Replaces each selection by what the matches of the pattern leave of it.
pub fn reject(contents: &Rope, selections: &[Selection], pattern: &str) -> (result: ModeResult)
    ensures
        was_split(result, selection_views(selections@), pattern@, rope_text(*contents), true),
{
    if pattern.is_empty() {
        return ModeResult::Empty;
    }
    let regex = match Regex::new(pattern) {
        Some(regex) => regex,
        None => {
            return ModeResult::Error;
        },
    };
    ModeResult::Done(split_with(&regex, contents, selections, true))
}


/// The selections that a split installs, if it gives any: none for an
/// empty pattern or one that the regex engine refuses.
pub open spec fn split_outcome(
    selections: Seq<SelectionView>,
    pattern: Seq<char>,
    text: Seq<char>,
    reject: bool,
) -> Option<Seq<SelectionView>> {
    if pattern.len() == 0 || !regex_compiles(pattern) {
        None
    } else {
        Some(split_spans(selections, pattern, text, reject))
    }
}

/// Split mode: a command line for a pattern, and whether the gaps between
/// the matches are selected rather than the matches.
pub struct Split {
    reject: bool,
    command: Rope,
    preview: ModeResult,
}

impl View for Split {
    type V = PromptView;

    closed spec fn view(&self) -> PromptView {
        PromptView { flag: self.reject, command: rope_text(self.command), preview: self.preview }
    }
}

impl Split {
    /// What a key does in this mode. `Esc`, or `q` with control, goes back to
    /// normal mode. `Enter` installs what the command gives, if it gives
    /// selections, and goes back to normal mode. `Backspace` and characters
    /// edit the command, and the preview follows the command. Other keys do
    /// nothing.
    pub open spec fn stepped(
        before: PromptView,
        after: PromptView,
        buffer_before: BufferView,
        buffer_after: BufferView,
        modifiers: Modifiers,
        key: Key,
        command: UpdateCommand,
    ) -> bool {
        if is_leave(modifiers, key) {
            to_normal(command) && after == before && buffer_after == buffer_before
        } else if key is Enter {
            &&& to_normal(command)
            &&& after == before
            &&& buffer_after == (match split_outcome(
                buffer_before.selections,
                before.command,
                buffer_before.text,
                before.flag,
            ) {
                Some(list) => buffer_before.installed(list),
                None => buffer_before,
            })
        } else {
            &&& command is Nothing
            &&& buffer_after == buffer_before
            &&& after.flag == before.flag
            &&& after.command == command_after(before.command, key)
            &&& if (key is Backspace && before.command.len() > 0) || key is Char {
                was_split(
                    after.preview,
                    buffer_before.selections,
                    after.command,
                    buffer_before.text,
                    before.flag,
                )
            } else {
                after.preview == before.preview
            }
        }
    }

    /// The command that goes to this mode, with an empty command line.
    /// With `reject` the gaps between the matches are selected.
    pub fn switch_to(reject: bool) -> (command: UpdateCommand)
        ensures
            command matches UpdateCommand::Switch(Mode::Split(mode)) && mode@.flag == reject
                && mode@.command == Seq::<char>::empty() && mode@.preview is Empty,
    {
        let mode = Self { reject, command: rope_new(), preview: ModeResult::Empty };
        UpdateCommand::Switch(Mode::Split(mode))
    }

    /// What the command gives for the buffer as it is.
    fn run(&self, buffer: &Buffer) -> (result: ModeResult)
        ensures
            was_split(
                result,
                buffer@.selections,
                self@.command,
                buffer@.text,
                self@.flag,
            ),
    {
        let command = rope_to_string(&self.command);
        if self.reject {
            reject(buffer.contents(), buffer.selections().as_slice(), command.as_str())
        } else {
            accept(buffer.contents(), buffer.selections().as_slice(), command.as_str())
        }
    }

    /// Does what a key stands for in this mode.
    pub fn update(
        &mut self,
        buffer: &mut Buffer,
        _registry: &mut Registry,
        _window: &mut Window,
        modifiers: Modifiers,
        key: Key,
    ) -> (command: UpdateCommand)
        requires
            old(buffer)@.wf(),
        ensures
            Split::stepped(
                old(self)@,
                final(self)@,
                old(buffer)@,
                final(buffer)@,
                modifiers,
                key,
                command,
            ),
            final(buffer)@.wf(),
            final(buffer).file() == old(buffer).file(),
            *final(_registry) == *old(_registry),
            *final(_window) == *old(_window),
    {
        match key {
            Key::Esc => {
                return Normal::switch_to();
            },
            Key::Backspace => {
                if command_backspace(&mut self.command) {
                    self.preview = self.run(buffer);
                }
            },
            Key::Enter => {
                let result = self.run(buffer);
                match result {
                    ModeResult::Done(selections) => {
                        buffer.install_selections(selections);
                    },
                    _ => {},
                }
                return Normal::switch_to();
            },
            Key::Char(ch) => {
                if ch == 'q' && modifiers.control {
                    return Normal::switch_to();
                }
                command_push(&mut self.command, ch);
                self.preview = self.run(buffer);
            },
            _ => {},
        }
        UpdateCommand::Nothing
    }

    /// The line that shows the mode, the mark of the preview and the
    /// command.
    pub fn status(&self) -> (status: String)
        ensures
            status@ == "split"@ + " "@ + indicator_of(self@.preview) + " > "@ + self@.command,
    {
        prompt_status("split", indicator(&self.preview), &self.command)
    }

    /// The selections that the command would give now, if it gives any.
    pub fn preview_selections(&self) -> (preview: Option<&Vec<Selection>>)
        ensures
            preview.is_some() == shown(self@.preview).is_some(),
            preview matches Some(list) ==> Some(*list) == shown(self@.preview),
    {
        preview_of(&self.preview)
    }
}

} // verus!
