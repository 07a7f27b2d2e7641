//! One selection: a range of the text with a cursor on one of its two
//! edges, and what editing does to it.

use crate::change::{apply_edit, edit_of_change, edit_of_option, Change, Edit};
use crate::text::{
    line_of_char, rope_from_str, rope_insert, rope_insert_char, rope_len_chars,
    rope_len_lines, rope_line_len, rope_new, rope_remove, rope_slice, rope_text,
    rope_to_string, start_of_line, text_char_to_line, text_len_lines, text_line_len,
    text_line_to_char,
};
use ropey::Rope;
use vstd::prelude::*;

verus! {

/// An operation on one selection.
#[derive(Debug, Copy, Clone)]
pub enum Op<'a> {
    Swap,
    Collapse,
    MoveByChar(isize),
    MoveByLine(isize),
    InsertChar(char),
    InsertStr(&'a str),
    Remove,
    RemoveAll,
}

/// An operation as plain values.
pub enum OpView {
    Swap,
    Collapse,
    MoveByChar(int),
    MoveByLine(int),
    InsertChar(char),
    InsertStr(Seq<char>),
    Remove,
    RemoveAll,
}

impl View for Op<'_> {
    type V = OpView;

    open spec fn view(&self) -> OpView {
        match *self {
            Op::Swap => OpView::Swap,
            Op::Collapse => OpView::Collapse,
            Op::MoveByChar(delta) => OpView::MoveByChar(delta as int),
            Op::MoveByLine(delta) => OpView::MoveByLine(delta as int),
            Op::InsertChar(value) => OpView::InsertChar(value),
            Op::InsertStr(value) => OpView::InsertStr(value@),
            Op::Remove => OpView::Remove,
            Op::RemoveAll => OpView::RemoveAll,
        }
    }
}

/// The edge of a selection that its cursor is on.
#[derive(Debug, Copy, Clone, PartialEq, Eq, Structural)]
pub enum Side {
    Start,
    End,
}

impl Side {
    /// The other edge.
    pub open spec fn flip(self) -> Side {
        match self {
            Side::Start => Side::End,
            Side::End => Side::Start,
        }
    }
}

/// A range of the text, both ends included, with a cursor on one end and the
/// anchor on the other.
#[derive(Debug, Copy, Clone, PartialEq)]
pub struct Selection {
    start: usize,
    end: usize,
    side: Side,
    last_line_offset: Option<usize>,
}

/// A selection as plain values.
pub struct SelectionView {
    pub start: nat,
    pub end: nat,
    pub side: Side,
    /// The column that vertical movement tries to keep.
    pub line_offset: Option<nat>,
}

/// The smaller of two numbers.
pub open spec fn lesser(a: nat, b: nat) -> nat {
    if a <= b {
        a
    } else {
        b
    }
}

/// The larger of two numbers.
pub open spec fn greater(a: nat, b: nat) -> nat {
    if a >= b {
        a
    } else {
        b
    }
}

/// A position moved by `delta` and kept between 0 and `max`.
pub open spec fn clamp_step(max: nat, value: nat, delta: int) -> nat {
    if value + delta <= 0 {
        0
    } else if value + delta >= max {
        max
    } else {
        (value + delta) as nat
    }
}

/// Where a position of the text goes when the text is edited, in a text
/// that has `len` characters after the edit. Without an edit the position is
/// only kept inside the text.
pub open spec fn shifted(bound: nat, len: nat, edit: Option<Edit>) -> nat {
    match edit {
        None => lesser(bound, len),
        Some(Edit::Addition(at, content)) => if bound >= at {
            lesser(bound + content.len(), len)
        } else {
            bound
        },
        Some(Edit::Removal(at, content)) => if bound >= at + content.len() {
            lesser((bound - content.len()) as nat, len)
        } else if bound >= at {
            at
        } else {
            bound
        },
    }
}

impl SelectionView {
    /// The position of the cursor.
    pub open spec fn cursor(self) -> nat {
        match self.side {
            Side::Start => self.start,
            Side::End => self.end,
        }
    }

    /// The position of the anchor: the bound that the cursor is not on.
    pub open spec fn anchor(self) -> nat {
        match self.side {
            Side::Start => self.end,
            Side::End => self.start,
        }
    }

    /// The start is not behind the end.
    pub open spec fn wf(self) -> bool {
        self.start <= self.end
    }

    /// The selection with its cursor at `position` and its anchor where it was.
    pub open spec fn with_cursor(self, position: nat) -> SelectionView {
        match self.side {
            Side::Start => SelectionView { start: position, ..self },
            Side::End => SelectionView { end: position, ..self },
        }
    }

    /// The selection with its bounds in order. Where they had crossed, they
    /// change places and the cursor changes sides with them; where they meet,
    /// the cursor is on the end.
    pub open spec fn ordered(self) -> SelectionView {
        if self.start < self.end {
            self
        } else if self.start == self.end {
            SelectionView { side: Side::End, ..self }
        } else {
            SelectionView { start: self.end, end: self.start, side: self.side.flip(), ..self }
        }
    }

    /// The selection after the text was edited: both bounds shifted, then
    /// put in order.
    pub open spec fn adjusted(self, len: nat, edit: Option<Edit>) -> SelectionView {
        SelectionView {
            start: shifted(self.start, len, edit),
            end: shifted(self.end, len, edit),
            ..self
        }.ordered()
    }

    /// The one selection that covers this one and `other`, if they overlap
    /// or touch. Its cursor is on the end.
    pub open spec fn merged(self, other: SelectionView) -> Option<SelectionView> {
        let first = if other.start < self.start {
            other
        } else {
            self
        };
        let second = if other.start < self.start {
            self
        } else {
            other
        };
        if first.end >= second.start {
            Some(
                SelectionView {
                    start: first.start,
                    end: greater(first.end, second.end),
                    side: Side::End,
                    line_offset: None,
                },
            )
        } else {
            None
        }
    }

    /// The line that the cursor is on: 0 in an empty text, the number of
    /// lines where the cursor is past the end.
    pub open spec fn line_of_cursor(self, text: Seq<char>) -> nat {
        if text.len() == 0 {
            0
        } else if self.cursor() > text.len() {
            text_len_lines(text)
        } else {
            text_char_to_line(text, self.cursor())
        }
    }

    /// The part of the text that the selection covers. What lies past the
    /// end of the text is left out.
    pub open spec fn covered(self, text: Seq<char>) -> Seq<char> {
        let stop = lesser(self.end + 1, text.len());
        let start = lesser(self.start, stop);
        text.subrange(start as int, stop as int)
    }

    /// The selection after a move by `delta` lines. The cursor keeps its
    /// column, or the column remembered from the last such move, as far as the
    /// new line is long. Where there is no such line nothing changes.
    pub open spec fn moved_by_line(self, text: Seq<char>, delta: int) -> SelectionView {
        let lines = text_len_lines(text);
        let line = self.line_of_cursor(text);
        let new_line = clamp_step(lines, line, delta);
        if new_line >= lines {
            self
        } else {
            let line_begin = text_line_to_char(text, line);
            let offset = match self.line_offset {
                Some(offset) => offset,
                None => if self.cursor() >= line_begin {
                    (self.cursor() - line_begin) as nat
                } else {
                    0
                },
            };
            let new_line_len = text_line_len(text, new_line);
            let last = if new_line_len >= 1 {
                (new_line_len - 1) as nat
            } else {
                0
            };
            let new_cursor = lesser(
                text_line_to_char(text, new_line) + lesser(offset, last),
                usize::MAX as nat,
            );
            SelectionView { line_offset: Some(offset), ..self }.with_cursor(new_cursor)
        }
    }

    /// The edit that an operation makes to the text at this selection, if
    /// it makes one. An insertion goes in at the cursor, `Remove` takes out the
    /// character before the cursor, `RemoveAll` the covered text. A cursor past
    /// the end of the text, or a start behind the end, edits nothing.
    pub open spec fn edit_of(self, text: Seq<char>, op: OpView) -> Option<Edit> {
        match op {
            OpView::InsertChar(value) => if self.cursor() <= text.len() {
                Some(Edit::Addition(self.cursor(), seq![value]))
            } else {
                None
            },
            OpView::InsertStr(value) => if self.cursor() <= text.len() {
                Some(Edit::Addition(self.cursor(), value))
            } else {
                None
            },
            OpView::Remove => if 0 < self.cursor() <= text.len() {
                Some(
                    Edit::Removal(
                        (self.cursor() - 1) as nat,
                        text.subrange(self.cursor() - 1, self.cursor() as int),
                    ),
                )
            } else {
                None
            },
            OpView::RemoveAll => if self.start < text.len() && self.start <= self.end {
                Some(Edit::Removal(self.start, self.covered(text)))
            } else {
                None
            },
            _ => None,
        }
    }

    /// The selection after the operation itself, before it is adjusted to
    /// the edit that the operation made.
    pub open spec fn moved_by(self, text: Seq<char>, op: OpView) -> SelectionView {
        match op {
            OpView::Swap => SelectionView { side: self.side.flip(), line_offset: None, ..self },
            OpView::Collapse => SelectionView {
                start: self.cursor(),
                end: self.cursor(),
                line_offset: None,
                ..self
            },
            OpView::MoveByChar(delta) => SelectionView { line_offset: None, ..self }.with_cursor(
                clamp_step(text.len(), self.cursor(), delta),
            ),
            OpView::MoveByLine(delta) => self.moved_by_line(text, delta),
            _ => if self.edit_of(text, op).is_some() {
                SelectionView { line_offset: None, ..self }
            } else {
                self
            },
        }
    }

    /// The selection after an operation on it.
    pub open spec fn after_op(self, text: Seq<char>, op: OpView) -> SelectionView {
        let edit = self.edit_of(text, op);
        self.moved_by(text, op).adjusted(apply_edit(edit, text).len(), edit)
    }
}

impl View for Selection {
    type V = SelectionView;

    closed spec fn view(&self) -> SelectionView {
        SelectionView {
            start: self.start as nat,
            end: self.end as nat,
            side: self.side,
            line_offset: match self.last_line_offset {
                Some(offset) => Some(offset as nat),
                None => None,
            },
        }
    }
}

impl Selection {
    /// A selection from `start` to `end` with its cursor on the start.
    pub fn new_at_start(start: usize, end: usize) -> (selection: Selection)
        ensures
            selection@ == (SelectionView {
                start: start as nat,
                end: end as nat,
                side: Side::Start,
                line_offset: None,
            }),
    {
        Selection { start, end, side: Side::Start, last_line_offset: None }
    }

    /// A selection from `start` to `end` with its cursor on the end.
    pub fn new_at_end(start: usize, end: usize) -> (selection: Selection)
        ensures
            selection@ == (SelectionView {
                start: start as nat,
                end: end as nat,
                side: Side::End,
                line_offset: None,
            }),
    {
        Selection { start, end, side: Side::End, last_line_offset: None }
    }

    pub fn start(&self) -> (start: usize)
        ensures
            start == self@.start,
    {
        self.start
    }

    pub fn end(&self) -> (end: usize)
        ensures
            end == self@.end,
    {
        self.end
    }

    pub fn side(&self) -> (side: Side)
        ensures
            side == self@.side,
    {
        self.side
    }

    /// The position of the cursor: the bound on the active side.
    pub fn cursor(&self) -> (cursor: usize)
        ensures
            cursor == self@.cursor(),
    {
        match self.side {
            Side::Start => self.start,
            Side::End => self.end,
        }
    }

    /// The number of positions from the start to the end, both included.
    pub fn size(&self) -> (size: usize)
        requires
            self@.end - self@.start < usize::MAX,
        ensures
            size == (if self@.end >= self@.start {
                self@.end - self@.start + 1
            } else {
                1
            }),
    {
        self.end.saturating_sub(self.start) + 1
    }

    /// The line that the cursor is on.
    pub fn cursor_line(&self, contents: &Rope) -> (line: usize)
        ensures
            line == self@.line_of_cursor(rope_text(*contents)),
            line <= text_len_lines(rope_text(*contents)),
    {
        let len = rope_len_chars(contents);
        if len == 0 {
            return 0;
        }
        let cursor = self.cursor();
        if cursor > len {
            return rope_len_lines(contents);
        }
        line_of_char(contents, cursor)
    }

    /// The text that the selection covers.
    pub fn slice(&self, contents: &Rope) -> (text: String)
        ensures
            text@ == self@.covered(rope_text(*contents)),
    {
        let len = rope_len_chars(contents);
        let stop = if self.end < len {
            self.end + 1
        } else {
            len
        };
        let start = if self.start <= stop {
            self.start
        } else {
            stop
        };
        let piece = rope_slice(contents, start, stop);
        rope_to_string(&piece)
    }

    /// Merges two selections into one if they overlap or touch.
    pub fn try_merge(&self, other: &Self) -> (merged: Option<Selection>)
        ensures
            merged.is_some() == self@.merged(other@).is_some(),
            merged matches Some(selection) ==> Some(selection@) == self@.merged(other@),
        decreases
                (if other@.start < self@.start {
                    1nat
                } else {
                    0nat
                }),
    {
        if other.start < self.start {
            other.try_merge(self)
        } else if self.end >= other.start {
            let end = if self.end >= other.end {
                self.end
            } else {
                other.end
            };
            Some(Selection::new_at_end(self.start, end))
        } else {
            None
        }
    }

    /// Applies one operation to the selection and to the text, and adjusts
    /// the selection to the edit that it made.
    pub fn apply_operation(&mut self, contents: &mut Rope, op: Op) -> (change: Option<Change>)
        ensures
            edit_of_option(change) == old(self)@.edit_of(rope_text(*old(contents)), op@),
            rope_text(*final(contents)) == apply_edit(
                old(self)@.edit_of(rope_text(*old(contents)), op@),
                rope_text(*old(contents)),
            ),
            final(self)@ == old(self)@.after_op(rope_text(*old(contents)), op@),
            final(self)@.wf(),
            final(self)@.end <= rope_text(*final(contents)).len(),
    {
        proof {
            Self::lemma_after_op_in_text(self@, rope_text(*contents), op@);
        }
        let change = match op {
            Op::Swap => self.swap(),
            Op::Collapse => self.collapse(),
            Op::MoveByChar(delta) => self.move_by_char(contents, delta),
            Op::MoveByLine(delta) => self.move_by_line(contents, delta),
            Op::InsertChar(value) => self.insert_char(contents, value),
            Op::InsertStr(value) => self.insert_str(contents, value),
            Op::Remove => self.remove(contents),
            Op::RemoveAll => self.remove_all(contents),
        };
        self.adjust(contents, change.as_ref());
        change
    }

    /// Moves the bounds of the selection to where an edit of the text has
    /// put them, in the text as it is after the edit, and puts them in order.
    /// Without an edit the bounds are only kept inside the text.
    pub fn adjust(&mut self, contents: &Rope, change: Option<&Change>)
        ensures
            final(self)@ == old(self)@.adjusted(
                rope_text(*contents).len(),
                edit_of_change(change),
            ),
            final(self)@.wf(),
    {
        let max = rope_len_chars(contents);
        match change {
            None => {
                if self.start > max {
                    self.start = max;
                }
                if self.end > max {
                    self.end = max;
                }
            },
            Some(Change::Addition(begin, content)) => {
                let delta = rope_len_chars(content);
                if self.start >= *begin {
                    self.start = step_up(max, self.start, delta);
                }
                if self.end >= *begin {
                    self.end = step_up(max, self.end, delta);
                }
            },
            Some(Change::Removal(begin, content)) => {
                let delta = rope_len_chars(content);
                if self.start >= *begin {
                    if self.start - *begin >= delta {
                        self.start = step_down(max, self.start, delta);
                    } else {
                        self.start = *begin;
                    }
                }
                if self.end >= *begin {
                    if self.end - *begin >= delta {
                        self.end = step_down(max, self.end, delta);
                    } else {
                        self.end = *begin;
                    }
                }
            },
        }
        if self.start < self.end {
        } else if self.start == self.end {
            self.side = Side::End;
        } else {
            let start = self.start;
            self.start = self.end;
            self.end = start;
            self.side =
            match self.side {
                Side::Start => Side::End,
                Side::End => Side::Start,
            };
        }
    }

    fn swap(&mut self) -> (change: Option<Change>)
        ensures
            change.is_none(),
            final(self)@ == old(self)@.moved_by(Seq::empty(), OpView::Swap),
    {
        match self.side {
            Side::Start => {
                self.side = Side::End;
            },
            Side::End => {
                self.side = Side::Start;
            },
        }
        self.last_line_offset = None;
        None
    }

    fn collapse(&mut self) -> (change: Option<Change>)
        ensures
            change.is_none(),
            final(self)@ == old(self)@.moved_by(Seq::empty(), OpView::Collapse),
    {
        match self.side {
            Side::Start => {
                self.end = self.start;
            },
            Side::End => {
                self.start = self.end;
            },
        }
        self.last_line_offset = None;
        None
    }

    fn move_by_char(&mut self, contents: &Rope, delta: isize) -> (change: Option<Change>)
        ensures
            change.is_none(),
            final(self)@ == old(self)@.moved_by(
                rope_text(*contents),
                OpView::MoveByChar(delta as int),
            ),
    {
        let max = rope_len_chars(contents);
        match self.side {
            Side::Start => self.start = step(max, self.start, delta),
            Side::End => self.end = step(max, self.end, delta),
        };
        self.last_line_offset = None;
        None
    }

    fn move_by_line(&mut self, contents: &Rope, delta: isize) -> (change: Option<Change>)
        ensures
            change.is_none(),
            final(self)@ == old(self)@.moved_by(
                rope_text(*contents),
                OpView::MoveByLine(delta as int),
            ),
    {
        let max = rope_len_lines(contents);
        let cursor = self.cursor();
        let line = self.cursor_line(contents);
        let new_line = step(max, line, delta);
        if new_line >= max {
            return None;
        }
        let line_begin = start_of_line(contents, line);
        let line_offset = {
            if let Some(last_line_offset) = self.last_line_offset {
                last_line_offset
            } else {
                let last_line_offset = cursor.saturating_sub(line_begin);
                self.last_line_offset = Some(last_line_offset);
                last_line_offset
            }
        };
        let new_line_begin = start_of_line(contents, new_line);
        let new_line_len = rope_line_len(contents, new_line);
        let last = new_line_len.saturating_sub(1);
        let new_line_offset = if line_offset <= last {
            line_offset
        } else {
            last
        };
        let new_cursor = new_line_begin.saturating_add(new_line_offset);
        match self.side {
            Side::Start => self.start = new_cursor,
            Side::End => self.end = new_cursor,
        };
        None
    }

    fn insert_char(&mut self, contents: &mut Rope, value: char) -> (change: Option<Change>)
        ensures
            edit_of_option(change) == old(self)@.edit_of(
                rope_text(*old(contents)),
                OpView::InsertChar(value),
            ),
            rope_text(*final(contents)) == apply_edit(
                edit_of_option(change),
                rope_text(*old(contents)),
            ),
            final(self)@ == old(self)@.moved_by(
                rope_text(*old(contents)),
                OpView::InsertChar(value),
            ),
    {
        let cursor = self.cursor();
        if cursor > rope_len_chars(contents) {
            return None;
        }
        let mut content = rope_new();
        rope_insert_char(&mut content, 0, value);
        assert(rope_text(content) == seq![value]);
        let change = Change::Addition(cursor, content);
        rope_insert_char(contents, cursor, value);
        self.last_line_offset = None;
        Some(change)
    }

    fn insert_str(&mut self, contents: &mut Rope, value: &str) -> (change: Option<Change>)
        ensures
            edit_of_option(change) == old(self)@.edit_of(
                rope_text(*old(contents)),
                OpView::InsertStr(value@),
            ),
            rope_text(*final(contents)) == apply_edit(
                edit_of_option(change),
                rope_text(*old(contents)),
            ),
            final(self)@ == old(self)@.moved_by(
                rope_text(*old(contents)),
                OpView::InsertStr(value@),
            ),
    {
        let cursor = self.cursor();
        if cursor > rope_len_chars(contents) {
            return None;
        }
        let change = Change::Addition(cursor, rope_from_str(value));
        rope_insert(contents, cursor, value);
        self.last_line_offset = None;
        Some(change)
    }

    fn remove(&mut self, contents: &mut Rope) -> (change: Option<Change>)
        ensures
            edit_of_option(change) == old(self)@.edit_of(
                rope_text(*old(contents)),
                OpView::Remove,
            ),
            rope_text(*final(contents)) == apply_edit(
                edit_of_option(change),
                rope_text(*old(contents)),
            ),
            final(self)@ == old(self)@.moved_by(rope_text(*old(contents)), OpView::Remove),
    {
        let cursor = self.cursor();
        if cursor == 0 || cursor > rope_len_chars(contents) {
            return None;
        }
        let begin = cursor - 1;
        let content = rope_slice(contents, begin, cursor);
        let change = Change::Removal(begin, content);
        rope_remove(contents, begin, cursor);
        self.last_line_offset = None;
        Some(change)
    }

    fn remove_all(&mut self, contents: &mut Rope) -> (change: Option<Change>)
        ensures
            edit_of_option(change) == old(self)@.edit_of(
                rope_text(*old(contents)),
                OpView::RemoveAll,
            ),
            rope_text(*final(contents)) == apply_edit(
                edit_of_option(change),
                rope_text(*old(contents)),
            ),
            final(self)@ == old(self)@.moved_by(rope_text(*old(contents)), OpView::RemoveAll),
    {
        let max = rope_len_chars(contents);
        if self.start >= max || self.start > self.end {
            return None;
        }
        let stop = if self.end < max {
            self.end + 1
        } else {
            max
        };
        let content = rope_slice(contents, self.start, stop);
        let change = Change::Removal(self.start, content);
        rope_remove(contents, self.start, stop);
        self.last_line_offset = None;
        Some(change)
    }

    /// A selection that was adjusted to an edit has its bounds in order
    /// and lies inside the edited text, where the edit stays inside the text
    /// before it, or there is none.
    pub proof fn lemma_adjusted_in_text(
        selection: SelectionView,
        text: Seq<char>,
        edit: Option<Edit>,
    )
        requires
            edit matches Some(edit) ==> edit.in_bounds(text),
        ensures
            selection.adjusted(apply_edit(edit, text).len(), edit).wf(),
            selection.adjusted(apply_edit(edit, text).len(), edit).end <= apply_edit(
                edit,
                text,
            ).len(),
    {
    }

    /// A selection that has done an operation has its bounds in order and
    /// lies inside the text as the operation has left it.
    pub proof fn lemma_after_op_in_text(selection: SelectionView, text: Seq<char>, op: OpView)
        ensures
            selection.after_op(text, op).wf(),
            selection.after_op(text, op).end <= apply_edit(
                selection.edit_of(text, op),
                text,
            ).len(),
    {
        Self::lemma_adjusted_in_text(
            selection.moved_by(text, op),
            text,
            selection.edit_of(text, op),
        );
    }

    /// Two selections with the same bounds, side and remembered column are
    /// the same selection.
    pub proof fn lemma_view_injective(self, other: Selection)
        requires
            self@ == other@,
        ensures
            self == other,
    {
    }

    /// The bounds of a selection fit a machine word.
    pub proof fn lemma_view_bounded(self)
        ensures
            self@.start <= usize::MAX,
            self@.end <= usize::MAX,
            self@.line_offset matches Some(offset) ==> offset <= usize::MAX,
    {
    }
}

/// Moves a position by `delta` and keeps it between 0 and `max`.
pub fn step(max: usize, value: usize, delta: isize) -> (moved: usize)
    ensures
        moved == clamp_step(max as nat, value as nat, delta as int),
{
    let new_value = {
        if delta > 0 {
            value.saturating_add(delta as usize)
        } else if delta == isize::MIN {
            value.saturating_sub((isize::MAX as usize) + 1)
        } else {
            value.saturating_sub((-delta) as usize)
        }
    };
    if new_value >= max {
        max
    } else {
        new_value
    }
}

/// Moves a position up by `delta`, no further than `max`.
fn step_up(max: usize, value: usize, delta: usize) -> (moved: usize)
    ensures
        moved == lesser((value + delta) as nat, max as nat),
{
    let new_value = value.saturating_add(delta);
    if new_value >= max {
        max
    } else {
        new_value
    }
}

/// Moves a position down by `delta`, and no further up than `max`.
fn step_down(max: usize, value: usize, delta: usize) -> (moved: usize)
    requires
        delta <= value,
    ensures
        moved == lesser((value - delta) as nat, max as nat),
{
    let new_value = value - delta;
    if new_value >= max {
        max
    } else {
        new_value
    }
}

} // verus!
