//! The buffer: one document with its selections and its history.

use crate::change::{
    all_agree, apply_all, apply_edit, edit_of_option, invert_all, lemma_agree_in_bounds,
    lemma_invert_all_restores, lemma_invert_all_twice, selections_after, Change, Edit,
};
use crate::history::{History, HistoryView};
use crate::overlap::{
    adjust_selections, adjusted_from, lemma_normalized, merge_overlapping_selections,
    normalized, selection_views, separated, sorted_by_start,
};
use crate::selection::{Op, OpView, Selection, SelectionView, Side};
use crate::text::{rope_new, rope_text};
use ropey::Rope;
use vstd::prelude::*;

verus! {

/// A document with its selections and its history.
pub struct Buffer {
    filename: Option<String>,
    contents: Rope,
    selections: Vec<Selection>,
    primary_selection: usize,
    history: History,
}

/// A buffer as plain values.
pub struct BufferView {
    pub text: Seq<char>,
    pub selections: Seq<SelectionView>,
    /// The index of the primary selection.
    pub primary: nat,
    pub history: HistoryView,
}

/// Each batch of the stack can be taken back in turn, the latest one
/// first: its inverse agrees with the text as the batches after it have left
/// it.
pub open spec fn replayable(stack: Seq<Seq<Edit>>, text: Seq<char>) -> bool
    decreases stack.len(),
{
    stack.len() == 0 || {
        let batch = invert_all(stack.last());
        all_agree(batch, text) && replayable(stack.drop_last(), apply_all(batch, text))
    }
}

/// The text, the selections and the edits made so far, while one call
/// works through its operations.
pub struct EditState {
    pub selections: Seq<SelectionView>,
    pub text: Seq<char>,
    /// The edits made to the text so far, in order.
    pub edits: Seq<Edit>,
}

impl EditState {
    /// The state after an operation on the selection at `index`: the
    /// selection has done the operation, the text holds its edit, and the
    /// selections behind it in the list are adjusted to that edit.
    pub open spec fn operate(self, op: OpView, index: int) -> EditState {
        let selection = self.selections[index];
        let edit = selection.edit_of(self.text, op);
        let text = apply_edit(edit, self.text);
        EditState {
            selections: adjusted_from(
                self.selections.update(index, selection.after_op(self.text, op)),
                index + 1,
                text.len(),
                edit,
            ),
            text,
            edits: match edit {
                Some(edit) => self.edits.push(edit),
                None => self.edits,
            },
        }
    }

    /// The state after an operation on each of the first `count`
    /// selections, in the order of the list.
    pub open spec fn fan_out(self, op: OpView, count: nat) -> EditState
        decreases count,
    {
        if count == 0 {
            self
        } else {
            self.fan_out(op, (count - 1) as nat).operate(op, count - 1)
        }
    }

    /// The state after each of the operations, in order, on every selection.
    pub open spec fn operate_all(self, ops: Seq<OpView>) -> EditState
        decreases ops.len(),
    {
        if ops.len() == 0 {
            self
        } else {
            self.operate_all(ops.drop_last()).fan_out(ops.last(), self.selections.len())
        }
    }

    /// The state after the first `count` pieces were inserted, the piece
    /// at index `i` at the cursor of the selection `i` places round the list
    /// from the primary one.
    pub open spec fn insert_pieces(
        self,
        pieces: Seq<Seq<char>>,
        primary: nat,
        count: nat,
    ) -> EditState
        decreases count,
    {
        if count == 0 {
            self
        } else {
            self.insert_pieces(pieces, primary, (count - 1) as nat).operate(
                OpView::InsertStr(pieces[count - 1]),
                rotated(primary, (count - 1) as nat, self.selections.len()) as int,
            )
        }
    }

    /// The state after the selection at `index` was replaced by a piece of
    /// text: the selection has removed what it covered and inserted the piece
    /// at its cursor, and the selections behind it in the list are adjusted to
    /// both edits.
    pub open spec fn replace(self, piece: Seq<char>, index: int) -> EditState {
        let first = self.selections[index];
        let removal = first.edit_of(self.text, OpView::RemoveAll);
        let cut = apply_edit(removal, self.text);
        let emptied = first.after_op(self.text, OpView::RemoveAll);
        let addition = emptied.edit_of(cut, OpView::InsertStr(piece));
        let text = apply_edit(addition, cut);
        let filled = emptied.after_op(cut, OpView::InsertStr(piece));
        let removed = match removal {
            Some(edit) => self.edits.push(edit),
            None => self.edits,
        };
        EditState {
            selections: adjusted_from(
                adjusted_from(
                    self.selections.update(index, filled),
                    index + 1,
                    text.len(),
                    removal,
                ),
                index + 1,
                text.len(),
                addition,
            ),
            text,
            edits: match addition {
                Some(edit) => removed.push(edit),
                None => removed,
            },
        }
    }

    /// The state after the first `count` selections were replaced, each by
    /// the piece at its index.
    pub open spec fn replace_first(self, pieces: Seq<Seq<char>>, count: nat) -> EditState
        decreases count,
    {
        if count == 0 {
            self
        } else {
            self.replace_first(pieces, (count - 1) as nat).replace(pieces[count - 1], count - 1)
        }
    }

    /// The edits made so far lead from `origin` to the text.
    pub open spec fn leads_from(self, origin: Seq<char>) -> bool {
        all_agree(self.edits, origin) && apply_all(self.edits, origin) == self.text
    }
}

/// The operations of a list as plain values.
pub open spec fn op_views(ops: Seq<Op>) -> Seq<OpView> {
    ops.map_values(|op: Op| op@)
}

/// The history with a batch of edits recorded and committed. An empty
/// batch leaves no trace.
pub open spec fn history_with(history: HistoryView, edits: Seq<Edit>) -> HistoryView {
    if edits.len() == 0 {
        history
    } else {
        HistoryView { pending: Some(edits), ..history }.committed()
    }
}

/// The index that lies `offset` places behind `primary` in a list of `len`
/// items, going round at the end.
pub open spec fn rotated(primary: nat, offset: nat, len: nat) -> nat {
    if primary + offset < len {
        primary + offset
    } else {
        (primary + offset - len) as nat
    }
}

/// The selections of a list of selections with a text for each.
pub open spec fn result_selections(results: Seq<(Selection, String)>) -> Seq<SelectionView> {
    results.map_values(|result: (Selection, String)| result.0@)
}

/// The texts of a list of selections with a text for each.
pub open spec fn result_texts(results: Seq<(Selection, String)>) -> Seq<Seq<char>> {
    results.map_values(|result: (Selection, String)| result.1@)
}

/// The texts of a list of strings.
pub open spec fn string_views(strings: Seq<String>) -> Seq<Seq<char>> {
    strings.map_values(|string: String| string@)
}

/// An index kept inside a list of `len` items.
pub open spec fn clamp_index(index: nat, len: nat) -> nat {
    if index >= len {
        if len >= 1 {
            (len - 1) as nat
        } else {
            0
        }
    } else {
        index
    }
}

impl BufferView {
    /// There is a selection, the primary index names one, no batch is
    /// pending, and the history fits the text: what was done can be undone,
    /// what was undone can be redone.
    pub open spec fn wf(self) -> bool {
        &&& self.selections.len() > 0
        &&& self.primary < self.selections.len()
        &&& self.history.pending.is_none()
        &&& replayable(self.history.undo, self.text)
        &&& replayable(self.history.redo, self.text)
    }

    /// The buffer with another list of selections, put in order. An empty
    /// list is refused: nothing changes.
    pub open spec fn with_selections(self, selections: Seq<SelectionView>) -> BufferView {
        if selections.len() == 0 {
            self
        } else {
            BufferView {
                selections: normalized(selections),
                primary: clamp_index(self.primary, normalized(selections).len()),
                ..self
            }
        }
    }

    /// The buffer after a call that applies operations: each operation in
    /// turn is done on every selection, then the selections are put in order
    /// and the edits go into the history as one batch.
    pub open spec fn after_operations(self, ops: Seq<OpView>) -> BufferView {
        let state = EditState {
            selections: self.selections,
            text: self.text,
            edits: Seq::empty(),
        }.operate_all(ops);
        BufferView {
            text: state.text,
            selections: normalized(state.selections),
            primary: clamp_index(self.primary, normalized(state.selections).len()),
            history: history_with(self.history, state.edits),
        }
    }

    /// The text of each selection, starting with the primary selection and
    /// going round the list.
    pub open spec fn copied(self) -> Seq<Seq<char>> {
        Seq::new(
            self.selections.len(),
            |i: int|
                self.selections[rotated(
                    self.primary,
                    i as nat,
                    self.selections.len(),
                ) as int].covered(self.text),
        )
    }

    /// The buffer after a paste: the pieces are inserted at the cursors of
    /// the selections, one piece each, starting with the primary selection and
    /// going round the list. Pieces for which there is no selection are left
    /// out, and selections for which there is no piece are left alone.
    pub open spec fn pasted(self, pieces: Seq<Seq<char>>) -> BufferView {
        let count = if pieces.len() <= self.selections.len() {
            pieces.len()
        } else {
            self.selections.len()
        };
        let state = EditState {
            selections: self.selections,
            text: self.text,
            edits: Seq::empty(),
        }.insert_pieces(pieces, self.primary, count);
        BufferView {
            text: state.text,
            selections: normalized(state.selections),
            primary: clamp_index(self.primary, normalized(state.selections).len()),
            history: history_with(self.history, state.edits),
        }
    }

    /// The buffer after an undo: the latest batch is taken back from the
    /// text, and the selections are those that the inverse batch leaves behind.
    /// With nothing to undo nothing changes.
    pub open spec fn undone(self) -> BufferView {
        let history = self.history.committed();
        if history.undo.len() == 0 {
            BufferView { history, ..self }
        } else {
            let batch = invert_all(history.undo.last());
            BufferView {
                text: apply_all(batch, self.text),
                history: self.history.stepped_back(),
                ..self
            }.with_selections(selections_after(batch, self.text))
        }
    }

    /// The buffer after a redo: the latest undone batch is made again, and
    /// the selections are those that it leaves behind. With nothing to redo
    /// nothing changes.
    pub open spec fn redone(self) -> BufferView {
        let history = self.history.committed();
        if history.redo.len() == 0 {
            BufferView { history, ..self }
        } else {
            let batch = invert_all(history.redo.last());
            BufferView {
                text: apply_all(batch, self.text),
                history: self.history.stepped_forward(),
                ..self
            }.with_selections(selections_after(batch, self.text))
        }
    }

    /// The buffer after each of the given selections was replaced by its
    /// piece of text: the edits go into the history as one batch, and the
    /// selections, as the replacing has left them, become those of the buffer.
    pub open spec fn piped(
        self,
        selections: Seq<SelectionView>,
        pieces: Seq<Seq<char>>,
    ) -> BufferView {
        let state = EditState { selections, text: self.text, edits: Seq::empty() }.replace_first(
            pieces,
            selections.len(),
        );
        BufferView {
            text: state.text,
            history: history_with(self.history, state.edits),
            ..self
        }.with_selections(state.selections)
    }

    /// The buffer with the result of a transform installed: the list
    /// replaces the selections and is put in order, and the last selection
    /// becomes the primary one. An empty list leaves the selections and makes
    /// the first one the primary one.
    pub open spec fn installed(self, selections: Seq<SelectionView>) -> BufferView {
        let replaced = self.with_selections(selections);
        BufferView {
            primary: clamp_index(
                if selections.len() >= 1 {
                    (selections.len() - 1) as nat
                } else {
                    0
                },
                replaced.selections.len(),
            ),
            ..replaced
        }
    }

    /// The buffer with its selections put in order and its primary index
    /// kept inside the list.
    pub open spec fn cleaned(self) -> BufferView {
        BufferView {
            selections: normalized(self.selections),
            primary: clamp_index(self.primary, normalized(self.selections).len()),
            ..self
        }
    }
}

/// The edit that an operation makes at a selection agrees with the text.
pub proof fn lemma_edit_of_agrees(selection: SelectionView, text: Seq<char>, op: OpView)
    ensures
        selection.edit_of(text, op) matches Some(edit) ==> edit.agrees_with(text),
{
}

/// One operation on one selection keeps the edits leading from the
/// first text to the text, and keeps the number of selections.
pub proof fn lemma_operate(state: EditState, op: OpView, index: int, origin: Seq<char>)
    requires
        state.leads_from(origin),
        0 <= index < state.selections.len(),
    ensures
        state.operate(op, index).leads_from(origin),
        state.operate(op, index).selections.len() == state.selections.len(),
{
    let edit = state.selections[index].edit_of(state.text, op);
    lemma_edit_of_agrees(state.selections[index], state.text, op);
    match edit {
        Some(edit) => {
            assert(state.edits.push(edit).drop_last() =~= state.edits);
        },
        None => {},
    }
}

/// Operations on the first selections keep the edits leading from the
/// first text to the text, and keep the number of selections.
pub proof fn lemma_fan_out(state: EditState, op: OpView, count: nat, origin: Seq<char>)
    requires
        state.leads_from(origin),
        count <= state.selections.len(),
    ensures
        state.fan_out(op, count).leads_from(origin),
        state.fan_out(op, count).selections.len() == state.selections.len(),
    decreases count,
{
    if count > 0 {
        lemma_fan_out(state, op, (count - 1) as nat, origin);
        lemma_operate(state.fan_out(op, (count - 1) as nat), op, count - 1, origin);
    }
}

/// A list of operations keeps the edits leading from the first text to
/// the text, and keeps the number of selections.
pub proof fn lemma_operate_all(state: EditState, ops: Seq<OpView>, origin: Seq<char>)
    requires
        state.leads_from(origin),
    ensures
        state.operate_all(ops).leads_from(origin),
        state.operate_all(ops).selections.len() == state.selections.len(),
    decreases ops.len(),
{
    if ops.len() > 0 {
        lemma_operate_all(state, ops.drop_last(), origin);
        lemma_fan_out(
            state.operate_all(ops.drop_last()),
            ops.last(),
            state.selections.len(),
            origin,
        );
    }
}

/// A history that fits a text still fits after the text was edited by a
/// batch that leads from it, with the batch recorded and committed.
pub proof fn lemma_history_with(
    history: HistoryView,
    edits: Seq<Edit>,
    origin: Seq<char>,
    text: Seq<char>,
)
    requires
        history.pending.is_none(),
        replayable(history.undo, origin),
        replayable(history.redo, origin),
        all_agree(edits, origin),
        apply_all(edits, origin) == text,
    ensures
        history_with(history, edits).pending.is_none(),
        replayable(history_with(history, edits).undo, text),
        replayable(history_with(history, edits).redo, text),
{
    if edits.len() > 0 {
        lemma_invert_all_restores(edits, origin);
        assert(history.undo.push(edits).drop_last() =~= history.undo);
    }
}

/// Inserting pieces keeps the edits leading from the first text to the
/// text, and keeps the number of selections.
pub proof fn lemma_insert_pieces(
    state: EditState,
    pieces: Seq<Seq<char>>,
    primary: nat,
    count: nat,
    origin: Seq<char>,
)
    requires
        state.leads_from(origin),
        primary < state.selections.len(),
        count <= state.selections.len(),
    ensures
        state.insert_pieces(pieces, primary, count).leads_from(origin),
        state.insert_pieces(pieces, primary, count).selections.len() == state.selections.len(),
    decreases count,
{
    if count > 0 {
        lemma_insert_pieces(state, pieces, primary, (count - 1) as nat, origin);
        lemma_operate(
            state.insert_pieces(pieces, primary, (count - 1) as nat),
            OpView::InsertStr(pieces[count - 1]),
            rotated(primary, (count - 1) as nat, state.selections.len()) as int,
            origin,
        );
    }
}

/// Replacing a selection keeps the edits leading from the first text
/// to the text, and keeps the number of selections.
pub proof fn lemma_replace(state: EditState, piece: Seq<char>, index: int, origin: Seq<char>)
    requires
        state.leads_from(origin),
        0 <= index < state.selections.len(),
    ensures
        state.replace(piece, index).leads_from(origin),
        state.replace(piece, index).selections.len() == state.selections.len(),
{
    let first = state.selections[index];
    let removal = first.edit_of(state.text, OpView::RemoveAll);
    let cut = apply_edit(removal, state.text);
    let emptied = first.after_op(state.text, OpView::RemoveAll);
    let addition = emptied.edit_of(cut, OpView::InsertStr(piece));
    let text = apply_edit(addition, cut);
    lemma_edit_of_agrees(first, state.text, OpView::RemoveAll);
    lemma_edit_of_agrees(emptied, cut, OpView::InsertStr(piece));
    let removed = match removal {
        Some(edit) => state.edits.push(edit),
        None => state.edits,
    };
    assert(all_agree(removed, origin) && apply_all(removed, origin) == cut) by {
        match removal {
            Some(edit) => {
                assert(removed.drop_last() =~= state.edits);
                assert(removed.last() == edit);
            },
            None => {},
        }
    }
    let all = match addition {
        Some(edit) => removed.push(edit),
        None => removed,
    };
    assert(all_agree(all, origin) && apply_all(all, origin) == text) by {
        match addition {
            Some(edit) => {
                assert(all.drop_last() =~= removed);
                assert(all.last() == edit);
            },
            None => {},
        }
    }
    assert(state.replace(piece, index).edits == all);
    assert(state.replace(piece, index).text == text);
}

/// Replacing the first selections keeps the edits leading from the
/// first text to the text, and keeps the number of selections.
pub proof fn lemma_replace_first(
    state: EditState,
    pieces: Seq<Seq<char>>,
    count: nat,
    origin: Seq<char>,
)
    requires
        state.leads_from(origin),
        count <= state.selections.len(),
    ensures
        state.replace_first(pieces, count).leads_from(origin),
        state.replace_first(pieces, count).selections.len() == state.selections.len(),
    decreases count,
{
    if count > 0 {
        lemma_replace_first(state, pieces, (count - 1) as nat, origin);
        lemma_replace(
            state.replace_first(pieces, (count - 1) as nat),
            pieces[count - 1],
            count - 1,
            origin,
        );
    }
}

/// An undo keeps a buffer well formed.
pub proof fn lemma_undone_wf(buffer: BufferView)
    requires
        buffer.wf(),
    ensures
        buffer.undone().wf(),
{
    let history = buffer.history;
    if history.undo.len() > 0 {
        let batch = invert_all(history.undo.last());
        lemma_invert_all_restores(batch, buffer.text);
        lemma_invert_all_twice(history.undo.last());
        assert(history.redo.push(batch).drop_last() =~= history.redo);
        lemma_normalized(selections_after(batch, buffer.text));
    }
}

/// A redo keeps a buffer well formed.
pub proof fn lemma_redone_wf(buffer: BufferView)
    requires
        buffer.wf(),
    ensures
        buffer.redone().wf(),
{
    let history = buffer.history;
    if history.redo.len() > 0 {
        let batch = invert_all(history.redo.last());
        lemma_invert_all_restores(batch, buffer.text);
        lemma_invert_all_twice(history.redo.last());
        assert(history.undo.push(batch).drop_last() =~= history.undo);
        lemma_normalized(selections_after(batch, buffer.text));
    }
}

/// Undo, then redo, gives back the text: where there is something to
/// undo, or nothing to redo, the text after the two steps is the text before
/// them, character by character.
pub proof fn lemma_undo_redo_restores_text(buffer: BufferView)
    requires
        buffer.wf(),
        buffer.history.undo.len() > 0 || buffer.history.redo.len() == 0,
    ensures
        buffer.undone().redone().text == buffer.text,
{
    let history = buffer.history;
    if history.undo.len() > 0 {
        let batch = invert_all(history.undo.last());
        lemma_invert_all_restores(batch, buffer.text);
        lemma_invert_all_twice(history.undo.last());
        let undone = buffer.undone();
        assert(undone.history.redo.last() == batch);
    }
}

/// Redo, then undo, gives back the text: where there is something to
/// redo, the text after the two steps is the text before them.
pub proof fn lemma_redo_undo_restores_text(buffer: BufferView)
    requires
        buffer.wf(),
        buffer.history.redo.len() > 0,
    ensures
        buffer.redone().undone().text == buffer.text,
{
    let history = buffer.history;
    let batch = invert_all(history.redo.last());
    lemma_invert_all_restores(batch, buffer.text);
    lemma_invert_all_twice(history.redo.last());
    let redone = buffer.redone();
    assert(redone.history.undo.last() == batch);
}

/// After a call that applies operations, undo and then redo give back the
/// text as the call left it, where the call made an edit, or there was
/// something to undo or nothing to redo before it.
pub proof fn lemma_operations_undo_redo(buffer: BufferView, ops: Seq<OpView>)
    requires
        buffer.wf(),
        buffer.after_operations(ops).history.undo.len() > 0 || buffer.after_operations(
            ops,
        ).history.redo.len() == 0,
    ensures
        buffer.after_operations(ops).wf(),
        buffer.after_operations(ops).undone().redone().text == buffer.after_operations(
            ops,
        ).text,
{
    let first = EditState { selections: buffer.selections, text: buffer.text, edits: Seq::empty() };
    lemma_operate_all(first, ops, buffer.text);
    let state = first.operate_all(ops);
    lemma_history_with(buffer.history, state.edits, buffer.text, state.text);
    lemma_normalized(state.selections);
    lemma_undo_redo_restores_text(buffer.after_operations(ops));
}

impl View for Buffer {
    type V = BufferView;

    closed spec fn view(&self) -> BufferView {
        BufferView {
            text: rope_text(self.contents),
            selections: selection_views(self.selections@),
            primary: self.primary_selection as nat,
            history: self.history@,
        }
    }
}

impl Buffer {
    /// The name of the file that the document belongs to, as it was given.
    pub closed spec fn file(&self) -> Option<String> {
        self.filename
    }

    /// An empty document without a file, with one selection at its start.
    pub fn new_scratch() -> (buffer: Self)
        ensures
            buffer@.wf(),
            buffer@.text == Seq::<char>::empty(),
            buffer@.selections == seq![
                SelectionView { start: 0, end: 0, side: Side::End, line_offset: None },
            ],
            buffer@.primary == 0,
            buffer@.history == HistoryView::empty(),
            buffer.file().is_none(),
    {
        let mut selections = Vec::new();
        selections.push(Selection::new_at_end(0, 0));
        let buffer = Self {
            filename: None,
            contents: rope_new(),
            selections,
            primary_selection: 0,
            history: History::default(),
        };
        assert(selection_views(buffer.selections@) =~= seq![
            SelectionView { start: 0, end: 0, side: Side::End, line_offset: None },
        ]);
        buffer
    }

    /// A document with the given text, for the file of the given name, with
    /// one selection at its start.
    pub fn new_from_contents(filename: String, contents: Rope) -> (buffer: Self)
        ensures
            buffer@.wf(),
            buffer@.text == rope_text(contents),
            buffer@.selections == seq![
                SelectionView { start: 0, end: 0, side: Side::End, line_offset: None },
            ],
            buffer@.primary == 0,
            buffer@.history == HistoryView::empty(),
            buffer.file() == Some(filename),
    {
        let mut selections = Vec::new();
        selections.push(Selection::new_at_end(0, 0));
        let buffer = Self {
            filename: Some(filename),
            contents,
            selections,
            primary_selection: 0,
            history: History::default(),
        };
        assert(selection_views(buffer.selections@) =~= seq![
            SelectionView { start: 0, end: 0, side: Side::End, line_offset: None },
        ]);
        buffer
    }

    /// The name of the file that the document belongs to, if it has one.
    pub fn filename(&self) -> (filename: Option<&String>)
        ensures
            filename.is_some() == self.file().is_some(),
            filename matches Some(name) ==> Some(*name) == self.file(),
    {
        self.filename.as_ref()
    }

    /// The text of the document.
    pub fn contents(&self) -> (contents: &Rope)
        ensures
            rope_text(*contents) == self@.text,
    {
        &self.contents
    }

    /// The selections, in order.
    pub fn selections(&self) -> (selections: &Vec<Selection>)
        ensures
            selection_views(selections@) == self@.selections,
    {
        &self.selections
    }

    /// The index of the primary selection.
    pub fn primary_index(&self) -> (index: usize)
        ensures
            index == self@.primary,
    {
        self.primary_selection
    }

    /// The primary selection.
    pub fn primary_selection(&self) -> (selection: &Selection)
        requires
            self@.wf(),
        ensures
            selection@ == self@.selections[self@.primary as int],
    {
        &self.selections[self.primary_selection]
    }

    /// Makes the selection at `index` the primary one, or the last one
    /// where there is none at `index`.
    pub fn set_primary_selection(&mut self, index: usize)
        requires
            old(self)@.wf(),
        ensures
            final(self)@ == (BufferView {
                primary: clamp_index(index as nat, old(self)@.selections.len()),
                ..old(self)@
            }),
            final(self)@.wf(),
            final(self).file() == old(self).file(),
    {
        self.primary_selection = index;
        if self.primary_selection >= self.selections.len() {
            self.primary_selection = self.selections.len().saturating_sub(1);
        }
    }

    /// Installs the result of a transform: the list replaces the
    /// selections and is put in order, and the last selection becomes the
    /// primary one. An empty list leaves the selections.
    pub fn install_selections(&mut self, selections: Vec<Selection>)
        requires
            old(self)@.wf(),
        ensures
            final(self)@ == old(self)@.installed(selection_views(selections@)),
            final(self)@.wf(),
            selections@.len() > 0 ==> sorted_by_start(final(self)@.selections),
            selections@.len() > 0 ==> separated(final(self)@.selections),
            final(self).file() == old(self).file(),
    {
        let last = selections.len().saturating_sub(1);
        self.set_selections(selections);
        self.set_primary_selection(last);
    }

    /// Replaces the selections by a list that is not empty, and puts it in
    /// order. An empty list is refused: nothing changes.
    pub fn set_selections(&mut self, selections: Vec<Selection>)
        requires
            old(self)@.wf(),
        ensures
            final(self)@ == old(self)@.with_selections(selection_views(selections@)),
            final(self)@.wf(),
            selections@.len() > 0 ==> sorted_by_start(final(self)@.selections),
            selections@.len() > 0 ==> separated(final(self)@.selections),
            final(self).file() == old(self).file(),
    {
        if selections.is_empty() {
            return ;
        }
        self.selections = selections;
        self.cleanup_overlaps();
    }

    /// Applies each operation in turn to every selection, in the order of
    /// the list. An edit that one selection makes moves the selections behind
    /// it in the list. At the end the selections are put in order, and the
    /// edits of the whole call go into the history as one batch.
    pub fn apply_operations(&mut self, ops: &[Op])
        requires
            old(self)@.wf(),
        ensures
            final(self)@ == old(self)@.after_operations(op_views(ops@)),
            final(self)@.wf(),
            sorted_by_start(final(self)@.selections),
            separated(final(self)@.selections),
            final(self).file() == old(self).file(),
    {
        let ghost origin = self@;
        let ghost first = EditState {
            selections: origin.selections,
            text: origin.text,
            edits: Seq::empty(),
        };
        let ghost mut state = first;
        let ghost views = op_views(ops@);
        let mut k: usize = 0;
        assert(views.subrange(0, 0) =~= Seq::empty());
        while k < ops.len()
            invariant
                k <= ops.len(),
                origin.wf(),
                first == (EditState {
                    selections: origin.selections,
                    text: origin.text,
                    edits: Seq::empty(),
                }),
                views == op_views(ops@),
                state == first.operate_all(views.subrange(0, k as int)),
                self.file() == old(self).file(),
                self@ == (BufferView {
                    text: state.text,
                    selections: state.selections,
                    history: HistoryView {
                        pending: if state.edits.len() == 0 {
                            None
                        } else {
                            Some(state.edits)
                        },
                        ..origin.history
                    },
                    ..origin
                }),
            decreases ops.len() - k,
        {
            let op = ops[k];
            let ghost before = state;
            proof {
                lemma_operate_all(first, views.subrange(0, k as int), origin.text);
            }
            let mut i: usize = 0;
            while i < self.selections.len()
                invariant
                    i <= self.selections@.len(),
                    self.selections@.len() == before.selections.len(),
                    origin.wf(),
                    state == before.fan_out(op@, i as nat),
                    self.file() == old(self).file(),
                    self@ == (BufferView {
                        text: state.text,
                        selections: state.selections,
                        history: HistoryView {
                            pending: if state.edits.len() == 0 {
                                None
                            } else {
                                Some(state.edits)
                            },
                            ..origin.history
                        },
                        ..origin
                    }),
                decreases self.selections.len() - i,
            {
                let ghost selected = selection_views(self.selections@);
                let ghost count = self.selections@.len();
                let change = self.selections[i].apply_operation(&mut self.contents, op);
                assert(self.selections@.len() == count);
                assert(selection_views(self.selections@) =~= selected.update(
                    i as int,
                    selected[i as int].after_op(state.text, op@),
                ));
                adjust_selections(&mut self.selections, i + 1, &self.contents, change.as_ref());
                let ghost previous = state;
                proof {
                    state = state.operate(op@, i as int);
                    assert(rope_text(self.contents) == state.text);
                    assert(selection_views(self.selections@) =~= state.selections);
                }
                match change {
                    Some(change) => {
                        self.history.record(change);
                        assert(state.edits == previous.edits.push(change@));
                        assert(previous.edits.len() == 0 ==> previous.edits.push(change@)
                            =~= seq![change@]);
                        assert(self.history@.pending == Some(state.edits));
                    },
                    None => {
                        assert(state.edits == previous.edits);
                    },
                }
                i += 1;
            }
            proof {
                let done = views.subrange(0, k as int);
                let next = views.subrange(0, k + 1);
                assert(next.drop_last() =~= done);
                assert(next.last() == op@);
            }
            k += 1;
        }
        proof {
            assert(views.subrange(0, k as int) =~= views);
            lemma_operate_all(first, views, origin.text);
            lemma_history_with(origin.history, state.edits, origin.text, state.text);
            lemma_normalized(state.selections);
        }
        self.cleanup_overlaps();
        self.history.commit();
    }

    /// Puts the selections in order: sorted by start, those that overlap
    /// or touch merged, the primary index kept inside the list.
    pub fn cleanup_overlaps(&mut self)
        ensures
            final(self)@ == old(self)@.cleaned(),
            sorted_by_start(final(self)@.selections),
            separated(final(self)@.selections),
            final(self)@.selections.len() <= old(self)@.selections.len(),
            old(self)@.selections.len() > 0 ==> final(self)@.selections.len() > 0
                && final(self)@.primary < final(self)@.selections.len(),
            final(self).file() == old(self).file(),
    {
        merge_overlapping_selections(&mut self.selections);
        if self.primary_selection >= self.selections.len() {
            self.primary_selection = self.selections.len().saturating_sub(1);
        }
    }
}

/// The text of each selection, starting with the primary selection and
/// going round the list.
pub fn copy(buffer: &Buffer) -> (contents: Vec<String>)
    requires
        buffer@.wf(),
    ensures
        string_views(contents@) == buffer@.copied(),
{
    let len = buffer.selections.len();
    let mut contents: Vec<String> = Vec::with_capacity(len);
    let mut i: usize = 0;
    while i < len
        invariant
            i <= len,
            len == buffer.selections@.len(),
            buffer.primary_selection < len,
            contents@.len() == i,
            forall|k: int|
                0 <= k < i ==> (#[trigger] contents@[k])@ == buffer@.selections[rotated(
                    buffer@.primary,
                    k as nat,
                    len as nat,
                ) as int].covered(buffer@.text),
        decreases len - i,
    {
        let index = if i < len - buffer.primary_selection {
            buffer.primary_selection + i
        } else {
            i - (len - buffer.primary_selection)
        };
        let content = buffer.selections[index].slice(&buffer.contents);
        contents.push(content);
        i += 1;
    }
    assert(string_views(contents@) =~= buffer@.copied());
    contents
}

/// Inserts the pieces at the cursors of the selections, one piece each,
/// starting with the primary selection and going round the list. The edits
/// go into the history as one batch.
pub fn paste(buffer: &mut Buffer, contents: &[String])
    requires
        old(buffer)@.wf(),
    ensures
        final(buffer)@ == old(buffer)@.pasted(string_views(contents@)),
        final(buffer)@.wf(),
        sorted_by_start(final(buffer)@.selections),
        separated(final(buffer)@.selections),
        final(buffer).file() == old(buffer).file(),
{
    let ghost origin = buffer@;
    let ghost pieces = string_views(contents@);
    let ghost first = EditState {
        selections: origin.selections,
        text: origin.text,
        edits: Seq::empty(),
    };
    let ghost mut state = first;
    let len = buffer.selections.len();
    let count = if contents.len() <= len {
        contents.len()
    } else {
        len
    };
    let mut content_i: usize = 0;
    while content_i < count
        invariant
            content_i <= count,
            count <= len,
            count <= contents@.len(),
            len == buffer.selections@.len(),
            len == origin.selections.len(),
            pieces == string_views(contents@),
            origin.wf(),
            first == (EditState {
                selections: origin.selections,
                text: origin.text,
                edits: Seq::empty(),
            }),
            state == first.insert_pieces(pieces, origin.primary, content_i as nat),
            buffer.file() == old(buffer).file(),
            buffer@ == (BufferView {
                text: state.text,
                selections: state.selections,
                history: HistoryView {
                    pending: if state.edits.len() == 0 {
                        None
                    } else {
                        Some(state.edits)
                    },
                    ..origin.history
                },
                ..origin
            }),
        decreases count - content_i,
    {
        let selection_i = if content_i < len - buffer.primary_selection {
            buffer.primary_selection + content_i
        } else {
            content_i - (len - buffer.primary_selection)
        };
        let content = &contents[content_i];
        let ghost selected = selection_views(buffer.selections@);
        let op = Op::InsertStr(content.as_str());
        assert(op@ == OpView::InsertStr(pieces[content_i as int]));
        let change = buffer.selections[selection_i].apply_operation(&mut buffer.contents, op);
        assert(buffer.selections@.len() == len);
        assert(selection_views(buffer.selections@) =~= selected.update(
            selection_i as int,
            selected[selection_i as int].after_op(state.text, op@),
        ));
        adjust_selections(
            &mut buffer.selections,
            selection_i + 1,
            &buffer.contents,
            change.as_ref(),
        );
        let ghost previous = state;
        proof {
            state = state.operate(op@, selection_i as int);
            assert(rope_text(buffer.contents) == state.text);
            assert(selection_views(buffer.selections@) =~= state.selections);
        }
        match change {
            Some(change) => {
                buffer.history.record(change);
                assert(state.edits == previous.edits.push(change@));
                assert(previous.edits.len() == 0 ==> previous.edits.push(change@)
                    =~= seq![change@]);
                assert(buffer.history@.pending == Some(state.edits));
            },
            None => {
                assert(state.edits == previous.edits);
            },
        }
        content_i += 1;
    }
    proof {
        lemma_insert_pieces(first, pieces, origin.primary, count as nat, origin.text);
        lemma_history_with(origin.history, state.edits, origin.text, state.text);
        lemma_normalized(state.selections);
    }
    buffer.history.commit();
    buffer.cleanup_overlaps();
}

/// Takes back the latest batch of edits. With nothing to undo nothing
/// changes.
pub fn undo(buffer: &mut Buffer)
    requires
        old(buffer)@.wf(),
    ensures
        final(buffer)@ == old(buffer)@.undone(),
        final(buffer)@.wf(),
        final(buffer).file() == old(buffer).file(),
{
    proof {
        lemma_undone_wf(buffer@);
        if buffer@.history.undo.len() > 0 {
            lemma_agree_in_bounds(invert_all(buffer@.history.undo.last()), buffer@.text);
        }
    }
    let changes = match buffer.history.backward() {
        Some(changes) => changes,
        None => {
            return ;
        },
    };
    let selections = changes.apply(&mut buffer.contents);
    buffer.set_selections(selections);
}

/// Makes the latest undone batch of edits again. With nothing to redo
/// nothing changes.
pub fn redo(buffer: &mut Buffer)
    requires
        old(buffer)@.wf(),
    ensures
        final(buffer)@ == old(buffer)@.redone(),
        final(buffer)@.wf(),
        final(buffer).file() == old(buffer).file(),
{
    proof {
        lemma_redone_wf(buffer@);
        if buffer@.history.redo.len() > 0 {
            lemma_agree_in_bounds(invert_all(buffer@.history.redo.last()), buffer@.text);
        }
    }
    let changes = match buffer.history.forward() {
        Some(changes) => changes,
        None => {
            return ;
        },
    };
    let selections = changes.apply(&mut buffer.contents);
    buffer.set_selections(selections);
}

/// The edits of the pending batch of a history, none where no batch is
/// pending.
pub open spec fn pending_edits(history: HistoryView) -> Seq<Edit> {
    match history.pending {
        Some(edits) => edits,
        None => Seq::empty(),
    }
}

/// The history with the given edits as its pending batch, and no pending
/// batch where there are none.
pub open spec fn with_pending(history: HistoryView, edits: Seq<Edit>) -> HistoryView {
    HistoryView {
        pending: if edits.len() == 0 {
            None
        } else {
            Some(edits)
        },
        ..history
    }
}

/// Records a change, if there is one.
fn record_change(history: &mut History, change: Option<Change>)
    requires
        old(history)@ == with_pending(old(history)@, pending_edits(old(history)@)),
    ensures
        final(history)@ == with_pending(
            old(history)@,
            match edit_of_option(change) {
                Some(edit) => pending_edits(old(history)@).push(edit),
                None => pending_edits(old(history)@),
            },
        ),
{
    match change {
        Some(change) => {
            let ghost edits = pending_edits(history@);
            history.record(change);
            assert(edits.len() == 0 ==> edits.push(change@) =~= seq![change@]);
        },
        None => {},
    }
}

/// Replaces the selection at `index` of the list by a piece of text,
/// adjusts the selections behind it, and records the edits.
fn replace_one(
    contents: &mut Rope,
    history: &mut History,
    selections: &mut Vec<Selection>,
    index: usize,
    output: &str,
)
    requires
        index < old(selections)@.len(),
        old(history)@ == with_pending(old(history)@, pending_edits(old(history)@)),
    ensures
        final(selections)@.len() == old(selections)@.len(),
        (EditState {
            selections: selection_views(final(selections)@),
            text: rope_text(*final(contents)),
            edits: pending_edits(final(history)@),
        }) == (EditState {
            selections: selection_views(old(selections)@),
            text: rope_text(*old(contents)),
            edits: pending_edits(old(history)@),
        }).replace(output@, index as int),
        final(history)@ == with_pending(old(history)@, pending_edits(final(history)@)),
{
    let ghost selected = selection_views(selections@);
    let ghost text = rope_text(*contents);
    let len = selections.len();
    let removal = selections[index].apply_operation(contents, Op::RemoveAll);
    assert(selections@.len() == len);
    assert(selections@[index as int]@ == selected[index as int].after_op(text, OpView::RemoveAll));
    let ghost cut = rope_text(*contents);
    let addition = selections[index].apply_operation(contents, Op::InsertStr(output));
    assert(selections@.len() == len);
    assert(selection_views(selections@) =~= selected.update(
        index as int,
        selected[index as int].after_op(text, OpView::RemoveAll).after_op(
            cut,
            OpView::InsertStr(output@),
        ),
    ));
    adjust_selections(selections, index + 1, contents, removal.as_ref());
    adjust_selections(selections, index + 1, contents, addition.as_ref());
    record_change(history, removal);
    record_change(history, addition);
}

/// Replaces each of the given selections by the text that stands with it:
/// the selection removes what it covers and inserts the text at its cursor.
/// The edits go into the history as one batch, and the selections become
/// those of the buffer.
pub fn replace_selections(buffer: &mut Buffer, results: &Vec<(Selection, String)>)
    requires
        old(buffer)@.wf(),
    ensures
        final(buffer)@ == old(buffer)@.piped(result_selections(results@), result_texts(results@)),
        final(buffer)@.wf(),
        final(buffer).file() == old(buffer).file(),
{
    let ghost origin = buffer@;
    let ghost pieces = result_texts(results@);
    let mut selections: Vec<Selection> = Vec::with_capacity(results.len());
    let mut k: usize = 0;
    while k < results.len()
        invariant
            k <= results@.len(),
            selections@.len() == k,
            forall|j: int| 0 <= j < k ==> (#[trigger] selections@[j])@ == results@[j].0@,
        decreases results.len() - k,
    {
        selections.push(results[k].0);
        k += 1;
    }
    assert(selection_views(selections@) =~= result_selections(results@));
    let ghost first = EditState {
        selections: result_selections(results@),
        text: origin.text,
        edits: Seq::empty(),
    };
    let len = selections.len();
    let mut i: usize = 0;
    while i < len
        invariant
            i <= len,
            len == results@.len(),
            len == selections@.len(),
            pieces == result_texts(results@),
            origin.wf(),
            first == (EditState {
                selections: result_selections(results@),
                text: origin.text,
                edits: Seq::empty(),
            }),
            (EditState {
                selections: selection_views(selections@),
                text: rope_text(buffer.contents),
                edits: pending_edits(buffer.history@),
            }) == first.replace_first(pieces, i as nat),
            buffer.file() == old(buffer).file(),
            buffer@ == (BufferView {
                text: rope_text(buffer.contents),
                history: with_pending(origin.history, pending_edits(buffer.history@)),
                ..origin
            }),
        decreases len - i,
    {
        let output = &results[i].1;
        assert(pieces[i as int] == output@);
        replace_one(
            &mut buffer.contents,
            &mut buffer.history,
            &mut selections,
            i,
            output.as_str(),
        );
        i += 1;
    }
    proof {
        let state = first.replace_first(pieces, len as nat);
        lemma_replace_first(first, pieces, len as nat, origin.text);
        lemma_history_with(origin.history, state.edits, origin.text, state.text);
    }
    buffer.history.commit();
    buffer.set_selections(selections);
}

} // verus!
