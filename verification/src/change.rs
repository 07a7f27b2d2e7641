//! Single edits to the text and batches of them.

use crate::overlap::{
    adjust_selections, merge_overlapping_selections, normalized, selection_views,
};
use crate::selection::{Selection, SelectionView, Side};
use crate::text::{
    rope_insert, rope_len_chars, rope_remove, rope_text, rope_to_string, text_insert,
    text_remove,
};
use ropey::Rope;
use vstd::prelude::*;

verus! {

/// One edit to the text: a piece of text that was put in at a character
/// index, or taken out there.
#[derive(Debug, PartialEq)]
pub enum Change {
    Addition(usize, Rope),
    Removal(usize, Rope),
}

impl View for Change {
    type V = Edit;

    open spec fn view(&self) -> Edit {
        match *self {
            Change::Addition(at, content) => Edit::Addition(at as nat, rope_text(content)),
            Change::Removal(at, content) => Edit::Removal(at as nat, rope_text(content)),
        }
    }
}

/// The edit of a change that may be absent.
pub open spec fn edit_of_change(change: Option<&Change>) -> Option<Edit> {
    match change {
        Some(change) => Some(change@),
        None => None,
    }
}

/// The edit of a change that may be absent.
pub open spec fn edit_of_option(change: Option<Change>) -> Option<Edit> {
    match change {
        Some(change) => Some(change@),
        None => None,
    }
}

/// The text after an edit that may be absent.
pub open spec fn apply_edit(edit: Option<Edit>, text: Seq<char>) -> Seq<char> {
    match edit {
        Some(edit) => edit.apply(text),
        None => text,
    }
}

/// What a change is, as plain values: a piece of text that was put in at an
/// index, or taken out there.
pub enum Edit {
    Addition(nat, Seq<char>),
    Removal(nat, Seq<char>),
}

impl Edit {
    /// The index at which the edit takes place.
    pub open spec fn index(self) -> nat {
        match self {
            Edit::Addition(at, _) => at,
            Edit::Removal(at, _) => at,
        }
    }

    /// The text that the edit puts in or takes out.
    pub open spec fn content(self) -> Seq<char> {
        match self {
            Edit::Addition(_, content) => content,
            Edit::Removal(_, content) => content,
        }
    }

    /// The edit that takes this one back.
    pub open spec fn invert(self) -> Edit {
        match self {
            Edit::Addition(at, content) => Edit::Removal(at, content),
            Edit::Removal(at, content) => Edit::Addition(at, content),
        }
    }

    /// The edit stays inside `text`: an addition starts no later than the
    /// end, a removal ends no later than the end.
    pub open spec fn in_bounds(self, text: Seq<char>) -> bool {
        match self {
            Edit::Addition(at, _) => at <= text.len(),
            Edit::Removal(at, content) => at + content.len() <= text.len(),
        }
    }

    /// The edit stays inside `text`, and what a removal takes out is what
    /// the text holds there.
    pub open spec fn agrees_with(self, text: Seq<char>) -> bool {
        match self {
            Edit::Addition(at, _) => at <= text.len(),
            Edit::Removal(at, content) => at + content.len() <= text.len() && text.subrange(
                at as int,
                (at + content.len()) as int,
            ) == content,
        }
    }

    /// The text after the edit.
    pub open spec fn apply(self, text: Seq<char>) -> Seq<char> {
        match self {
            Edit::Addition(at, content) => text_insert(text, at, content),
            Edit::Removal(at, content) => text_remove(text, at, at + content.len()),
        }
    }
}

impl Edit {
    /// The selection that an edit leaves behind: an addition selects what
    /// it put in, a removal leaves a single position.
    pub open spec fn selection(self) -> SelectionView {
        match self {
            Edit::Addition(at, content) => SelectionView {
                start: at,
                end: if content.len() >= 1 {
                    (at + content.len() - 1) as nat
                } else {
                    at
                },
                side: Side::End,
                line_offset: None,
            },
            Edit::Removal(at, _) => SelectionView {
                start: at,
                end: at,
                side: Side::End,
                line_offset: None,
            },
        }
    }
}

impl Change {
    /// The change that takes this one back.
    pub fn invert(self) -> (inverse: Self)
        ensures
            inverse@ == self@.invert(),
    {
        match self {
            Change::Addition(index, content) => Change::Removal(index, content),
            Change::Removal(index, content) => Change::Addition(index, content),
        }
    }

    /// Makes the change to the text, and gives the selection that it
    /// leaves behind.
    pub fn apply(&self, contents: &mut Rope) -> (selection: Selection)
        requires
            self@.in_bounds(rope_text(*old(contents))),
        ensures
            rope_text(*final(contents)) == self@.apply(rope_text(*old(contents))),
            selection@ == self@.selection(),
    {
        match self {
            Change::Addition(begin, content) => {
                let text = rope_to_string(content);
                rope_insert(contents, *begin, text.as_str());
                let len = rope_len_chars(content);
                Selection::new_at_end(*begin, *begin + len.saturating_sub(1))
            },
            Change::Removal(begin, content) => {
                let max = rope_len_chars(contents);
                let len = rope_len_chars(content);
                assert(*begin + len <= max);
                rope_remove(contents, *begin, *begin + len);
                Selection::new_at_end(*begin, *begin)
            },
        }
    }
}

/// A batch of changes that is undone and redone as one step, in the order
/// in which the changes were made.
#[derive(Debug, PartialEq)]
pub struct Changes(Vec<Change>);

impl View for Changes {
    type V = Seq<Edit>;

    closed spec fn view(&self) -> Seq<Edit> {
        edits_of(self.0@)
    }
}

/// The edits of a list of changes.
pub open spec fn edits_of(changes: Seq<Change>) -> Seq<Edit> {
    changes.map_values(|change: Change| change@)
}

/// The batch that takes a batch back: the inverse of each edit, the last
/// one first.
pub open spec fn invert_all(edits: Seq<Edit>) -> Seq<Edit> {
    Seq::new(edits.len(), |i: int| edits[edits.len() - 1 - i].invert())
}

/// The text after all the edits of a batch, made in order.
pub open spec fn apply_all(edits: Seq<Edit>, text: Seq<char>) -> Seq<char>
    decreases edits.len(),
{
    if edits.len() == 0 {
        text
    } else {
        edits.last().apply(apply_all(edits.drop_last(), text))
    }
}

/// Each edit of the batch stays inside the text as the edits before it
/// have left it.
pub open spec fn all_in_bounds(edits: Seq<Edit>, text: Seq<char>) -> bool
    decreases edits.len(),
{
    edits.len() == 0 || (all_in_bounds(edits.drop_last(), text) && edits.last().in_bounds(
        apply_all(edits.drop_last(), text),
    ))
}

/// Each edit of the batch agrees with the text as the edits before it have
/// left it.
pub open spec fn all_agree(edits: Seq<Edit>, text: Seq<char>) -> bool
    decreases edits.len(),
{
    edits.len() == 0 || (all_agree(edits.drop_last(), text) && edits.last().agrees_with(
        apply_all(edits.drop_last(), text),
    ))
}

/// The selections that a batch leaves behind. Each edit adds the selection
/// at its own place; the selections of the edits before it are adjusted to
/// it, and the list is put in order again.
pub open spec fn selections_after(edits: Seq<Edit>, text: Seq<char>) -> Seq<SelectionView>
    decreases edits.len(),
{
    if edits.len() == 0 {
        Seq::empty()
    } else {
        let len = apply_all(edits, text).len();
        let edit = edits.last();
        normalized(
            selections_after(edits.drop_last(), text).map_values(
                |selection: SelectionView| selection.adjusted(len, Some(edit)),
            ).push(edit.selection()),
        )
    }
}

/// Taking an edit back restores the text: where an edit agrees with a
/// text, its inverse agrees with the edited text and turns it into the first
/// text again. The inverse of the inverse is the edit itself.
pub proof fn lemma_invert_restores(edit: Edit, text: Seq<char>)
    requires
        edit.agrees_with(text),
    ensures
        edit.in_bounds(text),
        edit.invert().agrees_with(edit.apply(text)),
        edit.invert().apply(edit.apply(text)) == text,
        edit.invert().invert() == edit,
{
    match edit {
        Edit::Addition(at, content) => {
            let edited = text_insert(text, at, content);
            assert(edited.subrange(at as int, (at + content.len()) as int) =~= content);
            assert(text_remove(edited, at, at + content.len()) =~= text);
        },
        Edit::Removal(at, content) => {
            let edited = text_remove(text, at, at + content.len());
            assert(text_insert(edited, at, content) =~= text);
        },
    }
}

/// A batch in two parts: the second part works on the text that the first
/// part has left.
pub proof fn lemma_apply_all_concat(first: Seq<Edit>, second: Seq<Edit>, text: Seq<char>)
    ensures
        apply_all(first + second, text) == apply_all(second, apply_all(first, text)),
        all_agree(first + second, text) == (all_agree(first, text) && all_agree(
            second,
            apply_all(first, text),
        )),
        all_in_bounds(first + second, text) == (all_in_bounds(first, text) && all_in_bounds(
            second,
            apply_all(first, text),
        )),
    decreases second.len(),
{
    if second.len() == 0 {
        assert(first + second =~= first);
    } else {
        lemma_apply_all_concat(first, second.drop_last(), text);
        assert((first + second).drop_last() =~= first + second.drop_last());
        assert((first + second).last() == second.last());
    }
}

/// A batch that agrees with a text stays inside it.
pub proof fn lemma_agree_in_bounds(edits: Seq<Edit>, text: Seq<char>)
    requires
        all_agree(edits, text),
    ensures
        all_in_bounds(edits, text),
    decreases edits.len(),
{
    if edits.len() > 0 {
        lemma_agree_in_bounds(edits.drop_last(), text);
    }
}

/// Taking a batch back restores the text: where a batch agrees with a
/// text, the inverse batch agrees with the edited text and turns it into the
/// first text again.
pub proof fn lemma_invert_all_restores(edits: Seq<Edit>, text: Seq<char>)
    requires
        all_agree(edits, text),
    ensures
        all_agree(invert_all(edits), apply_all(edits, text)),
        apply_all(invert_all(edits), apply_all(edits, text)) == text,
    decreases edits.len(),
{
    if edits.len() == 0 {
        assert(invert_all(edits) =~= Seq::empty());
    } else {
        let front = edits.drop_last();
        let last = edits.last();
        let middle = apply_all(front, text);
        let edited = last.apply(middle);
        lemma_invert_all_restores(front, text);
        lemma_invert_restores(last, middle);
        let head = seq![last.invert()];
        assert(invert_all(edits) =~= head + invert_all(front));
        lemma_apply_all_concat(head, invert_all(front), edited);
        assert(head.drop_last() =~= Seq::empty());
        assert(head.last() == last.invert());
        assert(apply_all(head.drop_last(), edited) == edited);
        assert(all_agree(head.drop_last(), edited));
        assert(apply_all(head, edited) == middle);
        assert(all_agree(head, edited));
    }
}

/// Inverting a batch twice gives the batch itself.
pub proof fn lemma_invert_all_twice(edits: Seq<Edit>)
    ensures
        invert_all(invert_all(edits)) == edits,
{
    assert forall|i: int| 0 <= i < edits.len() implies invert_all(invert_all(edits))[i]
        == edits[i] by {
        let back = edits.len() - 1 - i;
        assert(invert_all(edits)[back] == edits[edits.len() - 1 - back].invert());
        assert(edits[i].invert().invert() == edits[i]);
    }
    assert(invert_all(invert_all(edits)) =~= edits);
}

/// The first edits of a batch that stays inside the text stay inside it.
pub proof fn lemma_prefix_in_bounds(edits: Seq<Edit>, text: Seq<char>, count: int)
    requires
        all_in_bounds(edits, text),
        0 <= count <= edits.len(),
    ensures
        all_in_bounds(edits.subrange(0, count), text),
    decreases edits.len(),
{
    if count == edits.len() {
        assert(edits.subrange(0, count) =~= edits);
    } else {
        lemma_prefix_in_bounds(edits.drop_last(), text, count);
        assert(edits.drop_last().subrange(0, count) =~= edits.subrange(0, count));
    }
}

impl Changes {
    /// The batch that takes this one back.
    pub fn invert(self) -> (inverse: Self)
        ensures
            inverse@ == invert_all(self@),
    {
        let ghost edits = self@;
        let mut source = self.0;
        let mut changes: Vec<Change> = Vec::with_capacity(source.len());
        while source.len() > 0
            invariant
                source@.len() + changes@.len() == edits.len(),
                edits_of(source@) == edits.subrange(0, source@.len() as int),
                edits_of(changes@) == invert_all(edits).subrange(0, changes@.len() as int),
            decreases source.len(),
        {
            let ghost before = source@;
            let ghost done = changes@;
            let change = source.pop().unwrap();
            assert(edits_of(before)[before.len() - 1] == change@);
            changes.push(change.invert());
            assert(edits_of(source@) =~= edits.subrange(0, source@.len() as int));
            assert(edits_of(changes@) =~= edits_of(done).push(change@.invert()));
            assert(edits_of(changes@) =~= invert_all(edits).subrange(0, changes@.len() as int));
        }
        assert(edits_of(changes@) =~= invert_all(edits));
        Self(changes)
    }

    /// Makes the changes of the batch to the text, in order, and gives the
    /// selections that they leave behind.
    pub fn apply(&self, contents: &mut Rope) -> (selections: Vec<Selection>)
        requires
            all_in_bounds(self@, rope_text(*old(contents))),
        ensures
            rope_text(*final(contents)) == apply_all(self@, rope_text(*old(contents))),
            selection_views(selections@) == selections_after(self@, rope_text(*old(contents))),
    {
        let ghost text = rope_text(*contents);
        let mut selections: Vec<Selection> = Vec::new();
        let mut i: usize = 0;
        assert(self@.subrange(0, 0) =~= Seq::empty());
        assert(selection_views(selections@) =~= Seq::empty());
        while i < self.0.len()
            invariant
                i <= self.0@.len(),
                self@.len() == self.0@.len(),
                all_in_bounds(self@, text),
                rope_text(*contents) == apply_all(self@.subrange(0, i as int), text),
                selection_views(selections@) == selections_after(
                    self@.subrange(0, i as int),
                    text,
                ),
            decreases self.0.len() - i,
        {
            let change = &self.0[i];
            let ghost done = self@.subrange(0, i as int);
            let ghost next = self@.subrange(0, i + 1);
            proof {
                lemma_prefix_in_bounds(self@, text, i + 1);
                assert(next.drop_last() =~= done);
                assert(next.last() == change@);
            }
            let selection = change.apply(contents);
            let ghost before = selection_views(selections@);
            adjust_selections(&mut selections, 0, contents, Some(change));
            let ghost adjusted = selection_views(selections@);
            selections.push(selection);
            proof {
                let len = rope_text(*contents).len();
                assert(adjusted =~= before.map_values(
                    |selection: SelectionView| selection.adjusted(len, Some(change@)),
                ));
                assert(selection_views(selections@) =~= adjusted.push(selection@));
            }
            merge_overlapping_selections(&mut selections);
            i += 1;
        }
        assert(self@.subrange(0, i as int) =~= self@);
        selections
    }

    /// Adds a change to the end of the batch, and hands it back.
    pub fn push(&mut self, change: Change) -> (last: &Change)
        ensures
            final(self)@ == old(self)@.push(change@),
            last@ == change@,
    {
        let ghost before = self.0@;
        self.0.push(change);
        assert(edits_of(self.0@) =~= edits_of(before).push(change@));
        &self.0[self.0.len() - 1]
    }
}

impl Default for Changes {
    fn default() -> (changes: Self)
        ensures
            changes@ == Seq::<Edit>::empty(),
    {
        let changes = Self(Vec::new());
        assert(edits_of(changes.0@) =~= Seq::empty());
        changes
    }
}

} // verus!
