//! The history of a document: the batch of changes that is being
//! recorded, the batches that can be undone, and those that can be redone.

use crate::change::{invert_all, Change, Changes, Edit};
use vstd::prelude::*;

verus! {

/// The batches of a document's history.
pub struct History {
    pending: Option<Changes>,
    prev: Vec<Changes>,
    next: Vec<Changes>,
}

/// A history as plain values.
pub struct HistoryView {
    /// The batch that is being recorded, if any change was recorded since
    /// the last commit.
    pub pending: Option<Seq<Edit>>,
    /// The batches that can be undone, the latest one last.
    pub undo: Seq<Seq<Edit>>,
    /// The batches that were undone, each inverted, the latest one last.
    pub redo: Seq<Seq<Edit>>,
}

/// The batches of a list as plain values.
pub open spec fn batch_views(batches: Seq<Changes>) -> Seq<Seq<Edit>> {
    batches.map_values(|batch: Changes| batch@)
}

impl HistoryView {
    /// The history of a document to which nothing was done yet.
    pub open spec fn empty() -> HistoryView {
        HistoryView { pending: None, undo: Seq::empty(), redo: Seq::empty() }
    }

    /// The history after a change was recorded: the change is the last one
    /// of the pending batch.
    pub open spec fn recorded(self, edit: Edit) -> HistoryView {
        HistoryView {
            pending: Some(
                match self.pending {
                    Some(pending) => pending.push(edit),
                    None => seq![edit],
                },
            ),
            ..self
        }
    }

    /// The history after a commit: the pending batch, if there is one, has
    /// become the latest batch that can be undone, and nothing can be redone.
    /// Without a pending batch nothing changes.
    pub open spec fn committed(self) -> HistoryView {
        match self.pending {
            Some(pending) => HistoryView {
                pending: None,
                undo: self.undo.push(pending),
                redo: Seq::empty(),
            },
            None => self,
        }
    }

    /// The history after a step back: the latest batch that could be
    /// undone has gone, inverted, to the batches that can be redone.
    pub open spec fn stepped_back(self) -> HistoryView {
        let committed = self.committed();
        if committed.undo.len() == 0 {
            committed
        } else {
            HistoryView {
                pending: None,
                undo: committed.undo.drop_last(),
                redo: committed.redo.push(invert_all(committed.undo.last())),
            }
        }
    }

    /// The history after a step forward: the latest batch that could be
    /// redone has gone, inverted, to the batches that can be undone.
    pub open spec fn stepped_forward(self) -> HistoryView {
        let committed = self.committed();
        if committed.redo.len() == 0 {
            committed
        } else {
            HistoryView {
                pending: None,
                undo: committed.undo.push(invert_all(committed.redo.last())),
                redo: committed.redo.drop_last(),
            }
        }
    }
}

impl View for History {
    type V = HistoryView;

    closed spec fn view(&self) -> HistoryView {
        HistoryView {
            pending: match self.pending {
                Some(pending) => Some(pending@),
                None => None,
            },
            undo: batch_views(self.prev@),
            redo: batch_views(self.next@),
        }
    }
}

impl Default for History {
    fn default() -> (history: Self)
        ensures
            history@ == HistoryView::empty(),
    {
        let history = Self { pending: None, prev: Vec::new(), next: Vec::new() };
        assert(batch_views(history.prev@) =~= Seq::empty());
        assert(batch_views(history.next@) =~= Seq::empty());
        history
    }
}

impl History {
    /// Adds a change to the pending batch, which it starts if there is
    /// none, and hands the change back.
    pub fn record(&mut self, change: Change) -> (recorded: &Change)
        ensures
            final(self)@ == old(self)@.recorded(change@),
            recorded@ == change@,
    {
        let pending = self.pending.get_or_insert(Changes::default());
        pending.push(change)
    }

    /// Closes the pending batch: it becomes the latest batch that can be
    /// undone, and what could be redone is forgotten.
    pub fn commit(&mut self)
        ensures
            final(self)@ == old(self)@.committed(),
    {
        let ghost before = batch_views(self.prev@);
        match self.pending.take() {
            Some(pending) => {
                self.prev.push(pending);
                self.next.clear();
                assert(batch_views(self.prev@) =~= before.push(pending@));
                assert(batch_views(self.next@) =~= Seq::empty());
            },
            None => {},
        }
    }

    /// Steps back: commits what is pending, then gives the batch that takes
    /// the latest batch back, for the caller to apply to the text. Gives
    /// nothing when there is nothing to undo.
    pub fn backward(&mut self) -> (batch: Option<&Changes>)
        ensures
            final(self)@ == old(self)@.stepped_back(),
            batch.is_some() == (old(self)@.committed().undo.len() > 0),
            batch matches Some(changes) ==> changes@ == invert_all(
                old(self)@.committed().undo.last(),
            ),
    {
        self.commit();
        let ghost undo = batch_views(self.prev@);
        let ghost redo = batch_views(self.next@);
        let change = match self.prev.pop() {
            Some(change) => change,
            None => {
                return None;
            },
        };
        assert(undo.last() == change@);
        self.next.push(change.invert());
        assert(batch_views(self.prev@) =~= undo.drop_last());
        assert(batch_views(self.next@) =~= redo.push(invert_all(change@)));
        Some(&self.next[self.next.len() - 1])
    }

    /// Steps forward: commits what is pending, then gives the batch that
    /// makes the latest undone batch again, for the caller to apply to the
    /// text. Gives nothing when there is nothing to redo.
    pub fn forward(&mut self) -> (batch: Option<&Changes>)
        ensures
            final(self)@ == old(self)@.stepped_forward(),
            batch.is_some() == (old(self)@.committed().redo.len() > 0),
            batch matches Some(changes) ==> changes@ == invert_all(
                old(self)@.committed().redo.last(),
            ),
    {
        self.commit();
        let ghost undo = batch_views(self.prev@);
        let ghost redo = batch_views(self.next@);
        let change = match self.next.pop() {
            Some(change) => change,
            None => {
                return None;
            },
        };
        assert(redo.last() == change@);
        self.prev.push(change.invert());
        assert(batch_views(self.next@) =~= redo.drop_last());
        assert(batch_views(self.prev@) =~= undo.push(invert_all(change@)));
        Some(&self.prev[self.prev.len() - 1])
    }
}

} // verus!
