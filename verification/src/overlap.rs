//! Keeping a list of selections in order: sorted by their start, with
//! selections that overlap or touch merged into one.

use crate::change::{edit_of_change, Change, Edit};
use crate::selection::{Selection, SelectionView};
use crate::text::rope_text;
use ropey::Rope;
use vstd::prelude::*;

verus! {

/// The selections of a list as plain values.
pub open spec fn selection_views(selections: Seq<Selection>) -> Seq<SelectionView> {
    selections.map_values(|selection: Selection| selection@)
}

/// No selection starts before one that stands earlier in the list.
pub open spec fn sorted_by_start(selections: Seq<SelectionView>) -> bool {
    forall|i: int, j: int|
        0 <= i <= j < selections.len() ==> selections[i].start <= selections[j].start
}

/// Each selection ends before the next one starts, so no two overlap or
/// touch.
pub open spec fn separated(selections: Seq<SelectionView>) -> bool {
    forall|i: int|
        0 <= i < selections.len() - 1 ==> selections[i].end < (#[trigger] selections[i
            + 1]).start
}

/// A sorted list with one more selection, which goes behind every
/// selection that starts no later than it does.
pub open spec fn insert_by_start(sorted: Seq<SelectionView>, selection: SelectionView) -> Seq<
    SelectionView,
>
    decreases sorted.len(),
{
    if sorted.len() == 0 {
        seq![selection]
    } else if sorted.last().start <= selection.start {
        sorted.push(selection)
    } else {
        insert_by_start(sorted.drop_last(), selection).push(sorted.last())
    }
}

/// The list sorted by start. Selections with the same start keep their order.
pub open spec fn sort_by_start(selections: Seq<SelectionView>) -> Seq<SelectionView>
    decreases selections.len(),
{
    if selections.len() == 0 {
        Seq::empty()
    } else {
        insert_by_start(sort_by_start(selections.drop_last()), selections.last())
    }
}

/// One pass over a sorted list that begins with `current`: each selection
/// is merged into the one before it if the two overlap or touch.
pub open spec fn merge_run(current: SelectionView, rest: Seq<SelectionView>) -> Seq<
    SelectionView,
>
    decreases rest.len(),
{
    if rest.len() == 0 {
        seq![current]
    } else {
        match current.merged(rest[0]) {
            Some(merged) => merge_run(merged, rest.drop_first()),
            None => seq![current] + merge_run(rest[0], rest.drop_first()),
        }
    }
}

/// A sorted list with its overlapping and touching selections merged.
pub open spec fn merge_sorted(sorted: Seq<SelectionView>) -> Seq<SelectionView> {
    if sorted.len() == 0 {
        Seq::empty()
    } else {
        merge_run(sorted[0], sorted.drop_first())
    }
}

/// The list in order: sorted by start, then merged.
pub open spec fn normalized(selections: Seq<SelectionView>) -> Seq<SelectionView> {
    merge_sorted(sort_by_start(selections))
}

/// The position lies in one of the selections.
pub open spec fn in_span(spans: Seq<SelectionView>, position: nat) -> bool {
    exists|k: int| 0 <= k < spans.len() && (#[trigger] spans[k]).start <= position <= spans[k].end
}

/// The start of each selection is not behind its end.
pub open spec fn all_wf(selections: Seq<SelectionView>) -> bool {
    forall|i: int| 0 <= i < selections.len() ==> (#[trigger] selections[i]).wf()
}

/// Where a selection goes into a sorted list: in front of the selections
/// that start later, behind the others.
proof fn lemma_insert_position(sorted: Seq<SelectionView>, selection: SelectionView, at: int)
    requires
        0 <= at <= sorted.len(),
        forall|k: int| at <= k < sorted.len() ==> sorted[k].start > selection.start,
        at > 0 ==> sorted[at - 1].start <= selection.start,
    ensures
        insert_by_start(sorted, selection) == sorted.insert(at, selection),
    decreases sorted.len(),
{
    if sorted.len() == 0 {
        assert(seq![selection] =~= sorted.insert(at, selection));
    } else if at == sorted.len() {
        assert(sorted.push(selection) =~= sorted.insert(at, selection));
    } else {
        lemma_insert_position(sorted.drop_last(), selection, at);
        assert(sorted.drop_last().insert(at, selection).push(sorted.last()) =~= sorted.insert(
            at,
            selection,
        ));
    }
}

/// Putting a selection into a sorted list leaves it sorted, one longer, and
/// holding what it held and the new selection.
pub proof fn lemma_insert_by_start(sorted: Seq<SelectionView>, selection: SelectionView)
    requires
        sorted_by_start(sorted),
    ensures
        sorted_by_start(insert_by_start(sorted, selection)),
        insert_by_start(sorted, selection).len() == sorted.len() + 1,
        insert_by_start(sorted, selection).to_multiset() == sorted.to_multiset().insert(
            selection,
        ),
    decreases sorted.len(),
{
    broadcast use vstd::seq_lib::group_to_multiset_ensures;

    let result = insert_by_start(sorted, selection);
    if sorted.len() == 0 {
        assert(sorted =~= Seq::empty());
        assert(result =~= Seq::<SelectionView>::empty().push(selection));
    } else if sorted.last().start <= selection.start {
    } else {
        let front = sorted.drop_last();
        lemma_insert_by_start(front, selection);
        let inner = insert_by_start(front, selection);
        assert(sorted =~= front.push(sorted.last()));
        assert forall|k: int| 0 <= k < inner.len() implies inner[k].start
            <= sorted.last().start by {
            assert(inner.to_multiset().count(inner[k]) > 0);
            if inner[k] != selection {
                assert(front.to_multiset().count(inner[k]) > 0);
                let at = choose|at: int| 0 <= at < front.len() && front[at] == inner[k];
                assert(front[at] == sorted[at]);
            }
        }
        assert(result.to_multiset() =~= sorted.to_multiset().insert(selection));
    }
}

/// Sorting gives a sorted list of the same selections.
pub proof fn lemma_sort_by_start(selections: Seq<SelectionView>)
    ensures
        sorted_by_start(sort_by_start(selections)),
        sort_by_start(selections).len() == selections.len(),
        sort_by_start(selections).to_multiset() == selections.to_multiset(),
    decreases selections.len(),
{
    broadcast use vstd::seq_lib::group_to_multiset_ensures;

    if selections.len() == 0 {
        assert(selections =~= Seq::empty());
    } else {
        let front = selections.drop_last();
        lemma_sort_by_start(front);
        lemma_insert_by_start(sort_by_start(front), selections.last());
        assert(selections =~= front.push(selections.last()));
    }
}

/// One merging pass over a sorted list gives a list that begins where
/// `current` begins, is sorted, and in which each selection ends before the
/// next one starts.
pub proof fn lemma_merge_run(current: SelectionView, rest: Seq<SelectionView>)
    requires
        sorted_by_start(rest),
        forall|k: int| 0 <= k < rest.len() ==> current.start <= rest[k].start,
    ensures
        1 <= merge_run(current, rest).len() <= rest.len() + 1,
        merge_run(current, rest)[0].start == current.start,
        sorted_by_start(merge_run(current, rest)),
        separated(merge_run(current, rest)),
    decreases rest.len(),
{
    if rest.len() > 0 {
        let tail = rest.drop_first();
        assert forall|i: int, j: int| 0 <= i <= j < tail.len() implies tail[i].start
            <= tail[j].start by {
            assert(tail[i] == rest[i + 1] && tail[j] == rest[j + 1]);
        }
        match current.merged(rest[0]) {
            Some(merged) => {
                assert forall|k: int| 0 <= k < tail.len() implies merged.start
                    <= tail[k].start by {
                    assert(tail[k] == rest[k + 1]);
                }
                lemma_merge_run(merged, tail);
            },
            None => {
                assert forall|k: int| 0 <= k < tail.len() implies rest[0].start
                    <= tail[k].start by {
                    assert(tail[k] == rest[k + 1]);
                }
                lemma_merge_run(rest[0], tail);
                let inner = merge_run(rest[0], tail);
                let result = seq![current] + inner;
                assert forall|i: int, j: int| 0 <= i <= j < result.len() implies result[i].start
                    <= result[j].start by {
                    if i > 0 {
                        assert(result[i] == inner[i - 1] && result[j] == inner[j - 1]);
                    } else if j > 0 {
                        assert(result[j] == inner[j - 1]);
                        assert(inner[0].start <= inner[j - 1].start);
                    }
                }
                assert forall|i: int| 0 <= i < result.len() - 1 implies result[i].end < (
                #[trigger] result[i + 1]).start by {
                    if i > 0 {
                        assert(result[i] == inner[i - 1]);
                        assert(result[i + 1] == inner[i - 1 + 1]);
                    } else {
                        assert(result[1] == inner[0]);
                    }
                }
            },
        }
    }
}

/// A list put in order is sorted by start, and no two of its selections
/// overlap or touch. It is empty only if the list was.
pub proof fn lemma_normalized(selections: Seq<SelectionView>)
    ensures
        sorted_by_start(normalized(selections)),
        separated(normalized(selections)),
        normalized(selections).len() <= selections.len(),
        selections.len() > 0 ==> normalized(selections).len() > 0,
{
    lemma_sort_by_start(selections);
    let sorted = sort_by_start(selections);
    if sorted.len() > 0 {
        let tail = sorted.drop_first();
        assert forall|i: int, j: int| 0 <= i <= j < tail.len() implies tail[i].start
            <= tail[j].start by {
            assert(tail[i] == sorted[i + 1] && tail[j] == sorted[j + 1]);
        }
        assert forall|k: int| 0 <= k < tail.len() implies sorted[0].start <= tail[k].start by {
            assert(tail[k] == sorted[k + 1]);
        }
        lemma_merge_run(sorted[0], tail);
    }
}

/// A position lies in a list of selections if it lies in the first one or
/// in one of the others.
pub proof fn lemma_in_span_first(first: SelectionView, rest: Seq<SelectionView>, position: nat)
    ensures
        in_span(seq![first] + rest, position) == (first.start <= position <= first.end
            || in_span(rest, position)),
{
    let all = seq![first] + rest;
    if in_span(all, position) {
        let k = choose|k: int|
            0 <= k < all.len() && (#[trigger] all[k]).start <= position <= all[k].end;
        if k > 0 {
            assert(rest[k - 1] == all[k]);
        }
    }
    if in_span(rest, position) {
        let k = choose|k: int|
            0 <= k < rest.len() && (#[trigger] rest[k]).start <= position <= rest[k].end;
        assert(all[k + 1] == rest[k]);
    }
    if first.start <= position <= first.end {
        assert(all[0] == first);
    }
}

/// A merged selection covers what the two selections cover, and nothing
/// else.
pub proof fn lemma_merged_covers(first: SelectionView, second: SelectionView, position: nat)
    requires
        first.wf(),
        second.wf(),
        first.merged(second).is_some(),
    ensures
        first.merged(second).unwrap().wf(),
        (first.merged(second).unwrap().start <= position <= first.merged(second).unwrap().end)
            == (first.start <= position <= first.end || second.start <= position <= second.end),
{
}

/// One merging pass covers what the list covers, and nothing else.
pub proof fn lemma_merge_run_covers(
    current: SelectionView,
    rest: Seq<SelectionView>,
    position: nat,
)
    requires
        current.wf(),
        all_wf(rest),
    ensures
        all_wf(merge_run(current, rest)),
        in_span(merge_run(current, rest), position) == (current.start <= position <= current.end
            || in_span(rest, position)),
    decreases rest.len(),
{
    if rest.len() == 0 {
        assert(merge_run(current, rest)[0] == current);
    } else {
        let tail = rest.drop_first();
        assert forall|i: int| 0 <= i < tail.len() implies (#[trigger] tail[i]).wf() by {
            assert(tail[i] == rest[i + 1]);
        }
        assert(rest =~= seq![rest[0]] + tail);
        lemma_in_span_first(rest[0], tail, position);
        match current.merged(rest[0]) {
            Some(merged) => {
                lemma_merged_covers(current, rest[0], position);
                lemma_merge_run_covers(merged, tail, position);
            },
            None => {
                lemma_merge_run_covers(rest[0], tail, position);
                let inner = merge_run(rest[0], tail);
                let result = seq![current] + inner;
                lemma_in_span_first(current, inner, position);
                assert forall|i: int| 0 <= i < result.len() implies (#[trigger] result[i]).wf() by {
                    if i > 0 {
                        assert(result[i] == inner[i - 1]);
                    }
                }
            },
        }
    }
}

/// Sorting keeps what the list covers.
pub proof fn lemma_sort_covers(selections: Seq<SelectionView>, position: nat)
    requires
        all_wf(selections),
    ensures
        all_wf(sort_by_start(selections)),
        in_span(sort_by_start(selections), position) == in_span(selections, position),
{
    broadcast use vstd::seq_lib::group_to_multiset_ensures;

    lemma_sort_by_start(selections);
    let sorted = sort_by_start(selections);
    assert forall|i: int| 0 <= i < sorted.len() implies (#[trigger] sorted[i]).wf() by {
        assert(sorted.contains(sorted[i]));
        assert(selections.to_multiset().count(sorted[i]) > 0);
        assert(selections.contains(sorted[i]));
        let k = choose|k: int| 0 <= k < selections.len() && selections[k] == sorted[i];
        assert(selections[k].wf());
    }
    if in_span(selections, position) {
        let k = choose|k: int|
            0 <= k < selections.len() && (#[trigger] selections[k]).start <= position
                <= selections[k].end;
        assert(selections.contains(selections[k]));
        assert(sorted.to_multiset().count(selections[k]) > 0);
        assert(sorted.contains(selections[k]));
        let j = choose|j: int| 0 <= j < sorted.len() && sorted[j] == selections[k];
        assert(sorted[j].start <= position <= sorted[j].end);
    }
    if in_span(sorted, position) {
        let j = choose|j: int|
            0 <= j < sorted.len() && (#[trigger] sorted[j]).start <= position <= sorted[j].end;
        assert(sorted.contains(sorted[j]));
        assert(selections.to_multiset().count(sorted[j]) > 0);
        assert(selections.contains(sorted[j]));
        let k = choose|k: int| 0 <= k < selections.len() && selections[k] == sorted[j];
        assert(selections[k].start <= position <= selections[k].end);
    }
}

/// Putting a list in order loses nothing and adds nothing: where each
/// selection starts no later than it ends, a position lies in a selection
/// of the ordered list if and only if it lies in one of the list.
pub proof fn lemma_normalized_covers(selections: Seq<SelectionView>, position: nat)
    requires
        all_wf(selections),
    ensures
        all_wf(normalized(selections)),
        in_span(normalized(selections), position) == in_span(selections, position),
{
    lemma_sort_covers(selections, position);
    let sorted = sort_by_start(selections);
    if sorted.len() > 0 {
        let tail = sorted.drop_first();
        assert forall|i: int| 0 <= i < tail.len() implies (#[trigger] tail[i]).wf() by {
            assert(tail[i] == sorted[i + 1]);
        }
        assert(sorted =~= seq![sorted[0]] + tail);
        lemma_in_span_first(sorted[0], tail, position);
        lemma_merge_run_covers(sorted[0], tail, position);
    }
}

/// Sorts the list by start. Selections with the same start keep their order.
fn sort_selections(selections: &mut Vec<Selection>)
    ensures
        selection_views(final(selections)@) == sort_by_start(selection_views(old(selections)@)),
{
    let mut sorted: Vec<Selection> = Vec::new();
    let mut i: usize = 0;
    assert(selection_views(selections@.subrange(0, 0)) =~= Seq::empty());
    while i < selections.len()
        invariant
            i <= selections.len(),
            selection_views(sorted@) == sort_by_start(
                selection_views(selections@.subrange(0, i as int)),
            ),
        decreases selections.len() - i,
    {
        let selection = selections[i];
        let mut at: usize = sorted.len();
        while at > 0 && sorted[at - 1].start() > selection.start()
            invariant
                at <= sorted.len(),
                forall|k: int| at <= k < sorted.len() ==> sorted[k]@.start > selection@.start,
            decreases at,
        {
            at -= 1;
        }
        proof {
            let before = selection_views(selections@.subrange(0, i as int));
            let after = selection_views(selections@.subrange(0, i + 1));
            assert(after.drop_last() =~= before);
            assert(after.last() == selection@);
            lemma_insert_position(selection_views(sorted@), selection@, at as int);
            assert(selection_views(sorted@.insert(at as int, selection)) =~= selection_views(
                sorted@,
            ).insert(at as int, selection@));
        }
        sorted.insert(at, selection);
        i += 1;
    }
    assert(selections@.subrange(0, i as int) =~= selections@);
    *selections = sorted;
}

/// Puts the list in order: sorts it by start and merges the selections
/// that overlap or touch. Afterwards each selection ends before the next one
/// starts.
pub fn merge_overlapping_selections(selections: &mut Vec<Selection>)
    ensures
        selection_views(final(selections)@) == normalized(selection_views(old(selections)@)),
        sorted_by_start(selection_views(final(selections)@)),
        separated(selection_views(final(selections)@)),
        final(selections)@.len() <= old(selections)@.len(),
        old(selections)@.len() > 0 ==> final(selections)@.len() > 0,
{
    proof {
        lemma_normalized(selection_views(selections@));
    }
    sort_selections(selections);
    if selections.len() == 0 {
        return ;
    }
    let ghost sorted = selection_views(selections@);
    let mut merged: Vec<Selection> = Vec::new();
    let mut current = selections[0];
    let mut i: usize = 1;
    assert(selection_views(selections@.subrange(1, selections@.len() as int))
        =~= sorted.drop_first());
    assert(selection_views(merged@) =~= Seq::empty());
    while i < selections.len()
        invariant
            1 <= i <= selections.len(),
            sorted == selection_views(selections@),
            selection_views(merged@) + merge_run(
                current@,
                selection_views(selections@.subrange(i as int, selections@.len() as int)),
            ) == merge_sorted(sorted),
        decreases selections.len() - i,
    {
        let next = selections[i];
        proof {
            let rest = selection_views(selections@.subrange(i as int, selections@.len() as int));
            let tail = selection_views(selections@.subrange(i + 1, selections@.len() as int));
            assert(rest[0] == next@);
            assert(rest.drop_first() =~= tail);
        }
        let ghost before = selection_views(merged@);
        match current.try_merge(&next) {
            Some(merged_value) => {
                current = merged_value;
            },
            None => {
                merged.push(current);
                assert(selection_views(merged@) =~= before + seq![current@]);
                current = next;
            },
        }
        i += 1;
    }
    let ghost before = selection_views(merged@);
    merged.push(current);
    proof {
        assert(selection_views(selections@.subrange(i as int, selections@.len() as int))
            =~= Seq::empty());
        assert(selection_views(merged@) =~= before + seq![current@]);
    }
    *selections = merged;
}

/// The list with each selection from index `from` on adjusted to an edit
/// of the text, in a text of `len` characters.
pub open spec fn adjusted_from(
    selections: Seq<SelectionView>,
    from: int,
    len: nat,
    edit: Option<Edit>,
) -> Seq<SelectionView> {
    Seq::new(
        selections.len(),
        |i: int|
            if i >= from {
                selections[i].adjusted(len, edit)
            } else {
                selections[i]
            },
    )
}

/// Adjusts each selection from index `from` on to an edit of the text.
pub fn adjust_selections(
    selections: &mut Vec<Selection>,
    from: usize,
    contents: &Rope,
    change: Option<&Change>,
)
    ensures
        final(selections)@.len() == old(selections)@.len(),
        selection_views(final(selections)@) == adjusted_from(
            selection_views(old(selections)@),
            from as int,
            rope_text(*contents).len(),
            edit_of_change(change),
        ),
{
    let ghost before = selection_views(selections@);
    let ghost len = rope_text(*contents).len();
    let mut j: usize = from;
    while j < selections.len()
        invariant
            from <= j,
            len == rope_text(*contents).len(),
            selections@.len() == before.len(),
            forall|k: int|
                0 <= k < before.len() ==> (#[trigger] selections@[k])@ == (if from <= k < j {
                    before[k].adjusted(len, edit_of_change(change))
                } else {
                    before[k]
                }),
        decreases selections.len() - j,
    {
        selections[j].adjust(contents, change);
        j += 1;
    }
    assert(selection_views(selections@) =~= adjusted_from(
        before,
        from as int,
        len,
        edit_of_change(change),
    ));
}

} // verus!
