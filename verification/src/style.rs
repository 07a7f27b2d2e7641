//! How a character of the text is drawn: whether it lies in a selection,
//! and in which colors it is shown.

use crate::color::{Color, Theme};
use crate::selection::{Selection, SelectionView};
use vstd::prelude::*;

verus! {

/// What the drawing of a character depends on: whether the character lies
/// in the selection at hand, whether that selection is the primary one, and
/// whether the cursor of the selection is on the character. Without a
/// selection at hand none of the three holds. A selection is taken for the
/// primary one where it starts where the primary one starts.
pub open spec fn properties_of(
    index: nat,
    current: Option<SelectionView>,
    primary: Option<SelectionView>,
) -> (bool, bool, bool) {
    match current {
        Some(selection) => (
            selection.start <= index <= selection.end,
            match primary {
                Some(primary) => selection.start == primary.start,
                None => false,
            },
            index == selection.cursor(),
        ),
        None => (false, false, false),
    }
}

/// The background and the text color of a character. Outside a selection
/// the text stands on the background. In the primary selection the colors are
/// turned round, and the cursor stands on the accent color. In another
/// selection the cursor has the colors turned round, and the rest stands on
/// the middle of the ramp.
pub open spec fn style_of(theme: Theme, is_selection: bool, is_primary: bool, is_cursor: bool) -> (
    Color,
    Color,
) {
    if !is_selection {
        (theme.ramp_0_color, theme.ramp_2_color)
    } else if is_primary {
        if is_cursor {
            (theme.accent_color, theme.ramp_0_color)
        } else {
            (theme.ramp_2_color, theme.ramp_0_color)
        }
    } else if is_cursor {
        (theme.ramp_2_color, theme.ramp_0_color)
    } else {
        (theme.ramp_1_color, theme.ramp_2_color)
    }
}

/// The view of a selection that may be absent.
pub open spec fn view_of(selection: Option<&Selection>) -> Option<SelectionView> {
    match selection {
        Some(selection) => Some(selection@),
        None => None,
    }
}

/// Whether the character at `index` lies in the selection at hand, whether
/// that selection is the primary one, and whether its cursor is on the
/// character.
pub fn properties(
    index: usize,
    current_selection: Option<&Selection>,
    primary_selection: Option<&Selection>,
) -> (properties: (bool, bool, bool))
    ensures
        properties == properties_of(
            index as nat,
            view_of(current_selection),
            view_of(primary_selection),
        ),
{
    let mut is_selection = false;
    let mut is_primary = false;
    let mut is_cursor = false;
    if let Some(selection) = current_selection {
        if index >= selection.start() && index <= selection.end() {
            is_selection = true;
        }
        if let Some(primary_selection) = primary_selection {
            if selection.start() == primary_selection.start() {
                is_primary = true;
            }
        }
        is_cursor = index == selection.cursor();
    }
    (is_selection, is_primary, is_cursor)
}

/// The background and the text color of a character.
pub fn style(theme: &Theme, is_selection: bool, is_primary: bool, is_cursor: bool) -> (colors: (
    Color,
    Color,
))
    ensures
        colors == style_of(*theme, is_selection, is_primary, is_cursor),
{
    let mut bg = theme.ramp_0_color;
    let mut fg = theme.ramp_2_color;
    if is_selection {
        if is_primary {
            if is_cursor {
                bg = theme.accent_color;
            } else {
                bg = theme.ramp_2_color;
            };
            fg = theme.ramp_0_color;
        } else if is_cursor {
            bg = theme.ramp_2_color;
            fg = theme.ramp_0_color;
        } else {
            bg = theme.ramp_1_color;
            fg = theme.ramp_2_color;
        }
    }
    (bg, fg)
}

/// The index of the first selection, from index `from` on, that ends at
/// `index` or behind it, or the length of the list where there is none.
pub open spec fn first_reaching(selections: Seq<SelectionView>, from: nat, index: nat) -> nat
    decreases selections.len() - from,
{
    if from >= selections.len() {
        selections.len()
    } else if selections[from as int].end >= index {
        from
    } else {
        first_reaching(selections, from + 1, index)
    }
}

/// The selections between `from` and the first one that reaches `index`
/// all end before it, and that one does not.
pub proof fn lemma_first_reaching(selections: Seq<SelectionView>, from: nat, index: nat)
    requires
        from <= selections.len(),
    ensures
        from <= first_reaching(selections, from, index) <= selections.len(),
        forall|k: int|
            from <= k < first_reaching(selections, from, index) ==> (#[trigger] selections[k]).end
                < index,
        first_reaching(selections, from, index) < selections.len() ==> selections[first_reaching(
            selections,
            from,
            index,
        ) as int].end >= index,
    decreases selections.len() - from,
{
    if from < selections.len() && selections[from as int].end < index {
        lemma_first_reaching(selections, from + 1, index);
    }
}

/// The index of the first selection, from index `from` on, that ends at
/// `index` or behind it.
pub fn skip_to(selections: &[Selection], from: usize, index: usize) -> (at: usize)
    requires
        from <= selections@.len(),
    ensures
        at == first_reaching(
            selections@.map_values(|selection: Selection| selection@),
            from as nat,
            index as nat,
        ),
        from <= at <= selections@.len(),
{
    let ghost views = selections@.map_values(|selection: Selection| selection@);
    proof {
        lemma_first_reaching(views, from as nat, index as nat);
    }
    let mut at = from;
    while at < selections.len() && selections[at].end() < index
        invariant
            from <= at <= selections@.len(),
            views == selections@.map_values(|selection: Selection| selection@),
            first_reaching(views, at as nat, index as nat) == first_reaching(
                views,
                from as nat,
                index as nat,
            ),
        decreases selections.len() - at,
    {
        assert(views[at as int] == selections@[at as int]@);
        at += 1;
    }
    assert(at < selections@.len() ==> views[at as int] == selections@[at as int]@);
    at
}

/// The character that is drawn for a character of the text: a line break
/// shows as a blank, or as the given mark where it lies in a selection.
pub fn shown_char(ch: char, is_selection: bool, new_line_char: char) -> (shown: char)
    ensures
        shown == (if ch != '\n' {
            ch
        } else if is_selection {
            new_line_char
        } else {
            ' '
        }),
{
    if ch == '\n' {
        if !is_selection {
            ' '
        } else {
            new_line_char
        }
    } else {
        ch
    }
}

} // verus!
