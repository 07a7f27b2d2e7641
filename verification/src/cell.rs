//! The cells of the screen, between one drawing and the next.

use crate::color::Color;
use vstd::prelude::*;

verus! {

/// What is known of a cell of the screen.
#[derive(Debug, Copy, Clone, PartialEq, Eq, Structural)]
pub enum Cell {
    /// Nothing is known of what the screen shows there.
    Unknown,
    /// The screen shows a blank there, and is to go on doing so.
    Unchanged,
    /// The screen is to show the character in the two colors, the
    /// background first.
    Changed(char, Color, Color),
}

/// The cell before a new drawing: a cell that was to show a blank in the
/// given colors has nothing to change, any other is to show that blank.
pub fn cleared(cell: Cell, bg: Color, fg: Color) -> (fresh: Cell)
    ensures
        fresh == (if cell == Cell::Changed(' ', bg, fg) {
            Cell::Unchanged
        } else {
            Cell::Changed(' ', bg, fg)
        }),
{
    let blank = Cell::Changed(' ', bg, fg);
    if cell == blank {
        Cell::Unchanged
    } else {
        blank
    }
}

/// The place of the cell at a row and a column in the list of the cells of
/// a screen, row by row, or nothing where the screen has no such cell.
pub fn cell_index(width: usize, height: usize, row: usize, col: usize) -> (index: Option<usize>)
    requires
        width * height <= usize::MAX,
    ensures
        index == (if row < height && col < width {
            Some((row * width + col) as usize)
        } else {
            None
        }),
        index matches Some(at) ==> at < width * height,
{
    if row >= height || col >= width {
        return None;
    }
    assert(row * width + col < width * height) by (nonlinear_arith)
        requires
            row < height,
            col < width,
    ;
    assert(row * width <= row * width + col);
    Some(row * width + col)
}

/// What is to be sent to the screen for a cell, if anything: a blank in
/// the given colors for a cell of which nothing is known, nothing for a cell
/// without change, else what the cell is to show.
pub fn to_print(cell: Cell, bg: Color, fg: Color) -> (print: Option<(char, Color, Color)>)
    ensures
        print == (match cell {
            Cell::Unknown => Some((' ', bg, fg)),
            Cell::Unchanged => None,
            Cell::Changed(ch, cell_bg, cell_fg) => Some((ch, cell_bg, cell_fg)),
        }),
{
    match cell {
        Cell::Unknown => Some((' ', bg, fg)),
        Cell::Unchanged => None,
        Cell::Changed(ch, cell_bg, cell_fg) => Some((ch, cell_bg, cell_fg)),
    }
}

} // verus!
