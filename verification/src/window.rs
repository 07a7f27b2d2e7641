//! The window: the part of the text that is on the screen.

use crate::text::{
    line_of_char, rope_len_lines, rope_text, start_of_line, text_char_to_line, text_len_lines,
    text_line_to_char,
};
use ropey::Rope;
use vstd::prelude::*;

verus! {

/// The size of the window and the line and column of the text at its top
/// left corner.
pub struct Window {
    pub scroll_top: usize,
    pub scroll_left: usize,
    pub width: usize,
    pub height: usize,
}

/// The line of the character at `index`.
pub open spec fn row_of(text: Seq<char>, index: nat) -> nat {
    text_char_to_line(text, index)
}

/// The column of the character at `index`: how far it stands behind the
/// start of its line.
pub open spec fn column_of(text: Seq<char>, index: nat) -> nat {
    let line_start = text_line_to_char(text, row_of(text, index));
    if index >= line_start {
        (index - line_start) as nat
    } else {
        0
    }
}

/// The scroll position at which a line or column comes into view in a
/// window that shows `size` of them from `scroll` on: the position itself
/// where it lies before the window, the position that puts it last in the
/// window where it lies behind it, else the scroll position as it is. The
/// end of the window is counted no further than a machine word goes.
pub open spec fn scrolled(scroll: nat, size: nat, position: nat) -> nat {
    let back = if position < scroll {
        position
    } else {
        scroll
    };
    let limit = if back + size <= usize::MAX {
        back + size
    } else {
        usize::MAX as nat
    };
    if position >= limit {
        if size >= 1 {
            if position >= size - 1 {
                (position - (size - 1)) as nat
            } else {
                0
            }
        } else {
            position
        }
    } else {
        back
    }
}

impl Window {
    /// A window of no size at the start of the text.
    pub fn new() -> (window: Window)
        ensures
            window.scroll_top == 0,
            window.scroll_left == 0,
            window.width == 0,
            window.height == 0,
    {
        Window { scroll_top: 0, scroll_left: 0, width: 0, height: 0 }
    }

    /// Sets the width and the height.
    pub fn set_size(&mut self, size: (usize, usize))
        ensures
            final(self).width == size.0,
            final(self).height == size.1,
            final(self).scroll_top == old(self).scroll_top,
            final(self).scroll_left == old(self).scroll_left,
    {
        let (width, height) = size;
        self.width = width;
        self.height = height;
    }

    /// The row and column in the window of the character at `index`, or
    /// nothing where it lies above or left of the window.
    pub fn to_scroll_position(&self, contents: &Rope, index: usize) -> (position: Option<
        (usize, usize),
    >)
        requires
            index <= rope_text(*contents).len(),
        ensures
            position == (if row_of(rope_text(*contents), index as nat) < self.scroll_top
                || column_of(rope_text(*contents), index as nat) < self.scroll_left {
                None
            } else {
                Some(
                    (
                        (row_of(rope_text(*contents), index as nat) - self.scroll_top) as usize,
                        (column_of(rope_text(*contents), index as nat)
                            - self.scroll_left) as usize,
                    ),
                )
            }),
    {
        let row = line_of_char(contents, index);
        if row < self.scroll_top {
            return None;
        }
        let col = index.saturating_sub(start_of_line(contents, row));
        if col < self.scroll_left {
            return None;
        }
        let row = row - self.scroll_top;
        let col = col - self.scroll_left;
        Some((row, col))
    }

    /// The index of the character at a row and column of the window.
    pub fn from_scroll_position(&self, contents: &Rope, row: usize, col: usize) -> (index: usize)
        requires
            self.scroll_top + row <= usize::MAX,
            self.scroll_top + row <= text_len_lines(rope_text(*contents)),
            text_line_to_char(rope_text(*contents), (self.scroll_top + row) as nat)
                + self.scroll_left + col <= usize::MAX,
        ensures
            index == text_line_to_char(rope_text(*contents), (self.scroll_top + row) as nat)
                + self.scroll_left + col,
    {
        let row = self.scroll_top + row;
        let col = self.scroll_left + col;
        start_of_line(contents, row) + col
    }

    /// The index of the character at a row and column of the window, or
    /// nothing where the text has no such line or the index does not fit a
    /// machine word.
    pub fn try_from_scroll_position(&self, contents: &Rope, row: usize, col: usize) -> (index:
        Option<usize>)
        ensures
            index == (if self.scroll_top + row <= text_len_lines(rope_text(*contents))
                && text_line_to_char(rope_text(*contents), (self.scroll_top + row) as nat)
                + self.scroll_left + col <= usize::MAX {
                Some(
                    (text_line_to_char(rope_text(*contents), (self.scroll_top + row) as nat)
                        + self.scroll_left + col) as usize,
                )
            } else {
                None
            }),
    {
        let lines = rope_len_lines(contents);
        if row > lines || self.scroll_top > lines - row {
            return None;
        }
        let line_start = start_of_line(contents, self.scroll_top + row);
        if self.scroll_left > usize::MAX - col {
            return None;
        }
        if line_start > usize::MAX - (self.scroll_left + col) {
            return None;
        }
        Some(self.from_scroll_position(contents, row, col))
    }

    /// Scrolls as little as it takes to bring the character at `index` into
    /// the window.
    pub fn scroll_into_view(&mut self, contents: &Rope, index: usize)
        requires
            index <= rope_text(*contents).len(),
        ensures
            final(self).width == old(self).width,
            final(self).height == old(self).height,
            final(self).scroll_top == scrolled(
                old(self).scroll_top as nat,
                old(self).height as nat,
                row_of(rope_text(*contents), index as nat),
            ),
            final(self).scroll_left == scrolled(
                old(self).scroll_left as nat,
                old(self).width as nat,
                column_of(rope_text(*contents), index as nat),
            ),
    {
        let row = line_of_char(contents, index);
        if row < self.scroll_top {
            self.scroll_top = row;
        }
        if row >= self.scroll_top.saturating_add(self.height) {
            self.scroll_top = row.saturating_sub(self.height.saturating_sub(1));
        }
        let col = index.saturating_sub(start_of_line(contents, row));
        if col < self.scroll_left {
            self.scroll_left = col;
        }
        if col >= self.scroll_left.saturating_add(self.width) {
            self.scroll_left = col.saturating_sub(self.width.saturating_sub(1));
        }
    }
}

impl Default for Window {
    fn default() -> (window: Self)
        ensures
            window.scroll_top == 0,
            window.scroll_left == 0,
            window.width == 0,
            window.height == 0,
    {
        Window::new()
    }
}

} // verus!
