//! The editing engine of a modal, multi-selection text editor: a text
//! document with a set of selections, edits that are applied to every
//! selection at once, reversible history, and regex-driven transforms of the
//! selection set.

pub mod buffer;
pub mod cell;
pub mod change;
pub mod color;
pub mod history;
pub mod key;
pub mod mode;
pub mod overlap;
pub mod regex;
pub mod register;
pub mod selection;
pub mod style;
pub mod text;
pub mod window;

pub use crate::cell::Cell;
pub use crate::buffer::{copy, paste, redo, replace_selections, undo, Buffer};
pub use crate::change::{Change, Changes};
pub use crate::color::{Color, Theme};
pub use crate::history::History;
pub use crate::key::{Key, Modifiers};
pub use crate::mode::filter::Filter;
pub use crate::mode::insert::Insert;
pub use crate::mode::normal::{center, move_by_window_page, wrap_add, Normal};
pub use crate::mode::pipe::Pipe;
pub use crate::mode::search::Search;
pub use crate::mode::seek::Seek;
pub use crate::mode::split::Split;
pub use crate::mode::{Mode, ModeResult, UpdateCommand};
pub use crate::overlap::merge_overlapping_selections;
pub use crate::regex::Regex;
pub use crate::register::{Register, Registry};
pub use crate::selection::{step, Op, Selection, Side};
pub use crate::window::Window;
