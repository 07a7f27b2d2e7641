//! The text store. The document is kept in a `ropey::Rope`; everything the
//! library knows about a rope is stated here, over the sequence of characters
//! that it holds.

use ropey::Rope;
use vstd::prelude::*;

verus! {

#[verifier::external_type_specification]
#[verifier::external_body]
pub struct ExRope(ropey::Rope);

/// The characters that a rope holds, in order.
pub uninterp spec fn rope_text(rope: Rope) -> Seq<char>;

/// The characters that end a line: line feed, vertical tab, form feed,
/// carriage return, next line, line separator and paragraph separator. These
/// are the line breaks that the rope knows with the features that it is
/// built with by default, as it is here.
pub open spec fn is_line_break(c: char) -> bool {
    c == '\n' || c == '\u{b}' || c == '\u{c}' || c == '\r' || c == '\u{85}' || c == '\u{2028}'
        || c == '\u{2029}'
}

/// A line starts at `index`: at the start of the text, and behind each
/// line break. A carriage return and the line feed behind it are one line
/// break, so no line starts between the two.
pub open spec fn starts_line(text: Seq<char>, index: nat) -> bool {
    index == 0 || (index <= text.len() && is_line_break(text[index - 1]) && !(text[index - 1]
        == '\r' && index < text.len() && text[index as int] == '\n'))
}

/// The line of the character at `index`, counted from 0: the number of
/// line breaks before the character.
#[verifier::opaque]
pub open spec fn text_char_to_line(text: Seq<char>, index: nat) -> nat
    decreases index,
{
    if index == 0 {
        0
    } else {
        text_char_to_line(text, (index - 1) as nat) + (if starts_line(text, index) {
            1nat
        } else {
            0nat
        })
    }
}

/// The number of lines of a text: one more than the number of its line
/// breaks, so that a text that ends with a line break has an empty last line.
pub open spec fn text_len_lines(text: Seq<char>) -> nat {
    text_char_to_line(text, text.len()) + 1
}

/// The line with the given number starts at `index`. The line behind the
/// last one counts as starting at the end of the text.
pub open spec fn is_line_start(text: Seq<char>, line: nat, index: nat) -> bool {
    if line >= text_len_lines(text) {
        index == text.len()
    } else {
        index <= text.len() && starts_line(text, index) && text_char_to_line(text, index) == line
    }
}

/// The index of the first character of a line.
#[verifier::opaque]
pub open spec fn text_line_to_char(text: Seq<char>, line: nat) -> nat {
    choose|index: nat| is_line_start(text, line, index)
}

/// The number of characters of a line, its line break included.
pub open spec fn text_line_len(text: Seq<char>, line: nat) -> nat {
    (text_line_to_char(text, line + 1) - text_line_to_char(text, line)) as nat
}

/// The number of bytes that a character takes in UTF-8.
pub open spec fn utf8_width(c: char) -> nat {
    if (c as u32) < 0x80 {
        1
    } else if (c as u32) < 0x800 {
        2
    } else if (c as u32) < 0x10000 {
        3
    } else {
        4
    }
}

/// The byte offset of the character at `index` in the UTF-8 form of `text`:
/// the widths of the characters before it, added up.
pub open spec fn byte_offset(text: Seq<char>, index: nat) -> nat
    decreases index,
{
    if index == 0 || index > text.len() {
        0
    } else {
        byte_offset(text, (index - 1) as nat) + utf8_width(text[index - 1])
    }
}

/// The text with `piece` put in front of the character at `at`.
pub open spec fn text_insert(text: Seq<char>, at: nat, piece: Seq<char>) -> Seq<char> {
    text.subrange(0, at as int) + piece + text.subrange(at as int, text.len() as int)
}

/// The text without the characters from `start` up to, not including, `end`.
pub open spec fn text_remove(text: Seq<char>, start: nat, end: nat) -> Seq<char> {
    text.subrange(0, start as int) + text.subrange(end as int, text.len() as int)
}

/// Byte offsets grow with the character index.
pub proof fn lemma_byte_offset_monotonic(text: Seq<char>, i: nat, j: nat)
    requires
        i <= j <= text.len(),
    ensures
        byte_offset(text, i) <= byte_offset(text, j),
    decreases j,
{
    if i < j {
        lemma_byte_offset_monotonic(text, i, (j - 1) as nat);
    }
}

/// A later character is on the same line or on a later one.
pub proof fn lemma_char_to_line_monotonic(text: Seq<char>, i: nat, j: nat)
    requires
        i <= j,
    ensures
        text_char_to_line(text, i) <= text_char_to_line(text, j),
    decreases j,
{
    reveal(text_char_to_line);
    if i < j {
        lemma_char_to_line_monotonic(text, i, (j - 1) as nat);
    }
}

/// A line starts at one place only.
pub proof fn lemma_line_start_unique(text: Seq<char>, line: nat, first: nat, second: nat)
    requires
        is_line_start(text, line, first),
        is_line_start(text, line, second),
    ensures
        first == second,
{
    reveal(text_char_to_line);
    if line < text_len_lines(text) {
        if first < second {
            lemma_char_to_line_monotonic(text, first, (second - 1) as nat);
        } else if second < first {
            lemma_char_to_line_monotonic(text, second, (first - 1) as nat);
        }
    }
}

/// `Rope::new`: a rope that holds no text.
#[verifier::external_body]
pub(crate) fn rope_new() -> (rope: Rope)
    ensures
        rope_text(rope) == Seq::<char>::empty(),
{
    Rope::new()
}

/// `Rope::from_str`: a rope that holds the characters of `text`.
#[verifier::external_body]
pub(crate) fn rope_from_str(text: &str) -> (rope: Rope)
    ensures
        rope_text(rope) == text@,
{
    Rope::from_str(text)
}

/// `String::from` of a rope: the text that the rope holds, as one string.
#[verifier::external_body]
pub(crate) fn rope_to_string(rope: &Rope) -> (text: String)
    ensures
        text@ == rope_text(*rope),
{
    String::from(rope)
}

/// `String::push_str`: the string with the characters of `piece` behind
/// its own.
#[verifier::external_body]
pub(crate) fn push_str(target: &mut String, piece: &str)
    ensures
        final(target)@ == old(target)@ + piece@,
{
    target.push_str(piece)
}

/// `Rope::len_chars`: the number of characters in the rope.
#[verifier::external_body]
pub(crate) fn rope_len_chars(rope: &Rope) -> (len: usize)
    ensures
        len == rope_text(*rope).len(),
{
    rope.len_chars()
}

/// `Rope::len_lines`: the number of lines, which is one more than the
/// number of line breaks.
#[verifier::external_body]
pub(crate) fn rope_len_lines(rope: &Rope) -> (lines: usize)
    ensures
        lines == text_len_lines(rope_text(*rope)),
{
    rope.len_lines()
}

/// `Rope::insert`: puts `text` in front of the character at `at`. The
/// rope counts its characters in a `usize`, so the longer text still has a
/// length that fits one. The outside function panics when `at` is past the
/// end.
#[verifier::external_body]
pub(crate) fn rope_insert(rope: &mut Rope, at: usize, text: &str)
    requires
        at <= rope_text(*old(rope)).len(),
    ensures
        rope_text(*final(rope)) == text_insert(rope_text(*old(rope)), at as nat, text@),
        rope_text(*final(rope)).len() <= usize::MAX,
{
    rope.insert(at, text)
}

/// `Rope::insert_char`: puts one character in front of the character at
/// `at`. The longer text still has a length that fits a `usize`. The outside
/// function panics when `at` is past the end.
#[verifier::external_body]
pub(crate) fn rope_insert_char(rope: &mut Rope, at: usize, ch: char)
    requires
        at <= rope_text(*old(rope)).len(),
    ensures
        rope_text(*final(rope)) == text_insert(rope_text(*old(rope)), at as nat, seq![ch]),
        rope_text(*final(rope)).len() <= usize::MAX,
{
    rope.insert_char(at, ch)
}

/// `Rope::remove` on the range `start..end`: takes those characters out.
/// The outside function panics when the range is inverted or ends past the
/// end of the text.
#[verifier::external_body]
pub(crate) fn rope_remove(rope: &mut Rope, start: usize, end: usize)
    requires
        start <= end <= rope_text(*old(rope)).len(),
    ensures
        rope_text(*final(rope)) == text_remove(rope_text(*old(rope)), start as nat, end as nat),
{
    rope.remove(start..end)
}

/// `Rope::slice` on the range `start..end`, made into a rope of its own:
/// it holds those characters. The outside function panics when the range is
/// inverted or ends past the end of the text.
#[verifier::external_body]
pub(crate) fn rope_slice(rope: &Rope, start: usize, end: usize) -> (piece: Rope)
    requires
        start <= end <= rope_text(*rope).len(),
    ensures
        rope_text(piece) == rope_text(*rope).subrange(start as int, end as int),
{
    Rope::from(rope.slice(start..end))
}

/// `Rope::char_to_line`: the line of the character at `index`, which is
/// the number of line breaks before it. The outside function panics when
/// `index` is past the end.
#[verifier::external_body]
fn rope_char_to_line(rope: &Rope, index: usize) -> (line: usize)
    requires
        index <= rope_text(*rope).len(),
    ensures
        line == text_char_to_line(rope_text(*rope), index as nat),
{
    rope.char_to_line(index)
}

/// `Rope::line_to_char`: the index of the first character of a line, or
/// the number of characters for the line behind the last one. The outside
/// function panics when `line` is more than the number of lines.
#[verifier::external_body]
fn rope_line_to_char(rope: &Rope, line: usize) -> (index: usize)
    requires
        line <= text_len_lines(rope_text(*rope)),
    ensures
        is_line_start(rope_text(*rope), line as nat, index as nat),
{
    rope.line_to_char(line)
}

/// `Rope::line`, then `RopeSlice::len_chars`: the number of characters in a
/// line, which reaches from its start to the start of the next line. The
/// outside function panics when there is no such line.
#[verifier::external_body]
pub(crate) fn rope_line_len(rope: &Rope, line: usize) -> (len: usize)
    requires
        line < text_len_lines(rope_text(*rope)),
    ensures
        len == text_line_len(rope_text(*rope), line as nat),
{
    rope.line(line).len_chars()
}

/// The line of the character at `index`. It is one of the lines of the
/// text.
pub(crate) fn line_of_char(rope: &Rope, index: usize) -> (line: usize)
    requires
        index <= rope_text(*rope).len(),
    ensures
        line == text_char_to_line(rope_text(*rope), index as nat),
        line < text_len_lines(rope_text(*rope)),
{
    proof {
        lemma_char_to_line_monotonic(rope_text(*rope), index as nat, rope_text(*rope).len());
    }
    rope_char_to_line(rope, index)
}

/// The index of the first character of a line, or the number of characters
/// for the line behind the last one.
pub(crate) fn start_of_line(rope: &Rope, line: usize) -> (index: usize)
    requires
        line <= text_len_lines(rope_text(*rope)),
    ensures
        index == text_line_to_char(rope_text(*rope), line as nat),
        is_line_start(rope_text(*rope), line as nat, index as nat),
{
    let index = rope_line_to_char(rope, line);
    proof {
        reveal(text_line_to_char);
        lemma_line_start_unique(
            rope_text(*rope),
            line as nat,
            index as nat,
            text_line_to_char(rope_text(*rope), line as nat),
        );
    }
    index
}

/// `Rope::char_to_byte`: the byte offset of the character at `index`. The
/// outside function panics when `index` is past the end.
#[verifier::external_body]
pub(crate) fn rope_char_to_byte(rope: &Rope, index: usize) -> (offset: usize)
    requires
        index <= rope_text(*rope).len(),
    ensures
        offset == byte_offset(rope_text(*rope), index as nat),
{
    rope.char_to_byte(index)
}

/// `Rope::byte_to_char`: the index of the character that the byte at
/// `offset` belongs to, or the number of characters when `offset` is the
/// number of bytes. The outside function panics when `offset` is past the end.
#[verifier::external_body]
pub(crate) fn rope_byte_to_char(rope: &Rope, offset: usize) -> (index: usize)
    requires
        offset <= byte_offset(rope_text(*rope), rope_text(*rope).len()),
    ensures
        index <= rope_text(*rope).len(),
        byte_offset(rope_text(*rope), index as nat) <= offset,
        index < rope_text(*rope).len() ==> offset < byte_offset(
            rope_text(*rope),
            (index + 1) as nat,
        ),
{
    rope.byte_to_char(offset)
}

} // verus!
