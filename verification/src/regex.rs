//! Regular expressions over the text. Patterns are compiled and matched by
//! the `regex_cursor` crate, which works on byte offsets; the library speaks
//! of character indices.

use crate::text::{
    byte_offset, lemma_byte_offset_monotonic, rope_byte_to_char, rope_char_to_byte,
    rope_len_chars, rope_text,
};
use regex_cursor::engines::meta::Regex as MetaRegex;
use regex_cursor::regex_automata::util::syntax::Config as SyntaxConfig;
use regex_cursor::Input;
use ropey::Rope;
use vstd::prelude::*;

verus! {

#[verifier::external_type_specification]
#[verifier::external_body]
pub struct ExMetaRegex(MetaRegex);

/// Whether the regex engine accepts a pattern, with `^` and `$` matching
/// at line boundaries and `.` matching a line break too.
pub uninterp spec fn regex_compiles(pattern: Seq<char>) -> bool;

/// The matches that the regex engine finds for a pattern in the bytes of
/// a text from `start` up to, not including, `end`: leftmost first, none
/// overlapping another, each as the byte offsets of its start and of the
/// byte behind its end.
pub uninterp spec fn regex_matches(
    pattern: Seq<char>,
    text: Seq<char>,
    start: nat,
    end: nat,
) -> Seq<(usize, usize)>;

/// A compiled pattern: the pattern, and the engine that was compiled from
/// it. Only `Regex::new` makes one, so the two belong together.
pub struct Regex {
    pattern: String,
    engine: MetaRegex,
}

/// The number of bytes that a text takes in UTF-8.
pub open spec fn text_len_bytes(text: Seq<char>) -> nat {
    byte_offset(text, text.len())
}

/// The index of the character that the byte at `offset` belongs to, or the
/// number of characters where `offset` is the number of bytes.
pub open spec fn is_char_of_byte(text: Seq<char>, offset: nat, index: nat) -> bool {
    &&& index <= text.len()
    &&& byte_offset(text, index) <= offset
    &&& index < text.len() ==> offset < byte_offset(text, index + 1)
}

/// The index of the character that the byte at `offset` belongs to.
pub open spec fn char_of_byte(text: Seq<char>, offset: nat) -> nat {
    choose|index: nat| is_char_of_byte(text, offset, index)
}

/// A match in character indices, both ends included. A match of no
/// characters counts as the one position at its start.
pub open spec fn char_span(text: Seq<char>, found: (usize, usize)) -> (nat, nat) {
    let start = char_of_byte(text, found.0 as nat);
    let end = char_of_byte(text, found.1 as nat);
    if end >= start + 1 {
        (start, (end - 1) as nat)
    } else {
        (start, start)
    }
}

/// A match in character indices, both ends included, as machine words.
pub open spec fn char_match(text: Seq<char>, found: (usize, usize)) -> (usize, usize) {
    (char_span(text, found).0 as usize, char_span(text, found).1 as usize)
}

/// No match ends before it starts, and each starts no earlier than the
/// matches before it end.
pub open spec fn ordered_matches(found: Seq<(usize, usize)>) -> bool {
    &&& forall|i: int| 0 <= i < found.len() ==> (#[trigger] found[i]).0 <= found[i].1
    &&& forall|i: int, j: int|
        0 <= i < j < found.len() ==> (#[trigger] found[i]).1 <= (#[trigger] found[j]).0
}

/// The first index of a range of characters, kept inside the text.
pub open spec fn range_low(text: Seq<char>, range_start: nat) -> nat {
    if range_start < text.len() {
        range_start
    } else {
        text.len()
    }
}

/// The index behind the last character of a range, kept inside the text.
pub open spec fn range_high(text: Seq<char>, range_end: nat) -> nat {
    if range_end < text.len() {
        range_end + 1
    } else {
        text.len()
    }
}

/// The matches of a pattern among the characters of a text from
/// `range_start` to `range_end`, both included, in character indices. What the
/// range holds past the end of the text is left out, and a range that ends
/// before it starts holds nothing.
pub open spec fn find_matches(
    pattern: Seq<char>,
    text: Seq<char>,
    range_start: nat,
    range_end: nat,
) -> Seq<(usize, usize)> {
    if range_start > range_end {
        Seq::empty()
    } else {
        regex_matches(
            pattern,
            text,
            byte_offset(text, range_low(text, range_start)),
            byte_offset(text, range_high(text, range_end)),
        ).map_values(|found: (usize, usize)| char_match(text, found))
    }
}

/// Every byte of a text belongs to a character, and the end of the text
/// counts as the character behind the last one.
pub proof fn lemma_char_of_byte(text: Seq<char>, offset: nat)
    requires
        offset <= text_len_bytes(text),
    ensures
        is_char_of_byte(text, offset, char_of_byte(text, offset)),
{
    lemma_char_of_byte_from(text, offset, 0);
}

/// A byte at or behind the first byte of the character at `from` belongs
/// to that character or to one behind it.
proof fn lemma_char_of_byte_from(text: Seq<char>, offset: nat, from: nat)
    requires
        from <= text.len(),
        byte_offset(text, from) <= offset,
    ensures
        exists|index: nat| is_char_of_byte(text, offset, index),
    decreases text.len() - from,
{
    if from == text.len() {
        assert(is_char_of_byte(text, offset, from));
    } else if offset < byte_offset(text, from + 1) {
        assert(is_char_of_byte(text, offset, from));
    } else {
        lemma_char_of_byte_from(text, offset, from + 1);
    }
}

/// The first byte of a character belongs to that character.
pub proof fn lemma_char_of_first_byte(text: Seq<char>, index: nat)
    requires
        index <= text.len(),
    ensures
        char_of_byte(text, byte_offset(text, index)) == index,
{
    assert(is_char_of_byte(text, byte_offset(text, index), index));
    lemma_char_of_byte_unique(
        text,
        byte_offset(text, index),
        index,
        char_of_byte(text, byte_offset(text, index)),
    );
}

/// A later byte belongs to the same character or to a later one.
pub proof fn lemma_char_of_byte_monotonic(text: Seq<char>, first: nat, second: nat)
    requires
        first <= second <= text_len_bytes(text),
    ensures
        char_of_byte(text, first) <= char_of_byte(text, second),
{
    lemma_byte_offset_monotonic(text, 0, text.len());
    lemma_char_of_byte(text, first);
    lemma_char_of_byte(text, second);
    let i = char_of_byte(text, first);
    let j = char_of_byte(text, second);
    if j < i {
        lemma_byte_offset_monotonic(text, j + 1, i);
    }
}

/// A match between the bytes of two characters lies, in character
/// indices, between those characters, and does not end before it starts.
pub proof fn lemma_char_match_within(text: Seq<char>, found: (usize, usize), low: nat, high: nat)
    requires
        low <= high <= text.len(),
        byte_offset(text, low) <= found.0 <= found.1 <= byte_offset(text, high),
    ensures
        low <= char_span(text, found).0 <= char_span(text, found).1 <= high,
{
    lemma_byte_offset_monotonic(text, high, text.len());
    lemma_char_of_first_byte(text, low);
    lemma_char_of_first_byte(text, high);
    lemma_char_of_byte_monotonic(text, byte_offset(text, low), found.0 as nat);
    lemma_char_of_byte_monotonic(text, found.0 as nat, found.1 as nat);
    lemma_char_of_byte_monotonic(text, found.1 as nat, byte_offset(text, high));
}

/// Of two matches of which the first ends, in bytes, no later than the
/// second starts, the first ends, in character indices, no later than the
/// second starts.
pub proof fn lemma_char_match_ordered(
    text: Seq<char>,
    first: (usize, usize),
    second: (usize, usize),
)
    requires
        first.0 <= first.1 <= second.0 <= text_len_bytes(text),
    ensures
        char_span(text, first).1 <= char_span(text, second).0,
{
    lemma_char_of_byte_monotonic(text, first.0 as nat, first.1 as nat);
    lemma_char_of_byte_monotonic(text, first.1 as nat, second.0 as nat);
    lemma_char_of_byte(text, second.0 as nat);
}

/// Only one character holds a given byte.
pub proof fn lemma_char_of_byte_unique(text: Seq<char>, offset: nat, first: nat, second: nat)
    requires
        is_char_of_byte(text, offset, first),
        is_char_of_byte(text, offset, second),
    ensures
        first == second,
{
    if first < second {
        lemma_byte_offset_monotonic(text, first + 1, second);
    } else if second < first {
        lemma_byte_offset_monotonic(text, second + 1, first);
    }
}

/// `Builder::build` of the regex engine, with `multi_line` and
/// `dot_matches_new_line` switched on: the compiled pattern, or nothing where
/// the engine refuses the pattern.
#[verifier::external_body]
fn compile(pattern: &str) -> (engine: Option<MetaRegex>)
    ensures
        engine.is_some() == regex_compiles(pattern@),
{
    let regex = MetaRegex::builder().syntax(
        SyntaxConfig::new().multi_line(true).dot_matches_new_line(true),
    ).build(pattern);
    match regex {
        Ok(regex) => Some(regex),
        Err(_) => None,
    }
}

/// `Regex::find_iter` of the engine of a compiled pattern on the bytes of
/// the text from `start` to `end`: every match that it yields, in order. Each match lies
/// inside the range, none ends before it starts, and each is looked for from
/// the end of the one before it, so that it starts no earlier. The search
/// goes wrong where the range is not one of the text.
#[verifier::external_body]
fn find_in_bytes(regex: &Regex, contents: &Rope, start: usize, end: usize) -> (found: Vec<
    (usize, usize),
>)
    requires
        start <= end <= text_len_bytes(rope_text(*contents)),
    ensures
        found@ == regex_matches(regex.pattern(), rope_text(*contents), start as nat, end as nat),
        forall|i: int|
            0 <= i < found@.len() ==> start <= (#[trigger] found@[i]).0 <= found@[i].1 <= end,
        forall|i: int, j: int|
            0 <= i < j < found@.len() ==> (#[trigger] found@[i]).1 <= (#[trigger] found@[j]).0,
{
    let mut input = Input::new(contents);
    input.set_range(start..end);
    regex.engine.find_iter(input).map(|found| (found.start(), found.end())).collect()
}

impl Regex {
    /// The pattern that was compiled.
    pub closed spec fn pattern(&self) -> Seq<char> {
        self.pattern@
    }

    /// Compiles a pattern. Gives nothing where the regex engine refuses it.
    pub fn new(pattern: &str) -> (regex: Option<Self>)
        ensures
            regex.is_some() == regex_compiles(pattern@),
            regex matches Some(compiled) ==> compiled.pattern() == pattern@,
    {
        match compile(pattern) {
            Some(engine) => Some(Self { pattern: pattern.to_owned(), engine }),
            None => None,
        }
    }

    /// The matches of the pattern among the characters of the text from
    /// `range_start` to `range_end`, both included, in order. Each match is a
    /// pair of character indices, both included. It lies in the range, but
    /// for a match of no characters behind the last character of the range,
    /// and it starts no earlier than the matches before it end.
    pub fn find(&self, contents: &Rope, range_start: usize, range_end: usize) -> (found: Vec<
        (usize, usize),
    >)
        ensures
            found@ == find_matches(
                self.pattern(),
                rope_text(*contents),
                range_start as nat,
                range_end as nat,
            ),
            forall|i: int|
                0 <= i < found@.len() ==> range_low(rope_text(*contents), range_start as nat) <= (
                #[trigger] found@[i]).0 <= found@[i].1 <= range_high(
                    rope_text(*contents),
                    range_end as nat,
                ),
            ordered_matches(found@),
    {
        if range_start > range_end {
            return Vec::new();
        }
        let len = rope_len_chars(contents);
        let low = if range_start < len {
            range_start
        } else {
            len
        };
        let high = if range_end < len {
            range_end + 1
        } else {
            len
        };
        let byte_low = rope_char_to_byte(contents, low);
        let byte_high = rope_char_to_byte(contents, high);
        proof {
            lemma_byte_offset_monotonic(rope_text(*contents), low as nat, high as nat);
            lemma_byte_offset_monotonic(rope_text(*contents), high as nat, len as nat);
        }
        let raw = find_in_bytes(self, contents, byte_low, byte_high);
        let found = char_matches(contents, &raw);
        proof {
            let text = rope_text(*contents);
            assert forall|i: int| 0 <= i < found@.len() implies low <= (#[trigger] found@[i]).0
                <= found@[i].1 <= high by {
                lemma_char_match_within(text, raw@[i], low as nat, high as nat);
            }
        }
        found
    }
}

/// Turns matches in byte offsets, each with the offset of the byte behind
/// its end, into matches in character indices with both ends included. A
/// match of no characters becomes the one position at its start. Matches
/// that come in order stay in order.
pub fn char_matches(contents: &Rope, raw: &Vec<(usize, usize)>) -> (found: Vec<(usize, usize)>)
    requires
        forall|i: int|
            0 <= i < raw@.len() ==> (#[trigger] raw@[i]).1 <= text_len_bytes(
                rope_text(*contents),
            ) && raw@[i].0 <= text_len_bytes(rope_text(*contents)),
    ensures
        found@ == raw@.map_values(|found: (usize, usize)| char_match(rope_text(*contents), found)),
        forall|i: int|
            0 <= i < found@.len() ==> (#[trigger] found@[i]).0 <= found@[i].1
                <= rope_text(*contents).len(),
        forall|i: int|
            0 <= i < found@.len() ==> (#[trigger] found@[i]).0 == char_span(
                rope_text(*contents),
                raw@[i],
            ).0 && found@[i].1 == char_span(rope_text(*contents), raw@[i]).1,
        ordered_matches(raw@) ==> ordered_matches(found@),
{
    let ghost text = rope_text(*contents);
    let mut found: Vec<(usize, usize)> = Vec::with_capacity(raw.len());
    let mut i: usize = 0;
    while i < raw.len()
        invariant
            i <= raw@.len(),
            text == rope_text(*contents),
            forall|k: int|
                0 <= k < raw@.len() ==> (#[trigger] raw@[k]).1 <= text_len_bytes(text)
                    && raw@[k].0 <= text_len_bytes(text),
            found@.len() == i,
            forall|k: int| 0 <= k < i ==> #[trigger] found@[k] == char_match(text, raw@[k]),
            forall|k: int|
                0 <= k < i ==> (#[trigger] found@[k]).0 == char_span(text, raw@[k]).0
                    && found@[k].1 == char_span(text, raw@[k]).1,
            forall|k: int| 0 <= k < i ==> (#[trigger] found@[k]).0 <= found@[k].1 <= text.len(),
        decreases raw.len() - i,
    {
        let (byte_start, byte_end) = raw[i];
        let start = rope_byte_to_char(contents, byte_start);
        let end = rope_byte_to_char(contents, byte_end);
        proof {
            let chosen_start = char_of_byte(text, byte_start as nat);
            let chosen_end = char_of_byte(text, byte_end as nat);
            assert(is_char_of_byte(text, byte_start as nat, start as nat));
            assert(is_char_of_byte(text, byte_end as nat, end as nat));
            lemma_char_of_byte_unique(text, byte_start as nat, start as nat, chosen_start);
            lemma_char_of_byte_unique(text, byte_end as nat, end as nat, chosen_end);
        }
        let last = end.saturating_sub(1);
        let end = if last >= start {
            last
        } else {
            start
        };
        found.push((start, end));
        i += 1;
    }
    assert(found@ =~= raw@.map_values(|found: (usize, usize)| char_match(text, found)));
    proof {
        if ordered_matches(raw@) {
            assert forall|i: int, j: int| 0 <= i < j < found@.len() implies (
            #[trigger] found@[i]).1 <= (#[trigger] found@[j]).0 by {
                lemma_char_match_ordered(text, raw@[i], raw@[j]);
            }
        }
    }
    found
}

} // verus!
