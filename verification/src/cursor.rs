//! The cursor: a half-open range of character indices that marks the caret
//! of one window in one buffer, and its movements and edits.

use crate::text::{
    display_width, grapheme_breaks, is_boundary, lemma_boundary_before_bounds,
    lemma_every_line_has_start, lemma_line_has_start, lemma_line_of_char_in_range,
    lemma_line_of_char_monotone, lemma_line_start_is, lemma_line_starts_ordered,
    lemma_next_boundary_nth_bounds, lemma_prev_boundary_nth_bounds, line_count, line_of_char,
    line_start, line_starts_at, next_boundary, next_boundary_nth, next_grapheme_boundary,
    next_grapheme_boundary_nth, prev_boundary, prev_boundary_nth, prev_grapheme_boundary,
    prev_grapheme_boundary_nth, rope_chars, rope_remove, width,
};
use ropey::Rope;
use std::ops::Range;
use vstd::prelude::*;

verus! {

/// A half-open range of character indices, as the contracts speak of it.
pub struct Span {
    pub start: int,
    pub end: int,
}

/// The caret of one window in one buffer.
#[derive(Debug)]
pub struct Cursor {
    pub range: Range<usize>,
}

impl View for Cursor {
    type V = Span;

    open spec fn view(&self) -> Span {
        Span { start: self.range.start as int, end: self.range.end as int }
    }
}

/// The caret at `i`: the range from `i` to the next boundary after it. At the
/// end of the text both are its length.
pub open spec fn caret_at(text: Seq<char>, i: int) -> Span {
    Span { start: i, end: next_boundary(text, i) }
}

/// The position that a cursor which starts at `start` has in `text`: `start`,
/// or the end of the text where `start` lies beyond it.
pub open spec fn position_in(text: Seq<char>, start: int) -> int {
    if start > text.len() {
        text.len() as int
    } else {
        start
    }
}

/// The display column of the character at `i`: the width of its line up to it.
pub open spec fn column_of(text: Seq<char>, i: int) -> usize {
    display_width(text.subrange(line_start(text, line_of_char(text, i) as int), i))
}

/// The display width of line `line`, its line break included.
pub open spec fn line_width(text: Seq<char>, line: int) -> usize {
    display_width(text.subrange(line_start(text, line), line_start(text, line + 1)))
}

/// Where a vertical move from `from` to line `line` lands: as many characters
/// into the line as the caret has columns, but no more than the line is wide,
/// and never past the end of the text.
pub open spec fn vertical_target(text: Seq<char>, from: int, line: int) -> int {
    let into = if line_width(text, line) < column_of(text, from) {
        line_width(text, line)
    } else {
        column_of(text, from)
    };
    if line_start(text, line) + into > text.len() {
        text.len() as int
    } else {
        line_start(text, line) + into
    }
}

/// The line `n` lines above that of `from`, or the first line.
pub open spec fn line_above(text: Seq<char>, from: int, n: int) -> int {
    if n > line_of_char(text, from) {
        0
    } else {
        line_of_char(text, from) - n
    }
}

/// The line `n` lines below that of `from`, or the last line.
pub open spec fn line_below(text: Seq<char>, from: int, n: int) -> int {
    if line_of_char(text, from) + n > line_count(text) - 1 {
        line_count(text) - 1
    } else {
        line_of_char(text, from) + n
    }
}

/// The cursor after `move_right(n)`.
pub open spec fn moved_right(text: Seq<char>, start: int, n: nat) -> Span {
    caret_at(text, next_boundary_nth(text, position_in(text, start), n))
}

/// The cursor after `move_left(n)`.
pub open spec fn moved_left(text: Seq<char>, start: int, n: nat) -> Span {
    caret_at(text, prev_boundary_nth(text, position_in(text, start), n))
}

/// The cursor after `move_up(n)`.
pub open spec fn moved_up(text: Seq<char>, start: int, n: int) -> Span {
    let from = position_in(text, start);
    caret_at(text, vertical_target(text, from, line_above(text, from, n)))
}

/// The cursor after `move_down(n)`.
pub open spec fn moved_down(text: Seq<char>, start: int, n: int) -> Span {
    let from = position_in(text, start);
    caret_at(text, vertical_target(text, from, line_below(text, from, n)))
}

/// The cursor at the start of its line.
pub open spec fn at_start_of_line(text: Seq<char>, start: int) -> Span {
    caret_at(text, line_start(text, line_of_char(text, position_in(text, start)) as int))
}

/// The index at which the line break starts that ends line `line`; on the
/// last line, which no line break ends, the length of the text.
pub open spec fn line_end(text: Seq<char>, line: int) -> int {
    let next = line_start(text, line + 1);
    if line + 1 >= line_count(text) {
        text.len() as int
    } else if next >= 2 && text[next - 2] == '\r' && text[next - 1] == '\n' {
        next - 2
    } else {
        next - 1
    }
}

/// The cursor at the end of its line: on the last grapheme cluster before
/// the line break, or at the start of the line where none lies before the
/// line break. On a line without width the cursor stays as it is: `current`.
pub open spec fn at_end_of_line(text: Seq<char>, current: Span) -> Span {
    let line = line_of_char(text, position_in(text, current.start)) as int;
    let first = line_start(text, line);
    let end = line_end(text, line);
    if line_width(text, line) == 0 {
        current
    } else if prev_boundary(text, end) > first {
        Span { start: prev_boundary(text, end), end }
    } else {
        Span { start: first, end }
    }
}

/// The text after a character is inserted at the cursor.
pub open spec fn text_with_char(text: Seq<char>, start: int, ch: char) -> Seq<char> {
    text.insert(position_in(text, start), ch)
}

/// The cursor after `insert_char`.
pub open spec fn after_insert_char(text: Seq<char>, start: int, ch: char) -> Span {
    moved_right(text_with_char(text, start, ch), position_in(text, start), 1)
}

/// The cursor after `insert_newline`.
pub open spec fn after_insert_newline(text: Seq<char>, start: int) -> Span {
    let new_text = text_with_char(text, start, '\n');
    at_start_of_line(new_text, moved_down(new_text, position_in(text, start), 1).start)
}

/// The text after `delete_char`: at the start of the text nothing leaves it;
/// elsewhere the one character at the boundary before the cursor does.
pub open spec fn text_after_delete(text: Seq<char>, start: int) -> Seq<char> {
    if position_in(text, start) == 0 {
        text
    } else {
        text.remove(moved_left(text, start, 1).start)
    }
}

/// The cursor after `delete_char`. `current` is the cursor as it is.
pub open spec fn after_delete_char(text: Seq<char>, current: Span) -> Span {
    if position_in(text, current.start) == 0 {
        current
    } else {
        moved_left(text, current.start, 1)
    }
}

/// The start and the end of line `line`, the end being the start of the line
/// after it.
pub fn line_bounds(content: &Rope, line: usize) -> (bounds: (usize, usize))
    requires
        line < line_count(rope_chars(*content)),
    ensures
        bounds.0 == line_start(rope_chars(*content), line as int),
        bounds.1 == line_start(rope_chars(*content), line + 1),
        bounds.0 <= bounds.1 <= rope_chars(*content).len(),
{
    let lines = content.len_lines();
    let first = content.line_to_char(line);
    let next = content.line_to_char(line + 1);
    proof {
        let t = rope_chars(*content);
        assert(lines == line_count(t));
        lemma_line_start_is(t, line as int, first as int);
        lemma_line_start_is(t, line + 1, next as int);
        lemma_line_starts_ordered(t, line as int);
    }
    (first, next)
}

/// The display column of the character at `at`.
pub fn column_at(content: &Rope, at: usize) -> (col: usize)
    requires
        at <= rope_chars(*content).len(),
    ensures
        col == column_of(rope_chars(*content), at as int),
{
    let line = content.char_to_line(at);
    proof {
        lemma_line_of_char_in_range(rope_chars(*content), at as int);
        lemma_line_has_start(rope_chars(*content), at as int);
    }
    let first = content.line_to_char(line);
    proof {
        lemma_line_start_is(rope_chars(*content), line as int, first as int);
    }
    width(content, first, at)
}

impl Cursor {
    /// The cursor of a window newly opened: on the first character.
    pub fn new() -> (c: Cursor)
        ensures
            c@ == (Span { start: 0, end: 1 }),
    {
        Cursor { range: 0..1 }
    }

    pub fn with_range(start: usize, end: usize) -> (c: Cursor)
        ensures
            c@ == (Span { start: start as int, end: end as int }),
    {
        Cursor { range: start..end }
    }

    /// Where the cursor starts in `content`: its start, or the end of the
    /// text where the start lies beyond it.
    pub fn position(&self, content: &Rope) -> (at: usize)
        ensures
            at == position_in(rope_chars(*content), self@.start),
            at <= rope_chars(*content).len(),
    {
        let len = content.len_chars();
        if self.range.start > len {
            len
        } else {
            self.range.start
        }
    }

    /// The column and the line of the caret, each cut to 16 bits.
    pub fn screen_position(&self, content: &Rope) -> (at: (u16, u16))
        ensures
            at.0 == column_of(
                rope_chars(*content),
                position_in(rope_chars(*content), self@.start),
            ) % 0x1_0000,
            at.1 == line_of_char(
                rope_chars(*content),
                position_in(rope_chars(*content), self@.start),
            ) % 0x1_0000,
    {
        let from = self.position(content);
        let y = content.char_to_line(from);
        let x = column_at(content, from);
        ((x % 0x1_0000) as u16, (y % 0x1_0000) as u16)
    }

    /// Puts the caret where a vertical move to line `line` lands.
    fn move_to_line(&mut self, content: &Rope, from: usize, line: usize)
        requires
            from <= rope_chars(*content).len(),
            line < line_count(rope_chars(*content)),
        ensures
            final(self)@ == caret_at(
                rope_chars(*content),
                vertical_target(rope_chars(*content), from as int, line as int),
            ),
            final(self)@.start <= rope_chars(*content).len(),
    {
        let len = content.len_chars();
        let col = column_at(content, from);
        let (first, next) = line_bounds(content, line);
        let line_width = width(content, first, next);
        let into = if line_width < col {
            line_width
        } else {
            col
        };
        let offset = if into > len - first {
            len
        } else {
            first + into
        };
        self.range = offset..next_grapheme_boundary(content, offset);
    }

    /// Moves the caret `n` lines up, keeping its column where the line
    /// reached is wide enough.
    pub fn move_up(&mut self, content: &Rope, n: usize)
        ensures
            final(self)@ == moved_up(rope_chars(*content), old(self)@.start, n as int),
            final(self)@.start <= rope_chars(*content).len(),
    {
        let from = self.position(content);
        let line = content.char_to_line(from);
        let target = if n > line {
            0
        } else {
            line - n
        };
        proof {
            lemma_line_of_char_in_range(rope_chars(*content), from as int);
        }
        self.move_to_line(content, from, target);
    }

    /// Moves the caret `n` lines down, keeping its column where the line
    /// reached is wide enough.
    pub fn move_down(&mut self, content: &Rope, n: usize)
        ensures
            final(self)@ == moved_down(rope_chars(*content), old(self)@.start, n as int),
            final(self)@.start <= rope_chars(*content).len(),
    {
        let last = content.len_lines() - 1;
        let from = self.position(content);
        let line = content.char_to_line(from);
        proof {
            lemma_line_of_char_in_range(rope_chars(*content), from as int);
        }
        let target = if n > last - line {
            last
        } else {
            line + n
        };
        self.move_to_line(content, from, target);
    }

    /// Moves the caret `n` grapheme clusters to the right.
    pub fn move_right(&mut self, content: &Rope, n: usize)
        ensures
            final(self)@ == moved_right(rope_chars(*content), old(self)@.start, n as nat),
    {
        let from = self.position(content);
        let new_start = next_grapheme_boundary_nth(content, from, n);
        self.range = new_start..next_grapheme_boundary(content, new_start);
    }

    /// Moves the caret `n` grapheme clusters to the left.
    pub fn move_left(&mut self, content: &Rope, n: usize)
        ensures
            final(self)@ == moved_left(rope_chars(*content), old(self)@.start, n as nat),
    {
        let from = self.position(content);
        let new_start = prev_grapheme_boundary_nth(content, from, n);
        self.range = new_start..next_grapheme_boundary(content, new_start);
    }

    /// Inserts `ch` at the caret and moves past it.
    pub fn insert_char(&mut self, content: &mut Rope, ch: char)
        ensures
            rope_chars(*final(content)) == text_with_char(
                rope_chars(*old(content)),
                old(self)@.start,
                ch,
            ),
            final(self)@ == after_insert_char(rope_chars(*old(content)), old(self)@.start, ch),
    {
        let from = self.position(content);
        content.insert_char(from, ch);
        self.range = from..from;
        self.move_right(content, 1);
    }

    /// Inserts a line break at the caret and moves to the start of the line
    /// that begins after it.
    pub fn insert_newline(&mut self, content: &mut Rope)
        ensures
            rope_chars(*final(content)) == text_with_char(
                rope_chars(*old(content)),
                old(self)@.start,
                '\n',
            ),
            final(self)@ == after_insert_newline(rope_chars(*old(content)), old(self)@.start),
    {
        let from = self.position(content);
        content.insert_char(from, '\n');
        self.range = from..from;
        self.move_down(content, 1);
        self.move_to_start_of_line(content);
    }

    /// Backspace: moves one grapheme cluster to the left and removes the one
    /// character there. At the start of the text it does nothing.
    pub fn delete_char(&mut self, content: &mut Rope)
        ensures
            rope_chars(*final(content)) == text_after_delete(
                rope_chars(*old(content)),
                old(self)@.start,
            ),
            final(self)@ == after_delete_char(rope_chars(*old(content)), old(self)@),
    {
        let from = self.position(content);
        if from == 0 {
            return ;
        }
        self.move_left(content, 1);
        let at = self.range.start;
        proof {
            let t = rope_chars(*content);
            assert(prev_boundary_nth(t, from as int, 0) == from);
            lemma_boundary_before_bounds(grapheme_breaks(t), t.len() as int, from as int);
        }
        rope_remove(content, at, at + 1);
        proof {
            let t = rope_chars(*old(content));
            assert(t.remove(at as int) =~= t.subrange(0, at as int) + t.subrange(
                at + 1,
                t.len() as int,
            ));
        }
    }

    /// Moves the caret onto the last grapheme cluster before the line break
    /// of its line. On a line without width it stays.
    pub fn move_to_end_of_line(&mut self, content: &Rope)
        ensures
            final(self)@ == at_end_of_line(rope_chars(*content), old(self)@),
    {
        let len = content.len_chars();
        let lines = content.len_lines();
        let from = self.position(content);
        let line = content.char_to_line(from);
        proof {
            lemma_line_of_char_in_range(rope_chars(*content), from as int);
        }
        let (first, next) = line_bounds(content, line);
        let line_width = width(content, first, next);
        if line_width == 0 {
            return ;
        }
        proof {
            lemma_line_end_bounds(rope_chars(*content), line as int);
        }
        let end = if line + 1 >= lines {
            len
        } else if next >= 2 && content.char(next - 2) == '\r' && content.char(next - 1) == '\n' {
            next - 2
        } else {
            next - 1
        };
        let before = prev_grapheme_boundary(content, end);
        let start = if before > first {
            before
        } else {
            first
        };
        self.range = start..end;
    }

    /// Moves the caret to the start of its line.
    pub fn move_to_start_of_line(&mut self, content: &Rope)
        ensures
            final(self)@ == at_start_of_line(rope_chars(*content), old(self)@.start),
            final(self)@.start <= rope_chars(*content).len(),
    {
        let from = self.position(content);
        let line = content.char_to_line(from);
        proof {
            lemma_line_of_char_in_range(rope_chars(*content), from as int);
        }
        let (first, _next) = line_bounds(content, line);
        self.range = first..next_grapheme_boundary(content, first);
    }

    /// Moves the caret to the end of the buffer.
    pub fn move_to_end_of_buffer(&mut self, content: &Rope)
        ensures
            final(self)@ == caret_at(rope_chars(*content), rope_chars(*content).len() as int),
    {
        let len = content.len_chars();
        self.range = len..len;
    }

    /// Moves the caret to the start of the buffer.
    pub fn move_to_start_of_buffer(&mut self, content: &Rope)
        ensures
            final(self)@ == caret_at(rope_chars(*content), 0),
    {
        self.range = 0..next_grapheme_boundary(content, 0);
    }
}

impl Default for Cursor {
    fn default() -> (c: Cursor)
        ensures
            c@ == (Span { start: 0, end: 1 }),
    {
        Cursor::new()
    }
}

// ---------------------------------------------------------------------------
// Laws of the cursor
// ---------------------------------------------------------------------------

/// The cursor lies in the text and ends at the boundary after its start; at
/// the end of the text both are its length.
pub open spec fn spans_cluster(text: Seq<char>, cursor: Span) -> bool {
    0 <= cursor.start <= text.len() && cursor.end == next_boundary(text, cursor.start)
}

/// The cursor is in order: it starts at a grapheme cluster boundary and ends
/// at the next one.
pub open spec fn in_order(text: Seq<char>, cursor: Span) -> bool {
    spans_cluster(text, cursor) && is_boundary(text, cursor.start)
}

/// A move to the right leaves the cursor in order, where it takes a step at
/// all or the cursor started at a boundary.
pub proof fn lemma_moved_right_in_order(text: Seq<char>, start: int, n: nat)
    requires
        0 <= start,
        n > 0 || is_boundary(text, position_in(text, start)),
    ensures
        in_order(text, moved_right(text, start, n)),
{
    lemma_next_boundary_nth_bounds(text, position_in(text, start), n);
}

/// A move to the left leaves the cursor in order, where it takes a step at
/// all or the cursor started at a boundary.
pub proof fn lemma_moved_left_in_order(text: Seq<char>, start: int, n: nat)
    requires
        0 <= start,
        n > 0 || is_boundary(text, position_in(text, start)),
    ensures
        in_order(text, moved_left(text, start, n)),
{
    lemma_prev_boundary_nth_bounds(text, position_in(text, start), n);
}

/// After a character was inserted, the cursor is in order in the new text.
pub proof fn lemma_after_insert_char_in_order(text: Seq<char>, start: int, ch: char)
    requires
        0 <= start,
    ensures
        in_order(text_with_char(text, start, ch), after_insert_char(text, start, ch)),
{
    lemma_moved_right_in_order(text_with_char(text, start, ch), position_in(text, start), 1);
}

/// A move up or down leaves the cursor within the text, and ending at the
/// boundary after its start.
pub proof fn lemma_moved_vertically_spans_cluster(text: Seq<char>, start: int, n: int)
    requires
        0 <= start,
        0 <= n,
    ensures
        spans_cluster(text, moved_up(text, start, n)),
        spans_cluster(text, moved_down(text, start, n)),
{
    let from = position_in(text, start);
    lemma_line_of_char_in_range(text, from);
    lemma_line_starts_ordered(text, line_above(text, from, n));
    lemma_line_starts_ordered(text, line_below(text, from, n));
}

/// A move up or down lands at or after the start of the line that it goes
/// to: on that line, or on a later one where the line holds fewer characters
/// than the caret has columns to keep.
pub proof fn lemma_moved_vertically_reaches_line(text: Seq<char>, start: int, n: int)
    requires
        0 <= start,
        0 <= n,
    ensures
        line_start(text, line_above(text, position_in(text, start), n)) <= moved_up(
            text,
            start,
            n,
        ).start,
        line_above(text, position_in(text, start), n) <= line_of_char(
            text,
            moved_up(text, start, n).start,
        ),
        line_start(text, line_below(text, position_in(text, start), n)) <= moved_down(
            text,
            start,
            n,
        ).start,
        line_below(text, position_in(text, start), n) <= line_of_char(
            text,
            moved_down(text, start, n).start,
        ),
{
    let from = position_in(text, start);
    lemma_line_of_char_in_range(text, from);
    let above = line_above(text, from, n);
    let below = line_below(text, from, n);
    lemma_line_starts_ordered(text, above);
    lemma_line_starts_ordered(text, below);
    lemma_line_of_char_monotone(text, line_start(text, above), moved_up(text, start, n).start);
    lemma_line_of_char_monotone(text, line_start(text, below), moved_down(text, start, n).start);
}

/// A line ends within the text, at or after its start and before the start
/// of the line after it, if there is one.
pub proof fn lemma_line_end_bounds(text: Seq<char>, line: int)
    requires
        0 <= line < line_count(text),
    ensures
        0 <= line_start(text, line) <= line_end(text, line) <= text.len(),
        line + 1 < line_count(text) ==> 0 < line_start(text, line + 1) <= text.len()
            && line_end(text, line) < line_start(text, line + 1),
{
    lemma_line_starts_ordered(text, line);
    if line + 1 < line_count(text) {
        lemma_line_starts_ordered(text, line + 1);
        let first = line_start(text, line);
        let next = line_start(text, line + 1);
        assert(line_of_char(text, 0) == 0);
        if first > next - 1 {
            assert(first == next);
        }
        if next >= 2 && text[next - 2] == '\r' && text[next - 1] == '\n' {
            if first == next - 1 {
                lemma_every_line_has_start(text, line, text.len() as int);
                assert(line_starts_at(text, first));
            }
        }
    }
}

/// A move to the end of the line leaves a cursor that started within the
/// text within the text.
pub proof fn lemma_at_end_of_line_in_text(text: Seq<char>, current: Span)
    requires
        0 <= current.start <= text.len(),
    ensures
        0 <= at_end_of_line(text, current).start <= text.len(),
        line_width(text, line_of_char(text, current.start) as int) != 0 ==> at_end_of_line(
            text,
            current,
        ).start <= at_end_of_line(text, current).end <= text.len(),
{
    let line = line_of_char(text, current.start) as int;
    lemma_line_of_char_in_range(text, current.start);
    lemma_line_end_bounds(text, line);
    let end = line_end(text, line);
    if end > 0 {
        lemma_boundary_before_bounds(grapheme_breaks(text), text.len() as int, end);
    }
}

/// At the end of a line that holds a grapheme cluster before its line break,
/// the cursor starts at a boundary that lies before the line break.
pub proof fn lemma_at_end_of_line_on_boundary(text: Seq<char>, current: Span)
    requires
        0 <= current.start <= text.len(),
        line_width(text, line_of_char(text, current.start) as int) != 0,
        line_start(text, line_of_char(text, current.start) as int) < prev_boundary(
            text,
            line_end(text, line_of_char(text, current.start) as int),
        ),
    ensures
        is_boundary(text, at_end_of_line(text, current).start),
        at_end_of_line(text, current).start < at_end_of_line(text, current).end,
{
    let line = line_of_char(text, current.start) as int;
    lemma_line_of_char_in_range(text, current.start);
    lemma_line_end_bounds(text, line);
    let end = line_end(text, line);
    if end > 0 {
        lemma_boundary_before_bounds(grapheme_breaks(text), text.len() as int, end);
    } else {
        assert(prev_boundary(text, end) == 0);
    }
}

/// A move to the start of the line leaves the cursor within the text, and
/// ending at the boundary after its start.
pub proof fn lemma_at_start_of_line_spans_cluster(text: Seq<char>, start: int)
    requires
        0 <= start,
    ensures
        spans_cluster(text, at_start_of_line(text, start)),
        at_start_of_line(text, start).start <= position_in(text, start),
{
    lemma_line_has_start(text, position_in(text, start));
}

/// After a line break was inserted, the cursor lies within the new text and
/// ends at the boundary after its start.
pub proof fn lemma_after_insert_newline_spans_cluster(text: Seq<char>, start: int)
    requires
        0 <= start,
    ensures
        spans_cluster(text_with_char(text, start, '\n'), after_insert_newline(text, start)),
{
    let new_text = text_with_char(text, start, '\n');
    lemma_moved_vertically_spans_cluster(new_text, position_in(text, start), 1);
    lemma_at_start_of_line_spans_cluster(
        new_text,
        moved_down(new_text, position_in(text, start), 1).start,
    );
}

/// Going to the start of the line is idempotent: a second move changes
/// nothing.
pub proof fn lemma_start_of_line_idempotent(text: Seq<char>, start: int)
    requires
        0 <= start,
    ensures
        at_start_of_line(text, at_start_of_line(text, start).start) == at_start_of_line(
            text,
            start,
        ),
{
    lemma_line_has_start(text, position_in(text, start));
}

} // verus!
