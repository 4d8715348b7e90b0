//! The text store and the positions in it: a rope of characters, the byte
//! offsets and lines of its characters, display widths, and the grapheme
//! cluster boundaries between them.

use ropey::Rope;
use unicode_segmentation::{GraphemeCursor, GraphemeIncomplete};
use unicode_width::UnicodeWidthStr;
use vstd::prelude::*;
use vstd::utf8::encode_utf8;

verus! {

// ---------------------------------------------------------------------------
// The rope and what it holds
// ---------------------------------------------------------------------------

/// `ropey::Rope`, the text store: a sequence of characters held in chunks.
#[verifier::external_type_specification]
#[verifier::external_body]
pub struct ExRope(ropey::Rope);

/// The characters that a rope holds, in order.
pub uninterp spec fn rope_chars(rope: Rope) -> Seq<char>;

/// The number of bytes that `s` takes in UTF-8.
pub open spec fn byte_len(s: Seq<char>) -> nat {
    encode_utf8(s).len()
}

/// The byte offset at which the character with index `i` starts.
pub open spec fn byte_offset(text: Seq<char>, i: int) -> nat {
    byte_len(text.take(i))
}

/// A character that ends a line, alone or as the end of a CR LF pair.
pub open spec fn is_line_break_char(c: char) -> bool {
    c == '\n' || c == '\u{0B}' || c == '\u{0C}' || c == '\r' || c == '\u{85}' || c == '\u{2028}'
        || c == '\u{2029}'
}

/// A line starts at `i`: at the start of the text, and after each line break.
/// A CR that an LF follows does not break the line by itself.
pub open spec fn line_starts_at(text: Seq<char>, i: int) -> bool {
    i == 0 || (0 < i <= text.len() && is_line_break_char(text[i - 1]) && !(text[i - 1] == '\r' && i
        < text.len() && text[i] == '\n'))
}

/// The number of line breaks that end at or before `i`, which is the index of
/// the line that the character at `i` is on.
pub open spec fn line_of_char(text: Seq<char>, i: int) -> nat
    decreases i,
{
    if i <= 0 {
        0
    } else {
        line_of_char(text, i - 1) + if line_starts_at(text, i) {
            1nat
        } else {
            0nat
        }
    }
}

/// The number of lines: one more than the number of line breaks.
pub open spec fn line_count(text: Seq<char>) -> nat {
    line_of_char(text, text.len() as int) + 1
}

/// `i` is the index at which line `line` starts.
pub open spec fn is_line_start(text: Seq<char>, line: int, i: int) -> bool {
    0 <= i <= text.len() && line_starts_at(text, i) && line_of_char(text, i) == line
}

/// The index at which line `line` starts; one past the last line stands for
/// the end of the text.
pub open spec fn line_start(text: Seq<char>, line: int) -> int {
    if 0 <= line < line_count(text) {
        choose|i: int| is_line_start(text, line, i)
    } else {
        text.len() as int
    }
}

/// `Rope::len_chars`: the number of characters that the rope holds.
pub assume_specification[ Rope::len_chars ](rope: &Rope) -> (n: usize)
    ensures
        n == rope_chars(*rope).len(),
;

/// `Rope::len_bytes`: the number of bytes that the rope's text takes in UTF-8.
pub assume_specification[ Rope::len_bytes ](rope: &Rope) -> (n: usize)
    ensures
        n == byte_len(rope_chars(*rope)),
;

/// `Rope::len_lines`: the number of lines, one more than the number of line
/// breaks.
pub assume_specification[ Rope::len_lines ](rope: &Rope) -> (n: usize)
    ensures
        n == line_count(rope_chars(*rope)),
;

/// `Rope::char`: the character with index `char_idx`.
pub assume_specification[ Rope::char ](rope: &Rope, char_idx: usize) -> (c: char)
    requires
        char_idx < rope_chars(*rope).len(),
    ensures
        c == rope_chars(*rope)[char_idx as int],
;

/// `Rope::char_to_byte`: the byte at which the character `char_idx` starts.
/// One past the last character is the end of the text.
pub assume_specification[ Rope::char_to_byte ](rope: &Rope, char_idx: usize) -> (b: usize)
    requires
        char_idx <= rope_chars(*rope).len(),
    ensures
        b == byte_offset(rope_chars(*rope), char_idx as int),
;

/// `Rope::byte_to_char`: the character that the byte `byte_idx` belongs to:
/// it starts at or before that byte, and the next one starts after it. The
/// byte one past the end gives the index one past the last character.
pub assume_specification[ Rope::byte_to_char ](rope: &Rope, byte_idx: usize) -> (c: usize)
    requires
        byte_idx <= byte_len(rope_chars(*rope)),
    ensures
        c <= rope_chars(*rope).len(),
        byte_offset(rope_chars(*rope), c as int) <= byte_idx,
        c < rope_chars(*rope).len() ==> byte_idx < byte_offset(rope_chars(*rope), c + 1),
;

/// `Rope::char_to_line`: the line that the character `char_idx` is on, which
/// is the number of line breaks before it. The index one past the end is on
/// the last line.
pub assume_specification[ Rope::char_to_line ](rope: &Rope, char_idx: usize) -> (line: usize)
    requires
        char_idx <= rope_chars(*rope).len(),
    ensures
        line == line_of_char(rope_chars(*rope), char_idx as int),
;

/// `Rope::line_to_char`: the character at which line `line_idx` starts. One
/// past the last line gives the length of the text.
pub assume_specification[ Rope::line_to_char ](rope: &Rope, line_idx: usize) -> (c: usize)
    requires
        line_idx <= line_count(rope_chars(*rope)),
    ensures
        line_idx < line_count(rope_chars(*rope)) ==> is_line_start(
            rope_chars(*rope),
            line_idx as int,
            c as int,
        ),
        line_idx == line_count(rope_chars(*rope)) ==> c == rope_chars(*rope).len(),
;

/// `Rope::line_to_byte`: the byte at which line `line_idx` starts. One past
/// the last line gives the byte length of the text.
pub assume_specification[ Rope::line_to_byte ](rope: &Rope, line_idx: usize) -> (b: usize)
    requires
        line_idx <= line_count(rope_chars(*rope)),
    ensures
        b == byte_offset(rope_chars(*rope), line_start(rope_chars(*rope), line_idx as int)),
;

/// `Rope::insert_char`: `ch` is put before the character `char_idx`, and the
/// rest stays in order.
pub assume_specification[ Rope::insert_char ](rope: &mut Rope, char_idx: usize, ch: char)
    requires
        char_idx <= rope_chars(*old(rope)).len(),
    ensures
        rope_chars(*final(rope)) == rope_chars(*old(rope)).insert(char_idx as int, ch),
;

/// `Rope::chunk_at_byte`: the chunk of the rope that holds the byte
/// `byte_idx`, with the byte and the character at which the chunk starts, and
/// the line that it starts on. The chunk is a part of the text, and the byte
/// lies in it; only the end of the text lies at the end of its chunk. Of the
/// line nothing is said.
pub assume_specification<'a>[ Rope::chunk_at_byte ](rope: &'a Rope, byte_idx: usize) -> (res: (
    &'a str,
    usize,
    usize,
    usize,
))
    requires
        byte_idx <= byte_len(rope_chars(*rope)),
    ensures
        is_chunk_at(rope_chars(*rope), res.0@, res.1 as int, res.2 as int),
        res.1 <= byte_idx <= res.1 + byte_len(res.0@),
        byte_idx < byte_len(rope_chars(*rope)) ==> byte_idx < res.1 + byte_len(res.0@),
;

/// `chunk` is the part of `text` that starts at character `char_start`, which
/// is byte `byte_start`.
pub open spec fn is_chunk_at(
    text: Seq<char>,
    chunk: Seq<char>,
    byte_start: int,
    char_start: int,
) -> bool {
    &&& 0 <= char_start
    &&& char_start + chunk.len() <= text.len()
    &&& text.subrange(char_start, char_start + chunk.len()) == chunk
    &&& byte_offset(text, char_start) == byte_start
}

// ---------------------------------------------------------------------------
// Bytes and characters
// ---------------------------------------------------------------------------

/// The bytes of two texts joined are the bytes of each, added.
pub proof fn lemma_byte_len_concat(a: Seq<char>, b: Seq<char>)
    ensures
        byte_len(a + b) == byte_len(a) + byte_len(b),
    decreases a.len(),
{
    if a.len() == 0 {
        assert(a + b =~= b);
    } else {
        assert((a + b).drop_first() =~= a.drop_first() + b);
        assert((a + b)[0] == a[0]);
        lemma_byte_len_concat(a.drop_first(), b);
    }
}

/// Every character takes at least one byte.
pub proof fn lemma_byte_len_at_least_len(s: Seq<char>)
    ensures
        byte_len(s) >= s.len(),
    decreases s.len(),
{
    if s.len() > 0 {
        lemma_byte_len_at_least_len(s.drop_first());
    }
}

/// The bytes between two characters are the bytes of the characters between.
pub proof fn lemma_byte_offset_diff(text: Seq<char>, i: int, j: int)
    requires
        0 <= i <= j <= text.len(),
    ensures
        byte_offset(text, j) == byte_offset(text, i) + byte_len(text.subrange(i, j)),
{
    assert(text.take(j) =~= text.take(i) + text.subrange(i, j));
    lemma_byte_len_concat(text.take(i), text.subrange(i, j));
}

/// A later character starts at a later byte.
pub proof fn lemma_byte_offset_increases(text: Seq<char>, i: int, j: int)
    requires
        0 <= i < j <= text.len(),
    ensures
        byte_offset(text, i) < byte_offset(text, j),
{
    lemma_byte_offset_diff(text, i, j);
    lemma_byte_len_at_least_len(text.subrange(i, j));
}

/// The whole text ends at its byte length, and starts at byte 0.
pub proof fn lemma_byte_offset_ends(text: Seq<char>)
    ensures
        byte_offset(text, 0) == 0,
        byte_offset(text, text.len() as int) == byte_len(text),
{
    assert(text.take(0) =~= Seq::<char>::empty());
    assert(text.take(text.len() as int) =~= text);
}

/// A byte offset no greater than the start of a character lies before all
/// later characters.
pub proof fn lemma_byte_offset_monotone(text: Seq<char>, i: int, j: int)
    requires
        0 <= i <= j <= text.len(),
    ensures
        byte_offset(text, i) <= byte_offset(text, j),
{
    lemma_byte_offset_diff(text, i, j);
}

/// The character that `Rope::byte_to_char` names for the byte at which
/// character `d` starts is `d`.
pub proof fn lemma_char_of_byte(text: Seq<char>, c: int, b: int, d: int)
    requires
        0 <= c <= text.len(),
        0 <= d <= text.len(),
        byte_offset(text, c) <= b,
        c < text.len() ==> b < byte_offset(text, c + 1),
        b == byte_offset(text, d),
    ensures
        c == d,
{
    if c < d {
        lemma_byte_offset_monotone(text, c + 1, d);
    } else if d < c {
        lemma_byte_offset_increases(text, d, c);
    }
}

// ---------------------------------------------------------------------------
// Grapheme cluster boundaries
// ---------------------------------------------------------------------------

/// The indices `i`, with `0 < i < text.len()`, at which one extended grapheme
/// cluster of `text` ends and the next begins: between the characters `i - 1`
/// and `i`. They are where a `GraphemeCursor` for extended clusters finds the
/// boundaries of the text.
pub uninterp spec fn grapheme_breaks(text: Seq<char>) -> Set<int>;

/// `i` is a boundary of a text of `len` characters whose clusters break at
/// `breaks`: its start, its end, or a break between two clusters.
pub open spec fn boundary_in(breaks: Set<int>, len: int, i: int) -> bool {
    i == 0 || i == len || (0 < i < len && breaks.contains(i))
}

/// The nearest boundary strictly after `i`; at and after the end, `len`.
pub open spec fn boundary_after(breaks: Set<int>, len: int, i: int) -> int
    decreases len - i,
{
    if i >= len {
        len
    } else if boundary_in(breaks, len, i + 1) {
        i + 1
    } else {
        boundary_after(breaks, len, i + 1)
    }
}

/// The nearest boundary strictly before `i`; at the start, 0. An index past
/// the end counts as the end.
pub open spec fn boundary_before(breaks: Set<int>, len: int, i: int) -> int
    decreases i,
{
    if i <= 0 || len <= 0 {
        0
    } else if i > len {
        boundary_before(breaks, len, len)
    } else if boundary_in(breaks, len, i - 1) {
        i - 1
    } else {
        boundary_before(breaks, len, i - 1)
    }
}

/// `i` is a grapheme cluster boundary of `text`.
pub open spec fn is_boundary(text: Seq<char>, i: int) -> bool {
    boundary_in(grapheme_breaks(text), text.len() as int, i)
}

/// The nearest grapheme cluster boundary of `text` strictly after `i`; at and
/// after the end of the text, its length.
pub open spec fn next_boundary(text: Seq<char>, i: int) -> int {
    boundary_after(grapheme_breaks(text), text.len() as int, i)
}

/// The nearest grapheme cluster boundary of `text` strictly before `i`; at
/// the start of the text, 0.
pub open spec fn prev_boundary(text: Seq<char>, i: int) -> int {
    boundary_before(grapheme_breaks(text), text.len() as int, i)
}

/// `n` steps of `next_boundary` from `i`.
pub open spec fn next_boundary_nth(text: Seq<char>, i: int, n: nat) -> int
    decreases n,
{
    if n == 0 {
        i
    } else {
        next_boundary(text, next_boundary_nth(text, i, (n - 1) as nat))
    }
}

/// `n` steps of `prev_boundary` from `i`.
pub open spec fn prev_boundary_nth(text: Seq<char>, i: int, n: nat) -> int
    decreases n,
{
    if n == 0 {
        i
    } else {
        prev_boundary(text, prev_boundary_nth(text, i, (n - 1) as nat))
    }
}

/// The boundary after `i` lies after `i`, within the text, and is a boundary.
pub proof fn lemma_boundary_after_bounds(breaks: Set<int>, len: int, i: int)
    requires
        0 <= i < len,
    ensures
        i < boundary_after(breaks, len, i) <= len,
        boundary_in(breaks, len, boundary_after(breaks, len, i)),
    decreases len - i,
{
    if !boundary_in(breaks, len, i + 1) {
        lemma_boundary_after_bounds(breaks, len, i + 1);
    }
}

/// The boundary before `i` lies before `i`, within the text, and is a
/// boundary.
pub proof fn lemma_boundary_before_bounds(breaks: Set<int>, len: int, i: int)
    requires
        0 < i,
        0 <= len,
    ensures
        0 <= boundary_before(breaks, len, i) <= len,
        boundary_before(breaks, len, i) < i,
        boundary_in(breaks, len, boundary_before(breaks, len, i)),
    decreases i,
{
    if len > 0 {
        if i > len {
            lemma_boundary_before_bounds(breaks, len, len);
        } else if !boundary_in(breaks, len, i - 1) {
            lemma_boundary_before_bounds(breaks, len, i - 1);
        }
    }
}

/// What one request for a boundary gave.
#[derive(Debug, Clone, Copy, PartialEq, Eq)]
pub enum Seek {
    /// No boundary lies in the direction asked: the cursor is at that end.
    End,
    /// The boundary, as a byte offset into the whole text.
    Found(usize),
    /// The text after the window is needed.
    NextChunk,
    /// The text before the window is needed.
    PrevChunk,
    /// The text that ends at this byte offset is needed.
    PreContext(usize),
    /// The window does not hold the position asked about.
    InvalidOffset,
}

/// `window` is the part of `text` from character `ws` on, which starts at
/// byte `start`; `text` has `total` bytes, and its character `c` starts at
/// byte `offset`.
pub open spec fn seek_setting(
    text: Seq<char>,
    window: Seq<char>,
    ws: int,
    c: int,
    start: int,
    offset: int,
    total: int,
) -> bool {
    &&& is_chunk_at(text, window, start, ws)
    &&& byte_len(text) == total
    &&& 0 <= c <= text.len()
    &&& byte_offset(text, c) == offset
}

/// What a request for the boundary after character `c` may answer, when the
/// clusters of `text` break at `breaks` and the window given ends before
/// character `we` and starts at byte `start`.
pub open spec fn next_seek_outcome(
    text: Seq<char>,
    breaks: Set<int>,
    we: int,
    c: int,
    start: int,
    r: Seek,
) -> bool {
    let next = boundary_after(breaks, text.len() as int, c);
    match r {
        Seek::End => c == text.len(),
        Seek::Found(n) => c < text.len() && next <= we && n == byte_offset(text, next),
        Seek::NextChunk => c < text.len() && we < text.len(),
        Seek::PreContext(k) => c < text.len() && k == start && start > 0,
        _ => false,
    }
}

/// What a request for the boundary before character `c` may answer, when the
/// clusters of `text` break at `breaks` and the window given starts at
/// character `ws`, which is byte `start`.
pub open spec fn prev_seek_outcome(
    text: Seq<char>,
    breaks: Set<int>,
    ws: int,
    c: int,
    start: int,
    r: Seek,
) -> bool {
    let prev = boundary_before(breaks, text.len() as int, c);
    match r {
        Seek::End => c == 0,
        Seek::Found(n) => c > 0 && ws <= prev && n == byte_offset(text, prev),
        Seek::PrevChunk => c > 0 && start > 0,
        Seek::PreContext(k) => c > 0 && k == start && start > 0,
        _ => false,
    }
}

/// `GraphemeCursor::next_boundary`, asked of a cursor newly made at byte
/// `offset` of a text of `total` bytes, and given `window`, the part of that
/// text which starts at byte `start`. Of whatever text the window is such a
/// part: the answer is the byte of the first cluster boundary after `offset`,
/// found within the window; or the end, when `offset` is the end; or a request
/// for the text after the window, which then exists, or for the text before
/// it, which then exists.
#[verifier::external_body]
pub(crate) fn seek_next(window: &str, start: usize, offset: usize, total: usize) -> (r: Seek)
    requires
        start <= offset <= start + byte_len(window@) <= total,
        exists|k: int| 0 <= k <= window@.len() && byte_offset(window@, k) == offset - start,
    ensures
        forall|text: Seq<char>, ws: int, c: int| #[trigger]
            seek_setting(text, window@, ws, c, start as int, offset as int, total as int)
                ==> next_seek_outcome(
                text,
                grapheme_breaks(text),
                ws + window@.len(),
                c,
                start as int,
                r,
            ),
{
    let mut cursor = GraphemeCursor::new(offset, total, true);
    match cursor.next_boundary(window, start) {
        Ok(None) => Seek::End,
        Ok(Some(n)) => Seek::Found(n),
        Err(GraphemeIncomplete::NextChunk) => Seek::NextChunk,
        Err(GraphemeIncomplete::PrevChunk) => Seek::PrevChunk,
        Err(GraphemeIncomplete::PreContext(n)) => Seek::PreContext(n),
        Err(GraphemeIncomplete::InvalidOffset) => Seek::InvalidOffset,
    }
}

/// `GraphemeCursor::prev_boundary`, asked of a cursor newly made at byte
/// `offset` of a text of `total` bytes, and given `window`, the part of that
/// text which starts at byte `start`. Of whatever text the window is such a
/// part: the answer is the byte of the last cluster boundary before `offset`,
/// found within the window; or the end, when `offset` is 0; or a request for
/// the text before the window, which then exists.
#[verifier::external_body]
pub(crate) fn seek_prev(window: &str, start: usize, offset: usize, total: usize) -> (r: Seek)
    requires
        start <= offset <= start + byte_len(window@) <= total,
        exists|k: int| 0 <= k <= window@.len() && byte_offset(window@, k) == offset - start,
    ensures
        forall|text: Seq<char>, ws: int, c: int| #[trigger]
            seek_setting(text, window@, ws, c, start as int, offset as int, total as int)
                ==> prev_seek_outcome(text, grapheme_breaks(text), ws, c, start as int, r),
{
    let mut cursor = GraphemeCursor::new(offset, total, true);
    match cursor.prev_boundary(window, start) {
        Ok(None) => Seek::End,
        Ok(Some(n)) => Seek::Found(n),
        Err(GraphemeIncomplete::NextChunk) => Seek::NextChunk,
        Err(GraphemeIncomplete::PrevChunk) => Seek::PrevChunk,
        Err(GraphemeIncomplete::PreContext(n)) => Seek::PreContext(n),
        Err(GraphemeIncomplete::InvalidOffset) => Seek::InvalidOffset,
    }
}

/// `Rope::remove`, on the range of characters from `start` to `end`: they
/// leave the rope, and the rest stays in order.
#[verifier::external_body]
pub(crate) fn rope_remove(rope: &mut Rope, start: usize, end: usize)
    requires
        start <= end <= rope_chars(*old(rope)).len(),
    ensures
        rope_chars(*final(rope)) == rope_chars(*old(rope)).subrange(0, start as int)
            + rope_chars(*old(rope)).subrange(end as int, rope_chars(*old(rope)).len() as int),
{
    rope.remove(start..end)
}

/// `Rope::slice`, made into a `String`: the characters from `start` to `end`.
#[verifier::external_body]
pub(crate) fn rope_slice_string(rope: &Rope, start: usize, end: usize) -> (s: String)
    requires
        start <= end <= rope_chars(*rope).len(),
    ensures
        s@ == rope_chars(*rope).subrange(start as int, end as int),
{
    String::from(rope.slice(start..end))
}

} // verus!

verus! {

// ---------------------------------------------------------------------------
// Finding boundaries in a rope
// ---------------------------------------------------------------------------

/// The window that a chunk of the rope gives: where it ends, in characters
/// and in bytes.
proof fn lemma_chunk_window(text: Seq<char>, chunk: Seq<char>, byte_start: int, char_start: int)
    requires
        is_chunk_at(text, chunk, byte_start, char_start),
    ensures
        byte_offset(text, char_start + chunk.len()) == byte_start + byte_len(chunk),
        byte_start + byte_len(chunk) <= byte_len(text),
{
    let end = char_start + chunk.len();
    lemma_byte_offset_diff(text, char_start, end);
    lemma_byte_offset_monotone(text, end, text.len() as int);
    lemma_byte_offset_ends(text);
}

/// A character whose byte lies in a window lies in that window, and the
/// window holds its byte.
proof fn lemma_char_in_window(text: Seq<char>, ws: int, we: int, c: int)
    requires
        0 <= ws <= we <= text.len(),
        0 <= c <= text.len(),
        byte_offset(text, ws) <= byte_offset(text, c) <= byte_offset(text, we),
    ensures
        ws <= c <= we,
        byte_offset(text.subrange(ws, we), c - ws) == byte_offset(text, c) - byte_offset(text, ws),
{
    if c < ws {
        lemma_byte_offset_increases(text, c, ws);
    }
    if we < c {
        lemma_byte_offset_increases(text, we, c);
    }
    lemma_byte_offset_diff(text, ws, c);
    assert(text.subrange(ws, we).take(c - ws) =~= text.subrange(ws, c));
}

/// Finds the next grapheme boundary after the given char position.
///
/// The search starts in the chunk of the rope that holds the position. Where
/// the boundary cannot be decided from that chunk alone, the window is widened
/// by the chunk after it, or the chunk before it, and asked again.
pub fn next_grapheme_boundary(text: &Rope, char_idx: usize) -> (r: usize)
    ensures
        r == next_boundary(rope_chars(*text), char_idx as int),
{
    let len = text.len_chars();
    if char_idx >= len {
        return len;
    }
    let ghost t = rope_chars(*text);
    let total = text.len_bytes();
    let offset = text.char_to_byte(char_idx);
    proof {
        lemma_byte_offset_ends(t);
        lemma_byte_offset_increases(t, char_idx as int, len as int);
        lemma_boundary_after_bounds(grapheme_breaks(t), len as int, char_idx as int);
    }
    let (chunk, chunk_byte, chunk_char, _) = text.chunk_at_byte(offset);
    let mut ws = chunk_char;
    let mut wb = chunk_byte;
    let ghost mut we: int = chunk_char + chunk@.len();
    proof {
        lemma_chunk_window(t, chunk@, chunk_byte as int, chunk_char as int);
        lemma_char_in_window(t, ws as int, we, char_idx as int);
        assert(seek_setting(
            t,
            chunk@,
            ws as int,
            char_idx as int,
            wb as int,
            offset as int,
            total as int,
        ));
    }
    let mut web = chunk_byte + chunk.len();
    let mut found = seek_next(chunk, chunk_byte, offset, total);
    loop
        invariant
            t == rope_chars(*text),
            len == t.len(),
            total == byte_len(t),
            char_idx < len,
            offset == byte_offset(t, char_idx as int),
            0 <= ws <= char_idx <= we <= len,
            wb == byte_offset(t, ws as int),
            web == byte_offset(t, we),
            next_seek_outcome(t, grapheme_breaks(t), we, char_idx as int, wb as int, found),
            char_idx < next_boundary(t, char_idx as int) <= len,
        decreases len - (we - ws),
    {
        match found {
            Seek::Found(n) => {
                proof {
                    lemma_byte_offset_monotone(t, next_boundary(t, char_idx as int), len as int);
                    lemma_byte_offset_ends(t);
                }
                let r = text.byte_to_char(n);
                proof {
                    lemma_char_of_byte(t, r as int, n as int, next_boundary(t, char_idx as int));
                }
                return r;
            },
            Seek::NextChunk => {
                proof {
                    lemma_byte_offset_increases(t, we, len as int);
                    lemma_byte_offset_ends(t);
                }
                let (after, after_byte, after_char, _) = text.chunk_at_byte(web);
                proof {
                    lemma_chunk_window(t, after@, after_byte as int, after_char as int);
                    let end = after_char + after@.len();
                    if end <= we {
                        lemma_byte_offset_monotone(t, end, we);
                    }
                    we = end;
                }
                web = after_byte + after.len();
            },
            Seek::PreContext(_) => {
                proof {
                    lemma_byte_offset_monotone(t, ws as int, len as int);
                    lemma_byte_offset_ends(t);
                }
                let (_before, before_byte, before_char, _) = text.chunk_at_byte(wb - 1);
                proof {
                    if before_char >= ws {
                        lemma_byte_offset_monotone(t, ws as int, before_char as int);
                    }
                }
                wb = before_byte;
                ws = before_char;
            },
            _ => {
                return len;
            },
        }
        proof {
            lemma_byte_offset_monotone(t, we, len as int);
            lemma_byte_offset_ends(t);
        }
        let end = text.byte_to_char(web);
        proof {
            lemma_char_of_byte(t, end as int, web as int, we);
            lemma_byte_offset_monotone(t, ws as int, char_idx as int);
            lemma_byte_offset_monotone(t, char_idx as int, we);
            lemma_char_in_window(t, ws as int, we, char_idx as int);
        }
        let window = rope_slice_string(text, ws, end);
        proof {
            assert(seek_setting(
                t,
                window@,
                ws as int,
                char_idx as int,
                wb as int,
                offset as int,
                total as int,
            ));
            lemma_byte_offset_diff(t, ws as int, we);
        }
        found = seek_next(window.as_str(), wb, offset, total);
    }
}

/// Finds the previous grapheme boundary before the given char position. A
/// position past the end of the text counts as its end.
///
/// The search starts in the chunk of the rope that holds the position. Where
/// the boundary cannot be decided from that chunk alone, the window is widened
/// by the chunk before it, and asked again.
pub fn prev_grapheme_boundary(text: &Rope, char_idx: usize) -> (r: usize)
    ensures
        r == prev_boundary(rope_chars(*text), char_idx as int),
{
    let len = text.len_chars();
    let from = if char_idx > len {
        len
    } else {
        char_idx
    };
    if from == 0 {
        return 0;
    }
    let ghost t = rope_chars(*text);
    let total = text.len_bytes();
    let offset = text.char_to_byte(from);
    proof {
        lemma_byte_offset_ends(t);
        lemma_byte_offset_monotone(t, from as int, len as int);
        lemma_boundary_before_bounds(grapheme_breaks(t), len as int, from as int);
    }
    let (chunk, chunk_byte, chunk_char, _) = text.chunk_at_byte(offset);
    let mut ws = chunk_char;
    let mut wb = chunk_byte;
    let ghost we: int = chunk_char + chunk@.len();
    proof {
        lemma_chunk_window(t, chunk@, chunk_byte as int, chunk_char as int);
        lemma_char_in_window(t, ws as int, we, from as int);
        assert(seek_setting(
            t,
            chunk@,
            ws as int,
            from as int,
            wb as int,
            offset as int,
            total as int,
        ));
    }
    let web = chunk_byte + chunk.len();
    let mut found = seek_prev(chunk, chunk_byte, offset, total);
    proof {
        lemma_byte_offset_monotone(t, we, len as int);
    }
    let end = text.byte_to_char(web);
    proof {
        lemma_char_of_byte(t, end as int, web as int, we);
    }
    loop
        invariant
            t == rope_chars(*text),
            len == t.len(),
            total == byte_len(t),
            0 < from <= len,
            offset == byte_offset(t, from as int),
            0 <= ws <= from <= we <= len,
            end == we,
            wb == byte_offset(t, ws as int),
            web == byte_offset(t, we),
            prev_seek_outcome(t, grapheme_breaks(t), ws as int, from as int, wb as int, found),
            0 <= prev_boundary(t, from as int) < from,
            prev_boundary(t, from as int) == prev_boundary(t, char_idx as int),
        decreases ws,
    {
        match found {
            Seek::Found(n) => {
                proof {
                    lemma_byte_offset_monotone(t, prev_boundary(t, from as int), len as int);
                    lemma_byte_offset_ends(t);
                }
                let r = text.byte_to_char(n);
                proof {
                    lemma_char_of_byte(t, r as int, n as int, prev_boundary(t, from as int));
                }
                return r;
            },
            Seek::PrevChunk | Seek::PreContext(_) => {
                proof {
                    lemma_byte_offset_monotone(t, ws as int, len as int);
                    lemma_byte_offset_ends(t);
                }
                let (_before, before_byte, before_char, _) = text.chunk_at_byte(wb - 1);
                proof {
                    if before_char >= ws {
                        lemma_byte_offset_monotone(t, ws as int, before_char as int);
                    }
                }
                wb = before_byte;
                ws = before_char;
            },
            _ => {
                return 0;
            },
        }
        proof {
            lemma_byte_offset_monotone(t, ws as int, from as int);
            lemma_byte_offset_monotone(t, from as int, we);
            lemma_byte_offset_monotone(t, we, len as int);
            lemma_byte_offset_ends(t);
            lemma_char_in_window(t, ws as int, we, from as int);
        }
        let window = rope_slice_string(text, ws, end);
        proof {
            assert(seek_setting(
                t,
                window@,
                ws as int,
                from as int,
                wb as int,
                offset as int,
                total as int,
            ));
            lemma_byte_offset_diff(t, ws as int, we);
        }
        found = seek_prev(window.as_str(), wb, offset, total);
    }
}

/// From the end of the text no step forward leaves it.
pub proof fn lemma_next_boundary_nth_at_end(text: Seq<char>, i: int, n: nat)
    requires
        i >= text.len(),
        n > 0,
    ensures
        next_boundary_nth(text, i, n) == text.len(),
    decreases n,
{
    if n > 1 {
        lemma_next_boundary_nth_at_end(text, i, (n - 1) as nat);
    } else {
        assert(next_boundary_nth(text, i, 0) == i);
    }
}

/// From the start of the text no step back leaves it.
pub proof fn lemma_prev_boundary_nth_at_start(text: Seq<char>, n: nat)
    ensures
        prev_boundary_nth(text, 0, n) == 0,
    decreases n,
{
    if n > 0 {
        lemma_prev_boundary_nth_at_start(text, (n - 1) as nat);
    }
}

/// Steps taken one after the other add up.
pub proof fn lemma_next_boundary_nth_add(text: Seq<char>, i: int, m: nat, n: nat)
    ensures
        next_boundary_nth(text, next_boundary_nth(text, i, m), n) == next_boundary_nth(
            text,
            i,
            m + n,
        ),
    decreases n,
{
    if n > 0 {
        lemma_next_boundary_nth_add(text, i, m, (n - 1) as nat);
    }
}

/// Steps taken one after the other add up.
pub proof fn lemma_prev_boundary_nth_add(text: Seq<char>, i: int, m: nat, n: nat)
    ensures
        prev_boundary_nth(text, prev_boundary_nth(text, i, m), n) == prev_boundary_nth(
            text,
            i,
            m + n,
        ),
    decreases n,
{
    if n > 0 {
        lemma_prev_boundary_nth_add(text, i, m, (n - 1) as nat);
    }
}

/// Finds the grapheme boundary `count` steps after the given char position.
/// Once the end of the text is reached, the steps left change nothing.
pub fn next_grapheme_boundary_nth(text: &Rope, char_idx: usize, count: usize) -> (r: usize)
    ensures
        r == next_boundary_nth(rope_chars(*text), char_idx as int, count as nat),
{
    let len = text.len_chars();
    let mut idx = char_idx;
    let mut done: usize = 0;
    while done < count
        invariant
            done <= count,
            len == rope_chars(*text).len(),
            idx == next_boundary_nth(rope_chars(*text), char_idx as int, done as nat),
        decreases count - done,
    {
        if idx >= len {
            proof {
                lemma_next_boundary_nth_at_end(
                    rope_chars(*text),
                    idx as int,
                    (count - done) as nat,
                );
                lemma_next_boundary_nth_add(
                    rope_chars(*text),
                    char_idx as int,
                    done as nat,
                    (count - done) as nat,
                );
            }
            return len;
        }
        idx = next_grapheme_boundary(text, idx);
        done = done + 1;
    }
    idx
}

/// Finds the grapheme boundary `count` steps before the given char position.
/// Once the start of the text is reached, the steps left change nothing.
pub fn prev_grapheme_boundary_nth(text: &Rope, char_idx: usize, count: usize) -> (r: usize)
    ensures
        r == prev_boundary_nth(rope_chars(*text), char_idx as int, count as nat),
{
    let mut idx = char_idx;
    let mut done: usize = 0;
    while done < count
        invariant
            done <= count,
            idx == prev_boundary_nth(rope_chars(*text), char_idx as int, done as nat),
        decreases count - done,
    {
        if idx == 0 {
            proof {
                lemma_prev_boundary_nth_at_start(rope_chars(*text), (count - done) as nat);
                lemma_prev_boundary_nth_add(
                    rope_chars(*text),
                    char_idx as int,
                    done as nat,
                    (count - done) as nat,
                );
            }
            return 0;
        }
        idx = prev_grapheme_boundary(text, idx);
        done = done + 1;
    }
    idx
}

/// A walk over the grapheme clusters of a rope, from its start to its end.
pub struct RopeGraphemes<'a> {
    text: &'a Rope,
    at: usize,
}

impl<'a> RopeGraphemes<'a> {
    /// The characters of the rope that is walked over.
    pub closed spec fn chars(&self) -> Seq<char> {
        rope_chars(*self.text)
    }

    /// The character at which the next cluster starts.
    pub closed spec fn position(&self) -> int {
        self.at as int
    }

    /// A walk that starts at the first cluster of `text`.
    pub fn new(text: &'a Rope) -> (walk: RopeGraphemes<'a>)
        ensures
            walk.chars() == rope_chars(*text),
            walk.position() == 0,
    {
        RopeGraphemes { text, at: 0 }
    }

    /// The next cluster, as the range of its characters: from where the walk
    /// stands to the boundary after it. At the end of the text there is none.
    pub fn next(&mut self) -> (cluster: Option<(usize, usize)>)
        ensures
            final(self).chars() == old(self).chars(),
            old(self).position() < old(self).chars().len() ==> {
                &&& cluster == Some(
                    (
                        old(self).position() as usize,
                        next_boundary(old(self).chars(), old(self).position()) as usize,
                    ),
                )
                &&& final(self).position() == next_boundary(old(self).chars(), old(self).position())
                &&& old(self).position() < final(self).position() <= old(self).chars().len()
            },
            old(self).position() >= old(self).chars().len() ==> {
                &&& cluster == None::<(usize, usize)>
                &&& final(self).position() == old(self).position()
            },
    {
        if self.at >= self.text.len_chars() {
            return None;
        }
        let start = self.at;
        let end = next_grapheme_boundary(self.text, start);
        proof {
            lemma_boundary_after_bounds(
                grapheme_breaks(rope_chars(*self.text)),
                rope_chars(*self.text).len() as int,
                start as int,
            );
        }
        self.at = end;
        Some((start, end))
    }
}

// ---------------------------------------------------------------------------
// Display width
// ---------------------------------------------------------------------------

/// The number of terminal columns that `s` takes when displayed: what
/// `UnicodeWidthStr::width` returns for it.
pub uninterp spec fn display_width(s: Seq<char>) -> usize;

/// `UnicodeWidthStr::width`: the displayed width of `s` in columns.
#[verifier::external_body]
pub(crate) fn str_width(s: &str) -> (w: usize)
    ensures
        w == display_width(s@),
{
    UnicodeWidthStr::width(s)
}

/// Returns the display width of the characters of `text` from `start` to
/// `end`.
pub fn width(text: &Rope, start: usize, end: usize) -> (w: usize)
    requires
        start <= end <= rope_chars(*text).len(),
    ensures
        w == display_width(rope_chars(*text).subrange(start as int, end as int)),
{
    let part = rope_slice_string(text, start, end);
    str_width(part.as_str())
}

// ---------------------------------------------------------------------------
// Lines
// ---------------------------------------------------------------------------

/// A later character is on the same line or a later one.
pub proof fn lemma_line_of_char_monotone(text: Seq<char>, i: int, j: int)
    requires
        i <= j,
    ensures
        line_of_char(text, i) <= line_of_char(text, j),
    decreases j - i,
{
    if i < j {
        lemma_line_of_char_monotone(text, i, j - 1);
    }
}

/// Every character of the text is on one of its lines.
pub proof fn lemma_line_of_char_in_range(text: Seq<char>, i: int)
    requires
        i <= text.len(),
    ensures
        line_of_char(text, i) < line_count(text),
{
    lemma_line_of_char_monotone(text, i, text.len() as int);
}

/// The line that a character is on starts somewhere.
pub proof fn lemma_line_has_start(text: Seq<char>, i: int)
    requires
        0 <= i <= text.len(),
    ensures
        is_line_start(
            text,
            line_of_char(text, i) as int,
            line_start(text, line_of_char(text, i) as int),
        ),
        line_start(text, line_of_char(text, i) as int) <= i,
    decreases i,
{
    let line = line_of_char(text, i) as int;
    lemma_line_of_char_in_range(text, i);
    if line_starts_at(text, i) {
        assert(is_line_start(text, line, i));
    } else {
        lemma_line_has_start(text, i - 1);
    }
    let a = line_start(text, line);
    if a > i {
        lemma_line_of_char_monotone(text, i, a - 1);
    }
}

/// Every line of the text starts somewhere.
pub proof fn lemma_every_line_has_start(text: Seq<char>, line: int, upto: int)
    requires
        0 <= upto <= text.len(),
        0 <= line <= line_of_char(text, upto),
    ensures
        is_line_start(text, line, line_start(text, line)),
    decreases upto,
{
    lemma_line_of_char_in_range(text, upto);
    if line == line_of_char(text, upto) {
        lemma_line_has_start(text, upto);
    } else {
        lemma_every_line_has_start(text, line, upto - 1);
    }
}

/// A line starts at one index only.
pub proof fn lemma_line_start_unique(text: Seq<char>, line: int, a: int, b: int)
    requires
        is_line_start(text, line, a),
        is_line_start(text, line, b),
    ensures
        a == b,
{
    if a < b {
        lemma_line_of_char_monotone(text, a, b - 1);
    } else if b < a {
        lemma_line_of_char_monotone(text, b, a - 1);
    }
}

/// What `Rope::line_to_char` returns is the start of the line, as
/// `line_start` names it.
pub proof fn lemma_line_start_is(text: Seq<char>, line: int, c: int)
    requires
        0 <= line <= line_count(text),
        line < line_count(text) ==> is_line_start(text, line, c),
        line == line_count(text) ==> c == text.len(),
    ensures
        c == line_start(text, line),
        0 <= c <= text.len(),
{
    if line < line_count(text) {
        lemma_line_start_unique(text, line, c, line_start(text, line));
    }
}

/// A line starts no later than the line after it, and all of them within the
/// text.
pub proof fn lemma_line_starts_ordered(text: Seq<char>, line: int)
    requires
        0 <= line < line_count(text),
    ensures
        0 <= line_start(text, line) <= line_start(text, line + 1) <= text.len(),
        line_of_char(text, line_start(text, line)) == line,
{
    lemma_every_line_has_start(text, line, text.len() as int);
    let a = line_start(text, line);
    if line + 1 < line_count(text) {
        lemma_every_line_has_start(text, line + 1, text.len() as int);
        let b = line_start(text, line + 1);
        if b < a {
            lemma_line_of_char_monotone(text, b, a);
        }
    }
}

// ---------------------------------------------------------------------------
// Laws of the boundaries
// ---------------------------------------------------------------------------

/// No boundary lies strictly between an index and the boundary after it.
pub proof fn lemma_no_boundary_before_next(breaks: Set<int>, len: int, i: int, k: int)
    requires
        0 <= i < k < boundary_after(breaks, len, i),
    ensures
        !boundary_in(breaks, len, k),
    decreases len - i,
{
    if i < len && !boundary_in(breaks, len, i + 1) {
        if k > i + 1 {
            lemma_no_boundary_before_next(breaks, len, i + 1, k);
        }
    }
}

/// From `j`, the boundary before is `i`, where `i` is a boundary and none
/// lies strictly between the two.
pub proof fn lemma_boundary_before_is(breaks: Set<int>, len: int, i: int, j: int)
    requires
        0 <= i < j <= len,
        boundary_in(breaks, len, i),
        forall|k: int| i < k < j ==> !boundary_in(breaks, len, k),
    ensures
        boundary_before(breaks, len, j) == i,
    decreases j - i,
{
    if j - 1 > i {
        lemma_boundary_before_is(breaks, len, i, j - 1);
    }
}

/// Round trip: from a boundary `i` that is not the end of a text with
/// characters, stepping to the next boundary and back to the previous one
/// comes back to `i`.
pub proof fn lemma_next_then_prev(text: Seq<char>, i: int)
    requires
        0 <= i <= text.len(),
        is_boundary(text, i),
        i < text.len() || text.len() == 0,
    ensures
        prev_boundary(text, next_boundary(text, i)) == i,
{
    let breaks = grapheme_breaks(text);
    let len = text.len() as int;
    if i < len {
        lemma_boundary_after_bounds(breaks, len, i);
        let j = boundary_after(breaks, len, i);
        assert forall|k: int| i < k < j implies !boundary_in(breaks, len, k) by {
            lemma_no_boundary_before_next(breaks, len, i, k);
        }
        lemma_boundary_before_is(breaks, len, i, j);
    }
}

/// Round trip the other way: from a boundary `i` that is not the start of
/// the text, stepping to the previous boundary and on to the next one comes
/// back to `i`.
pub proof fn lemma_prev_then_next(text: Seq<char>, i: int)
    requires
        0 < i <= text.len(),
        is_boundary(text, i),
    ensures
        next_boundary(text, prev_boundary(text, i)) == i,
{
    let breaks = grapheme_breaks(text);
    let len = text.len() as int;
    lemma_boundary_before_bounds(breaks, len, i);
    lemma_boundary_after_from(breaks, len, boundary_before(breaks, len, i), i);
}

/// From an index `p` before the boundary `i`, with no boundary strictly
/// between `boundary_before(i)` and `i`, the boundary after is `i`.
proof fn lemma_boundary_after_from(breaks: Set<int>, len: int, p: int, i: int)
    requires
        0 <= p < i <= len,
        boundary_in(breaks, len, i),
        boundary_before(breaks, len, i) <= p,
    ensures
        boundary_after(breaks, len, p) == i,
    decreases i - p,
{
    if p + 1 < i {
        lemma_no_boundary_after_prev(breaks, len, i, p + 1);
        lemma_boundary_after_from(breaks, len, p + 1, i);
    }
}

/// No boundary lies strictly between an index and the boundary before it.
pub proof fn lemma_no_boundary_after_prev(breaks: Set<int>, len: int, i: int, k: int)
    requires
        0 < i <= len,
        boundary_before(breaks, len, i) < k < i,
    ensures
        !boundary_in(breaks, len, k),
    decreases i,
{
    if !boundary_in(breaks, len, i - 1) {
        if k < i - 1 {
            lemma_no_boundary_after_prev(breaks, len, i - 1, k);
        }
    }
}

/// Steps forward from within the text stay within it, and land on
/// boundaries.
pub proof fn lemma_next_boundary_nth_bounds(text: Seq<char>, i: int, n: nat)
    requires
        0 <= i <= text.len(),
    ensures
        i <= next_boundary_nth(text, i, n) <= text.len(),
        n > 0 ==> is_boundary(text, next_boundary_nth(text, i, n)),
    decreases n,
{
    if n > 0 {
        lemma_next_boundary_nth_bounds(text, i, (n - 1) as nat);
        let at = next_boundary_nth(text, i, (n - 1) as nat);
        if at < text.len() {
            lemma_boundary_after_bounds(grapheme_breaks(text), text.len() as int, at);
        }
    }
}

/// Steps back from within the text stay within it, and land on boundaries.
pub proof fn lemma_prev_boundary_nth_bounds(text: Seq<char>, i: int, n: nat)
    requires
        0 <= i <= text.len(),
    ensures
        0 <= prev_boundary_nth(text, i, n) <= i,
        n > 0 ==> is_boundary(text, prev_boundary_nth(text, i, n)),
    decreases n,
{
    if n > 0 {
        lemma_prev_boundary_nth_bounds(text, i, (n - 1) as nat);
        let at = prev_boundary_nth(text, i, (n - 1) as nat);
        if at > 0 {
            lemma_boundary_before_bounds(grapheme_breaks(text), text.len() as int, at);
        }
    }
}

} // verus!
