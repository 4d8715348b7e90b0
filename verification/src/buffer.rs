//! Buffers: one text each, with the path of its file and one cursor for each
//! window that shows it; and the registry that hands out their identities.

use crate::cursor::{
    after_delete_char, after_insert_char, after_insert_newline, at_end_of_line, at_start_of_line,
    column_at, column_of, lemma_after_insert_newline_spans_cluster,
    lemma_at_end_of_line_in_text, lemma_at_start_of_line_spans_cluster,
    lemma_moved_vertically_spans_cluster, line_bounds, line_width, moved_down, moved_left,
    moved_right, moved_up, position_in, text_after_delete, text_with_char, Cursor, Span,
};
use crate::text::{
    grapheme_breaks, lemma_boundary_before_bounds, lemma_line_of_char_in_range,
    lemma_next_boundary_nth_bounds, lemma_prev_boundary_nth_bounds, line_count, line_of_char,
    line_start, prev_boundary_nth, rope_chars, rope_slice_string, width,
};
use crate::window::WindowId;
use crate::EditorError;
use ropey::Rope;
use std::collections::HashMap;
use vstd::prelude::*;

verus! {

/// The identity of a buffer: a number that the registry hands out once.
#[derive(Debug, Clone, Copy, PartialEq, Eq, Structural)]
pub struct BufferId(pub usize);

impl BufferId {
    pub fn new(id: usize) -> (b: BufferId)
        ensures
            b == BufferId(id),
    {
        BufferId(id)
    }
}

/// What a key asks of the cursor of one window, and through it of the text.
#[derive(Debug, Clone, Copy, PartialEq, Eq, Structural)]
pub enum CursorAction {
    Up(usize),
    Down(usize),
    Left(usize),
    Right(usize),
    InsertChar(char),
    EndOfLine,
    StartOfLine,
    InsertNewLine,
    DeleteChar,
}

/// The cursor that `action` makes of the cursor `current` in `text`.
pub open spec fn cursor_after(text: Seq<char>, current: Span, action: CursorAction) -> Span {
    match action {
        CursorAction::Up(n) => moved_up(text, current.start, n as int),
        CursorAction::Down(n) => moved_down(text, current.start, n as int),
        CursorAction::Left(n) => moved_left(text, current.start, n as nat),
        CursorAction::Right(n) => moved_right(text, current.start, n as nat),
        CursorAction::InsertChar(ch) => after_insert_char(text, current.start, ch),
        CursorAction::EndOfLine => at_end_of_line(text, current),
        CursorAction::StartOfLine => at_start_of_line(text, current.start),
        CursorAction::InsertNewLine => after_insert_newline(text, current.start),
        CursorAction::DeleteChar => after_delete_char(text, current),
    }
}

/// The text that `action`, taken at the cursor `current`, makes of `text`.
pub open spec fn text_after(text: Seq<char>, current: Span, action: CursorAction) -> Seq<char> {
    match action {
        CursorAction::InsertChar(ch) => text_with_char(text, current.start, ch),
        CursorAction::InsertNewLine => text_with_char(text, current.start, '\n'),
        CursorAction::DeleteChar => text_after_delete(text, current.start),
        _ => text,
    }
}

/// `after` is what `action`, taken at the cursor of window `window`, makes of
/// the buffer `before`, and `r` is what taking it returns: the cursor moves,
/// and an edit changes the text, where the buffer holds a cursor for the
/// window; where it holds none, nothing changes. The cursors of other windows
/// stay as they are.
pub open spec fn acted(
    before: Buffer,
    after: Buffer,
    window: WindowId,
    action: CursorAction,
    r: Result<(), EditorError>,
) -> bool {
    &&& after.ident() == before.ident()
    &&& after.path() == before.path()
    &&& forall|w: WindowId| w != window ==> after.cursor_of(w) == before.cursor_of(w)
    &&& match before.cursor_of(window) {
        Some(current) => {
            &&& r is Ok
            &&& after.text() == text_after(before.text(), current, action)
            &&& after.cursor_of(window) == Some(cursor_after(before.text(), current, action))
        },
        None => {
            &&& r == Err::<(), EditorError>(EditorError::NoSuchView)
            &&& after.text() == before.text()
            &&& after.cursor_of(window) == None::<Span>
        },
    }
}

/// Whatever the action, a cursor that starts within the text starts within
/// the text afterwards.
pub proof fn lemma_cursor_stays_in_text(text: Seq<char>, current: Span, action: CursorAction)
    requires
        0 <= current.start <= text.len(),
    ensures
        0 <= cursor_after(text, current, action).start <= text_after(text, current, action).len(),
{
    let at = current.start;
    match action {
        CursorAction::Up(n) => {
            lemma_moved_vertically_spans_cluster(text, at, n as int);
        },
        CursorAction::Down(n) => {
            lemma_moved_vertically_spans_cluster(text, at, n as int);
        },
        CursorAction::Left(n) => {
            lemma_prev_boundary_nth_bounds(text, at, n as nat);
        },
        CursorAction::Right(n) => {
            lemma_next_boundary_nth_bounds(text, at, n as nat);
        },
        CursorAction::InsertChar(ch) => {
            lemma_next_boundary_nth_bounds(text_with_char(text, at, ch), at, 1);
        },
        CursorAction::EndOfLine => {
            lemma_at_end_of_line_in_text(text, current);
        },
        CursorAction::StartOfLine => {
            lemma_at_start_of_line_spans_cluster(text, at);
        },
        CursorAction::InsertNewLine => {
            lemma_after_insert_newline_spans_cluster(text, at);
        },
        CursorAction::DeleteChar => {
            if at > 0 {
                lemma_prev_boundary_nth_bounds(text, at, 1);
                lemma_boundary_before_bounds(grapheme_breaks(text), text.len() as int, at);
                assert(prev_boundary_nth(text, at, 0) == at);
            }
        },
    }
}

/// What the status line tells of a caret: its line and its column, counted
/// from 1, the number of lines, and the width of its line.
#[derive(Debug, Clone, Copy, PartialEq, Eq, Structural)]
pub struct StatusInfo {
    pub line: usize,
    pub lines: usize,
    pub column: usize,
    pub line_width: usize,
}

/// What the status line tells of the caret `cursor` in `text`. A column past
/// the greatest number counts as that number.
pub open spec fn status_of(text: Seq<char>, cursor: Span) -> StatusInfo {
    let at = position_in(text, cursor.start);
    let line = line_of_char(text, at);
    StatusInfo {
        line: (line + 1) as usize,
        lines: line_count(text) as usize,
        column: if column_of(text, at) == usize::MAX {
            usize::MAX
        } else {
            (column_of(text, at) + 1) as usize
        },
        line_width: line_width(text, line as int),
    }
}

/// `after` is the buffer `before` with the cursor `cursor` for the window
/// `window`, and nothing else changed.
pub open spec fn cursor_set(before: Buffer, after: Buffer, window: WindowId, cursor: Span) -> bool {
    &&& after.ident() == before.ident()
    &&& after.path() == before.path()
    &&& after.text() == before.text()
    &&& after.cursor_of(window) == Some(cursor)
    &&& forall|w: WindowId| w != window ==> after.cursor_of(w) == before.cursor_of(w)
}

/// One text, the path of the file it came from, and one cursor for each
/// window that shows it.
pub struct Buffer {
    id: BufferId,
    content: Rope,
    cursors: HashMap<usize, Cursor>,
    file_path: Option<String>,
}

impl Buffer {
    /// The identity of the buffer.
    pub closed spec fn ident(&self) -> BufferId {
        self.id
    }

    /// The characters of the buffer.
    pub closed spec fn text(&self) -> Seq<char> {
        rope_chars(self.content)
    }

    /// The cursor that the buffer holds for window `window`, if it holds one.
    pub closed spec fn cursor_of(&self, window: WindowId) -> Option<Span> {
        if self.cursors@.contains_key(window.0) {
            Some(self.cursors@[window.0]@)
        } else {
            None
        }
    }

    /// The path of the file that the buffer came from, if it came from one.
    pub closed spec fn path(&self) -> Option<Seq<char>> {
        match self.file_path {
            Some(p) => Some(p@),
            None => None,
        }
    }

    /// A buffer that holds `content` and no cursor yet.
    pub fn new(id: BufferId, content: Rope, file_path: Option<String>) -> (b: Buffer)
        ensures
            b.ident() == id,
            b.text() == rope_chars(content),
            b.path() == match file_path {
                Some(p) => Some(p@),
                None => None,
            },
            forall|w: WindowId| b.cursor_of(w) == None::<Span>,
    {
        Buffer { id, content, cursors: HashMap::new(), file_path }
    }

    pub fn id(&self) -> (id: BufferId)
        ensures
            id == self.ident(),
    {
        self.id
    }

    pub fn content(&self) -> (content: &Rope)
        ensures
            rope_chars(*content) == self.text(),
    {
        &self.content
    }

    /// The text of the buffer, to be changed. The cursors stay as they are.
    pub fn content_mut(&mut self) -> (content: &mut Rope)
        ensures
            rope_chars(*content) == old(self).text(),
            final(self).text() == rope_chars(*final(content)),
            final(self).ident() == old(self).ident(),
            final(self).path() == old(self).path(),
            forall|w: WindowId| final(self).cursor_of(w) == old(self).cursor_of(w),
    {
        &mut self.content
    }

    /// The path of the file that the buffer came from.
    pub fn file_path(&self) -> (p: Option<&String>)
        ensures
            match p {
                Some(s) => self.path() == Some(s@),
                None => self.path() == None::<Seq<char>>,
            },
    {
        self.file_path.as_ref()
    }

    /// The cursor of window `window_id`, where the window shows this buffer.
    pub fn get_cursor(&self, window_id: WindowId) -> (r: Result<&Cursor, EditorError>)
        ensures
            match r {
                Ok(c) => self.cursor_of(window_id) == Some(c@),
                Err(e) => e == EditorError::NoSuchView && self.cursor_of(window_id) == None::<
                    Span,
                >,
            },
    {
        match self.cursors.get(&window_id.0) {
            Some(c) => Ok(c),
            None => Err(EditorError::NoSuchView),
        }
    }

    /// Gives window `window_id` the cursor `cursor`, be it the first or
    /// another. No other cursor changes, and nor does the text.
    pub fn set_cursor(&mut self, window_id: WindowId, cursor: Cursor)
        ensures
            cursor_set(*old(self), *final(self), window_id, cursor@),
    {
        self.cursors.insert(window_id.0, cursor);
    }

    /// The text of line `index`, its line break included.
    pub fn get_line(&self, index: usize) -> (line: Option<String>)
        ensures
            match line {
                Some(s) => index < line_count(self.text()) && s@ == self.text().subrange(
                    line_start(self.text(), index as int),
                    line_start(self.text(), index + 1),
                ),
                None => index >= line_count(self.text()),
            },
    {
        if index < self.content.len_lines() {
            let (first, next) = line_bounds(&self.content, index);
            Some(rope_slice_string(&self.content, first, next))
        } else {
            None
        }
    }

    /// What the status line tells of the caret of window `window_id`.
    pub fn status_info(&self, window_id: WindowId) -> (r: Result<StatusInfo, EditorError>)
        ensures
            match self.cursor_of(window_id) {
                Some(cursor) => r == Ok::<StatusInfo, EditorError>(status_of(self.text(), cursor)),
                None => r == Err::<StatusInfo, EditorError>(EditorError::NoSuchView),
            },
    {
        let cursor = match self.cursors.get(&window_id.0) {
            Some(c) => c,
            None => {
                return Err(EditorError::NoSuchView);
            },
        };
        let at = cursor.position(&self.content);
        let lines = self.content.len_lines();
        let line = self.content.char_to_line(at);
        proof {
            lemma_line_of_char_in_range(self.text(), at as int);
        }
        let col = column_at(&self.content, at);
        let (first, next) = line_bounds(&self.content, line);
        Ok(
            StatusInfo {
                line: line + 1,
                lines,
                column: col.saturating_add(1),
                line_width: width(&self.content, first, next),
            },
        )
    }

    /// Takes `action` at the cursor of window `window_id`: the cursor moves,
    /// and an edit changes the text. The cursors of other windows stay as
    /// they are. Where the window shows another buffer, nothing changes.
    pub fn handle_cursor_action(&mut self, window_id: WindowId, action: CursorAction) -> (r: Result<
        (),
        EditorError,
    >)
        ensures
            acted(*old(self), *final(self), window_id, action, r),
    {
        let mut cursor = match self.cursors.get(&window_id.0) {
            Some(c) => Cursor::with_range(c.range.start, c.range.end),
            None => {
                return Err(EditorError::NoSuchView);
            },
        };
        match action {
            CursorAction::Up(n) => cursor.move_up(&self.content, n),
            CursorAction::Down(n) => cursor.move_down(&self.content, n),
            CursorAction::Left(n) => cursor.move_left(&self.content, n),
            CursorAction::Right(n) => cursor.move_right(&self.content, n),
            CursorAction::InsertChar(ch) => cursor.insert_char(&mut self.content, ch),
            CursorAction::EndOfLine => cursor.move_to_end_of_line(&self.content),
            CursorAction::StartOfLine => cursor.move_to_start_of_line(&self.content),
            CursorAction::InsertNewLine => cursor.insert_newline(&mut self.content),
            CursorAction::DeleteChar => cursor.delete_char(&mut self.content),
        }
        self.cursors.insert(window_id.0, cursor);
        Ok(())
    }
}

/// The first index from `from` on at which `buffers` holds the buffer `id`.
pub open spec fn index_of_id(buffers: Seq<Buffer>, id: BufferId, from: int) -> Option<int>
    decreases buffers.len() - from,
{
    if from >= buffers.len() {
        None
    } else if buffers[from].ident() == id {
        Some(from)
    } else {
        index_of_id(buffers, id, from + 1)
    }
}

/// The first index from `from` on at which `buffers` holds a buffer of the
/// file `path`.
pub open spec fn index_of_path(buffers: Seq<Buffer>, path: Seq<char>, from: int) -> Option<int>
    decreases buffers.len() - from,
{
    if from >= buffers.len() {
        None
    } else if buffers[from].path() == Some(path) {
        Some(from)
    } else {
        index_of_path(buffers, path, from + 1)
    }
}

/// An index that `index_of_id` gives lies in the sequence, at or after
/// `from`, and holds the buffer asked for.
pub proof fn lemma_index_of_id(buffers: Seq<Buffer>, id: BufferId, from: int)
    requires
        0 <= from,
    ensures
        match index_of_id(buffers, id, from) {
            Some(i) => from <= i < buffers.len() && buffers[i].ident() == id,
            None => forall|j: int| from <= j < buffers.len() ==> buffers[j].ident() != id,
        },
    decreases buffers.len() - from,
{
    if from < buffers.len() && buffers[from].ident() != id {
        lemma_index_of_id(buffers, id, from + 1);
    }
}

/// An index that `index_of_path` gives lies in the sequence, at or after
/// `from`, and holds a buffer of the file asked for.
pub proof fn lemma_index_of_path(buffers: Seq<Buffer>, path: Seq<char>, from: int)
    requires
        0 <= from,
    ensures
        match index_of_path(buffers, path, from) {
            Some(i) => from <= i < buffers.len() && buffers[i].path() == Some(path),
            None => forall|j: int| from <= j < buffers.len() ==> buffers[j].path() != Some(path),
        },
    decreases buffers.len() - from,
{
    if from < buffers.len() && buffers[from].path() != Some(path) {
        lemma_index_of_path(buffers, path, from + 1);
    }
}

/// The registry of buffers. It hands out identities in order, each once.
pub struct Buffers {
    pub buffers: Vec<Buffer>,
    pub next_buffer_id: usize,
}

impl Buffers {
    /// Every buffer has the identity that is its place in the registry, and
    /// the next identity is the first that no buffer has.
    pub open spec fn wf(&self) -> bool {
        &&& self.next_buffer_id == self.buffers@.len()
        &&& forall|i: int|
            0 <= i < self.buffers@.len() ==> (#[trigger] self.buffers@[i]).ident() == BufferId(
                i as usize,
            )
    }

    pub fn new() -> (b: Buffers)
        ensures
            b.wf(),
            b.buffers@.len() == 0,
            b.next_buffer_id == 0,
    {
        Buffers { buffers: Vec::new(), next_buffer_id: 0 }
    }

    /// Adds a buffer that holds `content` and returns its identity, which no
    /// buffer had before.
    pub fn add(&mut self, content: Rope, file_path: Option<String>) -> (id: BufferId)
        requires
            old(self).next_buffer_id < usize::MAX,
        ensures
            id == BufferId(old(self).next_buffer_id),
            final(self).next_buffer_id == old(self).next_buffer_id + 1,
            final(self).buffers@.len() == old(self).buffers@.len() + 1,
            final(self).buffers@.drop_last() == old(self).buffers@,
            final(self).buffers@.last().ident() == id,
            final(self).buffers@.last().text() == rope_chars(content),
            final(self).buffers@.last().path() == match file_path {
                Some(p) => Some(p@),
                None => None,
            },
            forall|w: WindowId| final(self).buffers@.last().cursor_of(w) == None::<Span>,
            old(self).wf() ==> final(self).wf(),
    {
        let buffer_id = BufferId(self.next_buffer_id);
        self.next_buffer_id += 1;
        self.buffers.push(Buffer::new(buffer_id, content, file_path));
        proof {
            assert(final(self).buffers@.drop_last() =~= old(self).buffers@);
        }
        buffer_id
    }

    /// Where every buffer has the identity that is its place, a buffer is
    /// found at the place that its identity names.
    pub proof fn lemma_wf_index(&self, at: int, from: int)
        requires
            self.wf(),
            0 <= from <= at < self.buffers@.len(),
        ensures
            index_of_id(self.buffers@, BufferId(at as usize), from) == Some(at),
        decreases at - from,
    {
        assert(self.buffers@[from].ident() == BufferId(from as usize));
        if from < at {
            self.lemma_wf_index(at, from + 1);
        }
    }

    /// The place of the first buffer with identity `buffer_id`.
    pub fn position(&self, buffer_id: BufferId) -> (at: Option<usize>)
        ensures
            match at {
                Some(i) => index_of_id(self.buffers@, buffer_id, 0) == Some(i as int),
                None => index_of_id(self.buffers@, buffer_id, 0) == None::<int>,
            },
    {
        let mut i: usize = 0;
        while i < self.buffers.len()
            invariant
                i <= self.buffers@.len(),
                index_of_id(self.buffers@, buffer_id, 0) == index_of_id(
                    self.buffers@,
                    buffer_id,
                    i as int,
                ),
            decreases self.buffers@.len() - i,
        {
            if self.buffers[i].id() == buffer_id {
                return Some(i);
            }
            i += 1;
        }
        None
    }

    /// The identity of the first buffer that came from the file `file_path`,
    /// letter for letter.
    pub fn find_by_file_path(&self, file_path: &String) -> (id: Option<BufferId>)
        ensures
            match index_of_path(self.buffers@, file_path@, 0) {
                Some(i) => id == Some(self.buffers@[i].ident()),
                None => id == None::<BufferId>,
            },
    {
        let mut i: usize = 0;
        while i < self.buffers.len()
            invariant
                i <= self.buffers@.len(),
                index_of_path(self.buffers@, file_path@, 0) == index_of_path(
                    self.buffers@,
                    file_path@,
                    i as int,
                ),
            decreases self.buffers@.len() - i,
        {
            let found = match self.buffers[i].file_path() {
                Some(p) => *p == *file_path,
                None => false,
            };
            if found {
                return Some(self.buffers[i].id());
            }
            i += 1;
        }
        None
    }

    /// The first buffer with identity `buffer_id`.
    pub fn get(&self, buffer_id: BufferId) -> (b: Option<&Buffer>)
        ensures
            match index_of_id(self.buffers@, buffer_id, 0) {
                Some(i) => b == Some(&self.buffers@[i]),
                None => b == None::<&Buffer>,
            },
    {
        match self.position(buffer_id) {
            Some(i) => {
                proof {
                    lemma_index_of_id(self.buffers@, buffer_id, 0);
                }
                Some(&self.buffers[i])
            },
            None => None,
        }
    }

    /// The first buffer with identity `buffer_id`, to be changed.
    pub fn get_mut(&mut self, buffer_id: BufferId) -> (b: Option<&mut Buffer>)
        ensures
            match index_of_id(old(self).buffers@, buffer_id, 0) {
                Some(i) => {
                    &&& b is Some
                    &&& *b.unwrap() == old(self).buffers@[i]
                    &&& final(self).next_buffer_id == old(self).next_buffer_id
                    &&& final(self).buffers@ == old(self).buffers@.update(i, *final(b.unwrap()))
                },
                None => b is None && *final(self) == *old(self),
            },
    {
        match self.position(buffer_id) {
            Some(i) => {
                proof {
                    lemma_index_of_id(self.buffers@, buffer_id, 0);
                }
                Some(&mut self.buffers[i])
            },
            None => None,
        }
    }

    /// Takes `action` at the cursor that the first buffer with identity
    /// `buffer_id` holds for window `window_id`. No other buffer changes.
    pub fn handle_actions(
        &mut self,
        buffer_id: BufferId,
        window_id: WindowId,
        action: CursorAction,
    ) -> (r: Result<(), EditorError>)
        ensures
            final(self).next_buffer_id == old(self).next_buffer_id,
            final(self).buffers@.len() == old(self).buffers@.len(),
            match index_of_id(old(self).buffers@, buffer_id, 0) {
                Some(i) => {
                    &&& acted(old(self).buffers@[i], final(self).buffers@[i], window_id, action, r)
                    &&& forall|j: int|
                        0 <= j < old(self).buffers@.len() && j != i ==> {
                            #[trigger] final(self).buffers@[j] == old(self).buffers@[j]
                        }
                },
                None => r == Err::<(), EditorError>(EditorError::NoSuchBuffer) && *final(self)
                    == *old(self),
            },
    {
        match self.position(buffer_id) {
            Some(i) => {
                proof {
                    lemma_index_of_id(self.buffers@, buffer_id, 0);
                }
                self.buffers[i].handle_cursor_action(window_id, action)
            },
            None => Err(EditorError::NoSuchBuffer),
        }
    }

    /// The number of buffers.
    pub fn count(&self) -> (n: usize)
        ensures
            n == self.buffers@.len(),
    {
        self.buffers.len()
    }
}

impl Default for Buffers {
    fn default() -> (b: Buffers)
        ensures
            b.wf(),
            b.buffers@.len() == 0,
            b.next_buffer_id == 0,
    {
        Buffers::new()
    }
}

} // verus!
