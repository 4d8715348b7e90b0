//! The editor: the buffers, the windows that show them, the mode, and the
//! dispatch of keys.

use crate::buffer::{
    acted, cursor_set, index_of_id, index_of_path, lemma_index_of_id, lemma_index_of_path, Buffer,
    BufferId, Buffers, CursorAction,
};
use crate::cursor::{column_at, column_of, position_in, Cursor, Span};
use crate::mode::Mode;
use crate::text::{line_of_char, rope_chars};
use crate::window::{offset_in_view, window_opened, Area, Window, WindowId, Windows};
use crate::EditorError;
use ropey::Rope;
use vstd::prelude::*;

verus! {

/// The number of cells kept between the caret and the edges of the view.
pub const SCROLLOFF: usize = 12;

/// A key, as far as the editor tells keys apart.
#[derive(Debug, Clone, Copy, PartialEq, Eq, Structural)]
pub enum Key {
    Char(char),
    Enter,
    Backspace,
    Esc,
    Other,
}

/// An event of the terminal.
#[derive(Debug, Clone, Copy, PartialEq, Eq, Structural)]
pub enum Event {
    Key(Key),
    Mouse,
    Resize(u16, u16),
    Other,
}

/// A cell of the screen.
#[derive(Debug, Clone, Copy, PartialEq, Eq, Structural)]
pub struct Position {
    pub x: usize,
    pub y: usize,
}

/// What the stack of components is to do once an event has been handled.
#[derive(Debug, Clone, Copy, PartialEq, Eq, Structural)]
pub enum Callback {
    /// Put the command prompt on top; it takes the keys from then on.
    OpenPrompt,
    /// Take the command prompt away and go back to normal mode.
    ClosePrompt,
}

/// Whether an event goes on to the components below.
#[derive(Debug, Clone, Copy, PartialEq, Eq, Structural)]
pub enum EventPropagation {
    Ignore(Option<Callback>),
    Consume(Option<Callback>),
}

/// What a key is bound to in a mode.
#[derive(Debug, Clone, Copy, PartialEq, Eq, Structural)]
pub enum Binding {
    /// Ask the editor to quit.
    Quit,
    /// Act on the cursor of the focused window.
    Cursor(CursorAction),
    /// Go to another mode.
    Enter(Mode),
    /// Open the command prompt.
    OpenPrompt,
    /// The key means nothing in this mode.
    Nothing,
    /// The mode defines no behaviour.
    Unsupported,
}

/// The table of keys: what `key` is bound to in `mode`.
pub open spec fn key_binding(mode: Mode, key: Key) -> Binding {
    match mode {
        Mode::Normal => match key {
            Key::Char(c) => if c == 'q' {
                Binding::Quit
            } else if c == 'l' {
                Binding::Cursor(CursorAction::Right(1))
            } else if c == 'h' {
                Binding::Cursor(CursorAction::Left(1))
            } else if c == 'j' {
                Binding::Cursor(CursorAction::Down(1))
            } else if c == 'k' {
                Binding::Cursor(CursorAction::Up(1))
            } else if c == 'i' {
                Binding::Enter(Mode::Insert)
            } else if c == '0' {
                Binding::Cursor(CursorAction::StartOfLine)
            } else if c == '$' {
                Binding::Cursor(CursorAction::EndOfLine)
            } else if c == ':' {
                Binding::OpenPrompt
            } else {
                Binding::Nothing
            },
            _ => Binding::Nothing,
        },
        Mode::Insert => match key {
            Key::Char(c) => Binding::Cursor(CursorAction::InsertChar(c)),
            Key::Enter => Binding::Cursor(CursorAction::InsertNewLine),
            Key::Backspace => Binding::Cursor(CursorAction::DeleteChar),
            Key::Esc => Binding::Enter(Mode::Normal),
            Key::Other => Binding::Nothing,
        },
        Mode::Visual => Binding::Unsupported,
        Mode::Search => Binding::Unsupported,
    }
}

/// The mode after a key with the binding `binding` was handled in `mode`.
pub open spec fn next_mode(mode: Mode, binding: Binding) -> Mode {
    match binding {
        Binding::Enter(m) => m,
        _ => mode,
    }
}

/// Looks `key` up in the table of keys.
pub fn binding(mode: Mode, key: Key) -> (b: Binding)
    ensures
        b == key_binding(mode, key),
{
    match mode {
        Mode::Normal => match key {
            Key::Char(c) => {
                if c == 'q' {
                    Binding::Quit
                } else if c == 'l' {
                    Binding::Cursor(CursorAction::Right(1))
                } else if c == 'h' {
                    Binding::Cursor(CursorAction::Left(1))
                } else if c == 'j' {
                    Binding::Cursor(CursorAction::Down(1))
                } else if c == 'k' {
                    Binding::Cursor(CursorAction::Up(1))
                } else if c == 'i' {
                    Binding::Enter(Mode::Insert)
                } else if c == '0' {
                    Binding::Cursor(CursorAction::StartOfLine)
                } else if c == '$' {
                    Binding::Cursor(CursorAction::EndOfLine)
                } else if c == ':' {
                    Binding::OpenPrompt
                } else {
                    Binding::Nothing
                }
            },
            _ => Binding::Nothing,
        },
        Mode::Insert => match key {
            Key::Char(c) => Binding::Cursor(CursorAction::InsertChar(c)),
            Key::Enter => Binding::Cursor(CursorAction::InsertNewLine),
            Key::Backspace => Binding::Cursor(CursorAction::DeleteChar),
            Key::Esc => Binding::Enter(Mode::Normal),
            Key::Other => Binding::Nothing,
        },
        Mode::Visual => Binding::Unsupported,
        Mode::Search => Binding::Unsupported,
    }
}

/// What the components are told after a key with the binding `binding`.
pub open spec fn propagation_of(binding: Binding) -> EventPropagation {
    match binding {
        Binding::OpenPrompt => EventPropagation::Consume(Some(Callback::OpenPrompt)),
        _ => EventPropagation::Consume(None),
    }
}

/// The editor: its mode, its buffers and the windows that show them.
pub struct Editor {
    pub mode: Mode,
    pub buffers: Buffers,
    pub windows: Windows,
    pub should_quit: bool,
}

/// Where the focus leads: the place of the focused window, the place of the
/// buffer that it shows, and the cursor that the buffer holds for it.
pub struct Focus {
    pub window: int,
    pub buffer: int,
    pub cursor: Span,
}

/// The buffers `after` are the buffers `before`, but for the one at `at`.
pub open spec fn buffers_changed_at(before: Buffers, after: Buffers, at: int) -> bool {
    &&& after.next_buffer_id == before.next_buffer_id
    &&& after.buffers@.len() == before.buffers@.len()
    &&& forall|j: int|
        0 <= j < before.buffers@.len() && j != at ==> #[trigger] after.buffers@[j]
            == before.buffers@[j]
}

/// Buffers that differ in one place, where the identity is the same, are
/// found under the same identities.
pub proof fn lemma_index_of_id_kept(
    before: Seq<Buffer>,
    after: Seq<Buffer>,
    at: int,
    id: BufferId,
    from: int,
)
    requires
        0 <= from,
        after.len() == before.len(),
        forall|j: int| 0 <= j < before.len() && j != at ==> #[trigger] after[j] == before[j],
        0 <= at < before.len() ==> after[at].ident() == before[at].ident(),
    ensures
        index_of_id(after, id, from) == index_of_id(before, id, from),
    decreases before.len() - from,
{
    if from < before.len() {
        lemma_index_of_id_kept(before, after, at, id, from + 1);
    }
}

impl Editor {
    /// Where the focus leads, or why it leads nowhere.
    pub open spec fn focus(&self) -> Result<Focus, EditorError> {
        match self.windows.focused() {
            None => Err(EditorError::NoFocusedWindow),
            Some(w) => match index_of_id(self.buffers.buffers@, w.buffer_id, 0) {
                None => Err(EditorError::NoSuchBuffer),
                Some(b) => match self.buffers.buffers@[b].cursor_of(w.id) {
                    None => Err(EditorError::NoSuchView),
                    Some(c) => Ok(
                        Focus {
                            window: self.windows.focused_node.unwrap().0 as int,
                            buffer: b,
                            cursor: c,
                        },
                    ),
                },
            },
        }
    }

    /// `after` is what taking `action` at the focused cursor makes of the
    /// editor `before`, and `r` what taking it returns. Where the focus leads
    /// nowhere, nothing changes; otherwise the buffer that the focused window
    /// shows changes as `acted` says, and nothing else does.
    pub open spec fn cursor_acted(
        before: Editor,
        after: Editor,
        action: CursorAction,
        r: Result<(), EditorError>,
    ) -> bool {
        match before.focus() {
            Err(e) => r == Err::<(), EditorError>(e) && after == before,
            Ok(f) => {
                &&& r is Ok
                &&& after.mode == before.mode
                &&& after.should_quit == before.should_quit
                &&& after.windows == before.windows
                &&& buffers_changed_at(before.buffers, after.buffers, f.buffer)
                &&& acted(
                    before.buffers.buffers@[f.buffer],
                    after.buffers.buffers@[f.buffer],
                    before.windows.nodes@[f.window].id,
                    action,
                    Ok(()),
                )
            },
        }
    }

    /// The focused window of `before`, scrolled so that its caret is in view.
    pub open spec fn window_in_view(before: Editor, f: Focus, scrolloff: int) -> Window {
        let w = before.windows.nodes@[f.window];
        Window {
            offset: offset_in_view(
                before.buffers.buffers@[f.buffer].text(),
                f.cursor.start,
                w.offset,
                w.area,
                scrolloff,
            ),
            ..w
        }
    }

    /// `after` is the editor `before` with its focused window scrolled so
    /// that the caret is in view, and `r` what scrolling returns. Where the
    /// focus leads nowhere, nothing changes.
    pub open spec fn repositioned(
        before: Editor,
        after: Editor,
        scrolloff: int,
        r: Result<(), EditorError>,
    ) -> bool {
        match before.focus() {
            Err(e) => r == Err::<(), EditorError>(e) && after == before,
            Ok(f) => {
                &&& r is Ok
                &&& after.mode == before.mode
                &&& after.should_quit == before.should_quit
                &&& after.buffers == before.buffers
                &&& after.windows.focused_node == before.windows.focused_node
                &&& after.windows.area == before.windows.area
                &&& after.windows.nodes@ == before.windows.nodes@.update(
                    f.window,
                    Self::window_in_view(before, f, scrolloff),
                )
            },
        }
    }

    /// `after` is what opening the file `path` makes of the editor `before`,
    /// and `r` what opening it returns, where reading the file gave `read`.
    ///
    /// A file that a buffer came from is not read again: that buffer gets one
    /// more window, with a cursor on its first character, and the window gets
    /// the focus. For another file a buffer is added that holds what was read,
    /// with such a window. Where nothing could be read, nothing changes.
    pub open spec fn opened(
        before: Editor,
        after: Editor,
        path: Seq<char>,
        read: Option<Seq<char>>,
        r: Result<BufferId, EditorError>,
    ) -> bool {
        let window = WindowId(before.windows.nodes@.len() as usize);
        match index_of_path(before.buffers.buffers@, path, 0) {
            Some(i) => {
                let id = before.buffers.buffers@[i].ident();
                let at = index_of_id(before.buffers.buffers@, id, 0).unwrap();
                &&& r == Ok::<BufferId, EditorError>(id)
                &&& after.mode == before.mode
                &&& after.should_quit == before.should_quit
                &&& window_opened(before.windows, after.windows, id)
                &&& buffers_changed_at(before.buffers, after.buffers, at)
                &&& cursor_set(
                    before.buffers.buffers@[at],
                    after.buffers.buffers@[at],
                    window,
                    Span { start: 0, end: 1 },
                )
            },
            None => match read {
                Some(text) => {
                    let id = BufferId(before.buffers.next_buffer_id);
                    &&& r == Ok::<BufferId, EditorError>(id)
                    &&& after.mode == before.mode
                    &&& after.should_quit == before.should_quit
                    &&& window_opened(before.windows, after.windows, id)
                    &&& after.buffers.next_buffer_id == before.buffers.next_buffer_id + 1
                    &&& after.buffers.buffers@.drop_last() == before.buffers.buffers@
                    &&& after.buffers.buffers@.len() == before.buffers.buffers@.len() + 1
                    &&& after.buffers.buffers@.last().ident() == id
                    &&& after.buffers.buffers@.last().text() == text
                    &&& after.buffers.buffers@.last().path() == Some(path)
                    &&& forall|w: WindowId|
                        after.buffers.buffers@.last().cursor_of(w) == if w == window {
                            Some(Span { start: 0, end: 1 })
                        } else {
                            None
                        }
                },
                None => r == Err::<BufferId, EditorError>(EditorError::Unreadable) && after
                    == before,
            },
        }
    }

    /// The buffers and the windows are in order, and every window shows a
    /// buffer that exists and holds a cursor for it.
    pub open spec fn wf(&self) -> bool {
        &&& self.buffers.wf()
        &&& self.windows.wf()
        &&& forall|i: int|
            0 <= i < self.windows.nodes@.len() ==> {
                let w = #[trigger] self.windows.nodes@[i];
                &&& w.buffer_id.0 < self.buffers.buffers@.len()
                &&& self.buffers.buffers@[w.buffer_id.0 as int].cursor_of(w.id) is Some
            }
    }

    /// In an editor that is in order, the focus leads to the focused window,
    /// whenever there is one.
    pub proof fn lemma_focus_resolves(&self)
        requires
            self.wf(),
            self.windows.focused_node is Some,
        ensures
            self.focus() is Ok,
            self.focus().unwrap().window == self.windows.focused_node.unwrap().0,
            self.focus().unwrap().buffer == self.windows.focused().unwrap().buffer_id.0,
    {
        let i = self.windows.focused_node.unwrap().0 as int;
        let w = self.windows.nodes@[i];
        self.buffers.lemma_wf_index(w.buffer_id.0 as int, 0);
    }

    /// Opens the file `file_path`, of which `read` is what reading it gave,
    /// if it was read. A file that is open already need not be read.
    pub fn open(&mut self, file_path: &String, read: Option<Rope>) -> (r: Result<
        BufferId,
        EditorError,
    >)
        requires
            index_of_path(old(self).buffers.buffers@, file_path@, 0) is None
                ==> old(self).buffers.next_buffer_id < usize::MAX,
        ensures
            Self::opened(
                *old(self),
                *final(self),
                file_path@,
                match read {
                    Some(content) => Some(rope_chars(content)),
                    None => None,
                },
                r,
            ),
    {
        if let Some(buffer_id) = self.buffers.find_by_file_path(file_path) {
            proof {
                lemma_index_of_path(self.buffers.buffers@, file_path@, 0);
            }
            let window_id = self.windows.open(buffer_id);
            let at = self.buffers.position(buffer_id);
            proof {
                lemma_index_of_id(self.buffers.buffers@, buffer_id, 0);
            }
            match at {
                Some(at) => self.buffers.buffers[at].set_cursor(window_id, Cursor::new()),
                None => {},
            }
            return Ok(buffer_id);
        }
        let content = match read {
            Some(content) => content,
            None => {
                return Err(EditorError::Unreadable);
            },
        };
        let path = file_path.clone();
        let buffer_id = self.buffers.add(content, Some(path));
        let window_id = self.windows.open(buffer_id);
        let last = self.buffers.buffers.len() - 1;
        self.buffers.buffers[last].set_cursor(window_id, Cursor::new());
        proof {
            assert(final(self).buffers.buffers@.drop_last() =~= old(self).buffers.buffers@);
        }
        Ok(buffer_id)
    }

    /// An editor in normal mode, without buffers and windows, on a screen of
    /// `area`.
    pub fn new(area: Area) -> (e: Editor)
        ensures
            e.mode == Mode::Normal,
            !e.should_quit,
            e.buffers.wf(),
            e.buffers.buffers@.len() == 0,
            e.buffers.next_buffer_id == 0,
            e.windows.wf(),
            e.windows.nodes@.len() == 0,
            e.windows.focused_node == None::<WindowId>,
            e.windows.area == area,
            e.wf(),
    {
        Editor {
            mode: Mode::Normal,
            windows: Windows::new(area),
            buffers: Buffers::new(),
            should_quit: false,
        }
    }

    pub fn should_quit(&self) -> (b: bool)
        ensures
            b == self.should_quit,
    {
        self.should_quit
    }

    /// Finds where the focus leads: the place of the focused window and the
    /// place of the buffer that it shows.
    pub fn resolve_focus(&self) -> (r: Result<(usize, usize), EditorError>)
        ensures
            match r {
                Ok((window, buffer)) => {
                    &&& self.focus() is Ok
                    &&& self.focus().unwrap().window == window
                    &&& self.focus().unwrap().buffer == buffer
                    &&& window < self.windows.nodes@.len()
                    &&& buffer < self.buffers.buffers@.len()
                },
                Err(e) => self.focus() == Err::<Focus, EditorError>(e),
            },
    {
        let window = match self.windows.focused_node {
            Some(id) => id.0,
            None => {
                return Err(EditorError::NoFocusedWindow);
            },
        };
        if window >= self.windows.nodes.len() {
            return Err(EditorError::NoFocusedWindow);
        }
        let buffer_id = self.windows.nodes[window].buffer_id;
        let buffer = match self.buffers.position(buffer_id) {
            Some(b) => b,
            None => {
                return Err(EditorError::NoSuchBuffer);
            },
        };
        proof {
            lemma_index_of_id(self.buffers.buffers@, buffer_id, 0);
        }
        match self.buffers.buffers[buffer].get_cursor(self.windows.nodes[window].id) {
            Ok(_) => Ok((window, buffer)),
            Err(e) => Err(e),
        }
    }

    /// Takes `action` at the cursor of the focused window.
    pub fn handle_cursor_action(&mut self, action: CursorAction) -> (r: Result<(), EditorError>)
        ensures
            Self::cursor_acted(*old(self), *final(self), action, r),
    {
        let (window, buffer) = match self.resolve_focus() {
            Ok(found) => found,
            Err(e) => {
                return Err(e);
            },
        };
        let window_id = self.windows.nodes[window].id;
        self.buffers.buffers[buffer].handle_cursor_action(window_id, action)
    }

    /// Scrolls the focused window so that its caret is in view.
    pub fn position_cursor_in_view(&mut self, scrolloff: usize) -> (r: Result<(), EditorError>)
        ensures
            Self::repositioned(*old(self), *final(self), scrolloff as int, r),
    {
        let (window, buffer) = match self.resolve_focus() {
            Ok(found) => found,
            Err(e) => {
                return Err(e);
            },
        };
        let r = self.windows.nodes[window].position_cursor_in_view(
            &self.buffers.buffers[buffer],
            scrolloff,
        );
        proof {
            assert(final(self).windows.nodes@ =~= old(self).windows.nodes@.update(
                window as int,
                Self::window_in_view(*old(self), old(self).focus().unwrap(), scrolloff as int),
            ));
        }
        r
    }

    /// The cell of the screen on which the caret of the focused window lies:
    /// its column and line, less the scroll offset of the window, from the
    /// window's corner. There is none where the focus leads nowhere, where the
    /// caret lies before the part shown, or where the cell's number does not
    /// fit.
    pub fn cursor(&self) -> (p: Option<Position>)
        ensures
            p == self.caret_cell(),
    {
        let (window, buffer) = match self.resolve_focus() {
            Ok(found) => found,
            Err(_) => {
                return None;
            },
        };
        let focused = &self.windows.nodes[window];
        let buf = &self.buffers.buffers[buffer];
        let content = buf.content();
        let caret = match buf.get_cursor(focused.id) {
            Ok(c) => c,
            Err(_) => {
                return None;
            },
        };
        let at = caret.position(content);
        let line = content.char_to_line(at);
        let col = column_at(content, at);
        if line < focused.offset.vertical || col < focused.offset.horizontal {
            return None;
        }
        let x = (col - focused.offset.horizontal).checked_add(focused.area.x as usize);
        let y = (line - focused.offset.vertical).checked_add(focused.area.y as usize);
        match (x, y) {
            (Some(x), Some(y)) => Some(Position { x, y }),
            _ => None,
        }
    }

    /// The cell of the screen on which the caret of the focused window lies.
    pub open spec fn caret_cell(&self) -> Option<Position> {
        match self.focus() {
            Err(_) => None,
            Ok(f) => {
                let w = self.windows.nodes@[f.window];
                let text = self.buffers.buffers@[f.buffer].text();
                let at = position_in(text, f.cursor.start);
                let x = column_of(text, at) - w.offset.horizontal + w.area.x;
                let y = line_of_char(text, at) - w.offset.vertical + w.area.y;
                if column_of(text, at) < w.offset.horizontal || line_of_char(text, at)
                    < w.offset.vertical || x > usize::MAX || y > usize::MAX {
                    None
                } else {
                    Some(Position { x: x as usize, y: y as usize })
                }
            },
        }
    }
}

/// `after` is what the key `key` makes of the editor `before`, and `r` what
/// handling it returns.
///
/// In a mode without behaviour nothing changes, and the key is refused.
/// Otherwise the key's binding takes effect: the mode, the wish to quit, or
/// the buffer that the focused window shows changes. Then that window is
/// scrolled so that its caret is in view. Where the focus leads nowhere, no
/// buffer and no window changes, and the reason is returned; but the key
/// that opens the prompt opens it all the same.
pub open spec fn keyed(
    before: Editor,
    after: Editor,
    key: Key,
    r: Result<EventPropagation, EditorError>,
) -> bool {
    let bound = key_binding(before.mode, key);
    if bound is Unsupported {
        r == Err::<EventPropagation, EditorError>(EditorError::UnsupportedMode) && after == before
    } else {
        &&& after.mode == next_mode(before.mode, bound)
        &&& after.should_quit == (before.should_quit || bound is Quit)
        &&& match before.focus() {
            Err(e) => {
                &&& r == if bound is OpenPrompt {
                    Ok::<EventPropagation, EditorError>(propagation_of(bound))
                } else {
                    Err::<EventPropagation, EditorError>(e)
                }
                &&& after.buffers == before.buffers
                &&& after.windows == before.windows
            },
            Ok(f) => {
                let window = before.windows.nodes@[f.window];
                let buffer = after.buffers.buffers@[f.buffer];
                &&& r == Ok::<EventPropagation, EditorError>(propagation_of(bound))
                &&& buffers_changed_at(before.buffers, after.buffers, f.buffer)
                &&& match bound {
                    Binding::Cursor(action) => acted(
                        before.buffers.buffers@[f.buffer],
                        buffer,
                        window.id,
                        action,
                        Ok(()),
                    ),
                    _ => buffer == before.buffers.buffers@[f.buffer],
                }
                &&& buffer.cursor_of(window.id) is Some
                &&& after.windows.focused_node == before.windows.focused_node
                &&& after.windows.area == before.windows.area
                &&& after.windows.nodes@ == before.windows.nodes@.update(
                    f.window,
                    Window {
                        offset: offset_in_view(
                            buffer.text(),
                            buffer.cursor_of(window.id).unwrap().start,
                            window.offset,
                            window.area,
                            SCROLLOFF as int,
                        ),
                        ..window
                    },
                )
            },
        }
    }
}

/// Opening a file leaves an editor that is in order in order.
pub proof fn lemma_opened_keeps_wf(
    before: Editor,
    after: Editor,
    path: Seq<char>,
    read: Option<Seq<char>>,
    r: Result<BufferId, EditorError>,
)
    requires
        before.wf(),
        index_of_path(before.buffers.buffers@, path, 0) is None ==> before.buffers.next_buffer_id
            < usize::MAX,
        Editor::opened(before, after, path, read, r),
    ensures
        after.wf(),
{
    let window = WindowId(before.windows.nodes@.len() as usize);
    let known = index_of_path(before.buffers.buffers@, path, 0);
    if known is Some || read is Some {
        let id = r.unwrap();
        let at: int = if known is Some {
            lemma_index_of_path(before.buffers.buffers@, path, 0);
            lemma_index_of_id(before.buffers.buffers@, id, 0);
            before.buffers.lemma_wf_index(known.unwrap(), 0);
            index_of_id(before.buffers.buffers@, id, 0).unwrap()
        } else {
            assert(after.buffers.buffers@.drop_last() == before.buffers.buffers@);
            before.buffers.buffers@.len() as int
        };
        assert(id == BufferId(at as usize));
        assert forall|i: int| 0 <= i < after.buffers.buffers@.len() implies (
        #[trigger] after.buffers.buffers@[i]).ident() == BufferId(i as usize) by {
            if i < before.buffers.buffers@.len() && i != at {
                if known is Some {
                    assert(after.buffers.buffers@[i] == before.buffers.buffers@[i]);
                } else {
                    assert(after.buffers.buffers@.drop_last()[i] == before.buffers.buffers@[i]);
                }
                assert(before.buffers.buffers@[i].ident() == BufferId(i as usize));
            } else if i < before.buffers.buffers@.len() {
                assert(before.buffers.buffers@[i].ident() == BufferId(i as usize));
            }
        }
        assert forall|i: int| 0 <= i < after.windows.nodes@.len() implies (
        #[trigger] after.windows.nodes@[i]).id == WindowId(i as usize) by {
            if i < before.windows.nodes@.len() {
                assert(before.windows.nodes@[i].id == WindowId(i as usize));
            }
        }
        assert forall|i: int| 0 <= i < after.windows.nodes@.len() implies ((
        #[trigger] after.windows.nodes@[i]).focused <==> after.windows.focused_node == Some(
            WindowId(i as usize),
        )) by {
            if i < before.windows.nodes@.len() {
                assert(before.windows.nodes@[i].id == WindowId(i as usize));
            }
        }
        assert forall|i: int| 0 <= i < after.windows.nodes@.len() implies {
            let w = #[trigger] after.windows.nodes@[i];
            &&& w.buffer_id.0 < after.buffers.buffers@.len()
            &&& after.buffers.buffers@[w.buffer_id.0 as int].cursor_of(w.id) is Some
        } by {
            if i < before.windows.nodes@.len() {
                let w = before.windows.nodes@[i];
                assert(w.id == WindowId(i as usize));
                assert(w.buffer_id.0 < before.buffers.buffers@.len());
                let b = w.buffer_id.0 as int;
                if b != at {
                    if known is Some {
                        assert(after.buffers.buffers@[b] == before.buffers.buffers@[b]);
                    } else {
                        assert(after.buffers.buffers@.drop_last()[b] == before.buffers.buffers@[b]);
                    }
                }
            }
        }
    }
}

/// A key leaves an editor that is in order in order.
pub proof fn lemma_keyed_keeps_wf(
    before: Editor,
    after: Editor,
    key: Key,
    r: Result<EventPropagation, EditorError>,
)
    requires
        before.wf(),
        keyed(before, after, key, r),
    ensures
        after.wf(),
{
    let bound = key_binding(before.mode, key);
    if !(bound is Unsupported) {
        match before.focus() {
            Err(e) => {},
            Ok(f) => {
                assert forall|i: int| 0 <= i < after.windows.nodes@.len() implies {
                    let w = #[trigger] after.windows.nodes@[i];
                    &&& w.buffer_id.0 < after.buffers.buffers@.len()
                    &&& after.buffers.buffers@[w.buffer_id.0 as int].cursor_of(w.id) is Some
                } by {
                    let w = before.windows.nodes@[i];
                    assert(w.buffer_id.0 < before.buffers.buffers@.len());
                    if w.buffer_id.0 != f.buffer {
                        assert(after.buffers.buffers@[w.buffer_id.0 as int]
                            == before.buffers.buffers@[w.buffer_id.0 as int]);
                    }
                }
                assert forall|i: int| 0 <= i < after.buffers.buffers@.len() implies (
                #[trigger] after.buffers.buffers@[i]).ident() == BufferId(i as usize) by {
                    if i != f.buffer {
                        assert(after.buffers.buffers@[i] == before.buffers.buffers@[i]);
                    }
                }
                assert forall|i: int| 0 <= i < after.windows.nodes@.len() implies (
                #[trigger] after.windows.nodes@[i]).id == WindowId(i as usize) by {
                    assert(before.windows.nodes@[i].id == WindowId(i as usize));
                }
                assert forall|i: int| 0 <= i < after.windows.nodes@.len() implies ((
                #[trigger] after.windows.nodes@[i]).focused <==> after.windows.focused_node
                    == Some(WindowId(i as usize))) by {
                    assert(before.windows.nodes@[i].focused <==> before.windows.focused_node
                        == Some(WindowId(i as usize)));
                }
            },
        }
    }
}

/// The view of the editor that takes the keys.
#[derive(Debug, Clone, Copy, PartialEq, Eq, Structural)]
pub struct EditorView {}

impl EditorView {
    pub fn new() -> (v: EditorView)
        ensures
            v == (EditorView {  }),
    {
        EditorView {  }
    }

    /// Handles one key by the mode that the editor is in, then brings the
    /// caret of the focused window into view.
    pub fn handle_key_events(&mut self, event: &Key, editor: &mut Editor) -> (r: Result<
        EventPropagation,
        EditorError,
    >)
        ensures
            keyed(*old(editor), *final(editor), *event, r),
            *final(self) == *old(self),
    {
        let bound = binding(editor.mode, *event);
        match bound {
            Binding::Unsupported => {
                return Err(EditorError::UnsupportedMode);
            },
            Binding::Quit => {
                editor.should_quit = true;
            },
            Binding::Cursor(action) => {
                match editor.handle_cursor_action(action) {
                    Ok(()) => {},
                    Err(e) => {
                        return Err(e);
                    },
                }
                proof {
                    let f = old(editor).focus().unwrap();
                    let id = old(editor).windows.nodes@[f.window].buffer_id;
                    lemma_index_of_id_kept(
                        old(editor).buffers.buffers@,
                        editor.buffers.buffers@,
                        f.buffer,
                        id,
                        0,
                    );
                    lemma_index_of_id(old(editor).buffers.buffers@, id, 0);
                }
            },
            Binding::Enter(mode) => {
                editor.mode = mode;
            },
            Binding::OpenPrompt => {},
            Binding::Nothing => {},
        }
        match editor.position_cursor_in_view(SCROLLOFF) {
            Ok(()) => {},
            Err(e) => {
                match bound {
                    Binding::OpenPrompt => {},
                    _ => {
                        return Err(e);
                    },
                }
            },
        }
        match bound {
            Binding::OpenPrompt => Ok(EventPropagation::Consume(Some(Callback::OpenPrompt))),
            _ => Ok(EventPropagation::Consume(None)),
        }
    }

    /// Handles an event of the terminal: a key as `handle_key_events` does;
    /// any other event is left to the components below, and changes nothing.
    pub fn handle_events(&mut self, event: &Event, editor: &mut Editor) -> (r: Result<
        EventPropagation,
        EditorError,
    >)
        ensures
            *final(self) == *old(self),
            match *event {
                Event::Key(key) => keyed(*old(editor), *final(editor), key, r),
                _ => r == Ok::<EventPropagation, EditorError>(EventPropagation::Ignore(None))
                    && *final(editor) == *old(editor),
            },
    {
        match event {
            Event::Key(key) => self.handle_key_events(key, editor),
            _ => Ok(EventPropagation::Ignore(None)),
        }
    }

    /// The cell of the screen on which the caret lies.
    pub fn cursor(&self, editor: &Editor) -> (p: Option<Position>)
        ensures
            p == editor.caret_cell(),
    {
        editor.cursor()
    }
}

impl Default for EditorView {
    fn default() -> (v: EditorView)
        ensures
            v == (EditorView {  }),
    {
        EditorView {  }
    }
}

} // verus!
