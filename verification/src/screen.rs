//! The layout of a plain screen: rows of text beside a gutter of line
//! numbers, above a status bar.

use vstd::prelude::*;

verus! {

#[derive(Debug, Clone, Copy, PartialEq, Eq, Structural)]
pub enum Direction {
    Up,
    Down,
    Left,
    Right,
}

/// A cell of the screen, or a scroll offset, in columns and rows.
#[derive(Debug, Clone, Copy, PartialEq, Eq, Structural)]
pub struct Position {
    pub x: u16,
    pub y: u16,
}

impl Default for Position {
    fn default() -> (p: Position)
        ensures
            p == (Position { x: 0, y: 0 }),
    {
        Position { x: 0, y: 0 }
    }
}

#[derive(Debug, Clone, Copy, PartialEq, Eq, Structural)]
pub struct StatusBar {
    pub height: u16,
    pub width: u16,
}

/// The size of the part of the terminal that shows text, the width of the
/// gutter beside it, and the status bar below it.
#[derive(Debug, Clone, Copy, PartialEq, Eq, Structural)]
pub struct Screen {
    pub width: u16,
    pub height: u16,
    pub gutter_size: u16,
    pub status_bar: StatusBar,
}

/// The part of a line of `line_len` bytes that a screen `width` columns wide
/// shows when scrolled `offset_x` columns: where it starts and how long it
/// is. A line that ends before the offset shows nothing.
pub open spec fn shown_part(line_len: int, offset_x: int, width: int) -> (int, int) {
    let rest = if line_len > offset_x {
        line_len - offset_x
    } else {
        0
    };
    let len = if rest < width {
        rest
    } else {
        width
    };
    (
        if len == 0 {
            0
        } else {
            offset_x
        },
        len,
    )
}

/// The number that the gutter shows for `row` while the caret is on row
/// `cursor_y`: on the caret's row the number of the line, counted from 1, and
/// on every other row its distance from the caret's.
pub open spec fn gutter_number_of(row: int, cursor_y: int) -> int {
    if row % 0x1_0000 == cursor_y {
        row + 1
    } else if row > cursor_y {
        row - cursor_y
    } else {
        cursor_y - row
    }
}

impl Screen {
    /// The screen of a terminal of `columns` by `rows`: the last row is the
    /// status bar, and the gutter is four columns wide.
    pub fn new(columns: u16, rows: u16) -> (s: Screen)
        requires
            rows >= 1,
        ensures
            s == (Screen {
                width: columns,
                height: (rows - 1) as u16,
                gutter_size: 4,
                status_bar: StatusBar { height: 1, width: columns },
            }),
    {
        let status_bar = StatusBar { height: 1, width: columns };
        Screen { width: columns, height: rows - status_bar.height, gutter_size: 4, status_bar }
    }

    /// The part of a line of `line_len` bytes that is drawn: its start and
    /// its length.
    pub fn visible_part(&self, line_len: usize, offset: &Position) -> (part: (usize, usize))
        ensures
            (part.0 as int, part.1 as int) == shown_part(
                line_len as int,
                offset.x as int,
                self.width as int,
            ),
            part.0 + part.1 <= line_len,
    {
        let rest = line_len.saturating_sub(offset.x as usize);
        let len = if rest < self.width as usize {
            rest
        } else {
            self.width as usize
        };
        let start = if len == 0 {
            0
        } else {
            offset.x as usize
        };
        (start, len)
    }

    /// The number that the gutter shows for `row`.
    pub fn gutter_number(row: usize, cursor: &Position) -> (n: usize)
        requires
            row < usize::MAX,
        ensures
            n == gutter_number_of(row as int, cursor.y as int),
    {
        if row % 0x1_0000 == cursor.y as usize {
            row + 1
        } else if row > cursor.y as usize {
            row - cursor.y as usize
        } else {
            cursor.y as usize - row
        }
    }

    /// The number of blanks between the left part of the status bar, which is
    /// `start_len` columns long, and its right part, which is `info_len`
    /// columns long and ends where the screen ends.
    pub fn status_gap(&self, start_len: u16, info_len: u16) -> (gap: u16)
        ensures
            gap == if self.width - info_len > start_len {
                self.width - info_len - start_len
            } else {
                0
            },
    {
        self.width.saturating_sub(info_len).saturating_sub(start_len)
    }

    /// The cell at which the message of index `index` starts, of which
    /// `text_len` columns are to be shown: the messages end at the right edge,
    /// the first on the last row of the text, each further one a row higher.
    /// There is none for a message that is longer than the screen is wide, or
    /// for which no row is left.
    pub fn message_cell(&self, text_len: u16, index: u16) -> (cell: Option<(u16, u16)>)
        ensures
            match cell {
                Some((x, y)) => {
                    &&& text_len <= self.width
                    &&& index < self.height
                    &&& x == self.width - text_len
                    &&& y == self.height - 1 - index
                },
                None => text_len > self.width || index >= self.height,
            },
    {
        if text_len > self.width || index >= self.height {
            None
        } else {
            Some((self.width - text_len, self.height - 1 - index))
        }
    }

    /// The cell of the terminal on which the caret at `pos` is drawn when the
    /// text is scrolled by `offset`: right of the gutter. There is none where
    /// the caret lies before the part shown or the cell's number does not
    /// fit.
    pub fn cursor_cell(&self, pos: &Position, offset: &Position) -> (cell: Option<(u16, u16)>)
        ensures
            match cell {
                Some((x, y)) => {
                    &&& pos.x >= offset.x
                    &&& pos.y >= offset.y
                    &&& x == pos.x - offset.x + self.gutter_size
                    &&& y == pos.y - offset.y
                },
                None => pos.x < offset.x || pos.y < offset.y || pos.x - offset.x
                    + self.gutter_size > u16::MAX,
            },
    {
        if pos.x < offset.x || pos.y < offset.y {
            return None;
        }
        match (pos.x - offset.x).checked_add(self.gutter_size) {
            Some(x) => Some((x, pos.y - offset.y)),
            None => None,
        }
    }
}

} // verus!
