//! Windows: the viewports through which buffers are seen, their scrolling,
//! and the registry that lays them out side by side.

use crate::buffer::{Buffer, BufferId};
use crate::cursor::{
    column_at, column_of, line_bounds, line_width, position_in, Cursor, Span,
};
use crate::text::{
    byte_offset, lemma_line_of_char_in_range, lemma_line_start_is, line_count, line_of_char,
    line_start, rope_chars, width,
};
use crate::EditorError;
use ratatui::layout::{Constraint, Layout, Rect};
use vstd::prelude::*;

verus! {

/// The identity of a window: its place in the registry.
#[derive(Debug, Clone, Copy, PartialEq, Eq, Hash, Structural)]
pub struct WindowId(pub usize);

/// A rectangle of the screen, in cells: its top left corner and its size.
#[derive(Debug, Clone, Copy, PartialEq, Eq, Structural)]
pub struct Area {
    pub x: u16,
    pub y: u16,
    pub width: u16,
    pub height: u16,
}

impl Area {
    pub fn new(x: u16, y: u16, width: u16, height: u16) -> (a: Area)
        ensures
            a == (Area { x, y, width, height }),
    {
        Area { x, y, width, height }
    }
}

impl Default for Area {
    fn default() -> (a: Area)
        ensures
            a == (Area { x: 0, y: 0, width: 0, height: 0 }),
    {
        Area { x: 0, y: 0, width: 0, height: 0 }
    }
}

/// How far a window is scrolled, in display cells.
#[derive(Debug, Copy, Clone, PartialEq, Eq, Structural)]
pub struct Offset {
    pub vertical: usize,
    pub horizontal: usize,
}

impl Default for Offset {
    fn default() -> (o: Offset)
        ensures
            o == (Offset { vertical: 0, horizontal: 0 }),
    {
        Offset { vertical: 0, horizontal: 0 }
    }
}

/// `a - b`, or 0 where `b` is the greater.
pub open spec fn minus_or_zero(a: int, b: int) -> int {
    if a > b {
        a - b
    } else {
        0
    }
}

/// The scroll offset of one axis after the caret has moved to `pos`.
///
/// `visible` cells of `total` are shown from `offset` on. The view is pulled
/// back so that `scrolloff` cells before the caret are shown. Where the caret
/// then lies in the last `scrolloff` cells shown, the view is pushed on, unless
/// it already ends where the content ends. The result is held within `usize`.
pub open spec fn scrolled(offset: int, pos: int, visible: int, total: int, scrolloff: int) -> int {
    let margin = minus_or_zero(visible, scrolloff);
    let pulled = if offset < minus_or_zero(pos, scrolloff) {
        offset
    } else {
        minus_or_zero(pos, scrolloff)
    };
    if pos >= pulled + margin && total != pulled + visible {
        if minus_or_zero(pos, margin) + 1 > usize::MAX {
            usize::MAX as int
        } else {
            minus_or_zero(pos, margin) + 1
        }
    } else {
        pulled
    }
}

/// Computes the scroll offset of one axis after the caret has moved to `pos`.
pub fn scroll(offset: usize, pos: usize, visible: usize, total: usize, scrolloff: usize) -> (r:
    usize)
    ensures
        r == scrolled(offset as int, pos as int, visible as int, total as int, scrolloff as int),
{
    let margin = visible.saturating_sub(scrolloff);
    let near = pos.saturating_sub(scrolloff);
    let pulled = if offset < near {
        offset
    } else {
        near
    };
    let past_margin = pos - pulled >= margin;
    let ends_with_content = total >= pulled && total - pulled == visible;
    if past_margin && !ends_with_content {
        pos.saturating_sub(margin).saturating_add(1)
    } else {
        pulled
    }
}

/// After scrolling, the caret lies in the part shown: at or after the
/// offset, and before the end of the cells that show content. This holds
/// where the scrolloff is less than the number of those cells.
pub proof fn lemma_scrolled_shows_caret(
    offset: int,
    pos: int,
    visible: int,
    total: int,
    scrolloff: int,
)
    requires
        0 <= offset,
        0 <= pos < total,
        pos <= usize::MAX,
        0 <= scrolloff < visible,
    ensures
        0 <= scrolled(offset, pos, visible, total, scrolloff) <= pos,
        pos <= scrolled(offset, pos, visible, total, scrolloff) + visible - 1,
        scrolled(offset, pos, visible, total, scrolloff) <= total - 1,
{
}

/// After scrolling, `scrolloff` cells are shown after the caret, unless the
/// view ends where the content ends. This holds where the scrolloff is less
/// than the number of cells that show content.
pub proof fn lemma_scrolled_keeps_margin_after(
    offset: int,
    pos: int,
    visible: int,
    total: int,
    scrolloff: int,
)
    requires
        0 <= offset,
        0 <= pos < total,
        pos <= usize::MAX,
        0 <= scrolloff < visible,
    ensures
        ({
            let after = scrolled(offset, pos, visible, total, scrolloff);
            pos + scrolloff <= after + visible - 1 || total == after + visible
        }),
{
}

/// After scrolling, `scrolloff` cells are shown before the caret, unless the
/// view starts where the content starts, or was pushed on to keep the cells
/// after the caret.
pub proof fn lemma_scrolled_keeps_margin_before(
    offset: int,
    pos: int,
    visible: int,
    total: int,
    scrolloff: int,
)
    requires
        0 <= offset,
        0 <= pos < total,
        pos <= usize::MAX,
        0 <= scrolloff < visible,
    ensures
        ({
            let after = scrolled(offset, pos, visible, total, scrolloff);
            after + scrolloff <= pos || after == 0 || pos + scrolloff == after + visible - 1
        }),
{
}

/// Where the scrolloff is no less than the number of cells that show
/// content, scrolling pushes the view one cell past the caret, unless the
/// view ends where the content ends.
pub proof fn lemma_scrolled_past_caret(
    offset: int,
    pos: int,
    visible: int,
    total: int,
    scrolloff: int,
)
    requires
        0 <= offset,
        0 <= pos < usize::MAX,
        0 <= visible <= scrolloff,
    ensures
        ({
            let after = scrolled(offset, pos, visible, total, scrolloff);
            let pulled = if offset < minus_or_zero(pos, scrolloff) {
                offset
            } else {
                minus_or_zero(pos, scrolloff)
            };
            if total == pulled + visible {
                after == pulled
            } else {
                after == pos + 1
            }
        }),
{
}

/// A viewport: a rectangle of the screen that shows one buffer from its
/// scroll offset on.
pub struct Window {
    pub id: WindowId,
    pub buffer_id: BufferId,
    pub focused: bool,
    pub offset: Offset,
    /// The rectangle of this window alone.
    pub area: Area,
    pub cursor: Cursor,
}

/// The number of cells of an extent that show content: one is kept for a
/// status line or a margin.
pub open spec fn visible_cells(extent: u16) -> int {
    minus_or_zero(extent as int, 1)
}

/// The scroll offsets that bring the caret at `start` of `text` into the
/// view of a window with `offset` and `area`.
pub open spec fn offset_in_view(
    text: Seq<char>,
    start: int,
    offset: Offset,
    area: Area,
    scrolloff: int,
) -> Offset {
    let at = position_in(text, start);
    let line = line_of_char(text, at) as int;
    Offset {
        vertical: scrolled(
            offset.vertical as int,
            line,
            visible_cells(area.height),
            line_count(text) as int,
            scrolloff,
        ) as usize,
        horizontal: scrolled(
            offset.horizontal as int,
            column_of(text, at) as int,
            visible_cells(area.width),
            line_width(text, line) as int,
            scrolloff,
        ) as usize,
    }
}

/// After `position_cursor_in_view`, the line of the caret is one of the lines
/// shown: `offset.vertical <= line <= offset.vertical + visible - 1`, and the
/// offset is the index of a line of the text. This holds where the scrolloff
/// is less than the number of lines that the window shows.
pub proof fn lemma_caret_line_in_view(
    text: Seq<char>,
    start: int,
    offset: Offset,
    area: Area,
    scrolloff: int,
)
    requires
        0 <= start,
        line_count(text) <= usize::MAX,
        0 <= scrolloff < visible_cells(area.height),
    ensures
        ({
            let line = line_of_char(text, position_in(text, start));
            let after = offset_in_view(text, start, offset, area, scrolloff);
            &&& after.vertical <= line <= after.vertical + visible_cells(area.height) - 1
            &&& after.vertical <= line_count(text) - 1
        }),
{
    let at = position_in(text, start);
    lemma_line_of_char_in_range(text, at);
    lemma_scrolled_shows_caret(
        offset.vertical as int,
        line_of_char(text, at) as int,
        visible_cells(area.height),
        line_count(text) as int,
        scrolloff,
    );
}

/// The first line that a window shows of `lines` lines, scrolled to
/// `vertical`: the line of that index, or the last line where there are
/// fewer.
pub open spec fn first_shown_line(lines: int, vertical: int) -> int {
    if vertical < minus_or_zero(lines, 1) {
        vertical
    } else {
        minus_or_zero(lines, 1)
    }
}

/// The last line that a window of `height` cells shows of `lines` lines,
/// scrolled to `vertical`.
pub open spec fn last_shown_line(lines: int, vertical: int, height: int) -> int {
    if minus_or_zero(vertical + height, 1) < minus_or_zero(lines, 1) {
        minus_or_zero(vertical + height, 1)
    } else {
        minus_or_zero(lines, 1)
    }
}

/// The bytes of `text` that a window with `offset` and `area` shows: from
/// the start of its first line to the end of its last.
pub open spec fn shown_bytes(text: Seq<char>, offset: Offset, area: Area) -> (int, int) {
    let lines = line_count(text) as int;
    (
        byte_offset(text, line_start(text, first_shown_line(lines, offset.vertical as int))) as int,
        byte_offset(
            text,
            line_start(
                text,
                last_shown_line(lines, offset.vertical as int, area.height as int) + 1,
            ),
        ) as int,
    )
}

/// The characters of `text` that a window with `offset` and `area` draws:
/// from the start of the line scrolled to, for as many lines as the area is
/// high, or to the end of the text.
pub open spec fn shown_chars(text: Seq<char>, offset: Offset, area: Area) -> (int, int) {
    let lines = line_count(text) as int;
    (
        line_start(text, offset.vertical as int),
        line_start(text, offset.vertical + area.height),
    )
}

impl Window {
    /// The range of bytes that the window shows of `buf`, for which the
    /// highlighter is asked.
    pub fn visible_byte_range(&self, buf: &Buffer) -> (range: (usize, usize))
        ensures
            (range.0 as int, range.1 as int) == shown_bytes(buf.text(), self.offset, self.area),
    {
        let content = buf.content();
        let last_line = content.len_lines().saturating_sub(1);
        let below = self.offset.vertical.saturating_add(self.area.height as usize).saturating_sub(
            1,
        );
        let last_visible_line = if below < last_line {
            below
        } else {
            last_line
        };
        let first_line = if self.offset.vertical < last_line {
            self.offset.vertical
        } else {
            last_line
        };
        let start = content.line_to_byte(first_line);
        let end = content.line_to_byte(last_visible_line + 1);
        (start, end)
    }

    /// The range of characters that the window draws of `buf`.
    pub fn visible_char_range(&self, buf: &Buffer) -> (range: (usize, usize))
        ensures
            (range.0 as int, range.1 as int) == shown_chars(buf.text(), self.offset, self.area),
    {
        let content = buf.content();
        let lines = content.len_lines();
        let len = content.len_chars();
        let start = if self.offset.vertical <= lines {
            content.line_to_char(self.offset.vertical)
        } else {
            len
        };
        let below = self.offset.vertical.saturating_add(self.area.height as usize);
        let end = if below <= lines {
            content.line_to_char(below)
        } else {
            len
        };
        proof {
            let t = rope_chars(*content);
            if self.offset.vertical <= lines {
                lemma_line_start_is(t, self.offset.vertical as int, start as int);
            }
            if below <= lines {
                lemma_line_start_is(t, below as int, end as int);
            }
        }
        (start, end)
    }

    /// A window without focus, scrolled to the start of its buffer.
    pub fn new(id: WindowId, buffer_id: BufferId, area: Area) -> (w: Window)
        ensures
            w.id == id,
            w.buffer_id == buffer_id,
            !w.focused,
            w.offset == (Offset { vertical: 0, horizontal: 0 }),
            w.area == area,
            w.cursor@ == (Span { start: 0, end: 1 }),
    {
        Window {
            id,
            buffer_id,
            focused: false,
            offset: Offset::default(),
            area,
            cursor: Cursor::default(),
        }
    }

    pub fn set_area(&mut self, area: Area)
        ensures
            *final(self) == (Window { area, ..*old(self) }),
    {
        self.area = area;
    }

    /// Scrolls the window after the caret which `buf` holds for it has
    /// moved, on each axis by itself, as `scrolled` says. Where `scrolloff` is
    /// less than the cells that show content, the caret is then in view, with
    /// `scrolloff` cells shown after it unless the view ends where the content
    /// ends. Where `scrolloff` is no less than those cells, none can be kept
    /// free: the view is pushed one cell past the caret, which is then out of
    /// view, unless the view ends where the content ends. Where `buf` holds no
    /// cursor for this window, nothing changes.
    pub fn position_cursor_in_view(&mut self, buf: &Buffer, scrolloff: usize) -> (r: Result<
        (),
        EditorError,
    >)
        ensures
            match buf.cursor_of(old(self).id) {
                Some(cursor) => r is Ok && *final(self) == (Window {
                    offset: offset_in_view(
                        buf.text(),
                        cursor.start,
                        old(self).offset,
                        old(self).area,
                        scrolloff as int,
                    ),
                    ..*old(self)
                }),
                None => r == Err::<(), EditorError>(EditorError::NoSuchView) && *final(self)
                    == *old(self),
            },
    {
        let cursor = match buf.get_cursor(self.id) {
            Ok(c) => c,
            Err(e) => {
                return Err(e);
            },
        };
        let content = buf.content();
        let at = cursor.position(content);
        let y = content.char_to_line(at);
        proof {
            lemma_line_of_char_in_range(rope_chars(*content), at as int);
        }
        let height = (self.area.height as usize).saturating_sub(1);
        let vertical = scroll(self.offset.vertical, y, height, content.len_lines(), scrolloff);

        let x = column_at(content, at);
        let screen_width = (self.area.width as usize).saturating_sub(1);
        let (first, next) = line_bounds(content, y);
        let cur_line_width = width(content, first, next);
        let horizontal = scroll(self.offset.horizontal, x, screen_width, cur_line_width, scrolloff);

        self.offset = Offset { vertical, horizontal };
        Ok(())
    }
}

/// The number of columns of `area` that lie on the screen: its width, or
/// what is left of it up to the greatest column number.
pub open spec fn span_of(area: Area) -> int {
    if area.x + area.width > u16::MAX {
        u16::MAX - area.x
    } else {
        area.width as int
    }
}

/// The sum of the first `upto` of `widths`.
pub open spec fn width_sum(widths: Seq<u16>, upto: int) -> int
    decreases upto,
{
    if upto <= 0 {
        0
    } else {
        width_sum(widths, upto - 1) + widths[upto - 1]
    }
}

/// `column` is the column of `whole` that starts `before` cells from its
/// left edge and is `width` cells wide. It has the top and the height of
/// `whole`.
pub open spec fn is_column(column: Area, whole: Area, before: int, width: int) -> bool {
    &&& column.x == whole.x + before
    &&& column.width == width
    &&& column.y == whole.y
    &&& column.height == whole.height
}

/// `Layout::split`, of a layout made by `Layout::horizontal` with one
/// `Constraint::Length` for each column, where the lengths add up to no more
/// than the width of `area` that lies on the screen. There are as many
/// columns as lengths, each with the top and the height of `area` and with
/// its own length as its width. The first starts at the left edge of `area`,
/// and each starts where the one before it ends. What the lengths leave over
/// stays free at the right.
///
/// A layout made so holds its columns together at the start, and gives each
/// the length asked for where all of them fit in.
#[verifier::external_body]
pub(crate) fn layout_columns(area: Area, widths: &Vec<u16>) -> (columns: Vec<Area>)
    requires
        width_sum(widths@, widths@.len() as int) <= span_of(area),
    ensures
        columns@.len() == widths@.len(),
        forall|i: int|
            0 <= i < columns@.len() ==> is_column(
                #[trigger] columns@[i],
                area,
                width_sum(widths@, i),
                widths@[i] as int,
            ),
{
    let constraints = widths.iter().map(|w| Constraint::Length(*w));
    let whole = Rect { x: area.x, y: area.y, width: area.width, height: area.height };
    let rects = Layout::horizontal(constraints).split(whole);
    rects.iter().map(|r| Area { x: r.x, y: r.y, width: r.width, height: r.height }).collect()
}

/// The first index from `from` on at which `nodes` holds a window that shows
/// the buffer `buffer_id`.
pub open spec fn index_of_buffer(nodes: Seq<Window>, buffer_id: BufferId, from: int) -> Option<int>
    decreases nodes.len() - from,
{
    if from >= nodes.len() {
        None
    } else if nodes[from].buffer_id == buffer_id {
        Some(from)
    } else {
        index_of_buffer(nodes, buffer_id, from + 1)
    }
}

/// The width of tile `i` of `count` that share `span` cells: an equal share
/// for each, and one cell more for as many of the first as there are cells
/// left over.
pub open spec fn tile_width(span: int, count: int, i: int) -> int {
    if count <= 0 {
        0
    } else if i < span % count {
        span / count + 1
    } else {
        span / count
    }
}

/// The number of cells that lie before tile `i` of `count` that share `span`
/// cells.
pub open spec fn tile_start(span: int, count: int, i: int) -> int {
    if count <= 0 {
        0
    } else if i < span % count {
        i * (span / count) + i
    } else {
        i * (span / count) + span % count
    }
}

/// `tile` is the area of window `i` of `count` on a screen of `whole`: a
/// column of the screen's top and height, of its share of the width, behind
/// the tiles of the windows before it.
pub open spec fn is_tile(tile: Area, whole: Area, count: int, i: int) -> bool {
    is_column(
        tile,
        whole,
        tile_start(span_of(whole), count, i),
        tile_width(span_of(whole), count, i),
    )
}

/// Each tile starts where the one before it ends.
pub proof fn lemma_tile_start_step(span: int, count: int, i: int)
    requires
        0 <= span,
        0 <= i < count,
    ensures
        tile_start(span, count, i + 1) == tile_start(span, count, i) + tile_width(span, count, i),
        0 <= tile_width(span, count, i),
        0 <= tile_start(span, count, i),
{
    let share = span / count;
    assert((i + 1) * share == i * share + share) by (nonlinear_arith);
    assert(0 <= i * share) by (nonlinear_arith)
        requires
            0 <= i,
            0 <= share,
    ;
}

/// The tiles span the width: the first starts at its start, and the last
/// ends at its end.
pub proof fn lemma_tiles_span(span: int, count: int)
    requires
        0 <= span,
        0 < count,
    ensures
        tile_start(span, count, 0) == 0,
        tile_start(span, count, count) == span,
{
    let share = span / count;
    assert(0 * share == 0) by (nonlinear_arith);
    assert(span == count * share + span % count) by {
        vstd::arithmetic::div_mod::lemma_fundamental_div_mod(span, count);
    }
    assert(count * share == share * count) by (nonlinear_arith);
    assert(count * (span / count) == count * share);
}

/// Widths that are those of tiles add up to where the tiles start.
pub proof fn lemma_width_sum_of_tiles(widths: Seq<u16>, span: int, count: int, upto: int)
    requires
        0 <= span,
        0 <= upto <= count,
        count <= widths.len(),
        forall|j: int| 0 <= j < count ==> widths[j] == tile_width(span, count, j),
    ensures
        width_sum(widths, upto) == tile_start(span, count, upto),
    decreases upto,
{
    if upto > 0 {
        lemma_width_sum_of_tiles(widths, span, count, upto - 1);
        lemma_tile_start_step(span, count, upto - 1);
        assert(widths[upto - 1] == tile_width(span, count, upto - 1));
    } else if count > 0 {
        lemma_tiles_span(span, count);
    }
}

/// The tiles of the windows cover the part of the screen that can be shown,
/// side by side: the first starts at the left edge, each starts where the one
/// before it ends, and the last ends at the right edge. No two of them differ
/// in width by more than one cell.
pub proof fn lemma_tiles_cover_screen(tiles: Seq<Area>, whole: Area)
    requires
        tiles.len() > 0,
        forall|i: int| 0 <= i < tiles.len() ==> is_tile(tiles[i], whole, tiles.len() as int, i),
    ensures
        tiles[0].x == whole.x,
        forall|i: int|
            0 <= i < tiles.len() - 1 ==> (#[trigger] tiles[i]).x + tiles[i].width == tiles[i
                + 1].x,
        tiles.last().x + tiles.last().width == whole.x + span_of(whole),
        forall|i: int, j: int|
            0 <= i < tiles.len() && 0 <= j < tiles.len() ==> (#[trigger] tiles[i]).width - (
            #[trigger] tiles[j]).width <= 1,
        forall|i: int|
            0 <= i < tiles.len() ==> (#[trigger] tiles[i]).y == whole.y && tiles[i].height
                == whole.height,
{
    let span = span_of(whole);
    let count = tiles.len() as int;
    lemma_tiles_span(span, count);
    assert(is_tile(tiles[0], whole, count, 0));
    assert forall|i: int| 0 <= i < tiles.len() - 1 implies (#[trigger] tiles[i]).x
        + tiles[i].width == tiles[i + 1].x by {
        lemma_tile_start_step(span, count, i);
        assert(is_tile(tiles[i + 1], whole, count, i + 1));
    }
    lemma_tile_start_step(span, count, count - 1);
    assert(is_tile(tiles[count - 1], whole, count, count - 1));
}

/// The widths that `count` windows get of `span` cells: equal shares, with
/// the cells left over going one each to the first windows.
pub fn column_widths(span: u16, count: usize) -> (widths: Vec<u16>)
    ensures
        widths@.len() == count,
        forall|i: int|
            0 <= i < count ==> (#[trigger] widths@[i]) == tile_width(span as int, count as int, i),
        forall|i: int|
            0 <= i <= count ==> #[trigger] width_sum(widths@, i) == tile_start(
                span as int,
                count as int,
                i,
            ),
        width_sum(widths@, count as int) <= span,
{
    let mut widths: Vec<u16> = Vec::new();
    if count == 0 {
        return widths;
    }
    let share = span as usize / count;
    let left_over = span as usize % count;
    proof {
        vstd::arithmetic::div_mod::lemma_fundamental_div_mod(span as int, count as int);
        assert(0 <= (count as int) * (share as int) <= span) by (nonlinear_arith)
            requires
                span == (count as int) * (share as int) + left_over,
                0 <= left_over,
                0 <= share,
                0 < count,
        ;
        assert(left_over > 0 ==> share < span) by (nonlinear_arith)
            requires
                span == (count as int) * (share as int) + left_over,
                0 <= share,
                0 < count,
        ;
    }
    let mut i: usize = 0;
    while i < count
        invariant
            i <= count,
            0 < count,
            widths@.len() == i,
            share == span as int / count as int,
            left_over == span as int % count as int,
            share <= span,
            left_over > 0 ==> share < span,
            forall|j: int|
                0 <= j < i ==> (#[trigger] widths@[j]) == tile_width(span as int, count as int, j),
        decreases count - i,
    {
        let width = if i < left_over {
            share + 1
        } else {
            share
        };
        widths.push(width as u16);
        i += 1;
    }
    proof {
        assert forall|k: int| 0 <= k <= count implies #[trigger] width_sum(widths@, k)
            == tile_start(span as int, count as int, k) by {
            lemma_width_sum_of_tiles(widths@, span as int, count as int, k);
        }
        lemma_tiles_span(span as int, count as int);
    }
    widths
}

/// The windows on the screen, in the order in which they were added.
pub struct Windows {
    pub nodes: Vec<Window>,
    pub focused_node: Option<WindowId>,
    /// The area that all windows share.
    pub area: Area,
}

impl Windows {
    /// Every window has the identity that is its place in the registry, the
    /// focus is on a window that exists, and that window alone is marked as
    /// focused.
    pub open spec fn wf(&self) -> bool {
        &&& forall|i: int|
            0 <= i < self.nodes@.len() ==> (#[trigger] self.nodes@[i]).id == WindowId(i as usize)
        &&& match self.focused_node {
            Some(id) => id.0 < self.nodes@.len(),
            None => true,
        }
        &&& forall|i: int|
            0 <= i < self.nodes@.len() ==> ((#[trigger] self.nodes@[i]).focused
                <==> self.focused_node == Some(WindowId(i as usize)))
    }

    /// Whether some window has the identity `id`.
    pub open spec fn has(&self, id: WindowId) -> bool {
        exists|i: int| 0 <= i < self.nodes@.len() && (#[trigger] self.nodes@[i]).id == id
    }

    /// The window that has the focus.
    pub open spec fn focused(&self) -> Option<Window> {
        match self.focused_node {
            Some(id) => if id.0 < self.nodes@.len() {
                Some(self.nodes@[id.0 as int])
            } else {
                None
            },
            None => None,
        }
    }

    /// No windows yet, on a screen of `area`.
    pub fn new(area: Area) -> (w: Windows)
        ensures
            w.wf(),
            w.nodes@.len() == 0,
            w.focused_node == None::<WindowId>,
            w.area == area,
    {
        Windows { nodes: Vec::new(), focused_node: None, area }
    }

    /// Adds a window that shows the buffer `buffer_id`, and tiles the screen
    /// anew among all windows. The new window's identity is its place in the
    /// registry. The windows that were there change in their areas alone.
    pub fn add(&mut self, buffer_id: BufferId) -> (id: WindowId)
        ensures
            id == WindowId(old(self).nodes@.len() as usize),
            final(self).nodes@.len() == old(self).nodes@.len() + 1,
            final(self).focused_node == old(self).focused_node,
            final(self).area == old(self).area,
            forall|i: int|
                0 <= i < old(self).nodes@.len() ==> same_but_area(
                    #[trigger] final(self).nodes@[i],
                    old(self).nodes@[i],
                ),
            same_but_area(final(self).nodes@.last(), Window::new_spec(id, buffer_id)),
            forall|i: int|
                0 <= i < final(self).nodes@.len() ==> is_tile(
                    (#[trigger] final(self).nodes@[i]).area,
                    old(self).area,
                    final(self).nodes@.len() as int,
                    i,
                ),
            old(self).wf() ==> final(self).wf(),
    {
        let id = WindowId(self.nodes.len());
        self.nodes.push(Window::new(id, buffer_id, self.area));
        self.reorder_window_size();
        id
    }

    /// Adds a window that shows the buffer `buffer_id` and gives it the
    /// focus.
    pub fn open(&mut self, buffer_id: BufferId) -> (id: WindowId)
        ensures
            id == WindowId(old(self).nodes@.len() as usize),
            window_opened(*old(self), *final(self), buffer_id),
            old(self).wf() ==> final(self).wf(),
    {
        let id = self.add(buffer_id);
        proof {
            assert(self.nodes@[self.nodes@.len() - 1].id == id);
        }
        self.focus(id);
        id
    }

    /// Gives the focus to the window `id`, and takes it from every other. Where
    /// no window has that identity, nothing changes.
    pub fn focus(&mut self, id: WindowId)
        ensures
            final(self).area == old(self).area,
            final(self).nodes@.len() == old(self).nodes@.len(),
            old(self).has(id) ==> final(self).focused_node == Some(id) && forall|i: int|
                0 <= i < old(self).nodes@.len() ==> #[trigger] final(self).nodes@[i] == (Window {
                    focused: old(self).nodes@[i].id == id,
                    ..old(self).nodes@[i]
                }),
            !old(self).has(id) ==> *final(self) == *old(self),
            old(self).wf() ==> final(self).wf(),
    {
        let mut found = false;
        let mut i: usize = 0;
        while i < self.nodes.len()
            invariant
                i <= self.nodes@.len(),
                found <==> exists|j: int| 0 <= j < i && (#[trigger] self.nodes@[j]).id == id,
            decreases self.nodes@.len() - i,
        {
            if self.nodes[i].id == id {
                found = true;
            }
            i += 1;
        }
        if !found {
            return ;
        }
        self.focused_node = Some(id);
        let mut k: usize = 0;
        while k < self.nodes.len()
            invariant
                k <= self.nodes@.len(),
                self.nodes@.len() == old(self).nodes@.len(),
                self.area == old(self).area,
                self.focused_node == Some(id),
                forall|j: int|
                    0 <= j < k ==> #[trigger] self.nodes@[j] == (Window {
                        focused: old(self).nodes@[j].id == id,
                        ..old(self).nodes@[j]
                    }),
                forall|j: int| k <= j < self.nodes@.len() ==> self.nodes@[j] == old(self).nodes@[j],
            decreases self.nodes@.len() - k,
        {
            let is_it = self.nodes[k].id == id;
            self.nodes[k].focused = is_it;
            k += 1;
        }
    }

    /// The first window that shows the buffer `buffer_id`.
    pub fn get_by_buffer_id(&self, buffer_id: BufferId) -> (w: Option<&Window>)
        ensures
            match index_of_buffer(self.nodes@, buffer_id, 0) {
                Some(i) => w == Some(&self.nodes@[i]),
                None => w == None::<&Window>,
            },
    {
        let mut i: usize = 0;
        while i < self.nodes.len()
            invariant
                i <= self.nodes@.len(),
                index_of_buffer(self.nodes@, buffer_id, 0) == index_of_buffer(
                    self.nodes@,
                    buffer_id,
                    i as int,
                ),
            decreases self.nodes@.len() - i,
        {
            if self.nodes[i].buffer_id == buffer_id {
                return Some(&self.nodes[i]);
            }
            i += 1;
        }
        None
    }

    /// The window that has the focus.
    pub fn get_focused(&self) -> (w: Option<&Window>)
        ensures
            match self.focused() {
                Some(f) => w == Some(&f),
                None => w == None::<&Window>,
            },
    {
        match self.focused_node {
            Some(id) => {
                if id.0 < self.nodes.len() {
                    Some(&self.nodes[id.0])
                } else {
                    None
                }
            },
            None => None,
        }
    }

    /// The window that has the focus, to be changed.
    pub fn get_focused_mut(&mut self) -> (w: Option<&mut Window>)
        ensures
            match old(self).focused() {
                Some(f) => {
                    &&& w is Some
                    &&& *w.unwrap() == f
                    &&& final(self).focused_node == old(self).focused_node
                    &&& final(self).area == old(self).area
                    &&& final(self).nodes@ == old(self).nodes@.update(
                        old(self).focused_node.unwrap().0 as int,
                        *final(w.unwrap()),
                    )
                },
                None => w is None && *final(self) == *old(self),
            },
    {
        match self.focused_node {
            Some(id) => {
                if id.0 < self.nodes.len() {
                    Some(&mut self.nodes[id.0])
                } else {
                    None
                }
            },
            None => None,
        }
    }

    pub fn is_empty(&self) -> (b: bool)
        ensures
            b == (self.nodes@.len() == 0),
    {
        self.nodes.len() == 0
    }

    pub fn count(&self) -> (n: usize)
        ensures
            n == self.nodes@.len(),
    {
        self.nodes.len()
    }

    /// Gives the windows the areas `columns`, in order, as far as both go.
    /// Nothing else changes.
    pub fn assign_areas(&mut self, columns: &Vec<Area>)
        ensures
            final(self).focused_node == old(self).focused_node,
            final(self).area == old(self).area,
            final(self).nodes@.len() == old(self).nodes@.len(),
            forall|i: int|
                0 <= i < old(self).nodes@.len() ==> #[trigger] final(self).nodes@[i] == (Window {
                    area: if i < columns@.len() {
                        columns@[i]
                    } else {
                        old(self).nodes@[i].area
                    },
                    ..old(self).nodes@[i]
                }),
    {
        let mut i: usize = 0;
        while i < self.nodes.len() && i < columns.len()
            invariant
                self.nodes@.len() == old(self).nodes@.len(),
                self.area == old(self).area,
                self.focused_node == old(self).focused_node,
                forall|j: int|
                    0 <= j < i ==> j < columns@.len() && #[trigger] self.nodes@[j] == (Window {
                        area: columns@[j],
                        ..old(self).nodes@[j]
                    }),
                forall|j: int| i <= j < self.nodes@.len() ==> self.nodes@[j] == old(self).nodes@[j],
            decreases self.nodes@.len() - i,
        {
            let area = columns[i];
            self.nodes[i].set_area(area);
            i += 1;
        }
    }

    /// Tiles the screen among the windows: each gets a column of the
    /// screen's top and height, side by side in the order of the windows,
    /// from the left edge to the right. The columns are equally wide, but
    /// that the cells left over go one each to the first windows. Nothing but
    /// the areas of the windows changes.
    pub fn reorder_window_size(&mut self)
        ensures
            final(self).focused_node == old(self).focused_node,
            final(self).area == old(self).area,
            final(self).nodes@.len() == old(self).nodes@.len(),
            forall|i: int|
                0 <= i < old(self).nodes@.len() ==> {
                    &&& same_but_area(#[trigger] final(self).nodes@[i], old(self).nodes@[i])
                    &&& is_tile(
                        final(self).nodes@[i].area,
                        old(self).area,
                        old(self).nodes@.len() as int,
                        i,
                    )
                },
    {
        let span = self.area.x.saturating_add(self.area.width) - self.area.x;
        let widths = column_widths(span, self.nodes.len());
        let columns = layout_columns(self.area, &widths);
        self.assign_areas(&columns);
        proof {
            assert forall|i: int| 0 <= i < old(self).nodes@.len() implies is_tile(
                (#[trigger] self.nodes@[i]).area,
                old(self).area,
                old(self).nodes@.len() as int,
                i,
            ) by {
                assert(is_column(
                    columns@[i],
                    old(self).area,
                    width_sum(widths@, i),
                    widths@[i] as int,
                ));
            }
        }
    }
}

/// `after` is what opening a window onto the buffer `buffer_id` makes of the
/// windows `before`: the new window comes last and has the focus, which every
/// other window loses, and the screen is tiled anew among all windows.
pub open spec fn window_opened(before: Windows, after: Windows, buffer_id: BufferId) -> bool {
    let id = WindowId(before.nodes@.len() as usize);
    &&& after.area == before.area
    &&& after.focused_node == Some(id)
    &&& after.nodes@.len() == before.nodes@.len() + 1
    &&& forall|i: int|
        0 <= i < before.nodes@.len() ==> same_but_area(
            #[trigger] after.nodes@[i],
            Window { focused: before.nodes@[i].id == id, ..before.nodes@[i] },
        )
    &&& same_but_area(
        after.nodes@.last(),
        Window { focused: true, ..Window::new_spec(id, buffer_id) },
    )
    &&& forall|i: int|
        0 <= i < after.nodes@.len() ==> is_tile(
            (#[trigger] after.nodes@[i]).area,
            before.area,
            after.nodes@.len() as int,
            i,
        )
}

/// Two windows that differ in their areas at most.
pub open spec fn same_but_area(a: Window, b: Window) -> bool {
    a == (Window { area: a.area, ..b })
}

impl Window {
    /// A new window, but for its area.
    pub open spec fn new_spec(id: WindowId, buffer_id: BufferId) -> Window {
        Window {
            id,
            buffer_id,
            focused: false,
            offset: Offset { vertical: 0, horizontal: 0 },
            area: Area { x: 0, y: 0, width: 0, height: 0 },
            cursor: Cursor { range: 0..1 },
        }
    }
}

} // verus!
