//! The editing core of a modal terminal text editor: text positions and
//! grapheme navigation over a rope, cursors, buffers, windows with their
//! scrolling, and the dispatch of keys by mode.

pub mod action;
pub mod buffer;
pub mod cli;
pub mod components;
pub mod cursor;
pub mod editor;
pub mod frame;
pub mod keyboard;
pub mod mode;
pub mod movements;
pub mod prompt;
pub mod screen;
pub mod status_message;
pub mod syntax;
pub mod text;
pub mod window;

use vstd::prelude::*;

verus! {

/// Why the editor could not do what was asked of it.
#[derive(Debug, Clone, Copy, PartialEq, Eq, Structural)]
pub enum EditorError {
    /// No window has the focus.
    NoFocusedWindow,
    /// No buffer has the identity asked for.
    NoSuchBuffer,
    /// The buffer holds no cursor for the window: the window does not show it.
    NoSuchView,
    /// The editor is in a mode that defines no behaviour.
    UnsupportedMode,
    /// The file could not be read.
    Unreadable,
}

/// A point, or an extent, in whole screen cells.
#[derive(Debug, Clone, Copy, PartialEq, Eq, Structural)]
pub struct Vec2 {
    pub x: usize,
    pub y: usize,
}

impl Vec2 {
    /// The origin.
    pub fn zero() -> (v: Vec2)
        ensures
            v.x == 0,
            v.y == 0,
    {
        Vec2 { x: 0, y: 0 }
    }

    pub fn new(x: usize, y: usize) -> (v: Vec2)
        ensures
            v.x == x,
            v.y == y,
    {
        Vec2 { x, y }
    }

    /// The horizontal component, read as a width.
    pub fn width(&self) -> (w: usize)
        ensures
            w == self.x,
    {
        self.x
    }

    /// The vertical component, read as a height.
    pub fn height(&self) -> (h: usize)
        ensures
            h == self.y,
    {
        self.y
    }
}

/// A rectangle of screen cells between two corners.
#[derive(Debug, Copy, Clone)]
pub struct Rect {
    /// The start position of the rectangle, normally the top-left corner.
    pub min: Vec2,
    /// The end position of the rectangle, normally the bottom-right corner.
    pub max: Vec2,
}

impl Rect {
    /// `min` is not beyond `max` on either axis.
    pub open spec fn ordered(&self) -> bool {
        self.min.x <= self.max.x && self.min.y <= self.max.y
    }

    pub open spec fn spec_width(&self) -> int {
        self.max.x - self.min.x
    }

    pub open spec fn spec_height(&self) -> int {
        self.max.y - self.min.y
    }

    /// The empty rectangle at the origin.
    pub fn zero() -> (r: Rect)
        ensures
            r.min == (Vec2 { x: 0, y: 0 }),
            r.max == (Vec2 { x: 0, y: 0 }),
    {
        Rect { min: Vec2::zero(), max: Vec2::zero() }
    }

    pub fn new(x0: usize, y0: usize, x1: usize, y1: usize) -> (r: Rect)
        ensures
            r.min == (Vec2 { x: x0, y: y0 }),
            r.max == (Vec2 { x: x1, y: y1 }),
    {
        let min = Vec2::new(x0, y0);
        let max = Vec2::new(x1, y1);
        Rect { min, max }
    }

    pub fn from_corners(corner0: Vec2, corner1: Vec2) -> (r: Rect)
        ensures
            r.min == corner0,
            r.max == corner1,
    {
        Rect { min: corner0, max: corner1 }
    }

    /// The number of cells covered.
    pub fn area(&self) -> (a: usize)
        requires
            self.ordered(),
            self.spec_width() * self.spec_height() <= usize::MAX,
        ensures
            a == self.spec_width() * self.spec_height(),
    {
        self.width() * self.height()
    }

    pub fn width(&self) -> (w: usize)
        requires
            self.min.x <= self.max.x,
        ensures
            w == self.spec_width(),
    {
        self.max.x - self.min.x
    }

    pub fn height(&self) -> (h: usize)
        requires
            self.min.y <= self.max.y,
        ensures
            h == self.spec_height(),
    {
        self.max.y - self.min.y
    }
}

} // verus!
