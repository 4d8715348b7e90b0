//! A frame: the cells of the screen as they are to be drawn.

use crate::Rect;
use vstd::prelude::*;

verus! {

/// One cell of the screen and the symbol it shows.
pub struct Cell {
    pub symbol: String,
}

impl Cell {
    pub fn set_cell(&mut self, character: &str)
        ensures
            final(self).symbol@ == character@,
    {
        self.symbol = character.to_owned();
    }

    pub fn symbol(&self) -> (s: &str)
        ensures
            s@ == self.symbol@,
    {
        self.symbol.as_str()
    }
}

impl Default for Cell {
    /// A cell that shows a space.
    fn default() -> (c: Cell)
        ensures
            c.symbol@ == " "@,
    {
        Cell { symbol: " ".to_owned() }
    }
}

/// The cells of a screen of `size`, row after row, and the place of the
/// terminal's cursor.
pub struct Frame {
    pub cursor_position: Option<(u16, u16)>,
    pub size: Rect,
    pub cells: Vec<Cell>,
}

impl Frame {
    /// The place in `cells` of the cell in column `x` of row `y`.
    pub open spec fn index_of(&self, x: int, y: int) -> int {
        y * self.size.spec_width() + x
    }

    /// A frame of `size` whose cells all show a space, with the cursor in the
    /// top left corner.
    pub fn new(size: Rect) -> (f: Frame)
        requires
            size.ordered(),
            size.spec_width() * size.spec_height() <= usize::MAX,
        ensures
            f.cursor_position == Some((0u16, 0u16)),
            f.size == size,
            f.cells@.len() == size.spec_width() * size.spec_height(),
            forall|i: int| 0 <= i < f.cells@.len() ==> (#[trigger] f.cells@[i]).symbol@ == " "@,
    {
        let count = size.area();
        let mut cells: Vec<Cell> = Vec::new();
        let mut i: usize = 0;
        while i < count
            invariant
                i <= count,
                cells@.len() == i,
                forall|j: int| 0 <= j < i ==> (#[trigger] cells@[j]).symbol@ == " "@,
            decreases count - i,
        {
            cells.push(Cell::default());
            i += 1;
        }
        Frame { cursor_position: Some((0, 0)), size, cells }
    }

    /// Lets the cell in column `x` of row `y` show `character`. Where the
    /// frame has no such cell, nothing changes.
    pub fn set_cell(&mut self, x: usize, y: usize, character: &str)
        requires
            old(self).size.min.x <= old(self).size.max.x,
        ensures
            final(self).cursor_position == old(self).cursor_position,
            final(self).size == old(self).size,
            final(self).cells@.len() == old(self).cells@.len(),
            forall|i: int|
                0 <= i < old(self).cells@.len() && i != old(self).index_of(x as int, y as int)
                    ==> #[trigger] final(self).cells@[i] == old(self).cells@[i],
            0 <= old(self).index_of(x as int, y as int) < old(self).cells@.len() ==> {
                final(self).cells@[old(self).index_of(x as int, y as int)].symbol@ == character@
            },
    {
        let width = self.size.width();
        let count = self.cells.len();
        let ghost at = self.index_of(x as int, y as int);
        proof {
            assert(at == y * width + x);
            assert(y * width >= 0) by (nonlinear_arith)
                requires
                    y >= 0,
                    width >= 0,
            ;
        }
        let row = y.checked_mul(width);
        let index = match row {
            Some(row) => row.checked_add(x),
            None => None,
        };
        match index {
            Some(index) => {
                if index < count {
                    self.cells[index].set_cell(character);
                }
            },
            None => {},
        }
    }

    /// The cell in column `x` of row `y`.
    pub fn get_cell(&self, x: usize, y: usize) -> (c: &Cell)
        requires
            self.size.min.x <= self.size.max.x,
            0 <= self.index_of(x as int, y as int) < self.cells@.len(),
        ensures
            *c == self.cells@[self.index_of(x as int, y as int)],
    {
        let width = self.size.width();
        let count = self.cells.len();
        proof {
            assert(self.index_of(x as int, y as int) == y * width + x);
            assert(y * width >= 0) by (nonlinear_arith)
                requires
                    y >= 0,
                    width >= 0,
            ;
            assert(y * width + x < count);
        }
        &self.cells[y * width + x]
    }

    pub fn set_cursor_position(&mut self, x: u16, y: u16)
        ensures
            final(self).cursor_position == Some((x, y)),
            final(self).size == old(self).size,
            final(self).cells == old(self).cells,
    {
        self.cursor_position = Some((x, y));
    }
}

} // verus!
