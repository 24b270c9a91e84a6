//! The rendering surface the core paints into: a grid-sized 2D buffer of
//! characters, stored column-major. The core only ever writes cells; it
//! never reads game state back out of the buffer.
use vstd::prelude::*;
use vstd::pervasive::VecAdditionalExecFns;

use crate::NUM_COLS;
use crate::NUM_ROWS;

verus! {

/// Position of the cell `(x, y)` in the column-major backing storage.
pub open spec fn cell_index(x: usize, y: usize) -> int {
    x * NUM_ROWS + y
}

/// The buffer with the cell `(x, y)` set to `c`.
pub open spec fn write_cell(cells: Seq<char>, x: usize, y: usize, c: char) -> Seq<char> {
    cells.update(cell_index(x, y), c)
}

pub struct Frame {
    /// The characters of the buffer, column-major: cell `(x, y)` lives at
    /// `x * NUM_ROWS + y`.
    pub cells: Vec<char>,
}

impl Frame {
    /// Exactly one character per grid cell.
    pub open spec fn wf(self) -> bool {
        self.cells@.len() == NUM_COLS * NUM_ROWS
    }

    /// The character currently at cell `(x, y)`.
    pub open spec fn spec_at(self, x: usize, y: usize) -> char {
        self.cells@[cell_index(x, y)]
    }

    /// A blank frame, every cell a space.
    pub fn new() -> (f: Frame)
        ensures
            f.wf(),
            forall|x: usize, y: usize|
                x < NUM_COLS && y < NUM_ROWS ==> f.spec_at(x, y) == ' ',
    {
        let mut cells: Vec<char> = Vec::new();
        let mut i: usize = 0;
        while i < NUM_COLS * NUM_ROWS
            invariant
                i <= NUM_COLS * NUM_ROWS,
                cells@.len() == i,
                forall|k: int| 0 <= k < i ==> cells@[k] == ' ',
            decreases NUM_COLS * NUM_ROWS - i,
        {
            cells.push(' ');
            i = i + 1;
        }
        Frame { cells }
    }

    /// Read the cell `(x, y)`.
    pub fn get_cell(&self, x: usize, y: usize) -> (c: char)
        requires
            self.wf(),
            x < NUM_COLS,
            y < NUM_ROWS,
        ensures
            c == self.spec_at(x, y),
    {
        self.cells[x * NUM_ROWS + y]
    }

    /// Write `c` into the cell `(x, y)`.
    pub fn set_cell(&mut self, x: usize, y: usize, c: char)
        requires
            old(self).wf(),
            x < NUM_COLS,
            y < NUM_ROWS,
        ensures
            final(self).wf(),
            final(self).cells@ == write_cell(old(self).cells@, x, y, c),
    {
        self.cells.set(x * NUM_ROWS + y, c);
    }
}

} // verus!
