//! The display buffer: a fixed 64x32 grid of boolean cells, row-major.
//!
//! The buffer itself never wraps coordinates; callers (the sprite-draw
//! operation) reduce coordinates modulo the width and height before
//! touching a cell.

use vstd::prelude::*;

verus! {

use crate::SCREEN_WIDTH_C8;
use crate::SCREEN_HEIGHT_C8;

/// Number of cells in the display buffer.
pub const SCREEN_CELLS: usize = 2048;

/// The monochrome display buffer, row-major: the cell at column `x` and
/// row `y` lives at index `x + y * 64`.
pub struct Screen {
    buffer: Vec<bool>,
}

impl View for Screen {
    type V = Seq<bool>;

    closed spec fn view(&self) -> Seq<bool> {
        self.buffer@
    }
}

impl Screen {
    /// A display buffer is well formed when it holds exactly one cell per
    /// grid position.
    pub open spec fn wf(&self) -> bool {
        self@.len() == SCREEN_CELLS
    }

    /// A fresh buffer: every cell off.
    pub fn new() -> (s: Screen)
        ensures
            s.wf(),
            s@ == Seq::new(SCREEN_CELLS as nat, |i: int| false),
    {
        let mut buffer: Vec<bool> = Vec::new();
        let mut i: usize = 0;
        while i < SCREEN_CELLS
            invariant
                i <= SCREEN_CELLS,
                buffer@.len() == i,
                forall|j: int| 0 <= j < i ==> !buffer@[j],
            decreases SCREEN_CELLS - i,
        {
            buffer.push(false);
            i = i + 1;
        }
        proof {
            assert(buffer@ =~= Seq::new(SCREEN_CELLS as nat, |i: int| false));
        }
        Screen { buffer }
    }

    /// Turns every cell off.
    pub fn clear(&mut self)
        requires
            old(self).wf(),
        ensures
            final(self).wf(),
            final(self)@ == Seq::new(SCREEN_CELLS as nat, |i: int| false),
    {
        let mut i: usize = 0;
        while i < SCREEN_CELLS
            invariant
                i <= SCREEN_CELLS,
                self@.len() == SCREEN_CELLS,
                forall|j: int| 0 <= j < i ==> !self@[j],
            decreases SCREEN_CELLS - i,
        {
            self.buffer.set(i, false);
            i = i + 1;
        }
        proof {
            assert(self@ =~= Seq::new(SCREEN_CELLS as nat, |i: int| false));
        }
    }

    /// Exposes the full cell sequence, row-major, for a presentation
    /// collaborator to render.
    pub fn get_screen(&self) -> (r: &[bool])
        ensures
            r@ == self@,
    {
        self.buffer.as_slice()
    }

    /// Sets the cell at column `x`, row `y`. The caller guarantees the
    /// coordinates are in range.
    pub fn set_pixel(&mut self, x: usize, y: usize, flag: bool)
        requires
            old(self).wf(),
            x < SCREEN_WIDTH_C8,
            y < SCREEN_HEIGHT_C8,
        ensures
            final(self).wf(),
            final(self)@ == old(self)@.update(x + y * SCREEN_WIDTH_C8, flag),
    {
        self.buffer.set(x + y * SCREEN_WIDTH_C8, flag);
    }

    /// Reads the cell at column `x`, row `y`. The caller guarantees the
    /// coordinates are in range.
    pub fn get_pixel(&self, x: usize, y: usize) -> (r: bool)
        requires
            self.wf(),
            x < SCREEN_WIDTH_C8,
            y < SCREEN_HEIGHT_C8,
        ensures
            r == self@[x + y * SCREEN_WIDTH_C8],
    {
        self.buffer[x + y * SCREEN_WIDTH_C8]
    }
}

} // verus!
