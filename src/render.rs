//! What the board looks like: one glyph per cell, row by row.

use vstd::prelude::*;
use crate::board::GameState;

verus! {

/// The glyph of the cell under the cursor (light shade).
pub const CURSOR_GLYPH: char = '\u{2591}';

/// The glyph of every other cell (full block).
pub const CELL_GLYPH: char = '\u{2588}';

/// One painted cell: its symbol, and whether it takes the lit colouring
/// (bold yellow) rather than the unlit one (dark grey).
#[derive(Clone, Copy, Debug, PartialEq, Eq, Structural)]
pub struct Glyph {
    pub symbol: char,
    pub lit: bool,
}

/// The glyph painted for cell `(x, y)` of `g`.
pub open spec fn glyph_of(g: GameState, x: int, y: int) -> Glyph {
    Glyph {
        symbol: if x == g.cursor_x && y == g.cursor_y { CURSOR_GLYPH } else { CELL_GLYPH },
        lit: g.cells()[y][x],
    }
}

impl GameState {
    /// The glyph painted for cell `(x, y)`.
    pub fn glyph_at(&self, x: usize, y: usize) -> (r: Glyph)
        requires
            self.wf(),
            x < self.board_width,
            y < self.board_height,
        ensures
            r == glyph_of(*self, x as int, y as int),
    {
        assert(self.cells()[y as int] == self.game_board@[y as int]@);
        let symbol = if x == self.cursor_x && y == self.cursor_y { CURSOR_GLYPH } else { CELL_GLYPH };
        Glyph { symbol, lit: self.game_board[y][x] }
    }

    /// The whole frame: `frame[y][x]` is the glyph of cell `(x, y)`, rows top
    /// to bottom, columns left to right.
    pub fn frame(&self) -> (r: Vec<Vec<Glyph>>)
        requires
            self.wf(),
        ensures
            r@.len() == self.board_height,
            forall|y: int| 0 <= y < self.board_height ==> (#[trigger] r@[y])@.len() == self.board_width,
            forall|y: int, x: int| 0 <= y < self.board_height && 0 <= x < self.board_width
                ==> #[trigger] r@[y]@[x] == glyph_of(*self, x, y),
    {
        let mut out: Vec<Vec<Glyph>> = Vec::new();
        let mut y: usize = 0;
        while y < self.board_height
            invariant
                self.wf(),
                y <= self.board_height,
                out@.len() == y,
                forall|j: int| 0 <= j < y ==> (#[trigger] out@[j])@.len() == self.board_width,
                forall|j: int, x: int| 0 <= j < y && 0 <= x < self.board_width
                    ==> #[trigger] out@[j]@[x] == glyph_of(*self, x, j),
            decreases self.board_height - y,
        {
            let mut line: Vec<Glyph> = Vec::new();
            let mut x: usize = 0;
            while x < self.board_width
                invariant
                    self.wf(),
                    y < self.board_height,
                    x <= self.board_width,
                    line@.len() == x,
                    forall|i: int| 0 <= i < x ==> #[trigger] line@[i] == glyph_of(*self, i, y as int),
                decreases self.board_width - x,
            {
                line.push(self.glyph_at(x, y));
                x += 1;
            }
            out.push(line);
            y += 1;
        }
        out
    }
}

} // verus!
