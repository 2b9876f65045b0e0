//! The game board: cells, cursor, and the operations on them.

use vstd::prelude::*;

verus! {

/// A one-cell move of the cursor.
#[derive(Clone, Copy, Debug, PartialEq, Eq, Structural)]
pub enum MoveCommand {
    Right,
    Down,
    Left,
    Up,
}

/// The cursor after `cmd` on a `w` × `h` board: one cell in that direction,
/// held at the edges.
pub open spec fn moved(cmd: MoveCommand, x: int, y: int, w: int, h: int) -> (int, int) {
    match cmd {
        MoveCommand::Up => (x, if y == 0 { 0 } else { y - 1 }),
        MoveCommand::Down => (x, if y + 1 < h { y + 1 } else { h - 1 }),
        MoveCommand::Left => (if x == 0 { 0 } else { x - 1 }, y),
        MoveCommand::Right => (if x + 1 < w { x + 1 } else { w - 1 }, y),
    }
}

/// The cursor stands at the edge that `cmd` points to.
pub open spec fn at_edge(cmd: MoveCommand, x: int, y: int, w: int, h: int) -> bool {
    match cmd {
        MoveCommand::Up => y == 0,
        MoveCommand::Down => y == h - 1,
        MoveCommand::Left => x == 0,
        MoveCommand::Right => x == w - 1,
    }
}

/// The grid of cells (row-major, `true` = lit) and the cursor position.
#[derive(Clone, Debug)]
pub struct GameState {
    /// `game_board[row][column]`
    pub game_board: Vec<Vec<bool>>,
    pub cursor_x: usize,
    pub cursor_y: usize,
    pub board_width: usize,
    pub board_height: usize,
}

/// A grid of `h` rows of `w` cells each.
pub open spec fn is_grid(cells: Seq<Seq<bool>>, w: int, h: int) -> bool {
    &&& cells.len() == h
    &&& forall|r: int| 0 <= r < h ==> (#[trigger] cells[r]).len() == w
}

/// A grid of `h` rows of `w` unlit cells.
pub open spec fn blank(w: int, h: int) -> Seq<Seq<bool>> {
    Seq::new(h as nat, |r: int| Seq::new(w as nat, |c: int| false))
}

/// No cell of the grid is lit.
pub open spec fn all_unlit(cells: Seq<Seq<bool>>) -> bool {
    forall|r: int, c: int| 0 <= r < cells.len() && 0 <= c < cells[r].len() ==> !#[trigger] cells[r][c]
}

/// `(x, y)` names a cell of the grid.
pub open spec fn on_grid(cells: Seq<Seq<bool>>, x: int, y: int) -> bool {
    0 <= y < cells.len() && 0 <= x < cells[y].len()
}

/// Cell `(c, r)` lies within Chebyshev distance one of `(x, y)`.
pub open spec fn near(x: int, y: int, c: int, r: int) -> bool {
    x - 1 <= c <= x + 1 && y - 1 <= r <= y + 1
}

/// The grid after a toggle centred on `(x, y)`: every cell of the grid that is
/// near `(x, y)` is inverted; a centre off the grid changes nothing.
pub open spec fn toggled(cells: Seq<Seq<bool>>, x: int, y: int) -> Seq<Seq<bool>> {
    Seq::new(
        cells.len(),
        |r: int|
            Seq::new(
                cells[r].len(),
                |c: int|
                    if on_grid(cells, x, y) && near(x, y, c, r) {
                        !cells[r][c]
                    } else {
                        cells[r][c]
                    },
            ),
    )
}

/// The grid after toggles centred on each point of `pts`, first to last.
pub open spec fn toggled_all(cells: Seq<Seq<bool>>, pts: Seq<(int, int)>) -> Seq<Seq<bool>>
    decreases pts.len(),
{
    if pts.len() == 0 {
        cells
    } else {
        toggled(toggled_all(cells, pts.drop_last()), pts.last().0, pts.last().1)
    }
}

/// Relies on rand::random_range over `0..n`: a value drawn from the thread's
/// generator, always below `n`; it panics on an empty range, which `n > 0` rules out.
#[verifier::external_body]
fn random_below(n: usize) -> (r: usize)
    requires
        n > 0,
    ensures
        r < n,
{
    rand::random_range(0..n)
}

impl GameState {
    /// The cells as a sequence of rows.
    pub open spec fn cells(&self) -> Seq<Seq<bool>> {
        self.game_board@.map_values(|row: Vec<bool>| row@)
    }

    /// The board's invariant: positive dimensions, a grid of those dimensions,
    /// and a cursor on it.
    pub open spec fn wf(&self) -> bool {
        &&& self.board_width >= 1
        &&& self.board_height >= 1
        &&& is_grid(self.cells(), self.board_width as int, self.board_height as int)
        &&& self.cursor_x < self.board_width
        &&& self.cursor_y < self.board_height
    }

    /// A board of `width` × `height` unlit cells with the cursor at
    /// `(width / 2, height / 2)`; `None` where a dimension is zero.
    pub fn new(width: usize, height: usize) -> (r: Option<GameState>)
        ensures
            r is None <==> (width == 0 || height == 0),
            r matches Some(g) ==> {
                &&& g.wf()
                &&& g.board_width == width
                &&& g.board_height == height
                &&& g.cells() == blank(width as int, height as int)
                &&& g.cursor_x == width / 2
                &&& g.cursor_y == height / 2
            },
    {
        if width == 0 || height == 0 {
            return None;
        }
        let mut game_board: Vec<Vec<bool>> = Vec::new();
        let mut r: usize = 0;
        while r < height
            invariant
                r <= height,
                game_board@.len() == r,
                forall|i: int| 0 <= i < r ==> (#[trigger] game_board@[i])@ == Seq::new(width as nat, |c: int| false),
            decreases height - r,
        {
            let mut row: Vec<bool> = Vec::new();
            let mut c: usize = 0;
            while c < width
                invariant
                    c <= width,
                    row@ == Seq::new(c as nat, |k: int| false),
                decreases width - c,
            {
                row.push(false);
                c += 1;
                assert(row@ =~= Seq::new(c as nat, |k: int| false));
            }
            game_board.push(row);
            r += 1;
        }
        let g = GameState {
            game_board,
            cursor_x: width / 2,
            cursor_y: height / 2,
            board_width: width,
            board_height: height,
        };
        assert(g.cells() =~= blank(width as int, height as int));
        Some(g)
    }

    /// Inverts every cell within Chebyshev distance one of `(x_pos, y_pos)`,
    /// clipped to the board. A centre off the board changes nothing.
    pub fn flip_at_position(&mut self, x_pos: usize, y_pos: usize)
        requires
            old(self).wf(),
        ensures
            final(self).wf(),
            final(self).cells() == toggled(old(self).cells(), x_pos as int, y_pos as int),
            final(self).board_width == old(self).board_width,
            final(self).board_height == old(self).board_height,
            final(self).cursor_x == old(self).cursor_x,
            final(self).cursor_y == old(self).cursor_y,
            forall|r: int, c: int|
                0 <= r < old(self).board_height && 0 <= c < old(self).board_width
                    && !near(x_pos as int, y_pos as int, c, r)
                    ==> final(self).cells()[r][c] == #[trigger] old(self).cells()[r][c],
            (x_pos >= old(self).board_width || y_pos >= old(self).board_height)
                ==> final(self).cells() == old(self).cells(),
    {
        let ghost start = self.cells();
        let ghost x = x_pos as int;
        let ghost y = y_pos as int;
        if x_pos >= self.board_width || y_pos >= self.board_height {
            assert(!on_grid(start, x, y)) by {
                if 0 <= y < start.len() {
                    assert(start[y].len() == self.board_width);
                }
            }
            assert forall|r: int| 0 <= r < start.len() implies #[trigger] toggled(start, x, y)[r] =~= start[r] by {}
            assert(toggled(start, x, y) =~= start);
            return;
        }
        let last_row: usize = if y_pos + 1 < self.board_height { y_pos + 1 } else { self.board_height - 1 };
        let last_col: usize = if x_pos + 1 < self.board_width { x_pos + 1 } else { self.board_width - 1 };
        let mut row: usize = if y_pos >= 1 { y_pos - 1 } else { 0 };
        while row <= last_row
            invariant
                self.wf(),
                self.board_width == old(self).board_width,
                self.board_height == old(self).board_height,
                self.cursor_x == old(self).cursor_x,
                self.cursor_y == old(self).cursor_y,
                start == old(self).cells(),
                x == x_pos, y == y_pos,
                x_pos < self.board_width, y_pos < self.board_height,
                last_row < self.board_height, last_col < self.board_width,
                last_row == if y + 1 < self.board_height { y + 1 } else { self.board_height - 1 },
                last_col == if x + 1 < self.board_width { x + 1 } else { self.board_width - 1 },
                y - 1 <= row <= last_row + 1,
                forall|r: int, c: int| 0 <= r < self.board_height && 0 <= c < self.board_width ==>
                    #[trigger] self.cells()[r][c] == if r < row && near(x, y, c, r) { !start[r][c] } else { start[r][c] },
            decreases last_row + 1 - row,
        {
            let mut column: usize = if x_pos >= 1 { x_pos - 1 } else { 0 };
            while column <= last_col
                invariant
                    self.wf(),
                    self.board_width == old(self).board_width,
                    self.board_height == old(self).board_height,
                    self.cursor_x == old(self).cursor_x,
                    self.cursor_y == old(self).cursor_y,
                    start == old(self).cells(),
                    x == x_pos, y == y_pos,
                    x_pos < self.board_width, y_pos < self.board_height,
                    last_row < self.board_height, last_col < self.board_width,
                    last_row == if y + 1 < self.board_height { y + 1 } else { self.board_height - 1 },
                    last_col == if x + 1 < self.board_width { x + 1 } else { self.board_width - 1 },
                    y - 1 <= row <= last_row,
                    x - 1 <= column <= last_col + 1,
                    forall|r: int, c: int| 0 <= r < self.board_height && 0 <= c < self.board_width ==>
                        #[trigger] self.cells()[r][c] == if (r < row || (r == row && c < column)) && near(x, y, c, r) { !start[r][c] } else { start[r][c] },
                decreases last_col + 1 - column,
            {
                let ghost before = self.cells();
                assert(before[row as int] == self.game_board@[row as int]@);
                assert(before[row as int].len() == self.board_width);
                let lit = self.game_board[row][column];
                self.game_board[row][column] = !lit;
                assert(self.cells() =~= before.update(row as int, before[row as int].update(column as int, !lit)));
                assert(near(x, y, column as int, row as int));
                assert forall|r: int, c: int| 0 <= r < self.board_height && 0 <= c < self.board_width implies
                    #[trigger] self.cells()[r][c] == if (r < row || (r == row && c <= column)) && near(x, y, c, r) { !start[r][c] } else { start[r][c] } by {
                    if r != row {
                        assert(self.cells()[r] == before[r]);
                    } else {
                        assert(self.cells()[r] == before[r].update(column as int, !lit));
                    }
                    assert(before[r][c] == if (r < row || (r == row && c < column)) && near(x, y, c, r) { !start[r][c] } else { start[r][c] });
                }
                column += 1;
            }
            row += 1;
        }
        assert(on_grid(start, x, y));
        assert forall|r: int| 0 <= r < start.len() implies #[trigger] self.cells()[r] =~= toggled(start, x, y)[r] by {
            assert(self.cells()[r].len() == self.board_width);
            assert(start[r].len() == self.board_width);
        }
        assert(self.cells() =~= toggled(start, x, y));
    }

    /// Moves the cursor one cell in the direction of `move_command`, holding it
    /// at the board's edges.
    pub fn move_cursor(&mut self, move_command: MoveCommand)
        requires
            old(self).wf(),
        ensures
            final(self).wf(),
            (final(self).cursor_x as int, final(self).cursor_y as int) == moved(
                move_command,
                old(self).cursor_x as int,
                old(self).cursor_y as int,
                old(self).board_width as int,
                old(self).board_height as int,
            ),
            final(self).cursor_x < final(self).board_width,
            final(self).cursor_y < final(self).board_height,
            at_edge(
                move_command,
                old(self).cursor_x as int,
                old(self).cursor_y as int,
                old(self).board_width as int,
                old(self).board_height as int,
            ) ==> *final(self) == *old(self),
            final(self).game_board == old(self).game_board,
            final(self).board_width == old(self).board_width,
            final(self).board_height == old(self).board_height,
    {
        match move_command {
            MoveCommand::Up => {
                if self.cursor_y > 0 {
                    self.cursor_y = self.cursor_y - 1;
                }
            },
            MoveCommand::Down => {
                if self.cursor_y + 1 < self.board_height {
                    self.cursor_y = self.cursor_y + 1;
                }
            },
            MoveCommand::Left => {
                if self.cursor_x > 0 {
                    self.cursor_x = self.cursor_x - 1;
                }
            },
            MoveCommand::Right => {
                if self.cursor_x + 1 < self.board_width {
                    self.cursor_x = self.cursor_x + 1;
                }
            },
        }
    }

    /// Whether every cell is unlit.
    pub fn is_cleared(&self) -> (r: bool)
        requires
            self.wf(),
        ensures
            r == all_unlit(self.cells()),
    {
        let mut row: usize = 0;
        while row < self.board_height
            invariant
                self.wf(),
                row <= self.board_height,
                forall|r: int, c: int| 0 <= r < row && 0 <= c < self.cells()[r].len() ==> !#[trigger] self.cells()[r][c],
            decreases self.board_height - row,
        {
            assert(self.cells()[row as int] == self.game_board@[row as int]@);
            let line = &self.game_board[row];
            let mut column: usize = 0;
            while column < line.len()
                invariant
                    self.wf(),
                    row < self.board_height,
                    *line == self.game_board@[row as int],
                    self.cells()[row as int] == line@,
                    column <= line@.len(),
                    forall|r: int, c: int| 0 <= r < row && 0 <= c < self.cells()[r].len() ==> !#[trigger] self.cells()[r][c],
                    forall|c: int| 0 <= c < column ==> !#[trigger] line@[c],
                decreases line@.len() - column,
            {
                if line[column] {
                    assert(self.cells()[row as int][column as int]);
                    return false;
                }
                column += 1;
            }
            row += 1;
        }
        true
    }

    /// Applies `count` toggles, each centred on a cell drawn at random from the
    /// board. Whatever is drawn, the cells are the old cells toggled at `count`
    /// points of the board in turn, and nothing else changes.
    pub fn random_flips(&mut self, count: usize)
        requires
            old(self).wf(),
        ensures
            final(self).wf(),
            final(self).board_width == old(self).board_width,
            final(self).board_height == old(self).board_height,
            final(self).cursor_x == old(self).cursor_x,
            final(self).cursor_y == old(self).cursor_y,
            exists|pts: Seq<(int, int)>|
                {
                    &&& pts.len() == count
                    &&& forall|i: int| 0 <= i < pts.len() ==> on_grid(old(self).cells(), (#[trigger] pts[i]).0, pts[i].1)
                    &&& final(self).cells() == toggled_all(old(self).cells(), pts)
                },
    {
        let ghost start = self.cells();
        let ghost mut pts: Seq<(int, int)> = Seq::empty();
        let mut count_index: usize = count;
        while count_index > 0
            invariant
                self.wf(),
                self.board_width == old(self).board_width,
                self.board_height == old(self).board_height,
                self.cursor_x == old(self).cursor_x,
                self.cursor_y == old(self).cursor_y,
                start == old(self).cells(),
                is_grid(start, self.board_width as int, self.board_height as int),
                count_index <= count,
                pts.len() == count - count_index,
                forall|i: int| 0 <= i < pts.len() ==> on_grid(start, (#[trigger] pts[i]).0, pts[i].1),
                self.cells() == toggled_all(start, pts),
            decreases count_index,
        {
            let random_y = random_below(self.board_height);
            let random_x = random_below(self.board_width);
            self.flip_at_position(random_x, random_y);
            proof {
                let p = (random_x as int, random_y as int);
                assert(start[p.1].len() == self.board_width);
                let next = pts.push(p);
                assert(next.drop_last() =~= pts);
                pts = next;
            }
            count_index -= 1;
        }
    }

    /// A left press at terminal cell `(column, row)`: the cursor goes there,
    /// held within the board, and the toggle is applied at the cursor.
    pub fn click_at(&mut self, column: usize, row: usize)
        requires
            old(self).wf(),
        ensures
            final(self).wf(),
            final(self).board_width == old(self).board_width,
            final(self).board_height == old(self).board_height,
            final(self).cursor_x == if column < old(self).board_width { column } else { (old(self).board_width - 1) as usize },
            final(self).cursor_y == if row < old(self).board_height { row } else { (old(self).board_height - 1) as usize },
            final(self).cells() == toggled(old(self).cells(), final(self).cursor_x as int, final(self).cursor_y as int),
    {
        self.cursor_x = if column < self.board_width { column } else { self.board_width - 1 };
        self.cursor_y = if row < self.board_height { row } else { self.board_height - 1 };
        self.flip_at_position(self.cursor_x, self.cursor_y);
    }
}

} // verus!
