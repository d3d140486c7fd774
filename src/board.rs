//! The discrete automaton's grid, with the editing cursor and render mode
//! that ride along with it.
use vstd::prelude::*;
use crate::cell::{Cell, RenderMode};
use crate::rules::{alive_among, is_rect, live_neighbors, moore_offset_at, neighbor, next_generation, next_state, rule};
use crate::torus::emod;

verus! {

pub const MIN_ROWS: usize = 10;
pub const MAX_ROWS: usize = 125;
pub const MIN_COLS: usize = 10;
pub const MAX_COLS: usize = 125;

/// A requested dimension, clamped into `lo..=hi`.
pub open spec fn clamp_dim(n: int, lo: int, hi: int) -> int {
    if n < lo {
        lo
    } else if n > hi {
        hi
    } else {
        n
    }
}

/// A `rows` x `cols` grid of dead cells.
pub open spec fn dead_grid(rows: int, cols: int) -> Seq<Seq<Cell>> {
    Seq::new(rows as nat, |r: int| Seq::new(cols as nat, |c: int| Cell::Dead))
}

/// The grid that a row-major sequence of coins gives: `true` a dead
/// cell, `false` a live one.
pub open spec fn coin_grid(coins: Seq<bool>, rows: int, cols: int) -> Seq<Seq<Cell>> {
    Seq::new(
        rows as nat,
        |r: int| Seq::new(cols as nat, |c: int| if coins[r * cols + c] { Cell::Dead } else { Cell::Alive }),
    )
}

/// What a board holds: its cells by row, the cursor as `(col, row)`, and
/// the render mode.
pub struct BoardView {
    pub cells: Seq<Seq<Cell>>,
    pub cursor: (int, int),
    pub mode: RenderMode,
}

/// A new board: dead cells with the requested dimensions clamped into
/// range, the cursor in the top-left corner, ASCII glyphs.
pub open spec fn fresh_view(rows: int, cols: int) -> BoardView {
    BoardView {
        cells: dead_grid(
            clamp_dim(rows, MIN_ROWS as int, MAX_ROWS as int),
            clamp_dim(cols, MIN_COLS as int, MAX_COLS as int),
        ),
        cursor: (0, 0),
        mode: RenderMode::Ascii,
    }
}

impl BoardView {
    pub open spec fn rows(self) -> int {
        self.cells.len() as int
    }

    pub open spec fn cols(self) -> int {
        self.cells[0].len() as int
    }

    /// Dimensions in range, all rows of one length, cursor on the grid.
    pub open spec fn wf(self) -> bool {
        &&& MIN_ROWS <= self.rows() <= MAX_ROWS
        &&& MIN_COLS <= self.cols() <= MAX_COLS
        &&& is_rect(self.cells, self.rows(), self.cols())
        &&& 0 <= self.cursor.0 < self.cols()
        &&& 0 <= self.cursor.1 < self.rows()
    }
}

/// Relies on rand::random::<bool>: a fair coin from the thread's generator.
#[verifier::external_body]
fn coin() -> bool {
    rand::random::<bool>()
}

pub struct Board {
    board: Vec<Vec<Cell>>,
    render_mode: RenderMode,
    cursor: (usize, usize),
}

impl View for Board {
    type V = BoardView;

    closed spec fn view(&self) -> BoardView {
        BoardView {
            cells: self.board@.map_values(|row: Vec<Cell>| row@),
            cursor: (self.cursor.0 as int, self.cursor.1 as int),
            mode: self.render_mode,
        }
    }
}

fn dead_rows(rows: usize, cols: usize) -> (b: Vec<Vec<Cell>>)
    ensures
        b@.map_values(|row: Vec<Cell>| row@) == dead_grid(rows as int, cols as int),
{
    let mut b: Vec<Vec<Cell>> = Vec::new();
    let mut r: usize = 0;
    while r < rows
        invariant
            r <= rows,
            b@.len() == r,
            forall|i: int| 0 <= i < r ==> #[trigger] b@[i]@ == Seq::new(cols as nat, |c: int| Cell::Dead),
        decreases rows - r,
    {
        let mut row: Vec<Cell> = Vec::new();
        let mut c: usize = 0;
        while c < cols
            invariant
                c <= cols,
                row@.len() == c,
                forall|j: int| 0 <= j < c ==> #[trigger] row@[j] == Cell::Dead,
            decreases cols - c,
        {
            row.push(Cell::Dead);
            c += 1;
        }
        assert(row@ =~= Seq::new(cols as nat, |c: int| Cell::Dead));
        b.push(row);
        r += 1;
    }
    assert(b@.map_values(|row: Vec<Cell>| row@) =~= dead_grid(rows as int, cols as int));
    b
}

impl Board {
    /// A board of dead cells. Dimensions outside `MIN..=MAX` are clamped to
    /// the nearest bound, never refused.
    pub fn new(rows: usize, cols: usize) -> (b: Self)
        ensures
            b@.wf(),
            b@ == fresh_view(rows as int, cols as int),
    {
        let rows = if rows < MIN_ROWS {
            MIN_ROWS
        } else if rows > MAX_ROWS {
            MAX_ROWS
        } else {
            rows
        };
        let cols = if cols < MIN_COLS {
            MIN_COLS
        } else if cols > MAX_COLS {
            MAX_COLS
        } else {
            cols
        };
        let b = Board { board: dead_rows(rows, cols), render_mode: RenderMode::Ascii, cursor: (0, 0) };
        assert(b@.cells[0] == Seq::new(cols as nat, |c: int| Cell::Dead));
        b
    }

    pub fn rows(&self) -> (r: usize)
        requires
            self@.wf(),
        ensures
            r == self@.rows(),
    {
        self.board.len()
    }

    pub fn cols(&self) -> (r: usize)
        requires
            self@.wf(),
        ensures
            r == self@.cols(),
    {
        proof {
            assert(self@.cells[0] == self.board@[0]@);
        }
        self.board[0].len()
    }

    /// The cell at `(row, col)`.
    pub fn cell(&self, row: usize, col: usize) -> (r: Cell)
        requires
            self@.wf(),
            row < self@.rows(),
            col < self@.cols(),
        ensures
            r == self@.cells[row as int][col as int],
    {
        proof {
            assert(self@.cells[row as int] == self.board@[row as int]@);
        }
        self.board[row][col]
    }

    /// The cursor, as `(col, row)`.
    pub fn cursor(&self) -> (r: (usize, usize))
        ensures
            r.0 == self@.cursor.0,
            r.1 == self@.cursor.1,
    {
        self.cursor
    }

    pub fn render_mode(&self) -> (r: RenderMode)
        ensures
            r == self@.mode,
    {
        self.render_mode
    }

    /// The number of live cells among the eight toroidal neighbours of `(row, col)`.
    pub fn count_n(&self, row: usize, col: usize) -> (n: usize)
        requires
            self@.wf(),
            row < self@.rows(),
            col < self@.cols(),
        ensures
            n == live_neighbors(self@.cells, row as int, col as int),
    {
        let g = Ghost(self@.cells);
        let rows = self.rows();
        let cols = self.cols();
        let mut n: usize = 0;
        let mut k: usize = 0;
        while k < 8
            invariant
                self@.wf(),
                g@ == self@.cells,
                rows == self@.rows(),
                cols == self@.cols(),
                row < rows,
                col < cols,
                k <= 8,
                n == alive_among(g@, row as int, col as int, k as int),
                n <= k,
            decreases 8 - k,
        {
            let (dr, dc) = moore_offset_at(k);
            let r = emod(row as i32 + dr, rows as i32) as usize;
            let c = emod(col as i32 + dc, cols as i32) as usize;
            proof {
                let p = neighbor(rows as int, cols as int, row as int, col as int, k as int);
                assert(p == (r as int, c as int));
            }
            if self.cell(r, c) == Cell::Alive {
                n += 1;
            }
            k += 1;
        }
        n
    }

    /// Advances one generation. Every new cell is computed from the grid as
    /// it was before the call; the new grid replaces it only when complete.
    pub fn next_gen(&mut self)
        requires
            old(self)@.wf(),
        ensures
            final(self)@.cells == next_generation(old(self)@.cells),
            final(self)@.cursor == old(self)@.cursor,
            final(self)@.mode == old(self)@.mode,
            final(self)@.wf(),
    {
        let g = Ghost(self@.cells);
        let rows = self.rows();
        let cols = self.cols();
        let mut new_board: Vec<Vec<Cell>> = Vec::new();
        let mut ir: usize = 0;
        while ir < rows
            invariant
                self@.wf(),
                g@ == self@.cells,
                rows == self@.rows(),
                cols == self@.cols(),
                ir <= rows,
                new_board@.len() == ir,
                forall|i: int| 0 <= i < ir ==> #[trigger] new_board@[i]@ == next_generation(g@)[i],
            decreases rows - ir,
        {
            let mut row: Vec<Cell> = Vec::new();
            let mut ic: usize = 0;
            while ic < cols
                invariant
                    self@.wf(),
                    g@ == self@.cells,
                    rows == self@.rows(),
                    cols == self@.cols(),
                    ir < rows,
                    ic <= cols,
                    row@.len() == ic,
                    forall|j: int| 0 <= j < ic ==> #[trigger] row@[j] == rule(
                        g@[ir as int][j],
                        live_neighbors(g@, ir as int, j) as int,
                    ),
                decreases cols - ic,
            {
                let n = self.count_n(ir, ic);
                let next = next_state(self.cell(ir, ic), n);
                row.push(next);
                ic += 1;
            }
            assert(row@ =~= next_generation(g@)[ir as int]);
            new_board.push(row);
            ir += 1;
        }
        self.board = new_board;
        assert(self@.cells =~= next_generation(g@));
    }

    /// Flips the cell at `(row, col)`; every other cell keeps its state.
    /// The coordinates must lie on the board: callers keep them in range.
    pub fn toggle(&mut self, row: usize, col: usize)
        requires
            old(self)@.wf(),
            row < old(self)@.rows(),
            col < old(self)@.cols(),
        ensures
            final(self)@.cells == old(self)@.cells.update(
                row as int,
                old(self)@.cells[row as int].update(col as int, old(self)@.cells[row as int][col as int].flipped()),
            ),
            final(self)@.cursor == old(self)@.cursor,
            final(self)@.mode == old(self)@.mode,
            final(self)@.wf(),
    {
        let ghost g = self@.cells;
        self.board[row][col].toggle();
        assert(self@.cells =~= g.update(row as int, g[row as int].update(col as int, g[row as int][col as int].flipped())));
    }

    /// Flips the cell under the cursor.
    pub fn toggle_cur_cell(&mut self)
        requires
            old(self)@.wf(),
        ensures
            final(self)@.cells == old(self)@.cells.update(
                old(self)@.cursor.1,
                old(self)@.cells[old(self)@.cursor.1].update(
                    old(self)@.cursor.0,
                    old(self)@.cells[old(self)@.cursor.1][old(self)@.cursor.0].flipped(),
                ),
            ),
            final(self)@.cursor == old(self)@.cursor,
            final(self)@.mode == old(self)@.mode,
            final(self)@.wf(),
    {
        let (c, r) = self.cursor;
        self.toggle(r, c);
    }

    /// Kills every cell; dimensions, cursor and mode stay.
    pub fn clear(&mut self)
        requires
            old(self)@.wf(),
        ensures
            final(self)@.cells == dead_grid(old(self)@.rows(), old(self)@.cols()),
            final(self)@.cursor == old(self)@.cursor,
            final(self)@.mode == old(self)@.mode,
            final(self)@.wf(),
    {
        let rows = self.rows();
        let cols = self.cols();
        self.board = dead_rows(rows, cols);
        assert(self@.cells[0] == Seq::new(cols as nat, |c: int| Cell::Dead));
    }

    /// Sets every cell from a coin, in row-major order: a `true` coin
    /// gives a dead cell, a `false` one a live cell.
    pub fn randomize_with(&mut self, coins: &Vec<bool>)
        requires
            old(self)@.wf(),
            coins@.len() == old(self)@.rows() * old(self)@.cols(),
        ensures
            final(self)@.cells == coin_grid(coins@, old(self)@.rows(), old(self)@.cols()),
            final(self)@.cursor == old(self)@.cursor,
            final(self)@.mode == old(self)@.mode,
            final(self)@.wf(),
    {
        let ghost g0 = self@;
        let rows = self.rows();
        let cols = self.cols();
        let ghost target = coin_grid(coins@, rows as int, cols as int);
        assert(target.len() == rows);
        let mut ir: usize = 0;
        while ir < rows
            invariant
                ir <= rows,
                rows == g0.rows(),
                cols == g0.cols(),
                g0.wf(),
                coins@.len() == rows * cols,
                self@.cursor == g0.cursor,
                self@.mode == g0.mode,
                is_rect(self@.cells, rows as int, cols as int),
                target.len() == rows,
                target == coin_grid(coins@, rows as int, cols as int),
                forall|i: int| 0 <= i < ir ==> #[trigger] self@.cells[i] == target[i],
            decreases rows - ir,
        {
            let mut ic: usize = 0;
            while ic < cols
                invariant
                    ir < rows,
                    ic <= cols,
                    rows == g0.rows(),
                    cols == g0.cols(),
                    g0.wf(),
                    coins@.len() == rows * cols,
                    self@.cursor == g0.cursor,
                    self@.mode == g0.mode,
                    is_rect(self@.cells, rows as int, cols as int),
                    target.len() == rows,
                    target == coin_grid(coins@, rows as int, cols as int),
                    forall|i: int| 0 <= i < ir ==> #[trigger] self@.cells[i] == target[i],
                    forall|j: int| 0 <= j < ic ==> #[trigger] self@.cells[ir as int][j] == target[ir as int][j],
                decreases cols - ic,
            {
                assert(ir * cols + ic < rows * cols <= MAX_ROWS * MAX_COLS) by (nonlinear_arith)
                    requires
                        ir < rows <= MAX_ROWS,
                        ic < cols <= MAX_COLS,
                ;
                assert(self@.cells[ir as int] == self.board@[ir as int]@);
                let ghost before = self@.cells;
                let idx = ir * cols + ic;
                let cell = if coins[idx] {
                    Cell::Dead
                } else {
                    Cell::Alive
                };
                self.board[ir][ic] = cell;
                assert(self@.cells =~= before.update(ir as int, before[ir as int].update(ic as int, cell)));
                ic += 1;
            }
            assert(self@.cells[ir as int] =~= target[ir as int]);
            ir += 1;
        }
        assert(self@.cells =~= target);
    }

    /// Sets every cell to a fresh fair coin flip; dimensions, cursor and
    /// mode stay.
    pub fn randomize(&mut self)
        requires
            old(self)@.wf(),
        ensures
            final(self)@.rows() == old(self)@.rows(),
            final(self)@.cols() == old(self)@.cols(),
            final(self)@.cursor == old(self)@.cursor,
            final(self)@.mode == old(self)@.mode,
            final(self)@.wf(),
    {
        let rows = self.rows();
        let cols = self.cols();
        assert(rows * cols <= MAX_ROWS * MAX_COLS) by (nonlinear_arith)
            requires
                rows <= MAX_ROWS,
                cols <= MAX_COLS,
        ;
        let n = rows * cols;
        let mut coins: Vec<bool> = Vec::new();
        let mut i: usize = 0;
        while i < n
            invariant
                i <= n,
                coins@.len() == i,
            decreases n - i,
        {
            coins.push(coin());
            i += 1;
        }
        self.randomize_with(&coins);
    }

    pub fn to_ascii_mode(&mut self)
        ensures
            final(self)@ == (BoardView { mode: RenderMode::Ascii, ..old(self)@ }),
    {
        self.render_mode = RenderMode::Ascii;
    }

    pub fn to_unicode_mode(&mut self)
        ensures
            final(self)@ == (BoardView { mode: RenderMode::Unicode, ..old(self)@ }),
    {
        self.render_mode = RenderMode::Unicode;
    }

    /// One column left, stopping at the first column.
    pub fn move_cursor_left(&mut self)
        requires
            old(self)@.wf(),
        ensures
            final(self)@ == (BoardView {
                cursor: (if old(self)@.cursor.0 > 0 { old(self)@.cursor.0 - 1 } else { 0 }, old(self)@.cursor.1),
                ..old(self)@
            }),
            final(self)@.wf(),
    {
        self.cursor.0 = self.cursor.0.saturating_sub(1);
    }

    /// One column right, stopping at the last column.
    pub fn move_cursor_right(&mut self)
        requires
            old(self)@.wf(),
        ensures
            final(self)@ == (BoardView {
                cursor: (
                    if old(self)@.cursor.0 + 1 < old(self)@.cols() { old(self)@.cursor.0 + 1 } else { old(self)@.cols() - 1 },
                    old(self)@.cursor.1,
                ),
                ..old(self)@
            }),
            final(self)@.wf(),
    {
        let last = self.cols() - 1;
        let next = self.cursor.0 + 1;
        self.cursor.0 = if next < last {
            next
        } else {
            last
        };
    }

    /// One row up, stopping at the first row.
    pub fn move_cursor_up(&mut self)
        requires
            old(self)@.wf(),
        ensures
            final(self)@ == (BoardView {
                cursor: (old(self)@.cursor.0, if old(self)@.cursor.1 > 0 { old(self)@.cursor.1 - 1 } else { 0 }),
                ..old(self)@
            }),
            final(self)@.wf(),
    {
        self.cursor.1 = self.cursor.1.saturating_sub(1);
    }

    /// One row down, stopping at the last row.
    pub fn move_cursor_down(&mut self)
        requires
            old(self)@.wf(),
        ensures
            final(self)@ == (BoardView {
                cursor: (
                    old(self)@.cursor.0,
                    if old(self)@.cursor.1 + 1 < old(self)@.rows() { old(self)@.cursor.1 + 1 } else { old(self)@.rows() - 1 },
                ),
                ..old(self)@
            }),
            final(self)@.wf(),
    {
        let last = self.rows() - 1;
        let next = self.cursor.1 + 1;
        self.cursor.1 = if next < last {
            next
        } else {
            last
        };
    }
}

} // verus!
