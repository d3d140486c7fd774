//! The discrete transition rule, stated over grids as sequences of rows.
use vstd::prelude::*;
use crate::cell::Cell;
use crate::torus::wrap;

verus! {

/// A grid with `rows` rows of `cols` cells each.
pub open spec fn is_rect(g: Seq<Seq<Cell>>, rows: int, cols: int) -> bool {
    &&& g.len() == rows
    &&& forall|r: int| 0 <= r < rows ==> #[trigger] g[r].len() == cols
}

/// The eight Moore offsets `(row, col)`, row-major, the centre left out.
pub open spec fn moore_offset(k: int) -> (int, int) {
    if k == 0 {
        (-1, -1)
    } else if k == 1 {
        (-1, 0)
    } else if k == 2 {
        (-1, 1)
    } else if k == 3 {
        (0, -1)
    } else if k == 4 {
        (0, 1)
    } else if k == 5 {
        (1, -1)
    } else if k == 6 {
        (1, 0)
    } else {
        (1, 1)
    }
}

/// The position of the `k`-th neighbour of `(r, c)` on a `rows` x `cols` torus.
pub open spec fn neighbor(rows: int, cols: int, r: int, c: int, k: int) -> (int, int) {
    (wrap(r + moore_offset(k).0, rows), wrap(c + moore_offset(k).1, cols))
}

pub open spec fn alive_at(g: Seq<Seq<Cell>>, p: (int, int)) -> bool {
    g[p.0][p.1] == Cell::Alive
}

/// How many of the first `k` neighbours of `(r, c)` are alive.
pub open spec fn alive_among(g: Seq<Seq<Cell>>, r: int, c: int, k: int) -> nat
    decreases k,
{
    if k <= 0 {
        0
    } else {
        alive_among(g, r, c, k - 1) + if alive_at(g, neighbor(g.len() as int, g[0].len() as int, r, c, k - 1)) {
            1nat
        } else {
            0nat
        }
    }
}

/// The number of live cells among the eight toroidal neighbours of `(r, c)`.
pub open spec fn live_neighbors(g: Seq<Seq<Cell>>, r: int, c: int) -> nat {
    alive_among(g, r, c, 8)
}

/// Birth on exactly three live neighbours, survival on two or three.
pub open spec fn rule(cell: Cell, n: int) -> Cell {
    match cell {
        Cell::Dead => if n == 3 {
            Cell::Alive
        } else {
            Cell::Dead
        },
        Cell::Alive => if n == 2 || n == 3 {
            Cell::Alive
        } else {
            Cell::Dead
        },
    }
}

/// The generation after `g`: every cell computed from `g` alone.
pub open spec fn next_generation(g: Seq<Seq<Cell>>) -> Seq<Seq<Cell>> {
    Seq::new(
        g.len(),
        |r: int| Seq::new(g[r].len(), |c: int| rule(g[r][c], live_neighbors(g, r, c) as int)),
    )
}

/// `n` generations after `g`.
pub open spec fn generations(g: Seq<Seq<Cell>>, n: nat) -> Seq<Seq<Cell>>
    decreases n,
{
    if n == 0 {
        g
    } else {
        next_generation(generations(g, (n - 1) as nat))
    }
}

/// The transition rule on one cell with `n` live neighbours.
pub fn next_state(cell: Cell, n: usize) -> (r: Cell)
    ensures
        r == rule(cell, n as int),
{
    match cell {
        Cell::Dead => if n == 3 {
            Cell::Alive
        } else {
            Cell::Dead
        },
        Cell::Alive => if n == 2 || n == 3 {
            Cell::Alive
        } else {
            Cell::Dead
        },
    }
}

/// The `k`-th Moore offset, as `(row, col)`.
pub fn moore_offset_at(k: usize) -> (r: (i32, i32))
    requires
        k < 8,
    ensures
        r.0 as int == moore_offset(k as int).0,
        r.1 as int == moore_offset(k as int).1,
{
    if k == 0 {
        (-1, -1)
    } else if k == 1 {
        (-1, 0)
    } else if k == 2 {
        (-1, 1)
    } else if k == 3 {
        (0, -1)
    } else if k == 4 {
        (0, 1)
    } else if k == 5 {
        (1, -1)
    } else if k == 6 {
        (1, 0)
    } else {
        (1, 1)
    }
}

} // verus!
