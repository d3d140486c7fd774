//! Properties of the discrete rule that hold on every torus, proved once
//! over the spec of `rules`.
use vstd::prelude::*;
use crate::cell::Cell;
use crate::rules::{alive_among, alive_at, generations, live_neighbors, moore_offset, neighbor, next_generation, rule};
use crate::torus::{lemma_wrap_step, wrap};
use vstd::arithmetic::div_mod::{lemma_add_mod_noop_right, lemma_small_mod, lemma_sub_mod_noop};

verus! {

/// On a torus of at least three rows and three columns the eight neighbours
/// of a cell are eight distinct cells of the grid, none of them the cell
/// itself; stepping off the first row or column lands on the last one, and
/// stepping off the last lands on the first.
pub proof fn lemma_neighbors_distinct(rows: int, cols: int, r: int, c: int)
    requires
        3 <= rows,
        3 <= cols,
        0 <= r < rows,
        0 <= c < cols,
    ensures
        forall|k: int|
            0 <= k < 8 ==> {
                let p = #[trigger] neighbor(rows, cols, r, c, k);
                &&& 0 <= p.0 < rows
                &&& 0 <= p.1 < cols
                &&& p != (r, c)
            },
        forall|i: int, j: int|
            0 <= i < j < 8 ==> #[trigger] neighbor(rows, cols, r, c, i) != #[trigger] neighbor(
                rows,
                cols,
                r,
                c,
                j,
            ),
        r == 0 ==> neighbor(rows, cols, r, c, 1).0 == rows - 1,
        r == rows - 1 ==> neighbor(rows, cols, r, c, 6).0 == 0,
        c == 0 ==> neighbor(rows, cols, r, c, 3).1 == cols - 1,
        c == cols - 1 ==> neighbor(rows, cols, r, c, 4).1 == 0,
{
    lemma_wrap_step(r, -1, rows);
    lemma_wrap_step(r, 0, rows);
    lemma_wrap_step(r, 1, rows);
    lemma_wrap_step(c, -1, cols);
    lemma_wrap_step(c, 0, cols);
    lemma_wrap_step(c, 1, cols);
}

/// The two cells `x0` and `x0 + 1` (wrapped) of an axis.
pub open spec fn in_span(x: int, x0: int, len: int) -> bool {
    x == x0 || x == wrap(x0 + 1, len)
}

/// A `rows` x `cols` torus whose only live cells are the 2x2 block with its
/// top-left corner at `(r0, c0)`.
pub open spec fn block_grid(rows: int, cols: int, r0: int, c0: int) -> Seq<Seq<Cell>> {
    Seq::new(
        rows as nat,
        |r: int|
            Seq::new(
                cols as nat,
                |c: int|
                    if in_span(r, r0, rows) && in_span(c, c0, cols) {
                        Cell::Alive
                    } else {
                        Cell::Dead
                    },
            ),
    )
}

/// Along one axis: a coordinate inside the span sees exactly one more span
/// cell beside it; one outside sees at most two, never all three of its
/// own column of the 3x3 window.
proof fn lemma_span_axis(x: int, x0: int, len: int)
    requires
        3 <= len,
        0 <= x < len,
        0 <= x0 < len,
    ensures
        ({
            let lo = in_span(wrap(x - 1, len), x0, len);
            let mid = in_span(wrap(x + 0, len), x0, len);
            let hi = in_span(wrap(x + 1, len), x0, len);
            &&& mid == in_span(x, x0, len)
            &&& mid ==> (lo != hi)
            &&& !(lo && mid && hi)
        }),
{
    lemma_wrap_step(x, -1, len);
    lemma_wrap_step(x, 0, len);
    lemma_wrap_step(x, 1, len);
    lemma_wrap_step(x0, 1, len);
}

proof fn lemma_block_cell(rows: int, cols: int, r0: int, c0: int, r: int, c: int)
    requires
        3 <= rows,
        3 <= cols,
        0 <= r0 < rows,
        0 <= c0 < cols,
        0 <= r < rows,
        0 <= c < cols,
    ensures
        block_grid(rows, cols, r0, c0)[r][c] == Cell::Alive ==> live_neighbors(block_grid(rows, cols, r0, c0), r, c) == 3,
        block_grid(rows, cols, r0, c0)[r][c] == Cell::Dead ==> live_neighbors(block_grid(rows, cols, r0, c0), r, c) != 3,
{
    let g = block_grid(rows, cols, r0, c0);
    lemma_span_axis(r, r0, rows);
    lemma_span_axis(c, c0, cols);
    lemma_neighbors_distinct(rows, cols, r, c);
    assert(g.len() == rows && g[0].len() == cols);
    reveal_with_fuel(alive_among, 9);
    let a = |d: int| in_span(wrap(r + d, rows), r0, rows);
    let b = |e: int| in_span(wrap(c + e, cols), c0, cols);
    assert forall|k: int| 0 <= k < 8 implies alive_at(g, #[trigger] neighbor(rows, cols, r, c, k)) == (a(moore_offset(k).0) && b(moore_offset(k).1)) by {
        let p = neighbor(rows, cols, r, c, k);
        assert(0 <= p.0 < rows && 0 <= p.1 < cols);
    }
}

/// A 2x2 block of live cells alone on a torus of at least three rows and
/// three columns is a still life: one generation leaves the grid as it was.
pub proof fn lemma_block_still_life(rows: int, cols: int, r0: int, c0: int)
    requires
        3 <= rows,
        3 <= cols,
        0 <= r0 < rows,
        0 <= c0 < cols,
    ensures
        next_generation(block_grid(rows, cols, r0, c0)) == block_grid(rows, cols, r0, c0),
{
    let g = block_grid(rows, cols, r0, c0);
    let h = next_generation(g);
    assert forall|r: int| 0 <= r < rows implies #[trigger] h[r] == g[r] by {
        assert forall|c: int| 0 <= c < cols implies #[trigger] h[r][c] == g[r][c] by {
            lemma_block_cell(rows, cols, r0, c0, r, c);
        }
        assert(h[r] =~= g[r]);
    }
    assert(h =~= g);
}

/// A pattern on the infinite plane, given by its live cells.
pub type Pattern = spec_fn(int, int) -> bool;

/// The pattern's live cells all lie in rows and columns `0..4`.
pub open spec fn in_box(p: Pattern) -> bool {
    forall|i: int, j: int| #[trigger] p(i, j) ==> 0 <= i < 4 && 0 <= j < 4
}

/// A torus holding the pattern `p` with its origin at `(r0, c0)`.
pub open spec fn placed(rows: int, cols: int, r0: int, c0: int, p: Pattern) -> Seq<Seq<Cell>> {
    Seq::new(
        rows as nat,
        |r: int|
            Seq::new(
                cols as nat,
                |c: int|
                    if p(wrap(r - r0, rows), wrap(c - c0, cols)) {
                        Cell::Alive
                    } else {
                        Cell::Dead
                    },
            ),
    )
}

/// How many of the first `k` Moore neighbours of `(i, j)` on the plane are live in `p`.
pub open spec fn plane_among(p: Pattern, i: int, j: int, k: int) -> nat
    decreases k,
{
    if k <= 0 {
        0
    } else {
        plane_among(p, i, j, k - 1) + if p(i + moore_offset(k - 1).0, j + moore_offset(k - 1).1) {
            1nat
        } else {
            0nat
        }
    }
}

/// The rule applied to every cell of the plane: `q` is the generation after `p`.
pub open spec fn plane_next_is(p: Pattern, q: Pattern) -> bool {
    forall|i: int, j: int|
        #[trigger] q(i, j) == (rule(if p(i, j) { Cell::Alive } else { Cell::Dead }, plane_among(p, i, j, 8) as int)
            == Cell::Alive)
}

/// Two coordinates that a pattern in the box cannot tell apart: equal, or
/// both outside `0..4`.
spec fn box_same(a: int, b: int) -> bool {
    a == b || (!(0 <= a < 4) && !(0 <= b < 4))
}

/// A coordinate relative to the pattern's origin, with the last row or
/// column of the torus read as `-1`.
spec fn lift(u: int, n: int) -> int {
    if u == n - 1 {
        -1
    } else {
        u
    }
}

proof fn lemma_relative_step(r: int, r0: int, d: int, n: int)
    requires
        n > 0,
        0 <= r0 < n,
    ensures
        wrap(wrap(r + d, n) - r0, n) == wrap(wrap(r - r0, n) + d, n),
{
    lemma_sub_mod_noop(r + d, r0, n);
    lemma_small_mod(r0 as nat, n as nat);
    lemma_add_mod_noop_right(d, r - r0, n);
    assert(r + d - r0 == d + (r - r0));
}

proof fn lemma_axis_lift(u: int, d: int, n: int)
    requires
        6 <= n,
        0 <= u < n,
        -1 <= d <= 1,
    ensures
        box_same(wrap(u + d, n), lift(u, n) + d),
{
    lemma_wrap_step(u, d, n);
}

/// On a torus of at least six rows and columns, one generation of a pattern
/// held in the box is the plane's generation, placed at the same origin.
proof fn lemma_placed_step(rows: int, cols: int, r0: int, c0: int, p: Pattern, q: Pattern)
    requires
        6 <= rows,
        6 <= cols,
        0 <= r0 < rows,
        0 <= c0 < cols,
        in_box(p),
        in_box(q),
        plane_next_is(p, q),
    ensures
        next_generation(placed(rows, cols, r0, c0, p)) == placed(rows, cols, r0, c0, q),
{
    let g = placed(rows, cols, r0, c0, p);
    let h = next_generation(g);
    let t = placed(rows, cols, r0, c0, q);
    assert(g.len() == rows && g[0].len() == cols);
    assert forall|r: int| 0 <= r < rows implies #[trigger] h[r] == t[r] by {
        assert forall|c: int| 0 <= c < cols implies #[trigger] h[r][c] == t[r][c] by {
            let u = wrap(r - r0, rows);
            let v = wrap(c - c0, cols);
            let i = lift(u, rows);
            let j = lift(v, cols);
            assert(0 <= u < rows && 0 <= v < cols) by {
                lemma_wrap_step(0, 0, rows);
            }
            lemma_neighbors_distinct(rows, cols, r, c);
            assert forall|k: int| 0 <= k < 8 implies alive_at(g, #[trigger] neighbor(rows, cols, r, c, k)) == p(
                i + moore_offset(k).0,
                j + moore_offset(k).1,
            ) by {
                let d = moore_offset(k).0;
                let e = moore_offset(k).1;
                lemma_relative_step(r, r0, d, rows);
                lemma_relative_step(c, c0, e, cols);
                lemma_axis_lift(u, d, rows);
                lemma_axis_lift(v, e, cols);
            }
            reveal_with_fuel(alive_among, 9);
            reveal_with_fuel(plane_among, 9);
            assert(live_neighbors(g, r, c) == plane_among(p, i, j, 8));
            lemma_axis_lift(u, 0, rows);
            lemma_axis_lift(v, 0, cols);
            lemma_relative_step(r, r0, 0, rows);
            lemma_relative_step(c, c0, 0, cols);
            assert(p(u, v) == p(i, j));
            assert(q(u, v) == q(i, j));
        }
        assert(h[r] =~= t[r]);
    }
    assert(h =~= t);
}

/// The standard glider: `.#.` / `..#` / `###`.
pub open spec fn glider(i: int, j: int) -> bool {
    (i == 0 && j == 1) || (i == 1 && j == 2) || (i == 2 && 0 <= j <= 2)
}

spec fn glider_phase1(i: int, j: int) -> bool {
    (i == 1 && (j == 0 || j == 2)) || (i == 2 && (j == 1 || j == 2)) || (i == 3 && j == 1)
}

spec fn glider_phase2(i: int, j: int) -> bool {
    (i == 1 && j == 2) || (i == 2 && (j == 0 || j == 2)) || (i == 3 && (j == 1 || j == 2))
}

spec fn glider_phase3(i: int, j: int) -> bool {
    (i == 1 && j == 1) || (i == 2 && (j == 2 || j == 3)) || (i == 3 && (j == 1 || j == 2))
}

pub open spec fn glider_pattern() -> Pattern {
    |i: int, j: int| glider(i, j)
}

spec fn phase1() -> Pattern {
    |i: int, j: int| glider_phase1(i, j)
}

spec fn phase2() -> Pattern {
    |i: int, j: int| glider_phase2(i, j)
}

spec fn phase3() -> Pattern {
    |i: int, j: int| glider_phase3(i, j)
}

spec fn phase4() -> Pattern {
    |i: int, j: int| glider(i - 1, j - 1)
}

proof fn lemma_phase1()
    ensures
        plane_next_is(glider_pattern(), phase1()),
        in_box(glider_pattern()),
        in_box(phase1()),
{
    reveal_with_fuel(plane_among, 9);
}

proof fn lemma_phase2()
    ensures
        plane_next_is(phase1(), phase2()),
        in_box(phase2()),
{
    reveal_with_fuel(plane_among, 9);
}

proof fn lemma_phase3()
    ensures
        plane_next_is(phase2(), phase3()),
        in_box(phase3()),
{
    reveal_with_fuel(plane_among, 9);
}

proof fn lemma_phase4()
    ensures
        plane_next_is(phase3(), phase4()),
        in_box(phase4()),
{
    reveal_with_fuel(plane_among, 9);
}

/// A torus holding only the glider, with its origin at `(r0, c0)`.
pub open spec fn glider_grid(rows: int, cols: int, r0: int, c0: int) -> Seq<Seq<Cell>> {
    placed(rows, cols, r0, c0, glider_pattern())
}

/// Moving the origin one step on: the relative coordinate drops by one,
/// the origin's own row or column becoming the far end.
proof fn lemma_shift_origin(r: int, r0: int, n: int)
    requires
        6 <= n,
        0 <= r0 < n,
    ensures
        box_same(wrap(r - wrap(r0 + 1, n), n), wrap(r - r0, n) - 1),
{
    let u = wrap(r - r0, n);
    let w = wrap(r0 + 1, n);
    lemma_wrap_step(r0, 1, n);
    assert(0 <= w < n);
    lemma_small_mod(w as nat, n as nat);
    lemma_sub_mod_noop(r, w, n);
    lemma_sub_mod_noop(r, r0 + 1, n);
    assert(wrap(r - w, n) == wrap(r - (r0 + 1), n));
    lemma_add_mod_noop_right(-1, r - r0, n);
    assert(-1 + (r - r0) == r - (r0 + 1));
    assert(wrap(r - w, n) == wrap(u - 1, n));
    lemma_small_mod(0, n as nat);
    assert(0 <= u < n) by {
        lemma_wrap_step(0, 0, n);
        vstd::arithmetic::div_mod::lemma_mod_bound(r - r0, n);
    }
    lemma_wrap_step(u, -1, n);
}

/// The glider alone on a torus of at least six rows and six columns comes
/// back after four generations in the same orientation, one row down and
/// one column right.
pub proof fn lemma_glider_translates(rows: int, cols: int, r0: int, c0: int)
    requires
        6 <= rows,
        6 <= cols,
        0 <= r0 < rows,
        0 <= c0 < cols,
    ensures
        generations(glider_grid(rows, cols, r0, c0), 4) == glider_grid(rows, cols, wrap(r0 + 1, rows), wrap(c0 + 1, cols)),
{
    lemma_phase1();
    lemma_phase2();
    lemma_phase3();
    lemma_phase4();
    lemma_placed_step(rows, cols, r0, c0, glider_pattern(), phase1());
    lemma_placed_step(rows, cols, r0, c0, phase1(), phase2());
    lemma_placed_step(rows, cols, r0, c0, phase2(), phase3());
    lemma_placed_step(rows, cols, r0, c0, phase3(), phase4());
    reveal_with_fuel(generations, 5);
    let shifted = glider_grid(rows, cols, wrap(r0 + 1, rows), wrap(c0 + 1, cols));
    let moved = placed(rows, cols, r0, c0, phase4());
    assert forall|r: int| 0 <= r < rows implies #[trigger] moved[r] == shifted[r] by {
        assert forall|c: int| 0 <= c < cols implies #[trigger] moved[r][c] == shifted[r][c] by {
            lemma_shift_origin(r, r0, rows);
            lemma_shift_origin(c, c0, cols);
        }
        assert(moved[r] =~= shifted[r]);
    }
    assert(moved =~= shifted);
}

} // verus!
