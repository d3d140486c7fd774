use golrs::board::{Board, MAX_COLS, MAX_ROWS, MIN_COLS, MIN_ROWS};
use golrs::cell::{Cell, RenderMode};

fn alive_cells(b: &Board) -> Vec<(usize, usize)> {
    let mut v = Vec::new();
    for r in 0..b.rows() {
        for c in 0..b.cols() {
            if b.cell(r, c) == Cell::Alive {
                v.push((r, c));
            }
        }
    }
    v
}

fn set_alive(b: &mut Board, cells: &[(usize, usize)]) {
    for &(r, c) in cells {
        assert_eq!(b.cell(r, c), Cell::Dead);
        b.toggle(r, c);
    }
}

fn grid_of(b: &Board) -> Vec<Vec<Cell>> {
    (0..b.rows()).map(|r| (0..b.cols()).map(|c| b.cell(r, c)).collect()).collect()
}

/// An independent computation of the next generation over a captured grid.
fn reference_next(g: &[Vec<Cell>]) -> Vec<Vec<Cell>> {
    let rows = g.len() as i64;
    let cols = g[0].len() as i64;
    let mut out = g.to_vec();
    for r in 0..rows {
        for c in 0..cols {
            let mut n = 0;
            for dr in -1i64..=1 {
                for dc in -1i64..=1 {
                    if dr == 0 && dc == 0 {
                        continue;
                    }
                    let rr = (r + dr).rem_euclid(rows) as usize;
                    let cc = (c + dc).rem_euclid(cols) as usize;
                    if g[rr][cc] == Cell::Alive {
                        n += 1;
                    }
                }
            }
            let cur = g[r as usize][c as usize];
            out[r as usize][c as usize] = match (cur, n) {
                (Cell::Alive, 2) | (Cell::Alive, 3) | (Cell::Dead, 3) => Cell::Alive,
                _ => Cell::Dead,
            };
        }
    }
    out
}

#[test]
fn new_board_is_dead_with_requested_size() {
    let b = Board::new(20, 30);
    assert_eq!(b.rows(), 20);
    assert_eq!(b.cols(), 30);
    assert!(alive_cells(&b).is_empty());
    assert_eq!(b.cursor(), (0, 0));
    assert_eq!(b.render_mode(), RenderMode::Ascii);
}

#[test]
fn dimensions_below_minimum_are_clamped_up() {
    let b = Board::new(1, 1);
    assert_eq!(b.rows(), MIN_ROWS);
    assert_eq!(b.cols(), MIN_COLS);
    assert_eq!((b.rows(), b.cols()), (10, 10));
    let z = Board::new(0, 0);
    assert_eq!((z.rows(), z.cols()), (10, 10));
}

#[test]
fn dimensions_above_maximum_are_clamped_down() {
    let b = Board::new(500, 126);
    assert_eq!(b.rows(), MAX_ROWS);
    assert_eq!(b.cols(), MAX_COLS);
    assert_eq!((b.rows(), b.cols()), (125, 125));
    let edge = Board::new(125, 10);
    assert_eq!((edge.rows(), edge.cols()), (125, 10));
}

#[test]
fn neighbours_wrap_around_every_edge() {
    let mut b = Board::new(10, 12);
    set_alive(&mut b, &[(9, 11)]);
    assert_eq!(b.count_n(0, 0), 1);
    assert_eq!(b.count_n(0, 11), 1);
    assert_eq!(b.count_n(9, 0), 1);
    assert_eq!(b.count_n(8, 10), 1);
    assert_eq!(b.count_n(9, 11), 0);
    assert_eq!(b.count_n(5, 5), 0);
    assert_eq!(b.count_n(1, 1), 0);
}

#[test]
fn corner_cell_sees_eight_distinct_neighbours() {
    let mut b = Board::new(10, 10);
    set_alive(&mut b, &[(9, 9), (9, 0), (9, 1), (0, 9), (0, 1), (1, 9), (1, 0), (1, 1)]);
    assert_eq!(b.count_n(0, 0), 8);
    b.toggle(0, 0);
    assert_eq!(b.count_n(0, 0), 8);
}

#[test]
fn block_is_a_still_life() {
    let mut b = Board::new(10, 10);
    let block = [(4, 4), (4, 5), (5, 4), (5, 5)];
    set_alive(&mut b, &block);
    for _ in 0..3 {
        b.next_gen();
        assert_eq!(alive_cells(&b), block.to_vec());
    }
}

#[test]
fn block_across_the_corner_is_a_still_life() {
    let mut b = Board::new(10, 10);
    let block = [(0, 0), (0, 9), (9, 0), (9, 9)];
    set_alive(&mut b, &block);
    let before = alive_cells(&b);
    b.next_gen();
    assert_eq!(alive_cells(&b), before);
}

#[test]
fn glider_moves_one_cell_diagonally_in_four_generations() {
    let mut b = Board::new(12, 12);
    let glider = [(2, 3), (3, 4), (4, 2), (4, 3), (4, 4)];
    set_alive(&mut b, &glider);
    for _ in 0..4 {
        b.next_gen();
    }
    let shifted: Vec<(usize, usize)> = glider.iter().map(|&(r, c)| (r + 1, c + 1)).collect();
    let mut got = alive_cells(&b);
    got.sort();
    let mut want = shifted;
    want.sort();
    assert_eq!(got, want);
}

#[test]
fn glider_crosses_the_edge() {
    let mut b = Board::new(10, 10);
    let glider = [(8, 9), (9, 0), (0, 8), (0, 9), (0, 0)];
    set_alive(&mut b, &glider);
    for _ in 0..4 {
        b.next_gen();
    }
    let mut want: Vec<(usize, usize)> = glider.iter().map(|&(r, c)| ((r + 1) % 10, (c + 1) % 10)).collect();
    want.sort();
    assert_eq!(alive_cells(&b), want);
}

#[test]
fn blinker_oscillates() {
    let mut b = Board::new(10, 10);
    set_alive(&mut b, &[(5, 4), (5, 5), (5, 6)]);
    b.next_gen();
    assert_eq!(alive_cells(&b), vec![(4, 5), (5, 5), (6, 5)]);
    b.next_gen();
    assert_eq!(alive_cells(&b), vec![(5, 4), (5, 5), (5, 6)]);
}

#[test]
fn next_gen_reads_only_the_previous_generation() {
    let mut b = Board::new(13, 17);
    let coins: Vec<bool> = (0..13 * 17).map(|i| (i * 7 + i / 5) % 3 == 0).collect();
    b.randomize_with(&coins);
    for _ in 0..5 {
        let captured = grid_of(&b);
        b.next_gen();
        assert_eq!(grid_of(&b), reference_next(&captured));
    }
}

#[test]
fn lonely_and_crowded_cells_die() {
    let mut b = Board::new(10, 10);
    set_alive(&mut b, &[(5, 5)]);
    b.next_gen();
    assert!(alive_cells(&b).is_empty());
    let mut p = Board::new(10, 10);
    set_alive(&mut p, &[(4, 4), (4, 5), (4, 6), (5, 4), (5, 5)]);
    assert_eq!(p.count_n(5, 5), 4);
    p.next_gen();
    assert_eq!(p.cell(5, 5), Cell::Dead);
}

#[test]
fn toggle_flips_one_cell_only() {
    let mut b = Board::new(10, 10);
    b.toggle(3, 7);
    assert_eq!(alive_cells(&b), vec![(3, 7)]);
    b.toggle(3, 7);
    assert!(alive_cells(&b).is_empty());
}

#[test]
fn clear_kills_everything_and_keeps_the_rest() {
    let mut b = Board::new(15, 11);
    b.randomize_with(&vec![false; 15 * 11]);
    assert_eq!(alive_cells(&b).len(), 15 * 11);
    b.move_cursor_down();
    b.to_unicode_mode();
    b.clear();
    assert!(alive_cells(&b).is_empty());
    assert_eq!((b.rows(), b.cols()), (15, 11));
    assert_eq!(b.cursor(), (0, 1));
    assert_eq!(b.render_mode(), RenderMode::Unicode);
}

#[test]
fn randomize_with_maps_true_to_dead() {
    let mut b = Board::new(10, 10);
    let coins: Vec<bool> = (0..100).map(|i| i % 4 != 1).collect();
    b.randomize_with(&coins);
    for r in 0..10 {
        for c in 0..10 {
            let want = if coins[r * 10 + c] { Cell::Dead } else { Cell::Alive };
            assert_eq!(b.cell(r, c), want);
        }
    }
    assert_eq!(b.cell(0, 1), Cell::Alive);
    assert_eq!(b.cell(0, 0), Cell::Dead);
}

#[test]
fn randomize_fills_about_half() {
    for _ in 0..5 {
        let mut b = Board::new(100, 100);
        b.randomize();
        assert_eq!((b.rows(), b.cols()), (100, 100));
        let alive = alive_cells(&b).len();
        assert!(alive >= 4500 && alive <= 5500, "alive = {}", alive);
    }
}

#[test]
fn cursor_stays_on_the_board() {
    let mut b = Board::new(10, 12);
    b.move_cursor_left();
    b.move_cursor_up();
    assert_eq!(b.cursor(), (0, 0));
    for _ in 0..20 {
        b.move_cursor_right();
        b.move_cursor_down();
    }
    assert_eq!(b.cursor(), (11, 9));
    b.move_cursor_left();
    b.move_cursor_up();
    assert_eq!(b.cursor(), (10, 8));
    b.toggle_cur_cell();
    assert_eq!(alive_cells(&b), vec![(8, 10)]);
}

#[test]
fn render_mode_switches() {
    let mut b = Board::new(10, 10);
    b.to_unicode_mode();
    assert_eq!(b.render_mode(), RenderMode::Unicode);
    b.to_ascii_mode();
    assert_eq!(b.render_mode(), RenderMode::Ascii);
}
