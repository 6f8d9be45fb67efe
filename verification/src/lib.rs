//! One generation step of a multi-colony variant of Conway's Game of Life
//! over a newline-delimited textual board: a space is a dead cell, any other
//! byte a live cell whose value is its colony type. Survivors keep their
//! type; births inherit the dominant neighbor type, with ties broken by a
//! uniform random draw from the host's generator.
use vstd::prelude::*;

pub mod dominant;
pub mod laws;
pub mod lemmas;
pub mod model;
pub mod neighbors;
pub mod parse;
pub mod patterns;
pub mod rng;

pub use model::MAX_BOARD_SIZE;

use crate::dominant::get_dominant_type;
use crate::model::{cell_outcome, out_cell_ok, out_pos, out_sep_ok, step_rel, DEAD_CELL, ROW_SEP};
use crate::neighbors::get_neighbor_info;
use crate::parse::{build_grid, count_rows, find_width};

verus! {

/// A cell of the output text stands before every later position of the row
/// scan.
proof fn lemma_out_pos_lt(w: int, x: int, y: int, a: int, b: int)
    requires
        1 <= w,
        0 <= a < w,
        0 <= x <= w,
        0 <= b,
        b < y || (b == y && a < x),
    ensures
        0 <= b * (w + 1) + a,
        b * (w + 1) + a < y * (w + 1) + x,
        b < y ==> b * (w + 1) + a < y * (w + 1) - 1,
{
    assert(0 <= b * (w + 1)) by (nonlinear_arith)
        requires
            0 <= b,
            0 < w + 1,
    ;
    if b < y {
        assert((b + 1) * (w + 1) <= y * (w + 1)) by (nonlinear_arith)
            requires
                b + 1 <= y,
                0 < w + 1,
        ;
        assert((b + 1) * (w + 1) == b * (w + 1) + (w + 1)) by (nonlinear_arith);
    }
}

/// A row separator of the output text stands before every later position of
/// the row scan.
proof fn lemma_sep_pos(w: int, x: int, y: int, b: int)
    requires
        1 <= w,
        0 <= x,
        1 <= b <= y,
    ensures
        1 <= b * (w + 1) - 1,
        b * (w + 1) - 1 < y * (w + 1) + x,
        b < y ==> b * (w + 1) - 1 < y * (w + 1) - 1,
{
    assert(w + 1 <= b * (w + 1)) by (nonlinear_arith)
        requires
            1 <= b,
            0 < w + 1,
    ;
    assert(b * (w + 1) <= y * (w + 1)) by (nonlinear_arith)
        requires
            b <= y,
            0 < w + 1,
    ;
    if b < y {
        assert(b * (w + 1) + (w + 1) <= y * (w + 1)) by (nonlinear_arith)
            requires
                b + 1 <= y,
                0 < w + 1,
        ;
    }
}

pub struct GameOfLife;

impl GameOfLife {
    /// Compute the next generation of a board text: rows separated by single
    /// newline bytes, a space for a dead cell, any other byte a live cell of
    /// that type. A live cell survives exactly on two or three live
    /// neighbors and keeps its byte; a dead cell is born exactly on three,
    /// taking the dominant neighbor type, ties broken by a random draw from
    /// the host. Empty input, input longer than the size bound, input whose
    /// first row is empty or that has no rows, and input whose grid would
    /// not fit the bound are returned unchanged.
    pub fn next_generation(env: &soroban_sdk::Env, board: Vec<u8>) -> (r: Vec<u8>)
        ensures
            step_rel(board@, r@),
    {
        let len = board.len();
        if len == 0 || len > MAX_BOARD_SIZE {
            return board;
        }
        let width = find_width(&board);
        let height = count_rows(&board);
        if width == 0 || height == 0 {
            return board;
        }
        let wu = width as u64;
        let hu = height as u64;
        proof {
            assert(wu * hu <= 100_000u64 * 100_000u64) by (nonlinear_arith)
                requires
                    wu <= 100_000,
                    hu <= 100_000,
            ;
        }
        if wu * hu + hu - 1 > (MAX_BOARD_SIZE as u64) {
            return board;
        }
        proof {
            assert(width * height + height - 1 <= MAX_BOARD_SIZE);
            assert(width <= width * height && height <= width * height) by (nonlinear_arith)
                requires
                    1 <= width,
                    1 <= height,
            ;
        }
        let cells = width * height;
        let grid = build_grid(&board, cells);
        let ghost g = grid@;
        let ghost w = width as int;
        let ghost h = height as int;
        let mut out: Vec<u8> = Vec::new();
        let mut y: usize = 0;
        while y < height
            invariant
                y <= height,
                1 <= width <= MAX_BOARD_SIZE,
                1 <= height <= MAX_BOARD_SIZE,
                width * height + height - 1 <= MAX_BOARD_SIZE,
                grid@ == g,
                g.len() == width * height,
                w == width as int,
                h == height as int,
                out@.len() == if y == 0 {
                    0int
                } else {
                    y * (w + 1) - 1
                },
                forall|a: int, b: int|
                    0 <= a < w && 0 <= b < y ==> #[trigger] out_cell_ok(g, w, h, out@, a, b),
                forall|b: int| 1 <= b < y ==> #[trigger] out_sep_ok(out@, w, b),
            decreases height - y,
        {
            proof {
                assert(y * (w + 1) + w <= (h - 1) * (w + 1) + w) by (nonlinear_arith)
                    requires
                        y <= h - 1,
                        0 < w + 1,
                ;
                assert((h - 1) * (w + 1) + w == w * h + h - 1) by (nonlinear_arith);
            }
            if y > 0 {
                let ghost pre = out@;
                out.push(ROW_SEP);
                proof {
                    assert(out_sep_ok(out@, w, y as int));
                    assert forall|a: int, b: int| 0 <= a < w && 0 <= b < y implies #[trigger]
                        out_cell_ok(g, w, h, out@, a, b) by {
                        assert(out_cell_ok(g, w, h, pre, a, b));
                        lemma_out_pos_lt(w, 0, y as int, a, b);
                        assert(out@[out_pos(w, a, b)] == pre[out_pos(w, a, b)]);
                    }
                    assert forall|b: int| 1 <= b < y implies #[trigger] out_sep_ok(out@, w, b) by {
                        assert(out_sep_ok(pre, w, b));
                        lemma_sep_pos(w, 0, y as int, b);
                        assert(out@[b * (w + 1) - 1] == pre[b * (w + 1) - 1]);
                    }
                }
            }
            let mut x: usize = 0;
            while x < width
                invariant
                    x <= width,
                    y < height,
                    1 <= width <= MAX_BOARD_SIZE,
                    1 <= height <= MAX_BOARD_SIZE,
                    width * height + height - 1 <= MAX_BOARD_SIZE,
                    grid@ == g,
                    g.len() == width * height,
                    w == width as int,
                    h == height as int,
                    out@.len() == y * (w + 1) + x,
                    forall|a: int, b: int|
                        0 <= a < w && (0 <= b < y || (b == y && 0 <= a < x)) ==> #[trigger]
                            out_cell_ok(g, w, h, out@, a, b),
                    forall|b: int| 1 <= b <= y ==> #[trigger] out_sep_ok(out@, w, b),
                decreases width - x,
            {
                proof {
                    assert(y * width + x < width * height) by (nonlinear_arith)
                        requires
                            0 <= x < width,
                            0 <= y < height,
                    ;
                    assert(y * (w + 1) + w <= w * h + h - 1) by (nonlinear_arith)
                        requires
                            y <= h - 1,
                            0 < w + 1,
                    ;
                }
                let idx = y * width + x;
                let cur = grid[idx];
                let info = get_neighbor_info(&grid, x as i32, y as i32, width, height);
                let cnt = info.0;
                let ntypes = info.1;
                let next: u8 = if cur != DEAD_CELL {
                    if cnt == 2 || cnt == 3 {
                        cur
                    } else {
                        DEAD_CELL
                    }
                } else if cnt == 3 {
                    get_dominant_type(env, &ntypes)
                } else {
                    DEAD_CELL
                };
                let ghost pre = out@;
                out.push(next);
                proof {
                    assert(cell_outcome(g, w, h, x as int, y as int, next));
                    assert(out@[out_pos(w, x as int, y as int)] == next);
                    assert(out_cell_ok(g, w, h, out@, x as int, y as int));
                    assert forall|a: int, b: int|
                        0 <= a < w && (0 <= b < y || (b == y && 0 <= a < x)) implies #[trigger]
                        out_cell_ok(g, w, h, out@, a, b) by {
                        assert(out_cell_ok(g, w, h, pre, a, b));
                        lemma_out_pos_lt(w, x as int, y as int, a, b);
                        assert(out@[out_pos(w, a, b)] == pre[out_pos(w, a, b)]);
                    }
                    assert forall|b: int| 1 <= b <= y implies #[trigger] out_sep_ok(out@, w, b) by {
                        assert(out_sep_ok(pre, w, b));
                        lemma_sep_pos(w, x as int, y as int, b);
                        assert(out@[b * (w + 1) - 1] == pre[b * (w + 1) - 1]);
                    }
                }
                x += 1;
            }
            proof {
                assert((y + 1) * (w + 1) - 1 == y * (w + 1) + w) by (nonlinear_arith);
            }
            y += 1;
        }
        proof {
            assert(out@.len() == w * h + h - 1) by {
                assert(h * (w + 1) - 1 == w * h + h - 1) by (nonlinear_arith);
            }
        }
        out
    }
}

} // verus!
