//! Pattern laws: whole boards whose next generation is pinned down for
//! every colony type, proved against the step relation.
use vstd::prelude::*;

use crate::laws::lemma_uniform_birth_type;
use crate::model::{board_accepted, grid_of, is_next_board, neighbor_types, neighbor_types_upto,
    newline_count, out_cell_ok, out_sep_ok, row_count, step_rel, strip, DEAD_CELL, ROW_SEP};
use crate::parse::lemma_first_row_width_at;

verus! {

/// A four-by-four board with a two-by-two block of one type, dead border.
pub open spec fn block_board(t: u8) -> Seq<u8> {
    Seq::new(19, |i: int|
        if i == 4 || i == 9 || i == 14 {
            ROW_SEP
        } else if i == 6 || i == 7 || i == 11 || i == 12 {
            t
        } else {
            DEAD_CELL
        })
}

/// A three-by-three board that is fully live with one type.
pub open spec fn full_block_board(t: u8) -> Seq<u8> {
    Seq::new(11, |i: int|
        if i == 3 || i == 7 {
            ROW_SEP
        } else if i == 0 || i == 1 || i == 2 || i == 4 || i == 5 || i == 6 || i == 8 || i == 9 || i == 10 {
            t
        } else {
            DEAD_CELL
        })
}

/// A three-by-three board with only the corners live.
pub open spec fn block_corners_board(t: u8) -> Seq<u8> {
    Seq::new(11, |i: int|
        if i == 3 || i == 7 {
            ROW_SEP
        } else if i == 0 || i == 2 || i == 8 || i == 10 {
            t
        } else {
            DEAD_CELL
        })
}

/// A five-by-five board with a horizontal three-in-a-row of one type.
pub open spec fn blinker_h_board(t: u8) -> Seq<u8> {
    Seq::new(29, |i: int|
        if i == 5 || i == 11 || i == 17 || i == 23 {
            ROW_SEP
        } else if i == 13 || i == 14 || i == 15 {
            t
        } else {
            DEAD_CELL
        })
}

/// A five-by-five board with a vertical three-in-a-row of one type.
pub open spec fn blinker_v_board(t: u8) -> Seq<u8> {
    Seq::new(29, |i: int|
        if i == 5 || i == 11 || i == 17 || i == 23 {
            ROW_SEP
        } else if i == 8 || i == 14 || i == 20 {
            t
        } else {
            DEAD_CELL
        })
}

/// Still life: the two-by-two block of any one type maps to itself.
#[verifier::rlimit(60)]
pub proof fn lemma_block_still_life(t: u8, r: Seq<u8>)
    requires
        t != DEAD_CELL,
        t != ROW_SEP,
        step_rel(block_board(t), r),
    ensures
        r =~= block_board(t),
{
    let b = block_board(t);
    lemma_first_row_width_at(b, 4);
    assert(newline_count(b) == 3) by {
        reveal_with_fuel(newline_count, 21);
    }
    assert(row_count(b) == 4);
    let g = Seq::new(16, |i: int|
        if i == 5 || i == 6 || i == 9 || i == 10 {
            t
        } else {
            DEAD_CELL
        });
    assert(strip(b) =~= g) by {
        reveal_with_fuel(strip, 21);
    }
    assert(grid_of(b, 16) =~= g);
    assert(board_accepted(b));
    assert(is_next_board(g, 4, 4, r));
    assert(r.len() == 19);
    reveal_with_fuel(neighbor_types_upto, 9);
    assert(neighbor_types(g, 4, 4, 0, 0).len() == 1);
    assert(out_cell_ok(g, 4, 4, r, 0, 0));
    assert(r[0] == DEAD_CELL);
    assert(neighbor_types(g, 4, 4, 1, 0).len() == 2);
    assert(out_cell_ok(g, 4, 4, r, 1, 0));
    assert(r[1] == DEAD_CELL);
    assert(neighbor_types(g, 4, 4, 2, 0).len() == 2);
    assert(out_cell_ok(g, 4, 4, r, 2, 0));
    assert(r[2] == DEAD_CELL);
    assert(neighbor_types(g, 4, 4, 3, 0).len() == 1);
    assert(out_cell_ok(g, 4, 4, r, 3, 0));
    assert(r[3] == DEAD_CELL);
    assert(neighbor_types(g, 4, 4, 0, 1).len() == 2);
    assert(out_cell_ok(g, 4, 4, r, 0, 1));
    assert(r[5] == DEAD_CELL);
    assert(neighbor_types(g, 4, 4, 1, 1).len() == 3);
    assert(out_cell_ok(g, 4, 4, r, 1, 1));
    assert(r[6] == t);
    assert(neighbor_types(g, 4, 4, 2, 1).len() == 3);
    assert(out_cell_ok(g, 4, 4, r, 2, 1));
    assert(r[7] == t);
    assert(neighbor_types(g, 4, 4, 3, 1).len() == 2);
    assert(out_cell_ok(g, 4, 4, r, 3, 1));
    assert(r[8] == DEAD_CELL);
    assert(neighbor_types(g, 4, 4, 0, 2).len() == 2);
    assert(out_cell_ok(g, 4, 4, r, 0, 2));
    assert(r[10] == DEAD_CELL);
    assert(neighbor_types(g, 4, 4, 1, 2).len() == 3);
    assert(out_cell_ok(g, 4, 4, r, 1, 2));
    assert(r[11] == t);
    assert(neighbor_types(g, 4, 4, 2, 2).len() == 3);
    assert(out_cell_ok(g, 4, 4, r, 2, 2));
    assert(r[12] == t);
    assert(neighbor_types(g, 4, 4, 3, 2).len() == 2);
    assert(out_cell_ok(g, 4, 4, r, 3, 2));
    assert(r[13] == DEAD_CELL);
    assert(neighbor_types(g, 4, 4, 0, 3).len() == 1);
    assert(out_cell_ok(g, 4, 4, r, 0, 3));
    assert(r[15] == DEAD_CELL);
    assert(neighbor_types(g, 4, 4, 1, 3).len() == 2);
    assert(out_cell_ok(g, 4, 4, r, 1, 3));
    assert(r[16] == DEAD_CELL);
    assert(neighbor_types(g, 4, 4, 2, 3).len() == 2);
    assert(out_cell_ok(g, 4, 4, r, 2, 3));
    assert(r[17] == DEAD_CELL);
    assert(neighbor_types(g, 4, 4, 3, 3).len() == 1);
    assert(out_cell_ok(g, 4, 4, r, 3, 3));
    assert(r[18] == DEAD_CELL);
    assert(out_sep_ok(r, 4, 1));
    assert(r[4] == ROW_SEP);
    assert(out_sep_ok(r, 4, 2));
    assert(r[9] == ROW_SEP);
    assert(out_sep_ok(r, 4, 3));
    assert(r[14] == ROW_SEP);
    assert(r =~= block_board(t));
}

/// Overpopulation boundary: a fully live block of one type keeps its corners
/// (three neighbors), loses its edges (five) and its center (eight).
#[verifier::rlimit(60)]
pub proof fn lemma_full_block_step(t: u8, r: Seq<u8>)
    requires
        t != DEAD_CELL,
        t != ROW_SEP,
        step_rel(full_block_board(t), r),
    ensures
        r =~= block_corners_board(t),
{
    let b = full_block_board(t);
    lemma_first_row_width_at(b, 3);
    assert(newline_count(b) == 2) by {
        reveal_with_fuel(newline_count, 13);
    }
    assert(row_count(b) == 3);
    let g = Seq::new(9, |i: int|
        t);
    assert(strip(b) =~= g) by {
        reveal_with_fuel(strip, 13);
    }
    assert(grid_of(b, 9) =~= g);
    assert(board_accepted(b));
    assert(is_next_board(g, 3, 3, r));
    assert(r.len() == 11);
    reveal_with_fuel(neighbor_types_upto, 9);
    assert(neighbor_types(g, 3, 3, 0, 0).len() == 3);
    assert(out_cell_ok(g, 3, 3, r, 0, 0));
    assert(r[0] == t);
    assert(neighbor_types(g, 3, 3, 1, 0).len() == 5);
    assert(out_cell_ok(g, 3, 3, r, 1, 0));
    assert(r[1] == DEAD_CELL);
    assert(neighbor_types(g, 3, 3, 2, 0).len() == 3);
    assert(out_cell_ok(g, 3, 3, r, 2, 0));
    assert(r[2] == t);
    assert(neighbor_types(g, 3, 3, 0, 1).len() == 5);
    assert(out_cell_ok(g, 3, 3, r, 0, 1));
    assert(r[4] == DEAD_CELL);
    assert(neighbor_types(g, 3, 3, 1, 1).len() == 8);
    assert(out_cell_ok(g, 3, 3, r, 1, 1));
    assert(r[5] == DEAD_CELL);
    assert(neighbor_types(g, 3, 3, 2, 1).len() == 5);
    assert(out_cell_ok(g, 3, 3, r, 2, 1));
    assert(r[6] == DEAD_CELL);
    assert(neighbor_types(g, 3, 3, 0, 2).len() == 3);
    assert(out_cell_ok(g, 3, 3, r, 0, 2));
    assert(r[8] == t);
    assert(neighbor_types(g, 3, 3, 1, 2).len() == 5);
    assert(out_cell_ok(g, 3, 3, r, 1, 2));
    assert(r[9] == DEAD_CELL);
    assert(neighbor_types(g, 3, 3, 2, 2).len() == 3);
    assert(out_cell_ok(g, 3, 3, r, 2, 2));
    assert(r[10] == t);
    assert(out_sep_ok(r, 3, 1));
    assert(r[3] == ROW_SEP);
    assert(out_sep_ok(r, 3, 2));
    assert(r[7] == ROW_SEP);
    assert(r =~= block_corners_board(t));
}

/// A horizontal three-in-a-row of one type maps to the vertical one.
#[verifier::rlimit(90)]
pub proof fn lemma_blinker_h_to_v(t: u8, r: Seq<u8>)
    requires
        t != DEAD_CELL,
        t != ROW_SEP,
        step_rel(blinker_h_board(t), r),
    ensures
        r =~= blinker_v_board(t),
{
    let b = blinker_h_board(t);
    lemma_first_row_width_at(b, 5);
    assert(newline_count(b) == 4) by {
        reveal_with_fuel(newline_count, 31);
    }
    assert(row_count(b) == 5);
    let g = Seq::new(25, |i: int|
        if i == 11 || i == 12 || i == 13 {
            t
        } else {
            DEAD_CELL
        });
    assert(strip(b) =~= g) by {
        reveal_with_fuel(strip, 31);
    }
    assert(grid_of(b, 25) =~= g);
    assert(board_accepted(b));
    assert(is_next_board(g, 5, 5, r));
    assert(r.len() == 29);
    reveal_with_fuel(neighbor_types_upto, 9);
    assert(neighbor_types(g, 5, 5, 0, 0).len() == 0);
    assert(out_cell_ok(g, 5, 5, r, 0, 0));
    assert(r[0] == DEAD_CELL);
    assert(neighbor_types(g, 5, 5, 1, 0).len() == 0);
    assert(out_cell_ok(g, 5, 5, r, 1, 0));
    assert(r[1] == DEAD_CELL);
    assert(neighbor_types(g, 5, 5, 2, 0).len() == 0);
    assert(out_cell_ok(g, 5, 5, r, 2, 0));
    assert(r[2] == DEAD_CELL);
    assert(neighbor_types(g, 5, 5, 3, 0).len() == 0);
    assert(out_cell_ok(g, 5, 5, r, 3, 0));
    assert(r[3] == DEAD_CELL);
    assert(neighbor_types(g, 5, 5, 4, 0).len() == 0);
    assert(out_cell_ok(g, 5, 5, r, 4, 0));
    assert(r[4] == DEAD_CELL);
    assert(neighbor_types(g, 5, 5, 0, 1).len() == 1);
    assert(out_cell_ok(g, 5, 5, r, 0, 1));
    assert(r[6] == DEAD_CELL);
    assert(neighbor_types(g, 5, 5, 1, 1).len() == 2);
    assert(out_cell_ok(g, 5, 5, r, 1, 1));
    assert(r[7] == DEAD_CELL);
    assert(neighbor_types(g, 5, 5, 2, 1).len() == 3);
    assert(out_cell_ok(g, 5, 5, r, 2, 1));
    assert(neighbor_types(g, 5, 5, 2, 1) =~= seq![t, t, t]);
    lemma_uniform_birth_type(neighbor_types(g, 5, 5, 2, 1), t, r[8]);
    assert(r[8] == t);
    assert(neighbor_types(g, 5, 5, 3, 1).len() == 2);
    assert(out_cell_ok(g, 5, 5, r, 3, 1));
    assert(r[9] == DEAD_CELL);
    assert(neighbor_types(g, 5, 5, 4, 1).len() == 1);
    assert(out_cell_ok(g, 5, 5, r, 4, 1));
    assert(r[10] == DEAD_CELL);
    assert(neighbor_types(g, 5, 5, 0, 2).len() == 1);
    assert(out_cell_ok(g, 5, 5, r, 0, 2));
    assert(r[12] == DEAD_CELL);
    assert(neighbor_types(g, 5, 5, 1, 2).len() == 1);
    assert(out_cell_ok(g, 5, 5, r, 1, 2));
    assert(r[13] == DEAD_CELL);
    assert(neighbor_types(g, 5, 5, 2, 2).len() == 2);
    assert(out_cell_ok(g, 5, 5, r, 2, 2));
    assert(r[14] == t);
    assert(neighbor_types(g, 5, 5, 3, 2).len() == 1);
    assert(out_cell_ok(g, 5, 5, r, 3, 2));
    assert(r[15] == DEAD_CELL);
    assert(neighbor_types(g, 5, 5, 4, 2).len() == 1);
    assert(out_cell_ok(g, 5, 5, r, 4, 2));
    assert(r[16] == DEAD_CELL);
    assert(neighbor_types(g, 5, 5, 0, 3).len() == 1);
    assert(out_cell_ok(g, 5, 5, r, 0, 3));
    assert(r[18] == DEAD_CELL);
    assert(neighbor_types(g, 5, 5, 1, 3).len() == 2);
    assert(out_cell_ok(g, 5, 5, r, 1, 3));
    assert(r[19] == DEAD_CELL);
    assert(neighbor_types(g, 5, 5, 2, 3).len() == 3);
    assert(out_cell_ok(g, 5, 5, r, 2, 3));
    assert(neighbor_types(g, 5, 5, 2, 3) =~= seq![t, t, t]);
    lemma_uniform_birth_type(neighbor_types(g, 5, 5, 2, 3), t, r[20]);
    assert(r[20] == t);
    assert(neighbor_types(g, 5, 5, 3, 3).len() == 2);
    assert(out_cell_ok(g, 5, 5, r, 3, 3));
    assert(r[21] == DEAD_CELL);
    assert(neighbor_types(g, 5, 5, 4, 3).len() == 1);
    assert(out_cell_ok(g, 5, 5, r, 4, 3));
    assert(r[22] == DEAD_CELL);
    assert(neighbor_types(g, 5, 5, 0, 4).len() == 0);
    assert(out_cell_ok(g, 5, 5, r, 0, 4));
    assert(r[24] == DEAD_CELL);
    assert(neighbor_types(g, 5, 5, 1, 4).len() == 0);
    assert(out_cell_ok(g, 5, 5, r, 1, 4));
    assert(r[25] == DEAD_CELL);
    assert(neighbor_types(g, 5, 5, 2, 4).len() == 0);
    assert(out_cell_ok(g, 5, 5, r, 2, 4));
    assert(r[26] == DEAD_CELL);
    assert(neighbor_types(g, 5, 5, 3, 4).len() == 0);
    assert(out_cell_ok(g, 5, 5, r, 3, 4));
    assert(r[27] == DEAD_CELL);
    assert(neighbor_types(g, 5, 5, 4, 4).len() == 0);
    assert(out_cell_ok(g, 5, 5, r, 4, 4));
    assert(r[28] == DEAD_CELL);
    assert(out_sep_ok(r, 5, 1));
    assert(r[5] == ROW_SEP);
    assert(out_sep_ok(r, 5, 2));
    assert(r[11] == ROW_SEP);
    assert(out_sep_ok(r, 5, 3));
    assert(r[17] == ROW_SEP);
    assert(out_sep_ok(r, 5, 4));
    assert(r[23] == ROW_SEP);
    assert(r =~= blinker_v_board(t));
}

/// A vertical three-in-a-row of one type maps back to the horizontal one.
#[verifier::rlimit(90)]
pub proof fn lemma_blinker_v_to_h(t: u8, r: Seq<u8>)
    requires
        t != DEAD_CELL,
        t != ROW_SEP,
        step_rel(blinker_v_board(t), r),
    ensures
        r =~= blinker_h_board(t),
{
    let b = blinker_v_board(t);
    lemma_first_row_width_at(b, 5);
    assert(newline_count(b) == 4) by {
        reveal_with_fuel(newline_count, 31);
    }
    assert(row_count(b) == 5);
    let g = Seq::new(25, |i: int|
        if i == 7 || i == 12 || i == 17 {
            t
        } else {
            DEAD_CELL
        });
    assert(strip(b) =~= g) by {
        reveal_with_fuel(strip, 31);
    }
    assert(grid_of(b, 25) =~= g);
    assert(board_accepted(b));
    assert(is_next_board(g, 5, 5, r));
    assert(r.len() == 29);
    reveal_with_fuel(neighbor_types_upto, 9);
    assert(neighbor_types(g, 5, 5, 0, 0).len() == 0);
    assert(out_cell_ok(g, 5, 5, r, 0, 0));
    assert(r[0] == DEAD_CELL);
    assert(neighbor_types(g, 5, 5, 1, 0).len() == 1);
    assert(out_cell_ok(g, 5, 5, r, 1, 0));
    assert(r[1] == DEAD_CELL);
    assert(neighbor_types(g, 5, 5, 2, 0).len() == 1);
    assert(out_cell_ok(g, 5, 5, r, 2, 0));
    assert(r[2] == DEAD_CELL);
    assert(neighbor_types(g, 5, 5, 3, 0).len() == 1);
    assert(out_cell_ok(g, 5, 5, r, 3, 0));
    assert(r[3] == DEAD_CELL);
    assert(neighbor_types(g, 5, 5, 4, 0).len() == 0);
    assert(out_cell_ok(g, 5, 5, r, 4, 0));
    assert(r[4] == DEAD_CELL);
    assert(neighbor_types(g, 5, 5, 0, 1).len() == 0);
    assert(out_cell_ok(g, 5, 5, r, 0, 1));
    assert(r[6] == DEAD_CELL);
    assert(neighbor_types(g, 5, 5, 1, 1).len() == 2);
    assert(out_cell_ok(g, 5, 5, r, 1, 1));
    assert(r[7] == DEAD_CELL);
    assert(neighbor_types(g, 5, 5, 2, 1).len() == 1);
    assert(out_cell_ok(g, 5, 5, r, 2, 1));
    assert(r[8] == DEAD_CELL);
    assert(neighbor_types(g, 5, 5, 3, 1).len() == 2);
    assert(out_cell_ok(g, 5, 5, r, 3, 1));
    assert(r[9] == DEAD_CELL);
    assert(neighbor_types(g, 5, 5, 4, 1).len() == 0);
    assert(out_cell_ok(g, 5, 5, r, 4, 1));
    assert(r[10] == DEAD_CELL);
    assert(neighbor_types(g, 5, 5, 0, 2).len() == 0);
    assert(out_cell_ok(g, 5, 5, r, 0, 2));
    assert(r[12] == DEAD_CELL);
    assert(neighbor_types(g, 5, 5, 1, 2).len() == 3);
    assert(out_cell_ok(g, 5, 5, r, 1, 2));
    assert(neighbor_types(g, 5, 5, 1, 2) =~= seq![t, t, t]);
    lemma_uniform_birth_type(neighbor_types(g, 5, 5, 1, 2), t, r[13]);
    assert(r[13] == t);
    assert(neighbor_types(g, 5, 5, 2, 2).len() == 2);
    assert(out_cell_ok(g, 5, 5, r, 2, 2));
    assert(r[14] == t);
    assert(neighbor_types(g, 5, 5, 3, 2).len() == 3);
    assert(out_cell_ok(g, 5, 5, r, 3, 2));
    assert(neighbor_types(g, 5, 5, 3, 2) =~= seq![t, t, t]);
    lemma_uniform_birth_type(neighbor_types(g, 5, 5, 3, 2), t, r[15]);
    assert(r[15] == t);
    assert(neighbor_types(g, 5, 5, 4, 2).len() == 0);
    assert(out_cell_ok(g, 5, 5, r, 4, 2));
    assert(r[16] == DEAD_CELL);
    assert(neighbor_types(g, 5, 5, 0, 3).len() == 0);
    assert(out_cell_ok(g, 5, 5, r, 0, 3));
    assert(r[18] == DEAD_CELL);
    assert(neighbor_types(g, 5, 5, 1, 3).len() == 2);
    assert(out_cell_ok(g, 5, 5, r, 1, 3));
    assert(r[19] == DEAD_CELL);
    assert(neighbor_types(g, 5, 5, 2, 3).len() == 1);
    assert(out_cell_ok(g, 5, 5, r, 2, 3));
    assert(r[20] == DEAD_CELL);
    assert(neighbor_types(g, 5, 5, 3, 3).len() == 2);
    assert(out_cell_ok(g, 5, 5, r, 3, 3));
    assert(r[21] == DEAD_CELL);
    assert(neighbor_types(g, 5, 5, 4, 3).len() == 0);
    assert(out_cell_ok(g, 5, 5, r, 4, 3));
    assert(r[22] == DEAD_CELL);
    assert(neighbor_types(g, 5, 5, 0, 4).len() == 0);
    assert(out_cell_ok(g, 5, 5, r, 0, 4));
    assert(r[24] == DEAD_CELL);
    assert(neighbor_types(g, 5, 5, 1, 4).len() == 1);
    assert(out_cell_ok(g, 5, 5, r, 1, 4));
    assert(r[25] == DEAD_CELL);
    assert(neighbor_types(g, 5, 5, 2, 4).len() == 1);
    assert(out_cell_ok(g, 5, 5, r, 2, 4));
    assert(r[26] == DEAD_CELL);
    assert(neighbor_types(g, 5, 5, 3, 4).len() == 1);
    assert(out_cell_ok(g, 5, 5, r, 3, 4));
    assert(r[27] == DEAD_CELL);
    assert(neighbor_types(g, 5, 5, 4, 4).len() == 0);
    assert(out_cell_ok(g, 5, 5, r, 4, 4));
    assert(r[28] == DEAD_CELL);
    assert(out_sep_ok(r, 5, 1));
    assert(r[5] == ROW_SEP);
    assert(out_sep_ok(r, 5, 2));
    assert(r[11] == ROW_SEP);
    assert(out_sep_ok(r, 5, 3));
    assert(r[17] == ROW_SEP);
    assert(out_sep_ok(r, 5, 4));
    assert(r[23] == ROW_SEP);
    assert(r =~= blinker_h_board(t));
}

/// Period two: stepping the horizontal three-in-a-row twice returns it.
pub proof fn lemma_blinker_period_two(t: u8, r1: Seq<u8>, r2: Seq<u8>)
    requires
        t != DEAD_CELL,
        t != ROW_SEP,
        step_rel(blinker_h_board(t), r1),
        step_rel(r1, r2),
    ensures
        r1 =~= blinker_v_board(t),
        r2 =~= blinker_h_board(t),
{
    lemma_blinker_h_to_v(t, r1);
    assert(r1 == blinker_v_board(t));
    lemma_blinker_v_to_h(t, r2);
}

} // verus!
