//! Mathematical model of the multi-colony life step: the board text format,
//! neighbor statistics, dominant-type resolution, and the per-cell transition.
use vstd::prelude::*;

verus! {

/// Largest board text (in bytes) that is processed; longer inputs are echoed.
pub const MAX_BOARD_SIZE: usize = 100_000;

/// The byte that marks a dead cell.
pub const DEAD_CELL: u8 = 32;

/// The byte that separates rows of the board text.
pub const ROW_SEP: u8 = 10;

/// The type given to a birth with no live neighbors (unreachable for real
/// births, which always have exactly three live neighbors).
pub const FALLBACK_CELL: u8 = 79;

/// A cell byte is live exactly when it is not the dead marker.
pub open spec fn live(b: u8) -> bool {
    b != DEAD_CELL
}

/// Whether `(x, y)` lies on a `w` by `h` grid; there is no wraparound.
pub open spec fn in_bounds(w: int, h: int, x: int, y: int) -> bool {
    0 <= x < w && 0 <= y < h
}

/// The byte of cell `(x, y)` in a row-major flat grid of width `w`.
pub open spec fn cell(g: Seq<u8>, w: int, x: int, y: int) -> u8 {
    g[y * w + x]
}

/// The `k`-th Moore-neighborhood offset `(dx, dy)`, in row-major scan order:
/// `dy` outer, `dx` inner, both ascending, skipping `(0, 0)`.
pub open spec fn offset(k: int) -> (int, int) {
    if k == 0 {
        (-1, -1)
    } else if k == 1 {
        (0, -1)
    } else if k == 2 {
        (1, -1)
    } else if k == 3 {
        (-1, 0)
    } else if k == 4 {
        (1, 0)
    } else if k == 5 {
        (-1, 1)
    } else if k == 6 {
        (0, 1)
    } else {
        (1, 1)
    }
}

/// The byte at `(nx, ny)` if that position is on the grid and live.
pub open spec fn probe(g: Seq<u8>, w: int, h: int, nx: int, ny: int) -> Option<u8> {
    if in_bounds(w, h, nx, ny) && live(cell(g, w, nx, ny)) {
        Some(cell(g, w, nx, ny))
    } else {
        None
    }
}

/// The live-neighbor bytes of `(x, y)` gathered from the first `k` offsets.
pub open spec fn neighbor_types_upto(g: Seq<u8>, w: int, h: int, x: int, y: int, k: int) -> Seq<u8>
    decreases k,
{
    if k <= 0 {
        Seq::empty()
    } else {
        let prev = neighbor_types_upto(g, w, h, x, y, k - 1);
        let off = offset(k - 1);
        match probe(g, w, h, x + off.0, y + off.1) {
            Some(b) => prev.push(b),
            None => prev,
        }
    }
}

/// The ordered list of live-neighbor bytes of `(x, y)`; its length is the
/// live-neighbor count.
pub open spec fn neighbor_types(g: Seq<u8>, w: int, h: int, x: int, y: int) -> Seq<u8> {
    neighbor_types_upto(g, w, h, x, y, 8)
}

/// How many entries of `s` equal `t`.
pub open spec fn occ(s: Seq<u8>, t: u8) -> nat
    decreases s.len(),
{
    if s.len() == 0 {
        0
    } else {
        occ(s.drop_last(), t) + if s.last() == t {
            1nat
        } else {
            0nat
        }
    }
}

/// The distinct values of `s`, each at the position of its first occurrence.
pub open spec fn firsts(s: Seq<u8>) -> Seq<u8>
    decreases s.len(),
{
    if s.len() == 0 {
        Seq::empty()
    } else {
        let prev = firsts(s.drop_last());
        if prev.contains(s.last()) {
            prev
        } else {
            prev.push(s.last())
        }
    }
}

pub open spec fn max2(a: nat, b: nat) -> nat {
    if a >= b {
        a
    } else {
        b
    }
}

/// The largest occurrence count in `s` among the candidate values `cands`.
pub open spec fn max_occ_over(s: Seq<u8>, cands: Seq<u8>) -> nat
    decreases cands.len(),
{
    if cands.len() == 0 {
        0
    } else {
        max2(max_occ_over(s, cands.drop_last()), occ(s, cands.last()))
    }
}

/// The occurrence count of the most frequent value of `s`.
pub open spec fn max_occ(s: Seq<u8>) -> nat {
    max_occ_over(s, firsts(s))
}

/// The candidates of `cands` that occur exactly `m` times in `s`, in order.
pub open spec fn with_count(s: Seq<u8>, cands: Seq<u8>, m: nat) -> Seq<u8>
    decreases cands.len(),
{
    if cands.len() == 0 {
        Seq::empty()
    } else {
        let prev = with_count(s, cands.drop_last(), m);
        if occ(s, cands.last()) == m {
            prev.push(cands.last())
        } else {
            prev
        }
    }
}

/// The values of `s` whose occurrence count is maximal, in first-seen order.
pub open spec fn winners(s: Seq<u8>) -> Seq<u8> {
    with_count(s, firsts(s), max_occ(s))
}

/// What dominant-type resolution may return for the neighbor list `s`: the
/// fallback for an empty list, the unique winner when there is one, and any
/// winner when several types tie (the tie is broken by a random draw).
pub open spec fn dominant_ok(s: Seq<u8>, r: u8) -> bool {
    if s.len() == 0 {
        r == FALLBACK_CELL
    } else {
        winners(s).contains(r) && (winners(s).len() == 1 ==> r == winners(s)[0])
    }
}

/// The length of the run of non-separator bytes at the front of `s`: the
/// width of the first row of a board text.
pub open spec fn first_row_width(s: Seq<u8>) -> int
    decreases s.len(),
{
    if s.len() == 0 {
        0
    } else if s[0] == ROW_SEP {
        0
    } else {
        1 + first_row_width(s.drop_first())
    }
}

/// How many row separators `s` holds.
pub open spec fn newline_count(s: Seq<u8>) -> nat
    decreases s.len(),
{
    if s.len() == 0 {
        0
    } else {
        newline_count(s.drop_last()) + if s.last() == ROW_SEP {
            1nat
        } else {
            0nat
        }
    }
}

/// The number of rows of a board text: one per separator, plus a final row
/// when bytes follow the last separator.
pub open spec fn row_count(s: Seq<u8>) -> int {
    newline_count(s) + if s.len() > 0 && s.last() != ROW_SEP {
        1int
    } else {
        0int
    }
}

/// `s` with every row separator removed, in order.
pub open spec fn strip(s: Seq<u8>) -> Seq<u8>
    decreases s.len(),
{
    if s.len() == 0 {
        Seq::empty()
    } else if s.last() == ROW_SEP {
        strip(s.drop_last())
    } else {
        strip(s.drop_last()).push(s.last())
    }
}

/// `s` cut or zero-padded to length `n`. Rows that differ in length from the
/// first row make the stripped text shorter or longer than the grid; the
/// missing tail reads as zero bytes, which count as live cells of type zero.
pub open spec fn pad_to(s: Seq<u8>, n: int) -> Seq<u8> {
    Seq::new(n as nat, |i: int| if i < s.len() { s[i] } else { 0u8 })
}

/// The flat grid a board text denotes, for a grid of `n` cells.
pub open spec fn grid_of(s: Seq<u8>, n: int) -> Seq<u8> {
    pad_to(strip(s), n)
}

/// Where the cell `(x, y)` lands in the output text, whose rows are `w` wide
/// and separated by single separator bytes.
pub open spec fn out_pos(w: int, x: int, y: int) -> int {
    y * (w + 1) + x
}

/// The transition of one cell: a live cell survives exactly on two or three
/// live neighbors and keeps its byte; a dead cell is born exactly on three,
/// with a dominant neighbor type; every other cell is dead.
pub open spec fn cell_outcome(g: Seq<u8>, w: int, h: int, x: int, y: int, r: u8) -> bool {
    let cur = cell(g, w, x, y);
    let n = neighbor_types(g, w, h, x, y).len();
    if live(cur) {
        r == if n == 2 || n == 3 {
            cur
        } else {
            DEAD_CELL
        }
    } else if n == 3 {
        dominant_ok(neighbor_types(g, w, h, x, y), r)
    } else {
        r == DEAD_CELL
    }
}

/// The byte of the output text at cell `(x, y)` obeys the transition.
pub open spec fn out_cell_ok(g: Seq<u8>, w: int, h: int, r: Seq<u8>, x: int, y: int) -> bool {
    cell_outcome(g, w, h, x, y, r[out_pos(w, x, y)])
}

/// The output text carries a row separator before row `y`.
pub open spec fn out_sep_ok(r: Seq<u8>, w: int, y: int) -> bool {
    r[y * (w + 1) - 1] == ROW_SEP
}

/// `r` is a next-generation text for the grid `g` of width `w` and height
/// `h`: `h` rows of exactly `w` cells joined by single separators, each cell
/// obeying the transition rule.
pub open spec fn is_next_board(g: Seq<u8>, w: int, h: int, r: Seq<u8>) -> bool {
    &&& r.len() == w * h + h - 1
    &&& forall|x: int, y: int| in_bounds(w, h, x, y) ==> #[trigger] out_cell_ok(g, w, h, r, x, y)
    &&& forall|y: int| 1 <= y < h ==> #[trigger] out_sep_ok(r, w, y)
}

/// A board text is processed only when it is nonempty, within the size bound,
/// parses to a positive width and height, and its output fits the bound too.
pub open spec fn board_accepted(b: Seq<u8>) -> bool {
    let w = first_row_width(b);
    let h = row_count(b);
    &&& 0 < b.len() <= MAX_BOARD_SIZE
    &&& w > 0
    &&& h > 0
    &&& w * h + h - 1 <= MAX_BOARD_SIZE
}

/// The full step: an accepted board maps to a next-generation text of the
/// grid it denotes; any other input is returned unchanged.
pub open spec fn step_rel(b: Seq<u8>, r: Seq<u8>) -> bool {
    if board_accepted(b) {
        let w = first_row_width(b);
        let h = row_count(b);
        is_next_board(grid_of(b, w * h), w, h, r)
    } else {
        r == b
    }
}

} // verus!
