//! Parsing of the textual board: width of the first row, row count, and the
//! flat grid the text denotes.
use vstd::prelude::*;

use crate::model::{first_row_width, grid_of, newline_count, pad_to, row_count, strip, ROW_SEP};

verus! {

/// The first-row width is where the first separator stands (or the length of
/// the whole text when it has none).
pub proof fn lemma_first_row_width_at(s: Seq<u8>, i: int)
    requires
        0 <= i <= s.len(),
        forall|j: int| 0 <= j < i ==> s[j] != ROW_SEP,
        i < s.len() ==> s[i] == ROW_SEP,
    ensures
        first_row_width(s) == i,
    decreases i,
{
    if i == 0 {
    } else {
        assert(s[0] != ROW_SEP);
        let rest = s.drop_first();
        assert forall|j: int| 0 <= j < i - 1 implies rest[j] != ROW_SEP by {
            assert(rest[j] == s[j + 1]);
        }
        lemma_first_row_width_at(rest, i - 1);
    }
}

/// A text holds no more separators than bytes.
pub proof fn lemma_newline_count_le(s: Seq<u8>)
    ensures
        newline_count(s) <= s.len(),
    decreases s.len(),
{
    if s.len() > 0 {
        lemma_newline_count_le(s.drop_last());
    }
}

/// Width of the first row of the board text.
pub fn find_width(input: &Vec<u8>) -> (w: usize)
    ensures
        w == first_row_width(input@),
        w <= input@.len(),
{
    let n = input.len();
    let mut i: usize = 0;
    while i < n
        invariant
            i <= n,
            n == input@.len(),
            forall|j: int| 0 <= j < i ==> input@[j] != ROW_SEP,
        decreases n - i,
    {
        if input[i] == ROW_SEP {
            proof {
                lemma_first_row_width_at(input@, i as int);
            }
            return i;
        }
        i += 1;
    }
    proof {
        lemma_first_row_width_at(input@, n as int);
    }
    n
}

/// Number of rows of the board text.
pub fn count_rows(input: &Vec<u8>) -> (h: usize)
    requires
        input@.len() < usize::MAX,
    ensures
        h == row_count(input@),
        h <= input@.len(),
{
    let n = input.len();
    let mut cnt: usize = 0;
    let mut i: usize = 0;
    while i < n
        invariant
            i <= n,
            n == input@.len(),
            cnt == newline_count(input@.subrange(0, i as int)),
            cnt <= i,
        decreases n - i,
    {
        proof {
            assert(input@.subrange(0, i + 1).drop_last() =~= input@.subrange(0, i as int));
            assert(input@.subrange(0, i + 1).last() == input@[i as int]);
        }
        if input[i] == ROW_SEP {
            cnt += 1;
        }
        i += 1;
    }
    proof {
        assert(input@.subrange(0, n as int) =~= input@);
    }
    if n > 0 && input[n - 1] != ROW_SEP {
        proof {
            lemma_newline_count_le(input@.drop_last());
            assert(newline_count(input@) == newline_count(input@.drop_last()));
        }
        cnt + 1
    } else {
        cnt
    }
}

/// The flat grid of `n` cells that the board text denotes: its bytes with
/// the separators removed, cut or zero-padded to length `n`.
pub fn build_grid(input: &Vec<u8>, n: usize) -> (g: Vec<u8>)
    ensures
        g@ == grid_of(input@, n as int),
        g@.len() == n,
{
    let mut cells: Vec<u8> = Vec::new();
    let len = input.len();
    let mut i: usize = 0;
    while i < len
        invariant
            i <= len,
            len == input@.len(),
            cells@ == strip(input@.subrange(0, i as int)),
        decreases len - i,
    {
        proof {
            assert(input@.subrange(0, i + 1).drop_last() =~= input@.subrange(0, i as int));
            assert(input@.subrange(0, i + 1).last() == input@[i as int]);
        }
        let b = input[i];
        if b != ROW_SEP {
            cells.push(b);
        }
        i += 1;
    }
    proof {
        assert(input@.subrange(0, len as int) =~= input@);
    }
    let mut g: Vec<u8> = Vec::new();
    let mut j: usize = 0;
    while j < n
        invariant
            j <= n,
            cells@ == strip(input@),
            g@.len() == j,
            forall|q: int| 0 <= q < j ==> g@[q] == pad_to(strip(input@), n as int)[q],
        decreases n - j,
    {
        if j < cells.len() {
            let b = cells[j];
            g.push(b);
        } else {
            g.push(0);
        }
        j += 1;
    }
    proof {
        assert(g@ =~= grid_of(input@, n as int));
    }
    g
}

} // verus!
