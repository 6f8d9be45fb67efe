//! Laws of the transition: properties that hold of every board or every
//! neighbor list, stated over the model and proved once and for all.
use vstd::prelude::*;

use crate::lemmas::lemma_winners_nonempty;
use crate::model::{cell, cell_outcome, dominant_ok, firsts, in_bounds, live, max_occ,
    max_occ_over, neighbor_types, occ, step_rel, winners, with_count, DEAD_CELL, MAX_BOARD_SIZE};

verus! {

/// Underpopulation: a live cell with at most one live neighbor dies.
pub proof fn lemma_underpopulation_dies(g: Seq<u8>, w: int, h: int, x: int, y: int, r: u8)
    requires
        in_bounds(w, h, x, y),
        live(cell(g, w, x, y)),
        neighbor_types(g, w, h, x, y).len() <= 1,
        cell_outcome(g, w, h, x, y, r),
    ensures
        r == DEAD_CELL,
{
}

/// Overpopulation: a live cell with more than three live neighbors dies.
pub proof fn lemma_overpopulation_dies(g: Seq<u8>, w: int, h: int, x: int, y: int, r: u8)
    requires
        in_bounds(w, h, x, y),
        live(cell(g, w, x, y)),
        neighbor_types(g, w, h, x, y).len() > 3,
        cell_outcome(g, w, h, x, y, r),
    ensures
        r == DEAD_CELL,
{
}

/// A survivor keeps its original type, whatever types stand around it.
pub proof fn lemma_survivor_keeps_type(g: Seq<u8>, w: int, h: int, x: int, y: int, r: u8)
    requires
        in_bounds(w, h, x, y),
        live(cell(g, w, x, y)),
        neighbor_types(g, w, h, x, y).len() == 2 || neighbor_types(g, w, h, x, y).len() == 3,
        cell_outcome(g, w, h, x, y, r),
    ensures
        r == cell(g, w, x, y),
{
}

/// Degenerate input passes through: an empty board and a board over the size
/// bound are returned unchanged.
pub proof fn lemma_degenerate_pass_through(b: Seq<u8>, r: Seq<u8>)
    requires
        b.len() == 0 || b.len() > MAX_BOARD_SIZE,
        step_rel(b, r),
    ensures
        r == b,
{
}

/// Whatever the random draw, the resolved type of a nonempty neighbor list
/// is one of the tied winners, never an unlisted type.
pub proof fn lemma_choice_is_winner(s: Seq<u8>, r: u8)
    requires
        s.len() > 0,
        dominant_ok(s, r),
    ensures
        winners(s).contains(r),
        winners(s).len() >= 1,
{
    lemma_winners_nonempty(s);
}

/// Values of the model's recursions on empty lists.
proof fn lemma_empty_bases(s: Seq<u8>, t: u8, m: nat)
    ensures
        occ(Seq::<u8>::empty(), t) == 0,
        firsts(Seq::<u8>::empty()) =~= Seq::<u8>::empty(),
        max_occ_over(s, Seq::<u8>::empty()) == 0,
        with_count(s, Seq::<u8>::empty(), m) =~= Seq::<u8>::empty(),
{
}

/// On a neighbor list of one repeated value, that value is the sole winner.
proof fn lemma_uniform_winners(s: Seq<u8>, t: u8)
    requires
        s.len() > 0,
        forall|i: int| 0 <= i < s.len() ==> s[i] == t,
    ensures
        firsts(s) =~= seq![t],
        occ(s, t) == s.len(),
    decreases s.len(),
{
    if s.len() == 1 {
        lemma_empty_bases(s, t, 0);
        assert(s.drop_last() =~= Seq::<u8>::empty());
        assert(s.last() == t);
        assert(occ(s.drop_last(), t) == 0);
        assert(!firsts(s.drop_last()).contains(t));
    } else {
        assert forall|i: int| 0 <= i < s.drop_last().len() implies s.drop_last()[i] == t by {
            assert(s.drop_last()[i] == s[i]);
        }
        lemma_uniform_winners(s.drop_last(), t);
        assert(s.last() == t);
        assert(firsts(s.drop_last()).contains(t)) by {
            assert(firsts(s.drop_last())[0] == t);
        }
        assert(firsts(s) == firsts(s.drop_last()));
    }
}

/// A birth whose live neighbors all share one type inherits that type.
pub proof fn lemma_uniform_birth_type(s: Seq<u8>, t: u8, r: u8)
    requires
        s.len() > 0,
        forall|i: int| 0 <= i < s.len() ==> s[i] == t,
        dominant_ok(s, r),
    ensures
        r == t,
{
    lemma_uniform_winners(s, t);
    lemma_empty_bases(s, t, s.len());
    let c = seq![t];
    assert(c.drop_last() =~= Seq::<u8>::empty());
    assert(c.last() == t);
    assert(max_occ_over(s, c.drop_last()) == 0);
    assert(with_count(s, c.drop_last(), s.len()) =~= Seq::<u8>::empty());
    assert(max_occ_over(s, c) == occ(s, t));
    assert(max_occ(s) == s.len());
    assert(with_count(s, c, s.len()) =~= seq![t]);
    assert(winners(s) =~= seq![t]);
    assert(winners(s).len() == 1);
    assert(r == winners(s)[0]);
}

/// Winners when the distinct values are `x` then `o` and `x` leads two to one.
proof fn lemma_winners_two_cands(s: Seq<u8>, x: u8, o: u8)
    requires
        firsts(s) =~= seq![x, o],
        occ(s, x) == 2,
        occ(s, o) == 1,
    ensures
        winners(s) =~= seq![x],
{
    lemma_empty_bases(s, x, 2);
    let f = seq![x, o];
    let f1 = seq![x];
    assert(f.drop_last() =~= f1);
    assert(f1.drop_last() =~= Seq::<u8>::empty());
    assert(f.last() == o && f1.last() == x);
    assert(max_occ_over(s, f1.drop_last()) == 0);
    assert(with_count(s, f1.drop_last(), 2) =~= Seq::<u8>::empty());
    assert(max_occ_over(s, f1) == 2);
    assert(max_occ_over(s, f) == 2);
    assert(max_occ(s) == 2);
    assert(with_count(s, f1, 2) =~= seq![x]);
    assert(with_count(s, f, 2) =~= seq![x]);
}

/// Winners when the distinct values are `o` then `x` and `x` leads two to one.
proof fn lemma_winners_two_cands_rev(s: Seq<u8>, x: u8, o: u8)
    requires
        firsts(s) =~= seq![o, x],
        occ(s, x) == 2,
        occ(s, o) == 1,
    ensures
        winners(s) =~= seq![x],
{
    lemma_empty_bases(s, x, 2);
    let f = seq![o, x];
    let f1 = seq![o];
    assert(f.drop_last() =~= f1);
    assert(f1.drop_last() =~= Seq::<u8>::empty());
    assert(f.last() == x && f1.last() == o);
    assert(max_occ_over(s, f1.drop_last()) == 0);
    assert(with_count(s, f1.drop_last(), 2) =~= Seq::<u8>::empty());
    assert(max_occ_over(s, f1) == 1);
    assert(max_occ_over(s, f) == 2);
    assert(max_occ(s) == 2);
    assert(with_count(s, f1, 2) =~= Seq::<u8>::empty());
    assert(with_count(s, f, 2) =~= seq![x]);
}

/// Occurrence counts and first-seen list of a three-element list, from its
/// entries.
proof fn lemma_three_unfold(s: Seq<u8>, t: u8)
    requires
        s.len() == 3,
    ensures
        occ(s, t) == (if s[0] == t { 1int } else { 0int }) + (if s[1] == t { 1int } else { 0int })
            + (if s[2] == t { 1int } else { 0int }),
    decreases s.len(),
{
    let s2 = s.drop_last();
    let s1 = s2.drop_last();
    assert(s1.drop_last() =~= Seq::<u8>::empty());
    assert(occ(s1.drop_last(), t) == 0);
    assert(s1.last() == s[0] && s2.last() == s[1] && s.last() == s[2]);
    assert(occ(s1, t) == if s[0] == t {
        1nat
    } else {
        0nat
    });
    assert(occ(s2, t) == occ(s1, t) + if s[1] == t {
        1nat
    } else {
        0nat
    });
    assert(occ(s, t) == occ(s2, t) + if s[2] == t {
        1nat
    } else {
        0nat
    });
}

/// The sole winner of the list `[x, x, o]`, for distinct values.
proof fn lemma_winners_xxo(x: u8, o: u8)
    requires
        x != o,
    ensures
        winners(seq![x, x, o]) =~= seq![x],
{
    let s = seq![x, x, o];
    let s2 = seq![x, x];
    let s1 = seq![x];
    lemma_empty_bases(s, x, 2);
    lemma_empty_bases(s, o, 2);
    assert(s.drop_last() =~= s2);
    assert(s2.drop_last() =~= s1);
    assert(s1.drop_last() =~= Seq::<u8>::empty());
    assert(s.last() == o && s2.last() == x && s1.last() == x);
    assert(occ(s1.drop_last(), x) == 0 && occ(s1.drop_last(), o) == 0);
    assert(occ(s1, x) == 1 && occ(s1, o) == 0);
    assert(occ(s2, x) == 2 && occ(s2, o) == 0);
    assert(occ(s, x) == 2 && occ(s, o) == 1);
    assert(firsts(s1) =~= seq![x]) by {
        assert(!firsts(s1.drop_last()).contains(x));
    }
    assert(firsts(s2) == firsts(s1)) by {
        assert(firsts(s1).contains(x)) by {
            assert(firsts(s1)[0] == x);
        }
    }
    assert(firsts(s) =~= seq![x, o]) by {
        assert(!firsts(s2).contains(o)) by {
            assert(firsts(s2).len() == 1);
            assert(firsts(s2)[0] == x);
        }
    }
    lemma_winners_two_cands(s, x, o);
}

/// The sole winner of the list `[x, o, x]`, for distinct values.
proof fn lemma_winners_xox(x: u8, o: u8)
    requires
        x != o,
    ensures
        winners(seq![x, o, x]) =~= seq![x],
{
    let s = seq![x, o, x];
    let s2 = seq![x, o];
    let s1 = seq![x];
    lemma_empty_bases(s, x, 2);
    lemma_empty_bases(s, o, 2);
    assert(s.drop_last() =~= s2);
    assert(s2.drop_last() =~= s1);
    assert(s1.drop_last() =~= Seq::<u8>::empty());
    assert(s.last() == x && s2.last() == o && s1.last() == x);
    assert(occ(s1.drop_last(), x) == 0 && occ(s1.drop_last(), o) == 0);
    assert(occ(s1, x) == 1 && occ(s1, o) == 0);
    assert(occ(s2, x) == 1 && occ(s2, o) == 1);
    assert(occ(s, x) == 2 && occ(s, o) == 1);
    assert(firsts(s1) =~= seq![x]) by {
        assert(!firsts(s1.drop_last()).contains(x));
    }
    assert(firsts(s2) =~= seq![x, o]) by {
        assert(!firsts(s1).contains(o)) by {
            assert(firsts(s1).len() == 1);
            assert(firsts(s1)[0] == x);
        }
    }
    assert(firsts(s) == firsts(s2)) by {
        assert(firsts(s2).contains(x)) by {
            assert(firsts(s2)[0] == x);
        }
    }
    lemma_winners_two_cands(s, x, o);
}

/// The sole winner of the list `[o, x, x]`, for distinct values.
proof fn lemma_winners_oxx(x: u8, o: u8)
    requires
        x != o,
    ensures
        winners(seq![o, x, x]) =~= seq![x],
{
    let s = seq![o, x, x];
    let s2 = seq![o, x];
    let s1 = seq![o];
    lemma_empty_bases(s, x, 2);
    lemma_empty_bases(s, o, 2);
    assert(s.drop_last() =~= s2);
    assert(s2.drop_last() =~= s1);
    assert(s1.drop_last() =~= Seq::<u8>::empty());
    assert(s.last() == x && s2.last() == x && s1.last() == o);
    assert(occ(s1.drop_last(), x) == 0 && occ(s1.drop_last(), o) == 0);
    assert(occ(s1, x) == 0 && occ(s1, o) == 1);
    assert(occ(s2, x) == 1 && occ(s2, o) == 1);
    assert(occ(s, x) == 2 && occ(s, o) == 1);
    assert(firsts(s1) =~= seq![o]) by {
        assert(!firsts(s1.drop_last()).contains(o));
    }
    assert(firsts(s2) =~= seq![o, x]) by {
        assert(!firsts(s1).contains(x)) by {
            assert(firsts(s1).len() == 1);
            assert(firsts(s1)[0] == o);
        }
    }
    assert(firsts(s) == firsts(s2)) by {
        assert(firsts(s2).contains(x)) by {
            assert(firsts(s2)[1] == x);
        }
    }
    lemma_winners_two_cands_rev(s, x, o);
}

/// A birth with two neighbors of one type and one of another inherits the
/// majority type.
pub proof fn lemma_clear_majority(x: u8, o: u8, r: u8)
    requires
        x != o,
        dominant_ok(seq![x, x, o], r),
    ensures
        r == x,
{
    lemma_winners_xxo(x, o);
    let s = seq![x, x, o];
    assert(winners(s).len() == 1);
    assert(r == winners(s)[0]);
}

/// The same, whatever order the scan met the three neighbors in.
pub proof fn lemma_clear_majority_any_order(s: Seq<u8>, x: u8, o: u8, r: u8)
    requires
        x != o,
        s.len() == 3,
        occ(s, x) == 2,
        occ(s, o) == 1,
        dominant_ok(s, r),
    ensures
        r == x,
{
    lemma_three_unfold(s, x);
    lemma_three_unfold(s, o);
    if s[0] == x && s[1] == x {
        assert(s =~= seq![x, x, o]);
        lemma_winners_xxo(x, o);
    } else if s[0] == x {
        assert(s =~= seq![x, o, x]);
        lemma_winners_xox(x, o);
    } else {
        assert(s =~= seq![o, x, x]);
        lemma_winners_oxx(x, o);
    }
    assert(winners(s).len() == 1);
    assert(r == winners(s)[0]);
}

} // verus!
