//! Supporting lemmas about occurrence counts, first-seen orders and winner
//! lists of the model.
use vstd::prelude::*;

use crate::model::{firsts, max_occ, max_occ_over, occ, with_count, winners};

verus! {

/// Membership in a sequence extended by one element.
pub proof fn lemma_push_contains(s: Seq<u8>, x: u8, t: u8)
    ensures
        s.push(x).contains(t) <==> (s.contains(t) || x == t),
{
    if s.contains(t) {
        let i = choose|i: int| 0 <= i < s.len() && s[i] == t;
        assert(s.push(x)[i] == t);
    }
    if x == t {
        assert(s.push(x)[s.len() as int] == t);
    }
    if s.push(x).contains(t) {
        let i = choose|i: int| 0 <= i < s.push(x).len() && s.push(x)[i] == t;
        if i < s.len() {
            assert(s[i] == t);
        }
    }
}

/// Membership in a nonempty sequence, split at its last element.
pub proof fn lemma_unpush_contains(s: Seq<u8>, t: u8)
    requires
        s.len() > 0,
    ensures
        s.contains(t) <==> (s.drop_last().contains(t) || s.last() == t),
{
    if s.drop_last().contains(t) {
        let i = choose|i: int| 0 <= i < s.drop_last().len() && s.drop_last()[i] == t;
        assert(s[i] == t);
    }
    if s.last() == t {
        assert(s[s.len() - 1] == t);
    }
    if s.contains(t) {
        let i = choose|i: int| 0 <= i < s.len() && s[i] == t;
        if i < s.len() - 1 {
            assert(s.drop_last()[i] == t);
        }
    }
}

/// The first-seen list holds exactly the values of the sequence.
pub proof fn lemma_firsts_contains(s: Seq<u8>, t: u8)
    ensures
        firsts(s).contains(t) <==> s.contains(t),
    decreases s.len(),
{
    if s.len() == 0 {
    } else {
        lemma_firsts_contains(s.drop_last(), t);
        lemma_unpush_contains(s, t);
        if !firsts(s.drop_last()).contains(s.last()) {
            lemma_push_contains(firsts(s.drop_last()), s.last(), t);
        }
    }
}

/// A value occurs zero times exactly when the sequence does not hold it.
pub proof fn lemma_occ_zero(s: Seq<u8>, t: u8)
    ensures
        occ(s, t) == 0 <==> !s.contains(t),
    decreases s.len(),
{
    if s.len() == 0 {
    } else {
        lemma_occ_zero(s.drop_last(), t);
        lemma_unpush_contains(s, t);
    }
}

/// Some candidate attains the maximal occurrence count.
pub proof fn lemma_max_occ_attained(s: Seq<u8>, cands: Seq<u8>)
    requires
        cands.len() > 0,
    ensures
        exists|j: int|
            0 <= j < cands.len() && occ(s, #[trigger] cands[j]) == max_occ_over(s, cands),
    decreases cands.len(),
{
    if cands.len() == 1 {
        assert(cands.drop_last().len() == 0);
        assert(max_occ_over(s, cands.drop_last()) == 0);
        assert(cands.last() == cands[0]);
        assert(occ(s, cands[0]) == max_occ_over(s, cands));
    } else {
        let prev = cands.drop_last();
        lemma_max_occ_attained(s, prev);
        if occ(s, cands.last()) >= max_occ_over(s, prev) {
            assert(cands[cands.len() - 1] == cands.last());
        } else {
            let j = choose|j: int|
                0 <= j < prev.len() && occ(s, #[trigger] prev[j]) == max_occ_over(s, prev);
            assert(occ(s, cands[j]) == max_occ_over(s, cands));
        }
    }
}

/// The filtered candidate list holds a value exactly when it is a candidate
/// with the given occurrence count.
pub proof fn lemma_with_count_contains(s: Seq<u8>, cands: Seq<u8>, m: nat, t: u8)
    ensures
        with_count(s, cands, m).contains(t) <==> (cands.contains(t) && occ(s, t) == m),
    decreases cands.len(),
{
    if cands.len() == 0 {
    } else {
        lemma_with_count_contains(s, cands.drop_last(), m, t);
        lemma_unpush_contains(cands, t);
        if occ(s, cands.last()) == m {
            lemma_push_contains(with_count(s, cands.drop_last(), m), cands.last(), t);
        }
    }
}

/// A nonempty neighbor list always has at least one winner.
pub proof fn lemma_winners_nonempty(s: Seq<u8>)
    requires
        s.len() > 0,
    ensures
        winners(s).len() > 0,
{
    if firsts(s.drop_last()).contains(s.last()) {
        let i = choose|i: int|
            0 <= i < firsts(s.drop_last()).len() && firsts(s.drop_last())[i] == s.last();
        assert(firsts(s).len() > 0);
    }
    lemma_max_occ_attained(s, firsts(s));
    let j = choose|j: int|
        0 <= j < firsts(s).len() && occ(s, #[trigger] firsts(s)[j]) == max_occ_over(s, firsts(s));
    assert(firsts(s).contains(firsts(s)[j]));
    lemma_with_count_contains(s, firsts(s), max_occ(s), firsts(s)[j]);
    let q = choose|q: int| 0 <= q < winners(s).len() && winners(s)[q] == firsts(s)[j];
    assert(winners(s).len() > 0);
}

} // verus!
