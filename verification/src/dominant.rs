//! Dominant-type resolution: which colony type a newly born cell inherits
//! from its live neighbors.
use vstd::prelude::*;

use crate::lemmas::{lemma_firsts_contains, lemma_occ_zero, lemma_winners_nonempty};
use crate::model::{dominant_ok, firsts, max_occ, max_occ_over, occ, winners, with_count,
    FALLBACK_CELL};
use crate::rng::draw_index;

verus! {

/// The position of `t` in `keys`, if present.
fn find_key(keys: &Vec<u8>, t: u8) -> (r: Option<usize>)
    ensures
        match r {
            Some(i) => i < keys@.len() && keys@[i as int] == t,
            None => !keys@.contains(t),
        },
{
    let mut j: usize = 0;
    while j < keys.len()
        invariant
            j <= keys@.len(),
            forall|q: int| 0 <= q < j ==> keys@[q] != t,
        decreases keys@.len() - j,
    {
        if keys[j] == t {
            return Some(j);
        }
        j += 1;
    }
    None
}

/// Resolve the dominant type of the neighbor list `types`: the value with
/// the most occurrences, ties broken by a uniform random draw among the tied
/// values. An empty list yields the fallback type.
pub fn get_dominant_type(env: &soroban_sdk::Env, types: &Vec<u8>) -> (r: u8)
    ensures
        dominant_ok(types@, r),
{
    let n = types.len();
    if n == 0 {
        return FALLBACK_CELL;
    }
    // Tally the occurrences of each distinct type, in first-seen order.
    let mut keys: Vec<u8> = Vec::new();
    let mut counts: Vec<usize> = Vec::new();
    let mut i: usize = 0;
    while i < n
        invariant
            i <= n,
            n == types@.len(),
            keys@ == firsts(types@.subrange(0, i as int)),
            counts@.len() == keys@.len(),
            forall|a: int, b: int| 0 <= a < b < keys@.len() ==> keys@[a] != keys@[b],
            forall|j: int|
                0 <= j < keys@.len() ==> counts@[j] == occ(
                    types@.subrange(0, i as int),
                    #[trigger] keys@[j],
                ),
            forall|j: int| 0 <= j < counts@.len() ==> #[trigger] counts@[j] <= i,
        decreases n - i,
    {
        let t = types[i];
        proof {
            assert(types@.subrange(0, i + 1).drop_last() =~= types@.subrange(0, i as int));
            assert(types@.subrange(0, i + 1).last() == types@[i as int]);
        }
        let ghost pre = types@.subrange(0, i as int);
        let ghost post = types@.subrange(0, i + 1);
        match find_key(&keys, t) {
            Some(idx) => {
                let c = counts[idx];
                counts[idx] = c + 1;
                proof {
                    assert(keys@.contains(t)) by {
                        assert(keys@[idx as int] == t);
                    }
                    assert(firsts(post) == keys@);
                    assert forall|j: int| 0 <= j < keys@.len() implies counts@[j] == occ(
                        post,
                        #[trigger] keys@[j],
                    ) by {
                        assert(occ(post, keys@[j]) == occ(pre, keys@[j]) + if post.last()
                            == keys@[j] {
                            1nat
                        } else {
                            0nat
                        });
                        if j != idx {
                            assert(keys@[j] != t);
                        }
                    }
                }
            },
            None => {
                proof {
                    lemma_firsts_contains(pre, t);
                    lemma_occ_zero(pre, t);
                    assert(firsts(post) == firsts(pre).push(t));
                }
                keys.push(t);
                counts.push(1);
                proof {
                    assert(keys@ == firsts(post));
                    assert forall|j: int| 0 <= j < keys@.len() implies counts@[j] == occ(
                        post,
                        #[trigger] keys@[j],
                    ) by {
                        assert(occ(post, keys@[j]) == occ(pre, keys@[j]) + if post.last()
                            == keys@[j] {
                            1nat
                        } else {
                            0nat
                        });
                        if j < keys@.len() - 1 {
                            assert(!pre.contains(t));
                            assert(keys@[j] != t);
                        } else {
                            assert(keys@[j] == t);
                            assert(occ(pre, t) == 0);
                        }
                    }
                }
            },
        }
        i += 1;
    }
    proof {
        assert(types@.subrange(0, n as int) =~= types@);
    }
    // Find the maximal occurrence count.
    let klen = keys.len();
    let mut max_count: usize = 0;
    i = 0;
    while i < klen
        invariant
            i <= klen,
            klen == keys@.len(),
            counts@.len() == klen,
            forall|j: int|
                0 <= j < keys@.len() ==> counts@[j] == occ(types@, #[trigger] keys@[j]),
            max_count == max_occ_over(types@, keys@.subrange(0, i as int)),
        decreases klen - i,
    {
        proof {
            assert(keys@.subrange(0, i + 1).drop_last() =~= keys@.subrange(0, i as int));
            assert(keys@.subrange(0, i + 1).last() == keys@[i as int]);
        }
        let c = counts[i];
        if c > max_count {
            max_count = c;
        }
        i += 1;
    }
    // Collect every type attaining it, in first-seen order.
    let mut wins: Vec<u8> = Vec::new();
    i = 0;
    while i < klen
        invariant
            i <= klen,
            klen == keys@.len(),
            counts@.len() == klen,
            forall|j: int|
                0 <= j < keys@.len() ==> counts@[j] == occ(types@, #[trigger] keys@[j]),
            wins@ == with_count(types@, keys@.subrange(0, i as int), max_count as nat),
        decreases klen - i,
    {
        proof {
            assert(keys@.subrange(0, i + 1).drop_last() =~= keys@.subrange(0, i as int));
            assert(keys@.subrange(0, i + 1).last() == keys@[i as int]);
        }
        if counts[i] == max_count {
            wins.push(keys[i]);
        }
        i += 1;
    }
    proof {
        assert(keys@.subrange(0, klen as int) =~= keys@);
        assert(keys@ == firsts(types@));
        assert(max_count as nat == max_occ(types@));
        assert(wins@ == winners(types@));
    }
    if wins.len() == 1 {
        let r = wins[0];
        proof {
            assert(winners(types@)[0] == r);
            assert(winners(types@).contains(r));
        }
        return r;
    }
    proof {
        lemma_winners_nonempty(types@);
    }
    // Several types tie: draw one of them uniformly at random.
    let idx64 = draw_index(env, wins.len() as u64);
    let idx = idx64 as usize;
    let r = wins[idx];
    proof {
        assert(winners(types@)[idx as int] == r);
        assert(winners(types@).contains(r));
    }
    r
}

} // verus!
