//! Sorting of result rows.
//!
//! Every query orders its rows by category, then instance, then id. The sort
//! returns a permutation (stated by multiset equality) that is sorted by
//! `record_le`.

use vstd::prelude::*;
use vstd::relations::sorted_by;
use crate::records::{GameInstance, record_le, record_le_exec, lemma_record_le_total,
    lemma_record_le_trans};

verus! {

/// The report order as a relation value, for `sorted_by`.
pub open spec fn record_leq() -> spec_fn(GameInstance, GameInstance) -> bool {
    |a: GameInstance, b: GameInstance| record_le(a, b)
}

/// Index of a least record of a non-empty vector.
fn min_index(v: &Vec<GameInstance>) -> (m: usize)
    requires
        v@.len() > 0,
    ensures
        m < v@.len(),
        forall|k: int| 0 <= k < v@.len() ==> record_le(v@[m as int], v@[k]),
{
    let mut m: usize = 0;
    let mut j: usize = 1;
    while j < v.len()
        invariant
            m < j,
            1 <= j <= v@.len(),
            forall|k: int| 0 <= k < j ==> record_le(v@[m as int], v@[k]),
        decreases v@.len() - j,
    {
        if !record_le_exec(&v[m], &v[j]) {
            proof {
                lemma_record_le_total(v@[m as int], v@[j as int]);
                assert forall|k: int| 0 <= k < j implies record_le(v@[j as int], v@[k]) by {
                    lemma_record_le_trans(v@[j as int], v@[m as int], v@[k]);
                }
            }
            m = j;
        }
        j = j + 1;
    }
    m
}

/// Sort rows into report order. The result holds exactly the given records.
pub fn sort_records(v: Vec<GameInstance>) -> (r: Vec<GameInstance>)
    ensures
        r@.to_multiset() == v@.to_multiset(),
        sorted_by(r@, record_leq()),
{
    let ghost orig = v@;
    let mut v = v;
    let mut out: Vec<GameInstance> = Vec::new();
    proof {
        broadcast use vstd::seq_lib::group_to_multiset_ensures;

        assert(out@.to_multiset().add(v@.to_multiset()) =~= orig.to_multiset());
    }
    while v.len() > 0
        invariant
            out@.to_multiset().add(v@.to_multiset()) == orig.to_multiset(),
            sorted_by(out@, record_leq()),
            forall|i: int, j: int|
                0 <= i < out@.len() && 0 <= j < v@.len() ==> record_le(out@[i], v@[j]),
        decreases v@.len(),
    {
        broadcast use vstd::seq_lib::group_to_multiset_ensures;

        let ghost prev_out = out@;
        let ghost prev_v = v@;
        let m = min_index(&v);
        let x = v.remove(m);
        proof {
            assert(v@ =~= prev_v.remove(m as int));
            assert(prev_v.remove(m as int).to_multiset() =~= prev_v.to_multiset().remove(x));
            assert(prev_v.to_multiset().count(x) > 0) by {
                assert(prev_v.contains(x));
            }
            assert forall|j: int| 0 <= j < v@.len() implies record_le(x, v@[j]) by {
                if j < m {
                    assert(v@[j] == prev_v[j]);
                } else {
                    assert(v@[j] == prev_v[j + 1]);
                }
            }
        }
        out.push(x);
        proof {
            assert(out@ =~= prev_out.push(x));
            assert(out@.to_multiset() =~= prev_out.to_multiset().insert(x));
            assert(out@.to_multiset().add(v@.to_multiset()) =~= orig.to_multiset());
            assert forall|i: int, j: int|
                0 <= i < j < out@.len() implies #[trigger] record_leq()(out@[i], out@[j]) by {
                if j < out@.len() - 1 {
                    assert(record_leq()(prev_out[i], prev_out[j]));
                } else {
                    assert(record_le(prev_out[i], prev_v[m as int]));
                }
            }
        }
    }
    out
}

/// Filtering one more element of a prefix keeps or appends it.
pub proof fn lemma_filter_take_step<A>(s: Seq<A>, i: int, pred: spec_fn(A) -> bool)
    requires
        0 <= i < s.len(),
    ensures
        pred(s[i]) ==> s.take(i + 1).filter(pred) == s.take(i).filter(pred).push(s[i]),
        !pred(s[i]) ==> s.take(i + 1).filter(pred) == s.take(i).filter(pred),
{
    reveal(Seq::filter);
    assert(s.take(i + 1).drop_last() =~= s.take(i));
    assert(s.take(i + 1).last() == s[i]);
}

/// Every element of a filtered sequence comes from the sequence.
pub proof fn lemma_filter_is_subset<A>(s: Seq<A>, pred: spec_fn(A) -> bool)
    ensures
        forall|x: A| #[trigger] s.filter(pred).contains(x) ==> s.contains(x),
    decreases s.len(),
{
    reveal(Seq::filter);
    if s.len() > 0 {
        lemma_filter_is_subset(s.drop_last(), pred);
        assert forall|x: A| #[trigger] s.filter(pred).contains(x) implies s.contains(x) by {
            let sub = s.drop_last().filter(pred);
            if sub.contains(x) {
                let k = choose|k: int| 0 <= k < s.drop_last().len() && s.drop_last()[k] == x;
                assert(s[k] == x);
            } else {
                assert(x == s.last());
            }
        }
    }
}

} // verus!
