//! A verified selection sort over key/payload pairs, ascending by key. The
//! store's ordered queries (recency-ordered rating history, price-ordered
//! product lists) all reduce to it by choosing a suitable integer key.

use vstd::prelude::*;
use vstd::multiset::Multiset;

verus! {

broadcast use vstd::seq_lib::group_to_multiset_ensures;

/// The keys of the pair sequence never decrease.
pub open spec fn keys_sorted_asc<T>(s: Seq<(u64, T)>) -> bool {
    forall|i: int, j: int|
        #![trigger s[i], s[j]]
        0 <= i <= j < s.len() ==> s[i].0 <= s[j].0
}

/// Sorts the pairs ascending by key. The result holds exactly the given
/// pairs (as a multiset: which of two equal-keyed pairs comes first is not
/// promised).
pub fn sort_by_key<T>(v: Vec<(u64, T)>) -> (r: Vec<(u64, T)>)
    ensures
        keys_sorted_asc(r@),
        r@.to_multiset() == v@.to_multiset(),
        r@.len() == v@.len(),
{
    let ghost orig = v@;
    let mut rest = v;
    let mut out: Vec<(u64, T)> = Vec::new();
    proof {
        assert(out@.to_multiset().add(rest@.to_multiset()) =~= orig.to_multiset());
    }
    while rest.len() > 0
        invariant
            out@.to_multiset().add(rest@.to_multiset()) == orig.to_multiset(),
            out@.len() + rest@.len() == orig.len(),
            keys_sorted_asc(out@),
            forall|a: int, b: int|
                #![trigger out@[a], rest@[b]]
                0 <= a < out@.len() && 0 <= b < rest@.len() ==> out@[a].0 <= rest@[b].0,
        decreases rest@.len(),
    {
        let mut m: usize = 0;
        let mut i: usize = 1;
        while i < rest.len()
            invariant
                rest@.len() > 0,
                0 <= m < i <= rest@.len(),
                forall|j: int| 0 <= j < i ==> rest@[m as int].0 <= (#[trigger] rest@[j]).0,
            decreases rest@.len() - i,
        {
            if rest[i].0 < rest[m].0 {
                m = i;
            }
            i = i + 1;
        }
        let ghost rest_before = rest@;
        let ghost out_before = out@;
        let e = rest.remove(m);
        out.push(e);
        proof {
            assert(rest_before.contains(e)) by {
                assert(rest_before[m as int] == e);
            }
            assert(rest_before.to_multiset().count(e) > 0);
            assert(out@.to_multiset().add(rest@.to_multiset()) =~= out_before.to_multiset().add(
                rest_before.to_multiset(),
            ));
            assert forall|a: int, b: int|
                #![trigger out@[a], rest@[b]]
                0 <= a < out@.len() && 0 <= b < rest@.len() implies out@[a].0 <= rest@[b].0 by {
                if b < m {
                    assert(rest@[b] == rest_before[b]);
                } else {
                    assert(rest@[b] == rest_before[b + 1]);
                }
                if a < out@.len() - 1 {
                    assert(out@[a] == out_before[a]);
                } else {
                    assert(out@[a] == e);
                }
            }
        }
    }
    proof {
        assert(rest@.to_multiset() =~= Multiset::<(u64, T)>::empty());
        assert(out@.to_multiset().add(Multiset::<(u64, T)>::empty()) =~= out@.to_multiset());
    }
    out
}

} // verus!
