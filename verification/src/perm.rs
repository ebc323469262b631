//! Permutations of the index range `0 .. n`.
//!
//! The filler never reorders the caller's items; it works on a list of
//! indices into them.  This module says what it means for such a list to be
//! a permutation of the full index range, and proves the facts the filler
//! needs: such a list has length `n`, stays below `n`, holds no index twice,
//! and holds every index below `n` exactly once.

use vstd::prelude::*;

verus! {

/// The indices `0, 1, ..., n - 1` in their original order.
pub open spec fn index_order(n: nat) -> Seq<usize> {
    Seq::new(n, |i: int| i as usize)
}

/// `s` holds each index below `n` exactly once, in some order.
pub open spec fn is_index_permutation(s: Seq<usize>, n: nat) -> bool {
    s.to_multiset() == index_order(n).to_multiset()
}

/// How often a value occurs among the indices `0 .. n`: once when it is
/// below `n`, never otherwise.
pub proof fn lemma_index_order_count(n: nat, v: usize)
    requires
        n <= usize::MAX,
    ensures
        index_order(n).to_multiset().count(v) == if (v as nat) < n {
            1nat
        } else {
            0nat
        },
    decreases n,
{
    broadcast use vstd::seq_lib::group_to_multiset_ensures;
    broadcast use vstd::multiset::group_multiset_axioms;

    if n == 0 {
        assert(index_order(0) =~= Seq::<usize>::empty());
    } else {
        lemma_index_order_count((n - 1) as nat, v);
        assert(index_order(n) =~= index_order((n - 1) as nat).push((n - 1) as usize));
    }
}

/// A permutation of the indices `0 .. n` has length `n`, every element below
/// `n`, no element twice, and every index below `n` somewhere in it.
pub proof fn lemma_index_permutation_properties(s: Seq<usize>, n: nat)
    requires
        n <= usize::MAX,
        is_index_permutation(s, n),
    ensures
        s.len() == n,
        forall|i: int| 0 <= i < s.len() ==> (#[trigger] s[i]) < n,
        forall|i: int, j: int| 0 <= i < j < s.len() ==> s[i] != s[j],
        forall|v: usize| (v as nat) < n ==> s.to_multiset().count(v) == 1,
{
    broadcast use vstd::seq_lib::group_to_multiset_ensures;
    broadcast use vstd::multiset::group_multiset_axioms;

    assert forall|v: usize| (v as nat) < n implies s.to_multiset().count(v) == 1 by {
        lemma_index_order_count(n, v);
    }

    assert(s.len() == n) by {
        assert(s.to_multiset().len() == s.len());
        assert(index_order(n).to_multiset().len() == index_order(n).len());
    }

    assert forall|i: int| 0 <= i < s.len() implies (#[trigger] s[i]) < n by {
        assert(s.contains(s[i]));
        assert(s.to_multiset().count(s[i]) > 0);
        lemma_index_order_count(n, s[i]);
    }

    assert forall|x: usize| s.to_multiset().contains(x) implies s.to_multiset().count(x) == 1 by {
        lemma_index_order_count(n, x);
    }
    s.lemma_multiset_has_no_duplicates_conv();
}

} // verus!
