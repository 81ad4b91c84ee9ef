//! Permutations of the numbers below a bound.
use vstd::prelude::*;

verus! {

/// The numbers below `n`, in ascending order.
pub open spec fn identity(n: nat) -> Seq<usize> {
    Seq::new(n, |i: int| i as usize)
}

/// Whether `order` lists each of the numbers below `n` once.
pub open spec fn is_permutation(order: Seq<usize>, n: nat) -> bool {
    &&& order.len() == n
    &&& forall|i: int| 0 <= i < n ==> (#[trigger] order[i]) < n
    &&& order.to_multiset() =~= identity(n).to_multiset()
}

/// Two sequences with the same elements, each as often, are equally long,
/// and each element of the one stands somewhere in the other.
pub proof fn permuted_elements(a: Seq<usize>, b: Seq<usize>)
    requires
        a.to_multiset() == b.to_multiset(),
    ensures
        a.len() == b.len(),
        forall|x: int| 0 <= x < a.len() ==> b.contains(#[trigger] a[x]),
{
    broadcast use vstd::seq_lib::to_multiset_len;
    assert(a.len() == a.to_multiset().len());
    assert(b.len() == b.to_multiset().len());
    assert forall|x: int| 0 <= x < a.len() implies b.contains(#[trigger] a[x]) by {
        assert(a.contains(a[x]));
        vstd::seq_lib::to_multiset_contains(a, a[x]);
        vstd::seq_lib::to_multiset_contains(b, a[x]);
    }
}

/// Replacing a stretch of a sequence by a rearrangement of that stretch
/// rearranges the sequence.
pub proof fn splice_is_permutation(o: Seq<usize>, t: Seq<usize>, s: int, e: int)
    requires
        0 <= s <= e <= o.len(),
        t.to_multiset() == o.subrange(s, e).to_multiset(),
    ensures
        (o.subrange(0, s) + t + o.subrange(e, o.len() as int)).to_multiset() == o.to_multiset(),
{
    let head = o.subrange(0, s);
    let body = o.subrange(s, e);
    let tail = o.subrange(e, o.len() as int);
    vstd::seq_lib::lemma_multiset_commutative(head, t);
    vstd::seq_lib::lemma_multiset_commutative(head + t, tail);
    vstd::seq_lib::lemma_multiset_commutative(head, body);
    vstd::seq_lib::lemma_multiset_commutative(head + body, tail);
    assert(o =~= head + body + tail);
}

} // verus!
