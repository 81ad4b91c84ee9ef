//! Ordering primitives along an axis: a merge sort.
use vstd::prelude::*;
use crate::bvh::key_at;
use crate::hitable::Bounded;

verus! {

/// Whether `places` names only primitives of `items`.
pub open spec fn names_items(items: Seq<Bounded>, places: Seq<usize>) -> bool {
    forall|i: int| 0 <= i < places.len() ==> (#[trigger] places[i]) < items.len()
}

/// Whether the primitives that `places` names come in ascending order along
/// `axis`.
pub open spec fn ascending(items: Seq<Bounded>, places: Seq<usize>, axis: int) -> bool {
    forall|i: int, j: int|
        0 <= i <= j < places.len() ==> key_at(items, places, i, axis) <= key_at(
            items,
            places,
            j,
            axis,
        )
}

/// The number by which primitive `p` is ordered along `axis`.
pub fn centre_key(items: &Vec<Bounded>, p: usize, axis: usize) -> (k: i64)
    requires
        p < items@.len(),
        axis < 3,
    ensures
        k == items@[p as int].centre.at(axis as int).ord,
{
    items[p].centre.get(axis).ord
}

/// Merges two ascending runs into one.
fn merge(a: &Vec<usize>, b: &Vec<usize>, items: &Vec<Bounded>, axis: usize) -> (out: Vec<usize>)
    requires
        axis < 3,
        names_items(items@, a@),
        names_items(items@, b@),
        ascending(items@, a@, axis as int),
        ascending(items@, b@, axis as int),
    ensures
        out@.to_multiset() == (a@ + b@).to_multiset(),
        names_items(items@, out@),
        ascending(items@, out@, axis as int),
{
    let mut out: Vec<usize> = Vec::new();
    let mut i: usize = 0;
    let mut j: usize = 0;
    assert(out@ + a@.subrange(0, a@.len() as int) + b@.subrange(0, b@.len() as int) =~= a@ + b@);
    while i < a.len() || j < b.len()
        invariant
            axis < 3,
            i <= a@.len(),
            j <= b@.len(),
            names_items(items@, a@),
            names_items(items@, b@),
            names_items(items@, out@),
            ascending(items@, a@, axis as int),
            ascending(items@, b@, axis as int),
            ascending(items@, out@, axis as int),
            (out@ + a@.subrange(i as int, a@.len() as int) + b@.subrange(
                j as int,
                b@.len() as int,
            )).to_multiset() == (a@ + b@).to_multiset(),
            forall|k: int|
                0 <= k < out@.len() && i < a@.len() ==> key_at(items@, out@, k, axis as int)
                    <= key_at(items@, a@, i as int, axis as int),
            forall|k: int|
                0 <= k < out@.len() && j < b@.len() ==> key_at(items@, out@, k, axis as int)
                    <= key_at(items@, b@, j as int, axis as int),
        decreases a@.len() - i + b@.len() - j,
    {
        let ghost before = out@;
        let ghost rest_a = a@.subrange(i as int, a@.len() as int);
        let ghost rest_b = b@.subrange(j as int, b@.len() as int);
        let from_a: bool = if j >= b.len() {
            true
        } else if i >= a.len() {
            false
        } else {
            centre_key(items, a[i], axis) <= centre_key(items, b[j], axis)
        };
        if from_a {
            out.push(a[i]);
            proof {
                assert(out@ + a@.subrange(i + 1, a@.len() as int) + rest_b =~= before + rest_a
                    + rest_b);
                assert forall|x: int, y: int| 0 <= x <= y < out@.len() implies key_at(
                    items@,
                    out@,
                    x,
                    axis as int,
                ) <= key_at(items@, out@, y, axis as int) by {
                    if y < before.len() {
                        assert(key_at(items@, before, x, axis as int) <= key_at(
                            items@,
                            before,
                            y,
                            axis as int,
                        ));
                    } else if x < before.len() {
                        assert(key_at(items@, before, x, axis as int) <= key_at(
                            items@,
                            a@,
                            i as int,
                            axis as int,
                        ));
                    }
                }
                assert forall|k: int| 0 <= k < out@.len() && i + 1 < a@.len() implies key_at(
                    items@,
                    out@,
                    k,
                    axis as int,
                ) <= key_at(items@, a@, i + 1, axis as int) by {
                    assert(key_at(items@, a@, i as int, axis as int) <= key_at(
                        items@,
                        a@,
                        i + 1,
                        axis as int,
                    ));
                    if k < before.len() {
                        assert(key_at(items@, before, k, axis as int) <= key_at(
                            items@,
                            a@,
                            i as int,
                            axis as int,
                        ));
                    }
                }
                assert forall|k: int| 0 <= k < out@.len() && j < b@.len() implies key_at(
                    items@,
                    out@,
                    k,
                    axis as int,
                ) <= key_at(items@, b@, j as int, axis as int) by {
                    if k < before.len() {
                        assert(key_at(items@, before, k, axis as int) <= key_at(
                            items@,
                            b@,
                            j as int,
                            axis as int,
                        ));
                    }
                }
            }
            i = i + 1;
        } else {
            out.push(b[j]);
            proof {
                let one = seq![b@[j as int]];
                let less_b = b@.subrange(j + 1, b@.len() as int);
                assert(rest_b =~= one + less_b);
                assert(out@ =~= before + one);
                vstd::seq_lib::lemma_multiset_commutative(before + one + rest_a, less_b);
                vstd::seq_lib::lemma_multiset_commutative(before + one, rest_a);
                vstd::seq_lib::lemma_multiset_commutative(before, one);
                vstd::seq_lib::lemma_multiset_commutative(before + rest_a, rest_b);
                vstd::seq_lib::lemma_multiset_commutative(before, rest_a);
                vstd::seq_lib::lemma_multiset_commutative(one, less_b);
                assert((out@ + rest_a + less_b).to_multiset() =~= (before + rest_a
                    + rest_b).to_multiset());
                assert forall|x: int, y: int| 0 <= x <= y < out@.len() implies key_at(
                    items@,
                    out@,
                    x,
                    axis as int,
                ) <= key_at(items@, out@, y, axis as int) by {
                    if y < before.len() {
                        assert(key_at(items@, before, x, axis as int) <= key_at(
                            items@,
                            before,
                            y,
                            axis as int,
                        ));
                    } else if x < before.len() {
                        assert(key_at(items@, before, x, axis as int) <= key_at(
                            items@,
                            b@,
                            j as int,
                            axis as int,
                        ));
                    }
                }
                assert forall|k: int| 0 <= k < out@.len() && j + 1 < b@.len() implies key_at(
                    items@,
                    out@,
                    k,
                    axis as int,
                ) <= key_at(items@, b@, j + 1, axis as int) by {
                    assert(key_at(items@, b@, j as int, axis as int) <= key_at(
                        items@,
                        b@,
                        j + 1,
                        axis as int,
                    ));
                    if k < before.len() {
                        assert(key_at(items@, before, k, axis as int) <= key_at(
                            items@,
                            b@,
                            j as int,
                            axis as int,
                        ));
                    }
                }
                assert forall|k: int| 0 <= k < out@.len() && i < a@.len() implies key_at(
                    items@,
                    out@,
                    k,
                    axis as int,
                ) <= key_at(items@, a@, i as int, axis as int) by {
                    if k < before.len() {
                        assert(key_at(items@, before, k, axis as int) <= key_at(
                            items@,
                            a@,
                            i as int,
                            axis as int,
                        ));
                    }
                }
            }
            j = j + 1;
        }
    }
    assert(out@ + a@.subrange(i as int, a@.len() as int) + b@.subrange(j as int, b@.len() as int)
        =~= out@);
    out
}

/// Orders `places` by the centres, along `axis`, of the primitives that they
/// name: the result holds what `places` held, each as often, in ascending
/// order.
pub fn sort_by_centre(places: Vec<usize>, items: &Vec<Bounded>, axis: usize) -> (sorted: Vec<usize>)
    requires
        axis < 3,
        names_items(items@, places@),
    ensures
        sorted@.to_multiset() == places@.to_multiset(),
        names_items(items@, sorted@),
        ascending(items@, sorted@, axis as int),
    decreases places@.len(),
{
    let n: usize = places.len();
    if n <= 1 {
        return places;
    }
    let mid: usize = n / 2;
    let mut left: Vec<usize> = Vec::new();
    let mut right: Vec<usize> = Vec::new();
    let mut i: usize = 0;
    while i < n
        invariant
            i <= n,
            n == places@.len(),
            mid == n / 2,
            left@ == places@.subrange(0, if i < mid { i as int } else { mid as int }),
            right@ == places@.subrange(mid as int, if i < mid { mid as int } else { i as int }),
        decreases n - i,
    {
        if i < mid {
            left.push(places[i]);
            assert(left@ =~= places@.subrange(0, i + 1));
        } else {
            right.push(places[i]);
            assert(right@ =~= places@.subrange(mid as int, i + 1));
        }
        i = i + 1;
    }
    assert(left@ + right@ =~= places@);
    let ghost left0 = left@;
    let ghost right0 = right@;
    let left = sort_by_centre(left, items, axis);
    let right = sort_by_centre(right, items, axis);
    let out = merge(&left, &right, items, axis);
    proof {
        vstd::seq_lib::lemma_multiset_commutative(left@, right@);
        vstd::seq_lib::lemma_multiset_commutative(left0, right0);
    }
    out
}

} // verus!
