//! The hierarchy and the list: the search of the one finds what a scan of
//! the other finds, and the box of the one is the box of the other.
//!
//! For one ray, `first` tells where each primitive is first met, and
//! `passes` which boxes the ray passes through before a given parameter.
//! Of `passes` two things are asked: it lets through the box of every
//! primitive that is met in time, and with a box every box that holds it.
use vstd::prelude::*;
use crate::aabb::{contains_is_transitive, union_contains_both, AABB};
use crate::bvh::{settled, Span, BVH};
use crate::permutation::{identity, permuted_elements};
use crate::hitable::{
    after_test, boxes_of, list_box_contains_each, list_box_is_least, list_box_is_number, union_of,
    Cursor, HitRecord,
};
use crate::nearest::{
    all_miss, crossings_are_numbers, is_nearest, nearest_is_unique, run_scan, scan,
    scan_finds_nearest, scan_passes_over_misses, seen, within,
};
use crate::scalar::Scalar;
use crate::search::{after_bounds, after_primitive, front_wf, proceed, start, Front, Phase};

verus! {

/// The number of answers that the search of node `k` can take at most: one
/// for each node beneath it, and one more for each leaf.
pub open spec fn weight(spans: Seq<Span>, k: usize) -> nat {
    (3 * spans[k as int].len() - 1) as nat
}

/// The number of answers that the nodes of a stack can take at most.
pub open spec fn stack_weight(spans: Seq<Span>, stack: Seq<usize>) -> nat
    decreases stack.len(),
{
    if stack.len() == 0 {
        0
    } else {
        stack_weight(spans, stack.drop_last()) + weight(spans, stack.last())
    }
}

/// The number of answers that a search can still take at most.
pub open spec fn remaining(spans: Seq<Span>, front: Front) -> nat {
    stack_weight(spans, front.stack) + match front.phase {
        Phase::Bounds(k) => weight(spans, k),
        Phase::Primitive(_) => 1,
        Phase::Finished => 0,
    }
}

/// The front after the answer that `first` and `passes` give to what it
/// waits for.
pub open spec fn answered(
    bvh: BVH,
    first: spec_fn(usize) -> Option<HitRecord>,
    passes: spec_fn(AABB, Scalar) -> bool,
    front: Front,
) -> Front {
    match front.phase {
        Phase::Bounds(k) => after_bounds(
            bvh.spans@,
            front,
            passes(bvh.boxes@[k as int], front.closest),
        ),
        Phase::Primitive(k) => after_primitive(
            front,
            seen(first, bvh.order@[bvh.spans@[k as int].start as int], front.closest),
        ),
        Phase::Finished => front,
    }
}

/// Every answer brings a search nearer to its end, and leaves it fit for
/// the hierarchy.
pub proof fn answer_makes_progress(
    bvh: BVH,
    first: spec_fn(usize) -> Option<HitRecord>,
    passes: spec_fn(AABB, Scalar) -> bool,
    front: Front,
)
    requires
        bvh.wf(),
        front_wf(bvh.spans@, front),
        !(front.phase is Finished),
    ensures
        front_wf(bvh.spans@, answered(bvh, first, passes, front)),
        remaining(bvh.spans@, answered(bvh, first, passes, front)) < remaining(bvh.spans@, front),
{
    let spans = bvh.spans@;
    let next = answered(bvh, first, passes, front);
    if front.stack.len() > 0 {
        assert(front.stack.drop_last().len() == front.stack.len() - 1);
        assert forall|i: int| 0 <= i < front.stack.drop_last().len() implies (
        #[trigger] front.stack.drop_last()[i]) < spans.len() by {
            assert(front.stack.drop_last()[i] == front.stack[i]);
        }
        assert(front.stack.last() == front.stack[front.stack.len() - 1]);
    }
    match front.phase {
        Phase::Bounds(k) => {
            assert(settled(bvh.items@, bvh.order@, spans, k as int));
            assert(spans[k as int].start < spans[k as int].end);
            if passes(bvh.boxes@[k as int], front.closest) {
                if let Some(cut) = spans[k as int].cut {
                    assert(front.stack.push(cut.right).drop_last() =~= front.stack);
                    assert(front.stack.push(cut.right).last() == cut.right);
                }
            }
        },
        _ => {},
    }
}

/// The result of a search that goes on from `front`, each test answered as
/// `first` and `passes` have it.
pub open spec fn run(
    bvh: BVH,
    first: spec_fn(usize) -> Option<HitRecord>,
    passes: spec_fn(AABB, Scalar) -> bool,
    front: Front,
) -> Option<HitRecord>
    decreases remaining(bvh.spans@, front),
    when bvh.wf() && front_wf(bvh.spans@, front)
    via run_ends
{
    if front.phase is Finished {
        front.best
    } else {
        run(bvh, first, passes, answered(bvh, first, passes, front))
    }
}

#[via_fn]
proof fn run_ends(
    bvh: BVH,
    first: spec_fn(usize) -> Option<HitRecord>,
    passes: spec_fn(AABB, Scalar) -> bool,
    front: Front,
) {
    if !(front.phase is Finished) {
        answer_makes_progress(bvh, first, passes, front);
    }
}

/// The primitives beneath node `k`, from left to right.
pub open spec fn beneath(bvh: BVH, k: usize) -> Seq<usize> {
    bvh.order@.subrange(bvh.spans@[k as int].start as int, bvh.spans@[k as int].end as int)
}

/// The primitives beneath the nodes of a stack, in the order in which the
/// search comes to them.
pub open spec fn beneath_stack(bvh: BVH, stack: Seq<usize>) -> Seq<usize>
    decreases stack.len(),
{
    if stack.len() == 0 {
        Seq::empty()
    } else {
        beneath(bvh, stack.last()) + beneath_stack(bvh, stack.drop_last())
    }
}

/// The primitives that a search has still before it, in the order in which
/// it comes to them.
pub open spec fn ahead(bvh: BVH, front: Front) -> Seq<usize> {
    match front.phase {
        Phase::Bounds(k) => beneath(bvh, k) + beneath_stack(bvh, front.stack),
        Phase::Primitive(k) => beneath(bvh, k) + beneath_stack(bvh, front.stack),
        Phase::Finished => beneath_stack(bvh, front.stack),
    }
}

/// Whether every box of a primitive of the hierarchy has numbers for
/// coordinates.
pub open spec fn boxes_are_numbers(bvh: BVH) -> bool {
    forall|p: int| 0 <= p < bvh.items@.len() ==> (#[trigger] bvh.items@[p]).bbox.is_number()
}

/// Whether the ray passes through the box of every primitive that it meets
/// in time.
pub open spec fn lets_hits_through(
    bvh: BVH,
    first: spec_fn(usize) -> Option<HitRecord>,
    passes: spec_fn(AABB, Scalar) -> bool,
) -> bool {
    forall|p: usize, closest: Scalar|
        p < bvh.items@.len() && #[trigger] seen(first, p, closest) is Some ==> passes(
            bvh.items@[p as int].bbox,
            closest,
        )
}

/// Whether a ray that passes through a box passes through every box that
/// holds it.
pub open spec fn grows_with_box(passes: spec_fn(AABB, Scalar) -> bool) -> bool {
    forall|inner: AABB, outer: AABB, closest: Scalar|
        inner.is_number() && outer.is_number() && outer.contains(inner) && #[trigger] passes(
            inner,
            closest,
        ) ==> #[trigger] passes(outer, closest)
}

/// The box of a node holds the box of every primitive beneath it.
pub proof fn node_box_holds(bvh: BVH, k: usize, i: int)
    requires
        bvh.wf(),
        boxes_are_numbers(bvh),
        k < bvh.spans@.len(),
        bvh.spans@[k as int].start <= i < bvh.spans@[k as int].end,
    ensures
        bvh.boxes@[k as int].is_number(),
        bvh.boxes@[k as int].contains(bvh.items@[bvh.order@[i] as int].bbox),
    decreases bvh.spans@.len() - k,
{
    let span = bvh.spans@[k as int];
    assert(settled(bvh.items@, bvh.order@, bvh.spans@, k as int));
    assert(crate::bvh::node_boxed(bvh.items@, bvh.order@, bvh.spans@, bvh.boxes@, k as int));
    assert(bvh.order@[i] < bvh.items@.len());
    match span.cut {
        None => {
            assert(bvh.items@[bvh.order@[i] as int].bbox.is_number());
        },
        Some(cut) => {
            let l = bvh.spans@[cut.left as int];
            let r = bvh.spans@[cut.right as int];
            assert(l.start < l.end && r.start < r.end);
            node_box_holds(bvh, cut.left, l.start as int);
            node_box_holds(bvh, cut.right, r.start as int);
            union_contains_both(bvh.boxes@[cut.left as int], bvh.boxes@[cut.right as int]);
            if i < span.mid() {
                node_box_holds(bvh, cut.left, i);
                contains_is_transitive(
                    bvh.boxes@[k as int],
                    bvh.boxes@[cut.left as int],
                    bvh.items@[bvh.order@[i] as int].bbox,
                );
            } else {
                node_box_holds(bvh, cut.right, i);
                contains_is_transitive(
                    bvh.boxes@[k as int],
                    bvh.boxes@[cut.right as int],
                    bvh.items@[bvh.order@[i] as int].bbox,
                );
            }
        },
    }
}

/// A box that the ray does not pass through holds no primitive that the ray
/// meets in time.
pub proof fn rejected_node_misses(
    bvh: BVH,
    first: spec_fn(usize) -> Option<HitRecord>,
    passes: spec_fn(AABB, Scalar) -> bool,
    k: usize,
    closest: Scalar,
)
    requires
        bvh.wf(),
        boxes_are_numbers(bvh),
        lets_hits_through(bvh, first, passes),
        grows_with_box(passes),
        k < bvh.spans@.len(),
        !passes(bvh.boxes@[k as int], closest),
    ensures
        all_miss(first, beneath(bvh, k), closest),
{
    let span = bvh.spans@[k as int];
    let prims = beneath(bvh, k);
    assert forall|i: int| 0 <= i < prims.len() implies seen(first, #[trigger] prims[i], closest)
        is None by {
        let place = span.start + i;
        let p = bvh.order@[place];
        assert(prims[i] == p);
        node_box_holds(bvh, k, place);
        if seen(first, p, closest) is Some {
            assert(passes(bvh.items@[p as int].bbox, closest));
            assert(passes(bvh.boxes@[k as int], closest));
        }
    }
}

/// The search is a scan in the order of the leaves: from any front, the
/// search ends with what a scan of the primitives ahead of it ends with.
pub proof fn search_is_scan_of_leaves(
    bvh: BVH,
    first: spec_fn(usize) -> Option<HitRecord>,
    passes: spec_fn(AABB, Scalar) -> bool,
    front: Front,
)
    requires
        bvh.wf(),
        boxes_are_numbers(bvh),
        lets_hits_through(bvh, first, passes),
        grows_with_box(passes),
        front_wf(bvh.spans@, front),
    ensures
        run(bvh, first, passes, front) == scan(
            first,
            ahead(bvh, front),
            front.closest,
            front.best,
        ),
    decreases remaining(bvh.spans@, front),
{
    let spans = bvh.spans@;
    if front.stack.len() > 0 {
        assert(front.stack.last() == front.stack[front.stack.len() - 1]);
    }
    match front.phase {
        Phase::Finished => {},
        Phase::Bounds(k) => {
            let next = answered(bvh, first, passes, front);
            answer_makes_progress(bvh, first, passes, front);
            search_is_scan_of_leaves(bvh, first, passes, next);
            assert(settled(bvh.items@, bvh.order@, spans, k as int));
            if !passes(bvh.boxes@[k as int], front.closest) {
                rejected_node_misses(bvh, first, passes, k, front.closest);
                scan_passes_over_misses(
                    first,
                    beneath(bvh, k),
                    beneath_stack(bvh, front.stack),
                    front.closest,
                    front.best,
                );
                if front.stack.len() > 0 {
                    assert(ahead(bvh, next) == beneath_stack(bvh, front.stack));
                }
            } else {
                match spans[k as int].cut {
                    None => {},
                    Some(cut) => {
                        let pushed = front.stack.push(cut.right);
                        assert(pushed.drop_last() =~= front.stack);
                        assert(pushed.last() == cut.right);
                        assert(beneath(bvh, k) =~= beneath(bvh, cut.left) + beneath(
                            bvh,
                            cut.right,
                        ));
                        assert(ahead(bvh, next) =~= ahead(bvh, front));
                    },
                }
            }
        },
        Phase::Primitive(k) => {
            let next = answered(bvh, first, passes, front);
            answer_makes_progress(bvh, first, passes, front);
            search_is_scan_of_leaves(bvh, first, passes, next);
            assert(settled(bvh.items@, bvh.order@, spans, k as int));
            let p = bvh.order@[spans[k as int].start as int];
            let all = ahead(bvh, front);
            assert(beneath(bvh, k) =~= seq![p]);
            assert(all[0] == p);
            assert(all.drop_first() =~= beneath_stack(bvh, front.stack));
            if front.stack.len() > 0 {
                assert(ahead(bvh, next) == beneath_stack(bvh, front.stack));
            }
        },
    }
}

/// A scan of a list is a scan: from any cursor, it ends with what testing
/// the primitives from the cursor on, one after the other, ends with.
pub proof fn list_scan_is_scan(
    first: spec_fn(usize) -> Option<HitRecord>,
    n: nat,
    cursor: Cursor,
)
    requires
        cursor.next <= n <= usize::MAX,
    ensures
        run_scan(first, n, cursor) == scan(
            first,
            identity(n).subrange(cursor.next as int, n as int),
            cursor.closest,
            cursor.best,
        ),
    decreases n - cursor.next,
{
    if cursor.next < n {
        let prims = identity(n).subrange(cursor.next as int, n as int);
        let next = after_test(cursor, seen(first, cursor.next as usize, cursor.closest));
        list_scan_is_scan(first, n, next);
        assert(prims[0] == cursor.next as usize);
        assert(prims.drop_first() =~= identity(n).subrange(cursor.next as int + 1, n as int));
    }
}

/// Whether no two primitives are met at the same parameter with different
/// records.
pub open spec fn no_ties(first: spec_fn(usize) -> Option<HitRecord>, n: nat) -> bool {
    forall|p: usize, q: usize|
        p < n && q < n ==> (#[trigger] first(p) matches Some(x) ==> (#[trigger] first(
            q,
        ) matches Some(y) ==> (x.time == y.time ==> x == y)))
}

/// The hierarchy and the list find the same. For any ray, the search of the
/// hierarchy and the scan of all its primitives both end with a nearest hit
/// before `t_max`: with no hit where the ray meets no primitive in time, and
/// else with a hit of one of the primitives, at the least parameter at which
/// the ray meets any. So they end both with a hit or both with none, and
/// with hits at the same parameter; and unless two primitives are met at
/// that same parameter, with the same record, material and all.
///
/// This holds where the ray meets each primitive at a number, passes
/// through the box of every primitive that it meets in time, and with a box
/// through every box that holds it.
pub proof fn search_agrees_with_scan(
    bvh: BVH,
    first: spec_fn(usize) -> Option<HitRecord>,
    passes: spec_fn(AABB, Scalar) -> bool,
    t_max: Scalar,
)
    requires
        bvh.wf(),
        boxes_are_numbers(bvh),
        crossings_are_numbers(first, identity(bvh.items@.len())),
        lets_hits_through(bvh, first, passes),
        grows_with_box(passes),
    ensures
        ({
            let n = bvh.items@.len();
            let all = identity(n);
            let tree = run(bvh, first, passes, start(t_max));
            let list = run_scan(first, n, Cursor { next: 0, closest: t_max, best: None });
            &&& is_nearest(first, all, t_max, tree)
            &&& is_nearest(first, all, t_max, list)
            &&& tree is Some <==> list is Some
            &&& tree matches Some(a) ==> (list matches Some(b) ==> a.time == b.time)
            &&& no_ties(first, n) ==> tree == list
        }),
{
    let n = bvh.items@.len();
    let all = identity(n);
    let leaves = bvh.order@;
    let tree = run(bvh, first, passes, start(t_max));
    let list = run_scan(first, n, Cursor { next: 0, closest: t_max, best: None });
    // the list
    list_scan_is_scan(first, n, Cursor { next: 0, closest: t_max, best: None });
    assert(all.subrange(0, n as int) =~= all);
    scan_finds_nearest(first, all, t_max);
    // the hierarchy
    search_is_scan_of_leaves(bvh, first, passes, start(t_max));
    assert(beneath(bvh, 0) =~= leaves);
    assert(ahead(bvh, start(t_max)) =~= leaves);
    leaves_are_all(bvh);
    assert forall|i: int| 0 <= i < leaves.len() implies (first(#[trigger] leaves[i]) matches Some(
        hit,
    ) ==> hit.time.is_number()) by {
        assert(all[leaves[i] as int] == leaves[i]);
    }
    scan_finds_nearest(first, leaves, t_max);
    nearest_over_same(first, leaves, all, t_max, tree);
    nearest_is_unique(first, all, all, t_max, tree, list);
    if no_ties(first, n) {
        if let Some(a) = tree {
            let b = list->Some_0;
            let i = choose|i: int| 0 <= i < all.len() && first(#[trigger] all[i]) == Some(a);
            let j = choose|j: int| 0 <= j < all.len() && first(#[trigger] all[j]) == Some(b);
            assert(all[i] < n && all[j] < n);
            assert(first(all[i]) matches Some(x) ==> (first(all[j]) matches Some(y) ==> (x.time
                == y.time ==> x == y)));
        }
    }
}

/// The leaves of a hierarchy are its primitives: each leaf is a primitive,
/// and each primitive is a leaf.
pub proof fn leaves_are_all(bvh: BVH)
    requires
        bvh.wf(),
    ensures
        within(bvh.order@, identity(bvh.items@.len())),
        within(identity(bvh.items@.len()), bvh.order@),
{
    let n = bvh.items@.len();
    let all = identity(n);
    let leaves = bvh.order@;
    assert forall|i: int| 0 <= i < leaves.len() implies all.contains(#[trigger] leaves[i]) by {
        assert(all[leaves[i] as int] == leaves[i]);
    }
    permuted_elements(all, leaves);
}

/// A nearest hit among some primitives is a nearest hit among the same
/// primitives in any other order.
pub proof fn nearest_over_same(
    first: spec_fn(usize) -> Option<HitRecord>,
    a: Seq<usize>,
    b: Seq<usize>,
    t_max: Scalar,
    result: Option<HitRecord>,
)
    requires
        within(a, b),
        within(b, a),
        is_nearest(first, a, t_max, result),
    ensures
        is_nearest(first, b, t_max, result),
{
    match result {
        None => {
            assert forall|j: int| 0 <= j < b.len() implies seen(first, #[trigger] b[j], t_max)
                is None by {
                assert(a.contains(b[j]));
                let i = choose|i: int| 0 <= i < a.len() && a[i] == b[j];
                assert(seen(first, a[i], t_max) is None);
            }
        },
        Some(hit) => {
            let i = choose|i: int| 0 <= i < a.len() && first(#[trigger] a[i]) == Some(hit);
            assert(b.contains(a[i]));
            let j = choose|j: int| 0 <= j < b.len() && b[j] == a[i];
            assert(first(b[j]) == Some(hit));
            assert forall|j: int| 0 <= j < b.len() implies (seen(first, #[trigger] b[j], t_max) matches Some(
                other,
            ) ==> hit.time.ord <= other.time.ord) by {
                assert(a.contains(b[j]));
                let i = choose|i: int| 0 <= i < a.len() && a[i] == b[j];
                assert(seen(first, a[i], t_max) == seen(first, b[j], t_max));
            }
        },
    }
}

/// The box of a node lies inside every box that holds the box of each
/// primitive beneath the node.
pub proof fn node_box_is_least(bvh: BVH, k: usize, around: AABB)
    requires
        bvh.wf(),
        boxes_are_numbers(bvh),
        k < bvh.spans@.len(),
        forall|i: int|
            bvh.spans@[k as int].start <= i < bvh.spans@[k as int].end ==> around.contains(
                bvh.items@[#[trigger] bvh.order@[i] as int].bbox,
            ),
    ensures
        around.contains(bvh.boxes@[k as int]),
    decreases bvh.spans@.len() - k,
{
    let span = bvh.spans@[k as int];
    assert(settled(bvh.items@, bvh.order@, bvh.spans@, k as int));
    assert(crate::bvh::node_boxed(bvh.items@, bvh.order@, bvh.spans@, bvh.boxes@, k as int));
    match span.cut {
        None => {
            assert(around.contains(bvh.items@[bvh.order@[span.start as int] as int].bbox));
        },
        Some(cut) => {
            let l = bvh.spans@[cut.left as int];
            let r = bvh.spans@[cut.right as int];
            assert(l.start < l.end && r.start < r.end);
            node_box_is_least(bvh, cut.left, around);
            node_box_is_least(bvh, cut.right, around);
            node_box_holds(bvh, cut.left, l.start as int);
            node_box_holds(bvh, cut.right, r.start as int);
            crate::aabb::union_is_least(
                bvh.boxes@[cut.left as int],
                bvh.boxes@[cut.right as int],
                around,
            );
        },
    }
}

/// The order in which boxes are united does not matter: the box of the
/// hierarchy is the box of the list of its primitives.
pub proof fn hierarchy_box_is_list_box(bvh: BVH)
    requires
        bvh.wf(),
        boxes_are_numbers(bvh),
    ensures
        bvh.boxes@[0] == union_of(boxes_of(bvh.items@), bvh.items@.len()),
{
    let n = bvh.items@.len();
    let boxes = boxes_of(bvh.items@);
    let whole = union_of(boxes, n);
    let root = bvh.boxes@[0];
    leaves_are_all(bvh);
    // the box of the list holds every primitive, and so the root
    assert forall|i: int| 0 <= i < n implies whole.contains(
        bvh.items@[#[trigger] bvh.order@[i] as int].bbox,
    ) by {
        let p = bvh.order@[i] as int;
        assert(boxes[p] == bvh.items@[p].bbox);
        list_box_contains_each(boxes, n, p);
    }
    node_box_is_least(bvh, 0, whole);
    // the root holds every primitive, and so the box of the list
    assert forall|p: int| 0 <= p < boxes.len() implies root.contains(#[trigger] boxes[p]) by {
        assert(identity(n)[p] == p as usize);
        assert(bvh.order@.contains(p as usize));
        let i = choose|i: int| 0 <= i < bvh.order@.len() && bvh.order@[i] == p as usize;
        node_box_holds(bvh, 0, i);
    }
    list_box_is_least(boxes, n, root);
    node_box_holds(bvh, 0, 0);
    list_box_is_number(boxes, n);
}

} // verus!
