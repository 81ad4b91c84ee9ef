//! The bounding-volume hierarchy: a binary tree of boxes over the primitives
//! of a scene, built once and then searched ray by ray.
//!
//! The tree lies flat in a vector. Each node covers a stretch of `order`, a
//! permutation of the primitives; the root covers all of it, a leaf one
//! place, and the two children of a branch the lower and the upper half of
//! their parent's stretch.
use vstd::prelude::*;
use vstd::arithmetic::power2::pow2;
use crate::aabb::{spec_surrounding_box, surrounding_box, AABB};
use crate::builder::{coherent, owed, Builder};
use crate::hitable::Bounded;
use crate::permutation::is_permutation;

verus! {

/// How a stretch of two or more primitives was divided: between which two
/// nodes, and along which axis the primitives were ordered before.
#[derive(Clone, Copy, Debug, PartialEq, Eq, Structural)]
pub struct Cut {
    pub left: usize,
    pub right: usize,
    pub axis: usize,
}

/// A stretch of `order` that one node covers, and how it was divided.
#[derive(Clone, Copy, Debug, PartialEq, Eq, Structural)]
pub struct Span {
    pub start: usize,
    pub end: usize,
    pub cut: Option<Cut>,
}

impl Span {
    /// The number of primitives in the stretch.
    pub open spec fn len(self) -> int {
        self.end - self.start
    }

    /// Where the stretch is divided: the place of its middle primitive.
    pub open spec fn mid(self) -> int {
        self.start + (self.end - self.start) / 2
    }

    /// Whether the two stretches share no place.
    pub open spec fn apart(self, other: Span) -> bool {
        self.end <= other.start || other.end <= self.start
    }

    /// Whether this stretch lies in the lower or in the upper half of `other`.
    pub open spec fn in_half_of(self, other: Span) -> bool {
        other.len() >= 2 && ((other.start <= self.start && self.end <= other.mid()) || (
        other.mid() <= self.start && self.end <= other.end))
    }
}

/// The number by which the primitive at place `i` of `order` is ordered
/// along `axis`.
pub open spec fn key_at(items: Seq<Bounded>, order: Seq<usize>, i: int, axis: int) -> int {
    items[order[i] as int].centre.at(axis).ord as int
}

/// Whether every primitive of the lower part `[start, mid)` comes, along
/// `axis`, no later than every primitive of the upper part `[mid, end)`.
pub open spec fn parted(
    items: Seq<Bounded>,
    order: Seq<usize>,
    start: int,
    mid: int,
    end: int,
    axis: int,
) -> bool {
    forall|i: int, j: int|
        start <= i < mid && mid <= j < end ==> key_at(items, order, i, axis) <= key_at(
            items,
            order,
            j,
            axis,
        )
}

/// Whether node `k` is done with: a single primitive, or a stretch divided
/// at its middle between two later nodes, the primitives of the lower half
/// coming no later than those of the upper half along the axis of the cut.
pub open spec fn settled(items: Seq<Bounded>, order: Seq<usize>, spans: Seq<Span>, k: int) -> bool {
    let span = spans[k];
    if span.len() == 1 {
        span.cut is None
    } else {
        &&& span.cut matches Some(cut)
        &&& k < cut.left < spans.len()
        &&& k < cut.right < spans.len()
        &&& cut.axis < 3
        &&& spans[cut.left as int].start == span.start
        &&& spans[cut.left as int].end == span.mid()
        &&& spans[cut.right as int].start == span.mid()
        &&& spans[cut.right as int].end == span.end
        &&& parted(items, order, span.start as int, span.mid(), span.end as int, cut.axis as int)
    }
}

/// Whether the box of node `k` is the box of its primitive, where the node
/// is a leaf, and the union of its children's boxes, where it is a branch.
pub open spec fn node_boxed(
    items: Seq<Bounded>,
    order: Seq<usize>,
    spans: Seq<Span>,
    boxes: Seq<AABB>,
    k: int,
) -> bool {
    match spans[k].cut {
        None => boxes[k] == items[order[spans[k].start as int] as int].bbox,
        Some(cut) => boxes[k] == spec_surrounding_box(
            boxes[cut.left as int],
            boxes[cut.right as int],
        ),
    }
}

/// A bounding-volume hierarchy over the primitives of a scene.
///
/// Node 0 is the root. A node without a cut is a leaf and holds the one
/// primitive of its stretch; a node with a cut is a branch over its two
/// children.
pub struct BVH {
    pub items: Vec<Bounded>,
    pub order: Vec<usize>,
    pub spans: Vec<Span>,
    pub boxes: Vec<AABB>,
}

impl BVH {
    /// The invariant of a hierarchy: `order` lists every primitive once, the
    /// root covers all of it, every stretch of two or more primitives is
    /// divided at its middle between two children, and every node carries
    /// the box of what lies beneath it.
    pub open spec fn wf(self) -> bool {
        &&& coherent(self.items@, self.order@, self.spans@, self.spans@.len() as int)
        &&& self.boxes@.len() == self.spans@.len()
        &&& forall|k: int|
            0 <= k < self.spans@.len() ==> #[trigger] node_boxed(
                self.items@,
                self.order@,
                self.spans@,
                self.boxes@,
                k,
            )
    }

    /// Finishes a hierarchy whose stretches have all been divided: gives
    /// every leaf the box of its primitive, and every branch the union of
    /// the boxes of its children.
    pub fn new(builder: Builder) -> (bvh: BVH)
        requires
            builder.wf(),
            builder.complete(),
        ensures
            bvh.wf(),
            bvh.items == builder.items,
            bvh.order == builder.order,
            bvh.spans == builder.spans,
    {
        let count: usize = builder.spans.len();
        let filler: AABB = builder.items[0].bbox;
        let mut boxes: Vec<AABB> = Vec::new();
        let mut i: usize = 0;
        while i < count
            invariant
                i <= count,
                boxes@.len() == i,
            decreases count - i,
        {
            boxes.push(filler);
            i = i + 1;
        }
        let mut k: usize = count;
        while k > 0
            invariant
                k <= count,
                count == builder.spans@.len(),
                boxes@.len() == count,
                builder.wf(),
                builder.complete(),
                forall|j: int|
                    k <= j < count ==> #[trigger] node_boxed(
                        builder.items@,
                        builder.order@,
                        builder.spans@,
                        boxes@,
                        j,
                    ),
            decreases k,
        {
            k = k - 1;
            let span: Span = builder.spans[k];
            let ghost before = boxes@;
            assert(settled(builder.items@, builder.order@, builder.spans@, k as int));
            let bbox: AABB = match span.cut {
                None => builder.items[builder.order[span.start]].bbox,
                Some(cut) => surrounding_box(&boxes[cut.left], &boxes[cut.right]),
            };
            boxes.set(k, bbox);
            assert forall|j: int| k <= j < count implies #[trigger] node_boxed(
                builder.items@,
                builder.order@,
                builder.spans@,
                boxes@,
                j,
            ) by {
                assert(settled(builder.items@, builder.order@, builder.spans@, j));
                if j > k {
                    assert(node_boxed(
                        builder.items@,
                        builder.order@,
                        builder.spans@,
                        before,
                        j,
                    ));
                }
            }
        }
        BVH { items: builder.items, order: builder.order, spans: builder.spans, boxes }
    }

    /// The box of the whole hierarchy.
    pub fn bounding_box(&self) -> (b: Option<AABB>)
        requires
            self.wf(),
        ensures
            b == Some(self.boxes@[0]),
    {
        Some(self.boxes[0])
    }
}

/// A hierarchy over so many primitives has twice as many nodes less one.
pub proof fn nodes_are_counted(bvh: BVH)
    requires
        bvh.wf(),
    ensures
        bvh.spans@.len() == 2 * bvh.items@.len() - 1,
{
    assert(owed(bvh.spans@, bvh.spans@.len() as int) == 0);
}

/// The number of branches on the longest way down from node `k` to a leaf.
pub open spec fn height(bvh: BVH, k: int) -> nat
    decreases bvh.spans@.len() - k,
{
    if bvh.wf() && 0 <= k < bvh.spans@.len() {
        match bvh.spans@[k].cut {
            None => 0,
            Some(cut) => {
                let left = if k < cut.left < bvh.spans@.len() {
                    height(bvh, cut.left as int)
                } else {
                    0
                };
                let right = if k < cut.right < bvh.spans@.len() {
                    height(bvh, cut.right as int)
                } else {
                    0
                };
                if left >= right {
                    left + 1
                } else {
                    right + 1
                }
            },
        }
    } else {
        0
    }
}

/// The hierarchy is as shallow as a binary tree can be: beneath a node that
/// covers no more than two to the power of `h` primitives, no way down is
/// longer than `h` branches.
pub proof fn height_is_logarithmic(bvh: BVH, k: int, h: nat)
    requires
        bvh.wf(),
        0 <= k < bvh.spans@.len(),
        bvh.spans@[k].len() <= pow2(h),
    ensures
        height(bvh, k) <= h,
    decreases bvh.spans@.len() - k,
{
    assert(settled(bvh.items@, bvh.order@, bvh.spans@, k));
    let span = bvh.spans@[k];
    if let Some(cut) = span.cut {
        if h == 0 {
            vstd::arithmetic::power2::lemma2_to64();
        } else {
            vstd::arithmetic::power2::lemma_pow2_unfold(h);
            height_is_logarithmic(bvh, cut.left as int, (h - 1) as nat);
            height_is_logarithmic(bvh, cut.right as int, (h - 1) as nat);
        }
    }
}

} // verus!
