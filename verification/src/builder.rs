//! Building the hierarchy, one division at a time.
//!
//! To choose the axis of a division the builder needs the extent of the
//! primitives' centres along each axis, a difference that rounds. It
//! therefore stops before each division, reports the least and the greatest
//! centre, and goes on when the caller has handed in the three extents.
use vstd::prelude::*;
use crate::bvh::{key_at, parted, settled, Cut, Span};
use crate::permutation::{identity, is_permutation, permuted_elements, splice_is_permutation};
use crate::hitable::Bounded;
use crate::scalar::Scalar;
use crate::sort::{ascending, sort_by_centre};
use crate::vec3::Vec3;

verus! {

/// Whether of any two nodes the later lies within one half of the earlier or
/// apart from it.
pub open spec fn nested_or_apart(spans: Seq<Span>) -> bool {
    forall|j: int, k: int|
        0 <= j < k < spans.len() ==> (#[trigger] spans[j]).apart(#[trigger] spans[k])
            || spans[k].in_half_of(spans[j])
}

/// Whether the nodes from `next` on lie apart from each other.
pub open spec fn pending_apart(spans: Seq<Span>, next: int) -> bool {
    forall|j: int, k: int|
        next <= j < k < spans.len() ==> (#[trigger] spans[j]).apart(#[trigger] spans[k])
}

/// Whether `least` and `greatest` are, along `axis`, the least and the
/// greatest centre among the primitives of the stretch.
pub open spec fn spread_along(
    items: Seq<Bounded>,
    order: Seq<usize>,
    span: Span,
    axis: int,
    least: Scalar,
    greatest: Scalar,
) -> bool {
    &&& forall|i: int|
        span.start <= i < span.end ==> least.ord <= #[trigger] key_at(items, order, i, axis)
            <= greatest.ord
    &&& exists|i: int|
        span.start <= i < span.end && least.ord == #[trigger] key_at(items, order, i, axis)
    &&& exists|i: int|
        span.start <= i < span.end && greatest.ord == #[trigger] key_at(items, order, i, axis)
}

/// The axis along which the extent is widest; of equal extents the later
/// axis.
pub open spec fn spec_widest_axis(extents: Vec3) -> usize {
    if extents.z.ord >= extents.x.ord && extents.z.ord >= extents.y.ord {
        2
    } else if extents.y.ord >= extents.x.ord {
        1
    } else {
        0
    }
}

/// The axis along which the extent is widest; of equal extents the later
/// axis.
pub fn widest_axis(extents: &Vec3) -> (axis: usize)
    ensures
        axis == spec_widest_axis(*extents),
        axis < 3,
{
    if extents.z.ord >= extents.x.ord && extents.z.ord >= extents.y.ord {
        2
    } else if extents.y.ord >= extents.x.ord {
        1
    } else {
        0
    }
}

/// The least and the greatest centre of a stretch of primitives, axis by
/// axis.
#[derive(Clone, Copy, Debug, PartialEq, Eq, Structural)]
pub struct Spread {
    pub least: Vec3,
    pub greatest: Vec3,
}

/// Whether `after` is `before` with the places from `s` up to `e`
/// rearranged among themselves.
pub open spec fn rearranged(before: Seq<usize>, after: Seq<usize>, s: int, e: int) -> bool {
    &&& 0 <= s <= e <= before.len()
    &&& after.len() == before.len()
    &&& forall|i: int| 0 <= i < s || e <= i < before.len() ==> #[trigger] after[i] == before[i]
    &&& after.subrange(s, e).to_multiset() == before.subrange(s, e).to_multiset()
}

/// Whether `x` stands at one of the places from `s` up to `e`.
pub open spec fn held(order: Seq<usize>, s: int, e: int, x: usize) -> bool {
    exists|i: int| s <= i < e && order[i] == x
}

/// Whether what a stretch holds came from the same stretch: each place from
/// `s` up to `e` of `after` holds what some such place of `before` held.
pub open spec fn drawn_from(before: Seq<usize>, after: Seq<usize>, s: int, e: int) -> bool {
    forall|i: int| s <= i < e ==> held(before, s, e, #[trigger] after[i])
}

/// A rearranged stretch holds what it held before.
pub proof fn rearranged_is_drawn_from(before: Seq<usize>, after: Seq<usize>, s: int, e: int)
    requires
        rearranged(before, after, s, e),
    ensures
        drawn_from(before, after, s, e),
{
    let b0 = before.subrange(s, e);
    let b1 = after.subrange(s, e);
    permuted_elements(b1, b0);
    assert forall|i: int| s <= i < e implies held(before, s, e, #[trigger] after[i]) by {
        assert(after[i] == b1[i - s]);
        assert(b0.contains(b1[i - s]));
        let y = choose|y: int| 0 <= y < b0.len() && b0[y] == b1[i - s];
        assert(before[s + y] == after[i]);
    }
}

/// Rearranging a stretch of a permutation leaves a permutation.
pub proof fn rearranged_is_permutation(before: Seq<usize>, after: Seq<usize>, s: int, e: int, n: nat)
    requires
        rearranged(before, after, s, e),
        is_permutation(before, n),
    ensures
        is_permutation(after, n),
{
    rearranged_is_drawn_from(before, after, s, e);
    assert forall|i: int| 0 <= i < n implies (#[trigger] after[i]) < n by {
        if s <= i < e {
            assert(held(before, s, e, after[i]));
            let i0 = choose|i0: int| s <= i0 < e && before[i0] == after[i];
            assert(before[i0] < n);
        } else {
            assert(after[i] == before[i]);
        }
    }
    splice_is_permutation(before, after.subrange(s, e), s, e);
    assert(after =~= before.subrange(0, s) + after.subrange(s, e) + before.subrange(
        e,
        before.len() as int,
    ));
}

/// A division outlasts the rearranging of a stretch that lies within one of
/// its halves or apart from it.
pub proof fn rearranged_stays_parted(
    items: Seq<Bounded>,
    before: Seq<usize>,
    after: Seq<usize>,
    s: int,
    e: int,
    span: Span,
    axis: int,
)
    requires
        rearranged(before, after, s, e),
        s < e,
        span.start < span.end <= before.len(),
        parted(items, before, span.start as int, span.mid(), span.end as int, axis),
        e <= span.start || span.end <= s || (span.start <= s && e <= span.mid()) || (span.mid()
            <= s && e <= span.end),
    ensures
        parted(items, after, span.start as int, span.mid(), span.end as int, axis),
{
    rearranged_is_drawn_from(before, after, s, e);
    assert forall|a: int, b: int| span.start <= a < span.mid() && span.mid() <= b < span.end implies key_at(
        items,
        after,
        a,
        axis,
    ) <= key_at(items, after, b, axis) by {
        assert(s <= a < e ==> held(before, s, e, after[a]));
        assert(s <= b < e ==> held(before, s, e, after[b]));
        let a0 = if s <= a < e {
            choose|i0: int| s <= i0 < e && before[i0] == after[a]
        } else {
            a
        };
        let b0 = if s <= b < e {
            choose|i0: int| s <= i0 < e && before[i0] == after[b]
        } else {
            b
        };
        assert(before[a0] == after[a]);
        assert(before[b0] == after[b]);
        assert(key_at(items, before, a0, axis) <= key_at(items, before, b0, axis));
    }
}

/// A stretch whose keys ascend is divided at whatever place it is cut.
pub proof fn ascending_is_parted(
    items: Seq<Bounded>,
    order: Seq<usize>,
    s: int,
    mid: int,
    e: int,
    axis: int,
)
    requires
        0 <= s <= mid <= e <= order.len(),
        ascending(items, order.subrange(s, e), axis),
    ensures
        parted(items, order, s, mid, e, axis),
{
    let body = order.subrange(s, e);
    assert forall|i: int, j: int| s <= i < mid && mid <= j < e implies key_at(items, order, i, axis)
        <= key_at(items, order, j, axis) by {
        assert(body[i - s] == order[i]);
        assert(body[j - s] == order[j]);
        assert(key_at(items, body, i - s, axis) <= key_at(items, body, j - s, axis));
    }
}

/// The nodes after a division: the two halves appended, and the divided
/// node marked with its cut.
pub open spec fn divided(spans: Seq<Span>, k: int, axis: usize) -> Seq<Span> {
    let span = spans[k];
    spans.push(Span { start: span.start, end: span.mid() as usize, cut: None }).push(
        Span { start: span.mid() as usize, end: span.end, cut: None },
    ).update(
        k,
        Span {
            start: span.start,
            end: span.end,
            cut: Some(
                Cut { left: spans.len() as usize, right: (spans.len() + 1) as usize, axis },
            ),
        },
    )
}

/// The number of nodes that are still to come beneath the nodes from
/// `from` on: a stretch of so many primitives yields twice as many nodes
/// less one, itself included.
pub open spec fn owed(spans: Seq<Span>, from: int) -> int
    decreases spans.len() - from,
{
    if from < 0 || from >= spans.len() {
        0
    } else {
        2 * spans[from].len() - 2 + owed(spans, from + 1)
    }
}

/// A node that is appended owes what lies beneath it.
proof fn owed_after_push(spans: Seq<Span>, span: Span, from: int)
    requires
        0 <= from <= spans.len(),
    ensures
        owed(spans.push(span), from) == owed(spans, from) + 2 * span.len() - 2,
    decreases spans.len() - from,
{
    let pushed = spans.push(span);
    if from < spans.len() {
        owed_after_push(spans, span, from + 1);
        assert(pushed[from] == spans[from]);
    } else {
        assert(pushed[from] == span);
        assert(owed(pushed, from + 1) == 0);
    }
}

/// What the later nodes owe does not depend on an earlier node.
proof fn owed_after_update(spans: Seq<Span>, k: int, span: Span, from: int)
    requires
        0 <= k < from <= spans.len(),
    ensures
        owed(spans.update(k, span), from) == owed(spans, from),
    decreases spans.len() - from,
{
    if from < spans.len() {
        owed_after_update(spans, k, span, from + 1);
    }
}

/// Nothing is owed less than nothing.
proof fn owed_is_not_negative(spans: Seq<Span>, from: int)
    requires
        0 <= from,
        forall|k: int| 0 <= k < spans.len() ==> (#[trigger] spans[k]).start < spans[k].end,
    ensures
        owed(spans, from) >= 0,
    decreases spans.len() - from,
{
    if from < spans.len() {
        owed_is_not_negative(spans, from + 1);
    }
}

/// A division pays two of the nodes that are owed.
proof fn division_pays_two(spans0: Seq<Span>, k: int, axis: usize)
    requires
        0 <= k < spans0.len(),
        spans0[k].len() >= 2,
        spans0.len() + 2 <= usize::MAX,
        spans0[k].start < spans0[k].end <= usize::MAX,
    ensures
        owed(divided(spans0, k, axis), k + 1) == owed(spans0, k) - 2,
{
    let span = spans0[k];
    let left = Span { start: span.start, end: span.mid() as usize, cut: None };
    let right = Span { start: span.mid() as usize, end: span.end, cut: None };
    let cut = Span {
        start: span.start,
        end: span.end,
        cut: Some(Cut { left: spans0.len() as usize, right: (spans0.len() + 1) as usize, axis }),
    };
    owed_after_push(spans0, left, k + 1);
    owed_after_push(spans0.push(left), right, k + 1);
    owed_after_update(spans0.push(left).push(right), k, cut, k + 1);
}

/// The invariant of a builder, but for where its cursor rests.
pub open spec fn coherent(
    items: Seq<Bounded>,
    order: Seq<usize>,
    spans: Seq<Span>,
    next: int,
) -> bool {
    &&& items.len() > 0
    &&& forall|p: int| 0 <= p < items.len() ==> (#[trigger] items[p]).centre.is_number()
    &&& is_permutation(order, items.len())
    &&& spans.len() > 0
    &&& spans[0].start == 0
    &&& spans[0].end == items.len()
    &&& 0 <= next <= spans.len()
    &&& forall|k: int|
        0 <= k < spans.len() ==> (#[trigger] spans[k]).start < spans[k].end <= items.len()
    &&& forall|k: int| 0 <= k < next ==> #[trigger] settled(items, order, spans, k)
    &&& forall|k: int| next <= k < spans.len() ==> (#[trigger] spans[k]).cut is None
    &&& nested_or_apart(spans)
    &&& pending_apart(spans, next)
    &&& spans.len() + owed(spans, next) == 2 * items.len() - 1
}

/// The earlier divisions outlast a further one.
proof fn division_keeps_settled(
    items: Seq<Bounded>,
    order0: Seq<usize>,
    order1: Seq<usize>,
    spans0: Seq<Span>,
    k: int,
    axis: usize,
    j: int,
)
    requires
        coherent(items, order0, spans0, k),
        k < spans0.len(),
        spans0[k].len() >= 2,
        spans0.len() + 2 <= usize::MAX,
        rearranged(order0, order1, spans0[k].start as int, spans0[k].end as int),
        0 <= j < k,
    ensures
        settled(items, order1, divided(spans0, k, axis), j),
{
    let spans1 = divided(spans0, k, axis);
    assert(settled(items, order0, spans0, j));
    let sj = spans0[j];
    let sk = spans0[k];
    assert(spans1[j] == sj);
    if sj.len() != 1 {
        let cut = sj.cut->Some_0;
        assert(sj.apart(sk) || sk.in_half_of(sj));
        assert(spans1[cut.left as int].start == spans0[cut.left as int].start);
        assert(spans1[cut.left as int].end == spans0[cut.left as int].end);
        assert(spans1[cut.right as int].start == spans0[cut.right as int].start);
        assert(spans1[cut.right as int].end == spans0[cut.right as int].end);
        rearranged_stays_parted(
            items,
            order0,
            order1,
            sk.start as int,
            sk.end as int,
            sj,
            cut.axis as int,
        );
    }
}

/// The nodes stay nested or apart when one of them is divided.
proof fn division_keeps_nested(spans0: Seq<Span>, k: int, axis: usize)
    requires
        0 <= k < spans0.len(),
        spans0[k].len() >= 2,
        spans0.len() + 2 <= usize::MAX,
        forall|j: int| 0 <= j < spans0.len() ==> (#[trigger] spans0[j]).start < spans0[j].end,
        nested_or_apart(spans0),
        pending_apart(spans0, k),
    ensures
        nested_or_apart(divided(spans0, k, axis)),
        pending_apart(divided(spans0, k, axis), k + 1),
{
    let spans1 = divided(spans0, k, axis);
    let sk = spans0[k];
    assert forall|j: int, c: int| 0 <= j < c < spans1.len() implies (#[trigger] spans1[j]).apart(
        #[trigger] spans1[c],
    ) || spans1[c].in_half_of(spans1[j]) by {
        if c < spans0.len() {
            assert(spans0[j].apart(spans0[c]) || spans0[c].in_half_of(spans0[j]));
            assert(spans1[j].start == spans0[j].start && spans1[j].end == spans0[j].end);
            assert(spans1[c].start == spans0[c].start && spans1[c].end == spans0[c].end);
        } else if j < k {
            assert(spans0[j].apart(sk) || sk.in_half_of(spans0[j]));
            assert(spans1[j] == spans0[j]);
        } else if j == k {
            assert(spans1[j].start == sk.start && spans1[j].end == sk.end);
        } else if j < spans0.len() {
            assert(sk.apart(spans0[j]));
            assert(spans1[j] == spans0[j]);
        }
    }
    assert forall|j: int, c: int| k + 1 <= j < c < spans1.len() implies (#[trigger] spans1[j]).apart(
        #[trigger] spans1[c],
    ) by {
        if c < spans0.len() {
            assert(spans0[j].apart(spans0[c]));
            assert(spans1[j] == spans0[j]);
            assert(spans1[c] == spans0[c]);
        } else if j < spans0.len() {
            assert(sk.apart(spans0[j]));
            assert(spans1[j] == spans0[j]);
        }
    }
}

/// A division keeps the builder coherent.
proof fn division_is_coherent(
    items: Seq<Bounded>,
    order0: Seq<usize>,
    order1: Seq<usize>,
    spans0: Seq<Span>,
    k: int,
    axis: usize,
)
    requires
        coherent(items, order0, spans0, k),
        k < spans0.len(),
        spans0[k].len() >= 2,
        spans0.len() + 2 <= usize::MAX,
        axis < 3,
        rearranged(order0, order1, spans0[k].start as int, spans0[k].end as int),
        parted(
            items,
            order1,
            spans0[k].start as int,
            spans0[k].mid(),
            spans0[k].end as int,
            axis as int,
        ),
    ensures
        coherent(items, order1, divided(spans0, k, axis), k + 1),
{
    let spans1 = divided(spans0, k, axis);
    let sk = spans0[k];
    rearranged_is_permutation(order0, order1, sk.start as int, sk.end as int, items.len());
    division_keeps_nested(spans0, k, axis);
    division_pays_two(spans0, k, axis);
    assert forall|j: int| 0 <= j < k + 1 implies #[trigger] settled(items, order1, spans1, j) by {
        if j < k {
            division_keeps_settled(items, order0, order1, spans0, k, axis, j);
        }
    }
    assert forall|j: int| 0 <= j < spans1.len() implies (#[trigger] spans1[j]).start
        < spans1[j].end <= items.len() by {
        if j < spans0.len() {
            assert(spans1[j].start == spans0[j].start && spans1[j].end == spans0[j].end);
        }
    }
    assert forall|j: int| k + 1 <= j < spans1.len() implies (#[trigger] spans1[j]).cut is None by {
        if j < spans0.len() {
            assert(spans1[j] == spans0[j]);
        }
    }
}

/// A hierarchy under construction.
///
/// The builder divides one stretch of primitives at a time. Before each
/// division it reports the spread of the stretch's centres; the caller
/// answers with the extent of that spread along each axis, greatest minus
/// least, and the builder orders the stretch along the widest axis and cuts
/// it in the middle.
pub struct Builder {
    pub items: Vec<Bounded>,
    pub order: Vec<usize>,
    pub spans: Vec<Span>,
    pub next: usize,
}

impl Builder {
    /// The invariant of a builder: the nodes made so far form the upper part
    /// of a hierarchy over the primitives, and the cursor rests on a stretch
    /// of two or more primitives that is still to be divided, or past the
    /// last node.
    pub open spec fn wf(self) -> bool {
        &&& coherent(self.items@, self.order@, self.spans@, self.next as int)
        &&& self.next < self.spans@.len() ==> self.spans@[self.next as int].len() >= 2
    }

    /// Whether every stretch has been divided down to single primitives.
    pub open spec fn complete(self) -> bool {
        self.next == self.spans@.len()
    }

    /// The stretch that is divided next.
    pub open spec fn current(self) -> Span
        recommends
            !self.complete(),
    {
        self.spans@[self.next as int]
    }

    /// Whether `spread` holds, axis by axis, the least and the greatest
    /// centre among the primitives of the current stretch.
    pub open spec fn is_spread(self, spread: Spread) -> bool {
        let span = self.current();
        &&& spread_along(self.items@, self.order@, span, 0, spread.least.x, spread.greatest.x)
        &&& spread_along(self.items@, self.order@, span, 1, spread.least.y, spread.greatest.y)
        &&& spread_along(self.items@, self.order@, span, 2, spread.least.z, spread.greatest.z)
    }

    /// Moves on over the stretches that hold a single primitive.
    fn skip_leaves(&mut self)
        requires
            coherent(old(self).items@, old(self).order@, old(self).spans@, old(self).next as int),
        ensures
            final(self).wf(),
            final(self).items == old(self).items,
            final(self).order == old(self).order,
            final(self).spans == old(self).spans,
            old(self).next <= final(self).next,
            forall|k: int|
                old(self).next <= k < final(self).next ==> (#[trigger] final(self).spans@[k]).len()
                    == 1,
    {
        while self.next < self.spans.len() && self.spans[self.next].end - self.spans[self.next].start
            == 1
            invariant
                self.items == old(self).items,
                self.order == old(self).order,
                self.spans == old(self).spans,
                old(self).next <= self.next,
                coherent(self.items@, self.order@, self.spans@, self.next as int),
                forall|k: int|
                    old(self).next <= k < self.next ==> (#[trigger] self.spans@[k]).len() == 1,
            decreases self.spans@.len() - self.next,
        {
            proof {
                let k = self.next as int;
                assert(self.spans@[k].cut is None);
                assert(settled(self.items@, self.order@, self.spans@, k));
                assert forall|j: int, c: int| k + 1 <= j < c < self.spans@.len() implies (
                #[trigger] self.spans@[j]).apart(#[trigger] self.spans@[c]) by {}
            }
            self.next = self.next + 1;
        }
    }

    /// Starts a hierarchy over `items`, which must not be empty.
    pub fn new(items: Vec<Bounded>) -> (b: Builder)
        requires
            items@.len() > 0,
            forall|p: int| 0 <= p < items@.len() ==> (#[trigger] items@[p]).centre.is_number(),
        ensures
            b.wf(),
            b.items == items,
            b.order@ == identity(items@.len()),
            b.spans@ == seq![Span { start: 0, end: items.len(), cut: None }],
            b.complete() == (items@.len() == 1),
    {
        let n: usize = items.len();
        let mut order: Vec<usize> = Vec::new();
        let mut i: usize = 0;
        while i < n
            invariant
                i <= n,
                order@ == identity(i as nat),
            decreases n - i,
        {
            order.push(i);
            assert(order@ =~= identity((i + 1) as nat));
            i = i + 1;
        }
        let mut spans: Vec<Span> = Vec::new();
        spans.push(Span { start: 0, end: n, cut: None });
        let mut b = Builder { items, order, spans, next: 0 };
        assert(b.spans@ =~= seq![Span { start: 0, end: n, cut: None }]);
        assert(owed(b.spans@, 1) == 0);
        assert(owed(b.spans@, 0) == 2 * n - 2);
        b.skip_leaves();
        b
    }

    /// Whether every stretch has been divided down to single primitives.
    pub fn is_complete(&self) -> (done: bool)
        ensures
            done == self.complete(),
    {
        self.next == self.spans.len()
    }

    /// The least and the greatest centre, axis by axis, among the primitives
    /// of the stretch that is divided next.
    pub fn spread(&self) -> (spread: Spread)
        requires
            self.wf(),
            !self.complete(),
        ensures
            self.is_spread(spread),
    {
        let span: Span = self.spans[self.next];
        let first: Vec3 = self.items[self.order[span.start]].centre;
        let mut least: Vec3 = first;
        let mut greatest: Vec3 = first;
        let mut i: usize = span.start + 1;
        assert(key_at(self.items@, self.order@, span.start as int, 0) == first.x.ord);
        assert(key_at(self.items@, self.order@, span.start as int, 1) == first.y.ord);
        assert(key_at(self.items@, self.order@, span.start as int, 2) == first.z.ord);
        while i < span.end
            invariant
                self.wf(),
                !self.complete(),
                span == self.current(),
                span.start < i <= span.end,
                spread_along(
                    self.items@,
                    self.order@,
                    Span { start: span.start, end: i, cut: None },
                    0,
                    least.x,
                    greatest.x,
                ),
                spread_along(
                    self.items@,
                    self.order@,
                    Span { start: span.start, end: i, cut: None },
                    1,
                    least.y,
                    greatest.y,
                ),
                spread_along(
                    self.items@,
                    self.order@,
                    Span { start: span.start, end: i, cut: None },
                    2,
                    least.z,
                    greatest.z,
                ),
            decreases span.end - i,
        {
            let c: Vec3 = self.items[self.order[i]].centre;
            assert(key_at(self.items@, self.order@, i as int, 0) == c.x.ord);
            assert(key_at(self.items@, self.order@, i as int, 1) == c.y.ord);
            assert(key_at(self.items@, self.order@, i as int, 2) == c.z.ord);
            if c.x.ord < least.x.ord {
                least.x = c.x;
            }
            if c.x.ord > greatest.x.ord {
                greatest.x = c.x;
            }
            if c.y.ord < least.y.ord {
                least.y = c.y;
            }
            if c.y.ord > greatest.y.ord {
                greatest.y = c.y;
            }
            if c.z.ord < least.z.ord {
                least.z = c.z;
            }
            if c.z.ord > greatest.z.ord {
                greatest.z = c.z;
            }
            i = i + 1;
        }
        Spread { least, greatest }
    }

    /// Divides the current stretch. `extents` is the extent of the stretch's
    /// centres along each axis. The stretch is ordered along the widest axis
    /// and cut at its middle into two new nodes, which are appended; the
    /// builder then moves on to the next stretch of two or more primitives.
    pub fn split(&mut self, extents: Vec3)
        requires
            old(self).wf(),
            !old(self).complete(),
            extents.is_number(),
        ensures
            final(self).wf(),
            final(self).items == old(self).items,
            final(self).spans@ == divided(
                old(self).spans@,
                old(self).next as int,
                spec_widest_axis(extents),
            ),
            final(self).next > old(self).next,
            forall|k: int|
                old(self).next < k < final(self).next ==> (#[trigger] final(self).spans@[k]).len()
                    == 1,
            rearranged(
                old(self).order@,
                final(self).order@,
                old(self).current().start as int,
                old(self).current().end as int,
            ),
            ascending(
                final(self).items@,
                final(self).order@.subrange(
                    old(self).current().start as int,
                    old(self).current().end as int,
                ),
                spec_widest_axis(extents) as int,
            ),
    {
        let k: usize = self.next;
        let span: Span = self.spans[k];
        let s: usize = span.start;
        let e: usize = span.end;
        let n: usize = self.order.len();
        let axis: usize = widest_axis(&extents);
        let ghost order0 = self.order@;
        let ghost spans0 = self.spans@;

        let mut places: Vec<usize> = Vec::new();
        let mut i: usize = s;
        while i < e
            invariant
                s <= i <= e <= n,
                n == self.order@.len(),
                self.order@ == order0,
                places@ == order0.subrange(s as int, i as int),
            decreases e - i,
        {
            places.push(self.order[i]);
            assert(places@ =~= order0.subrange(s as int, i + 1));
            i = i + 1;
        }
        let places = sort_by_centre(places, &self.items, axis);
        let ghost body1 = places@;
        proof {
            permuted_elements(body1, order0.subrange(s as int, e as int));
        }
        let mut i: usize = s;
        while i < e
            invariant
                s <= i <= e <= n,
                n == order0.len(),
                places@ == body1,
                body1.len() == e - s,
                self.items == old(self).items,
                self.spans == old(self).spans,
                self.next == k,
                self.order@ == order0.subrange(0, s as int) + body1.subrange(0, i - s)
                    + order0.subrange(i as int, n as int),
            decreases e - i,
        {
            self.order.set(i, places[i - s]);
            assert(self.order@ =~= order0.subrange(0, s as int) + body1.subrange(0, i + 1 - s)
                + order0.subrange(i + 1, n as int));
            i = i + 1;
        }
        let ghost order1 = self.order@;
        assert(order1.subrange(s as int, e as int) =~= body1);
        assert(rearranged(order0, order1, s as int, e as int));

        let mid: usize = s + (e - s) / 2;
        let left: usize = self.spans.len();
        self.spans.push(Span { start: s, end: mid, cut: None });
        self.spans.push(Span { start: mid, end: e, cut: None });
        let right: usize = self.spans.len() - 1;
        self.spans.set(k, Span { start: s, end: e, cut: Some(Cut { left, right, axis }) });
        self.next = k + 1;
        proof {
            assert(self.spans@ =~= divided(spans0, k as int, axis));
            ascending_is_parted(self.items@, order1, s as int, mid as int, e as int, axis as int);
            division_is_coherent(self.items@, order0, order1, spans0, k as int, axis);
        }
        self.skip_leaves();
    }
}

/// Building ends. A hierarchy over so many primitives has twice as many
/// nodes less one; every division adds two, so that a builder over `n`
/// primitives is complete after `n - 1` divisions, and not before.
pub proof fn divisions_are_counted(b: Builder)
    requires
        b.wf(),
    ensures
        b.spans@.len() <= 2 * b.items@.len() - 1,
        b.complete() <==> b.spans@.len() == 2 * b.items@.len() - 1,
{
    owed_is_not_negative(b.spans@, b.next as int);
    if !b.complete() {
        owed_is_not_negative(b.spans@, b.next + 1);
    }
}

} // verus!
