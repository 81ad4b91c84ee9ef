//! The nearest hit among a set of primitives, and the scan that finds it.
//!
//! For one ray, what the primitives do is described by a function `first`:
//! for each primitive the first place, if any, at which the ray meets it
//! beyond the near end of the window. A primitive test with the far end at
//! `closest` reports that place exactly when it lies before `closest`.
use vstd::prelude::*;
use crate::hitable::{after_test, Cursor, HitRecord};
use crate::scalar::Scalar;

verus! {

/// The answer of primitive `p` to a test whose window ends at `closest`.
pub open spec fn seen(
    first: spec_fn(usize) -> Option<HitRecord>,
    p: usize,
    closest: Scalar,
) -> Option<HitRecord> {
    match first(p) {
        Some(hit) => if hit.time.spec_lt(closest) {
            Some(hit)
        } else {
            None
        },
        None => None,
    }
}

/// Whether the ray meets every primitive, where it meets it at all, at a
/// parameter that is a number.
pub open spec fn crossings_are_numbers(
    first: spec_fn(usize) -> Option<HitRecord>,
    prims: Seq<usize>,
) -> bool {
    forall|i: int|
        0 <= i < prims.len() ==> (first(#[trigger] prims[i]) matches Some(hit)
            ==> hit.time.is_number())
}

/// The result of testing the primitives `prims` one after the other, each
/// against the nearest hit so far.
pub open spec fn scan(
    first: spec_fn(usize) -> Option<HitRecord>,
    prims: Seq<usize>,
    closest: Scalar,
    best: Option<HitRecord>,
) -> Option<HitRecord>
    decreases prims.len(),
{
    if prims.len() == 0 {
        best
    } else {
        match seen(first, prims[0], closest) {
            Some(hit) => scan(first, prims.drop_first(), hit.time, Some(hit)),
            None => scan(first, prims.drop_first(), closest, best),
        }
    }
}

/// Whether none of the primitives answers a test whose window ends at
/// `closest`.
pub open spec fn all_miss(
    first: spec_fn(usize) -> Option<HitRecord>,
    prims: Seq<usize>,
    closest: Scalar,
) -> bool {
    forall|i: int| 0 <= i < prims.len() ==> seen(first, #[trigger] prims[i], closest) is None
}

/// Whether `result` is the nearest hit among `prims` before `t_max`: no hit
/// where no primitive is met before `t_max`, and else the place where one
/// of them is met, no later than any other is.
pub open spec fn is_nearest(
    first: spec_fn(usize) -> Option<HitRecord>,
    prims: Seq<usize>,
    t_max: Scalar,
    result: Option<HitRecord>,
) -> bool {
    match result {
        None => all_miss(first, prims, t_max),
        Some(hit) => {
            &&& exists|i: int| 0 <= i < prims.len() && first(#[trigger] prims[i]) == Some(hit)
            &&& hit.time.spec_lt(t_max)
            &&& forall|i: int|
                0 <= i < prims.len() ==> (seen(first, #[trigger] prims[i], t_max) matches Some(
                    other,
                ) ==> hit.time.ord <= other.time.ord)
        },
    }
}

/// Primitives that all miss leave a scan as it was.
pub proof fn scan_passes_over_misses(
    first: spec_fn(usize) -> Option<HitRecord>,
    missed: Seq<usize>,
    rest: Seq<usize>,
    closest: Scalar,
    best: Option<HitRecord>,
)
    requires
        all_miss(first, missed, closest),
    ensures
        scan(first, missed + rest, closest, best) == scan(first, rest, closest, best),
    decreases missed.len(),
{
    if missed.len() == 0 {
        assert(missed + rest =~= rest);
    } else {
        let all = missed + rest;
        assert(all[0] == missed[0]);
        assert(all.drop_first() =~= missed.drop_first() + rest);
        assert forall|i: int| 0 <= i < missed.drop_first().len() implies seen(
            first,
            #[trigger] missed.drop_first()[i],
            closest,
        ) is None by {
            assert(missed.drop_first()[i] == missed[i + 1]);
        }
        scan_passes_over_misses(first, missed.drop_first(), rest, closest, best);
    }
}

/// What a scan that has already found `best` at `closest` ends with: a hit
/// no later than `best`, and no later than any primitive of `prims` that is
/// met before `closest`; and that hit is `best` or the place where one of
/// `prims` is met before `closest`.
pub proof fn scan_improves(
    first: spec_fn(usize) -> Option<HitRecord>,
    prims: Seq<usize>,
    closest: Scalar,
    best: Option<HitRecord>,
)
    requires
        crossings_are_numbers(first, prims),
        best matches Some(b) ==> b.time == closest,
    ensures
        scan(first, prims, closest, best) is None <==> best is None && all_miss(
            first,
            prims,
            closest,
        ),
        scan(first, prims, closest, best) matches Some(hit) ==> {
            &&& Some(hit) == best || (hit.time.spec_lt(closest) && exists|i: int|
                0 <= i < prims.len() && first(#[trigger] prims[i]) == Some(hit))
            &&& best matches Some(b) ==> hit.time.ord <= b.time.ord
            &&& forall|i: int|
                0 <= i < prims.len() ==> (seen(first, #[trigger] prims[i], closest) matches Some(
                    other,
                ) ==> hit.time.ord <= other.time.ord)
        },
    decreases prims.len(),
{
    if prims.len() > 0 {
        let rest = prims.drop_first();
        assert forall|i: int| 0 <= i < rest.len() implies (first(#[trigger] rest[i]) matches Some(
            hit,
        ) ==> hit.time.is_number()) by {
            assert(rest[i] == prims[i + 1]);
        }
        let result = scan(first, prims, closest, best);
        match seen(first, prims[0], closest) {
            Some(g) => {
                scan_improves(first, rest, g.time, Some(g));
                let hit = result->Some_0;
                assert(first(prims[0]) == Some(g));
                if Some(hit) != Some(g) {
                    let i = choose|i: int| 0 <= i < rest.len() && first(#[trigger] rest[i]) == Some(hit);
                    assert(rest[i] == prims[i + 1]);
                }
                assert forall|i: int| 0 <= i < prims.len() implies (seen(
                    first,
                    #[trigger] prims[i],
                    closest,
                ) matches Some(other) ==> hit.time.ord <= other.time.ord) by {
                    if i > 0 {
                        assert(rest[i - 1] == prims[i]);
                        if let Some(other) = seen(first, prims[i], closest) {
                            if other.time.spec_lt(g.time) {
                                assert(seen(first, rest[i - 1], g.time) == Some(other));
                            }
                        }
                    }
                }
            },
            None => {
                scan_improves(first, rest, closest, best);
                if let Some(hit) = result {
                    if Some(hit) != best {
                        let i = choose|i: int|
                            0 <= i < rest.len() && first(#[trigger] rest[i]) == Some(hit);
                        assert(rest[i] == prims[i + 1]);
                    }
                    assert forall|i: int| 0 <= i < prims.len() implies (seen(
                        first,
                        #[trigger] prims[i],
                        closest,
                    ) matches Some(other) ==> hit.time.ord <= other.time.ord) by {
                        if i > 0 {
                            assert(rest[i - 1] == prims[i]);
                        }
                    }
                } else {
                    assert forall|i: int| 0 <= i < prims.len() implies seen(
                        first,
                        #[trigger] prims[i],
                        closest,
                    ) is None by {
                        if i > 0 {
                            assert(rest[i - 1] == prims[i]);
                        }
                    }
                }
                if best is None && all_miss(first, prims, closest) {
                    assert forall|i: int| 0 <= i < rest.len() implies seen(
                        first,
                        #[trigger] rest[i],
                        closest,
                    ) is None by {
                        assert(rest[i] == prims[i + 1]);
                    }
                }
            },
        }
    }
}

/// A scan from the start finds the nearest hit: the scan of `prims` with
/// the window ending at `t_max` reports no hit exactly when no primitive is
/// met before `t_max`, and else the place where one is met, no later than
/// any other.
pub proof fn scan_finds_nearest(
    first: spec_fn(usize) -> Option<HitRecord>,
    prims: Seq<usize>,
    t_max: Scalar,
)
    requires
        crossings_are_numbers(first, prims),
    ensures
        is_nearest(first, prims, t_max, scan(first, prims, t_max, None)),
{
    scan_improves(first, prims, t_max, None);
}

/// Whether each element of `a` stands somewhere in `b`.
pub open spec fn within(a: Seq<usize>, b: Seq<usize>) -> bool {
    forall|i: int| 0 <= i < a.len() ==> b.contains(#[trigger] a[i])
}

/// The nearest hit does not depend on the order of the primitives: nearest
/// hits among the same primitives, however listed, are both hits or both
/// none, and hits at the same parameter.
pub proof fn nearest_is_unique(
    first: spec_fn(usize) -> Option<HitRecord>,
    a: Seq<usize>,
    b: Seq<usize>,
    t_max: Scalar,
    in_a: Option<HitRecord>,
    in_b: Option<HitRecord>,
)
    requires
        within(a, b),
        within(b, a),
        is_nearest(first, a, t_max, in_a),
        is_nearest(first, b, t_max, in_b),
    ensures
        in_a is Some <==> in_b is Some,
        in_a matches Some(x) ==> (in_b matches Some(y) ==> x.time == y.time),
{
    nearest_is_no_later(first, a, b, t_max, in_a, in_b);
    nearest_is_no_later(first, b, a, t_max, in_b, in_a);
}

/// A nearest hit among primitives that all stand in `b` comes no earlier
/// than a nearest hit among `b`, and where there is one, `b` has one too.
proof fn nearest_is_no_later(
    first: spec_fn(usize) -> Option<HitRecord>,
    a: Seq<usize>,
    b: Seq<usize>,
    t_max: Scalar,
    in_a: Option<HitRecord>,
    in_b: Option<HitRecord>,
)
    requires
        within(a, b),
        is_nearest(first, a, t_max, in_a),
        is_nearest(first, b, t_max, in_b),
    ensures
        in_a is Some ==> in_b is Some,
        in_a matches Some(x) ==> (in_b matches Some(y) ==> y.time.ord <= x.time.ord),
{
    if let Some(x) = in_a {
        let i = choose|i: int| 0 <= i < a.len() && first(#[trigger] a[i]) == Some(x);
        assert(b.contains(a[i]));
        let j = choose|j: int| 0 <= j < b.len() && b[j] == a[i];
        assert(seen(first, b[j], t_max) == Some(x));
    }
}

/// The result of a scan of a list of `n` primitives that goes on from
/// `cursor`, each test answered as `first` has it.
pub open spec fn run_scan(
    first: spec_fn(usize) -> Option<HitRecord>,
    n: nat,
    cursor: Cursor,
) -> Option<HitRecord>
    decreases n - cursor.next,
{
    if cursor.next >= n {
        cursor.best
    } else {
        run_scan(first, n, after_test(cursor, seen(first, cursor.next as usize, cursor.closest)))
    }
}

} // verus!
