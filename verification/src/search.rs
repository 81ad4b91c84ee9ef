//! Searching the hierarchy for the nearest hit of a ray.
//!
//! Whether a ray passes through a box, and where it meets a primitive, is
//! arithmetic that rounds, and is left to the caller. The search says what it
//! needs to know next, a box test or a primitive test, and takes the answer:
//! it visits the nodes depth first, the lower half of a branch before the
//! upper, and tests each box and each primitive against the nearest hit
//! found so far.
use vstd::prelude::*;
use crate::aabb::AABB;
use crate::bvh::{Span, BVH};
use crate::hitable::{HitRecord, Probe};
use crate::scalar::Scalar;

verus! {

/// What a search waits for.
#[derive(Clone, Copy, Debug, PartialEq, Eq, Structural)]
pub enum Phase {
    /// Whether the ray passes through the box of this node.
    Bounds(usize),
    /// Where the ray meets the primitive of this leaf.
    Primitive(usize),
    /// Nothing: the search is over.
    Finished,
}

/// The state of a search, as a mathematical value: the nodes still to be
/// visited, the last of them first; what the search waits for; the
/// parameter of the nearest hit so far, or the far end of the window; and
/// that hit.
pub struct Front {
    pub stack: Seq<usize>,
    pub phase: Phase,
    pub closest: Scalar,
    pub best: Option<HitRecord>,
}

/// A search of a hierarchy in progress.
pub struct Search {
    pub stack: Vec<usize>,
    pub phase: Phase,
    pub t_min: Scalar,
    pub closest: Scalar,
    pub best: Option<HitRecord>,
}

impl View for Search {
    type V = Front;

    open spec fn view(&self) -> Front {
        Front { stack: self.stack@, phase: self.phase, closest: self.closest, best: self.best }
    }
}

/// The front at the start of a search: the root's box is to be tested.
pub open spec fn start(t_max: Scalar) -> Front {
    Front { stack: Seq::empty(), phase: Phase::Bounds(0), closest: t_max, best: None }
}

/// The front once the node under test is done with: the node on top of the
/// stack comes next, and with an empty stack the search is over.
pub open spec fn proceed(front: Front) -> Front {
    if front.stack.len() == 0 {
        Front { phase: Phase::Finished, ..front }
    } else {
        Front { stack: front.stack.drop_last(), phase: Phase::Bounds(front.stack.last()), ..front }
    }
}

/// The front after a box test. A box that the ray misses is done with. In a
/// box that it passes through, a leaf has its primitive tested, and a branch
/// its lower child, while its upper child is put aside.
pub open spec fn after_bounds(spans: Seq<Span>, front: Front, inside: bool) -> Front
    recommends
        front.phase is Bounds,
{
    let k = front.phase->Bounds_0;
    if !inside {
        proceed(front)
    } else {
        match spans[k as int].cut {
            None => Front { phase: Phase::Primitive(k), ..front },
            Some(cut) => Front {
                stack: front.stack.push(cut.right),
                phase: Phase::Bounds(cut.left),
                ..front
            },
        }
    }
}

/// The front after a primitive test: a hit becomes the nearest so far, and
/// its parameter the far end of the window.
pub open spec fn after_primitive(front: Front, found: Option<HitRecord>) -> Front {
    match found {
        Some(hit) => proceed(Front { closest: hit.time, best: Some(hit), ..front }),
        None => proceed(front),
    }
}

/// Whether a front names only nodes of the hierarchy, and is over only when
/// nothing is left to visit.
pub open spec fn front_wf(spans: Seq<Span>, front: Front) -> bool {
    &&& forall|i: int| 0 <= i < front.stack.len() ==> (#[trigger] front.stack[i]) < spans.len()
    &&& match front.phase {
        Phase::Bounds(k) => k < spans.len(),
        Phase::Primitive(k) => k < spans.len() && spans[k as int].cut is None,
        Phase::Finished => front.stack.len() == 0,
    }
}

impl Search {
    /// Whether the search fits the hierarchy.
    pub open spec fn wf(self, bvh: BVH) -> bool {
        front_wf(bvh.spans@, self@)
    }

    /// What the search has found. Once the search is over this is its
    /// result.
    pub fn result(self) -> (r: Option<HitRecord>)
        ensures
            r == self@.best,
    {
        self.best
    }

    /// Whether the search is over.
    pub fn is_finished(&self) -> (b: bool)
        ensures
            b == (self@.phase is Finished),
    {
        match self.phase {
            Phase::Finished => true,
            _ => false,
        }
    }

    /// Takes up the node on top of the stack, or ends the search.
    fn proceed(self) -> (out: Search)
        ensures
            out@ == proceed(self@),
            out.t_min == self.t_min,
    {
        let mut stack = self.stack;
        let ghost before = stack@;
        match stack.pop() {
            None => Search {
                stack,
                phase: Phase::Finished,
                t_min: self.t_min,
                closest: self.closest,
                best: self.best,
            },
            Some(k) => {
                assert(stack@ =~= before.drop_last());
                Search {
                    stack,
                    phase: Phase::Bounds(k),
                    t_min: self.t_min,
                    closest: self.closest,
                    best: self.best,
                }
            },
        }
    }
}

impl BVH {
    /// What a search asks next.
    pub open spec fn spec_probe(self, search: Search) -> Probe {
        match search.phase {
            Phase::Bounds(k) => Probe::Bounds {
                bbox: self.boxes@[k as int],
                t_min: search.t_min,
                t_max: search.closest,
            },
            Phase::Primitive(k) => Probe::Primitive {
                index: self.order@[self.spans@[k as int].start as int],
                t_min: search.t_min,
                t_max: search.closest,
            },
            Phase::Finished => Probe::Done,
        }
    }

    /// Starts the search for the nearest hit between `t_min` and `t_max`.
    pub fn hit(&self, t_min: Scalar, t_max: Scalar) -> (search: Search)
        requires
            self.wf(),
        ensures
            search@ == start(t_max),
            search.t_min == t_min,
            search.wf(*self),
    {
        Search { stack: Vec::new(), phase: Phase::Bounds(0), t_min, closest: t_max, best: None }
    }

    /// What the search asks next: a box test, a primitive test, or nothing.
    pub fn probe(&self, search: &Search) -> (p: Probe)
        requires
            self.wf(),
            search.wf(*self),
        ensures
            p == self.spec_probe(*search),
            p matches Probe::Primitive { index, .. } ==> index < self.items@.len(),
    {
        match search.phase {
            Phase::Bounds(k) => Probe::Bounds {
                bbox: self.boxes[k],
                t_min: search.t_min,
                t_max: search.closest,
            },
            Phase::Primitive(k) => Probe::Primitive {
                index: self.order[self.spans[k].start],
                t_min: search.t_min,
                t_max: search.closest,
            },
            Phase::Finished => Probe::Done,
        }
    }

    /// Takes the answer to a box test: whether the ray passes through the
    /// box.
    pub fn answer_bounds(&self, search: Search, inside: bool) -> (out: Search)
        requires
            self.wf(),
            search.wf(*self),
            search@.phase is Bounds,
        ensures
            out@ == after_bounds(self.spans@, search@, inside),
            out.t_min == search.t_min,
            out.wf(*self),
    {
        let k: usize = match search.phase {
            Phase::Bounds(k) => k,
            _ => 0,
        };
        proof {
            assert(crate::bvh::settled(self.items@, self.order@, self.spans@, k as int));
        }
        if !inside {
            search.proceed()
        } else {
            match self.spans[k].cut {
                None => Search {
                    stack: search.stack,
                    phase: Phase::Primitive(k),
                    t_min: search.t_min,
                    closest: search.closest,
                    best: search.best,
                },
                Some(cut) => {
                    let mut stack = search.stack;
                    stack.push(cut.right);
                    Search {
                        stack,
                        phase: Phase::Bounds(cut.left),
                        t_min: search.t_min,
                        closest: search.closest,
                        best: search.best,
                    }
                },
            }
        }
    }

    /// Takes the answer to a primitive test: the hit, if the ray meets the
    /// primitive within the window.
    pub fn answer_primitive(&self, search: Search, found: Option<HitRecord>) -> (out: Search)
        requires
            self.wf(),
            search.wf(*self),
            search@.phase is Primitive,
        ensures
            out@ == after_primitive(search@, found),
            out.t_min == search.t_min,
            out.wf(*self),
    {
        match found {
            Some(hit) => {
                let next = Search {
                    stack: search.stack,
                    phase: search.phase,
                    t_min: search.t_min,
                    closest: hit.time,
                    best: Some(hit),
                };
                next.proceed()
            },
            None => search.proceed(),
        }
    }
}

} // verus!
