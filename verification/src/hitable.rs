//! What a ray can hit, and what is recorded when it does.
use vstd::prelude::*;
use std::sync::Arc;
use crate::aabb::{spec_surrounding_box, surrounding_box, AABB};
use crate::material::Material;
use crate::scalar::Scalar;
use crate::sphere::{MovingSphere, Sphere};
use crate::vec3::Vec3;

verus! {

/// Where a ray met a surface.
#[derive(Clone, Debug, PartialEq, Eq)]
pub struct HitRecord {
    pub point: Vec3,
    pub normal: Vec3,
    pub time: Scalar,
    pub u: Scalar,
    pub v: Scalar,
    pub material: Arc<Material>,
}

/// A geometric object that a ray can hit.
#[derive(Clone, Debug, PartialEq, Eq)]
pub enum Primitive {
    Sphere(Sphere),
    MovingSphere(MovingSphere),
}

/// A primitive together with the box that bounds it over the shutter
/// interval, and with the sum of the box's least and greatest corner, by
/// which primitives are ordered along an axis.
#[derive(Clone, Debug, PartialEq, Eq)]
pub struct Bounded {
    pub primitive: Primitive,
    pub bbox: AABB,
    pub centre: Vec3,
}

impl HitRecord {
    pub fn new(
        point: Vec3,
        normal: Vec3,
        time: Scalar,
        material: Arc<Material>,
        u: Scalar,
        v: Scalar,
    ) -> (rec: HitRecord)
        ensures
            rec == (HitRecord { point, normal, time, u, v, material }),
    {
        HitRecord { point, normal, time, u, v, material }
    }

    pub fn normal(&self) -> (n: Vec3)
        ensures
            n == self.normal,
    {
        self.normal
    }

    pub fn point(&self) -> (p: Vec3)
        ensures
            p == self.point,
    {
        self.point
    }

    pub fn time(&self) -> (t: Scalar)
        ensures
            t == self.time,
    {
        self.time
    }

    /// The material of the surface that was hit, shared with the primitive.
    pub fn material(&self) -> (m: Arc<Material>)
        ensures
            m == self.material,
    {
        self.material.clone()
    }

    pub fn u(&self) -> (u: Scalar)
        ensures
            u == self.u,
    {
        self.u
    }

    pub fn v(&self) -> (v: Scalar)
        ensures
            v == self.v,
    {
        self.v
    }
}

/// What the caller of a scan or of a search is asked to find out.
#[derive(Clone, Copy, Debug, PartialEq, Eq, Structural)]
pub enum Probe {
    /// Does the ray pass through `bbox` between `t_min` and `t_max`?
    Bounds { bbox: AABB, t_min: Scalar, t_max: Scalar },
    /// Where does the ray first meet the primitive `index` between `t_min`
    /// and `t_max`?
    Primitive { index: usize, t_min: Scalar, t_max: Scalar },
    /// Nothing more.
    Done,
}

/// The union of the first `n` boxes, begun with the first of them.
pub open spec fn union_of(boxes: Seq<AABB>, n: nat) -> AABB
    decreases n,
{
    if n == 0 {
        boxes[0]
    } else {
        spec_surrounding_box(union_of(boxes, (n - 1) as nat), boxes[n - 1])
    }
}

/// The boxes of the primitives of a list, in order.
pub open spec fn boxes_of(items: Seq<Bounded>) -> Seq<AABB> {
    Seq::new(items.len(), |i: int| items[i].bbox)
}

/// The primitives of a scene, in the order in which they were added.
pub struct HitableList(pub Vec<Bounded>);

/// What a scan of a list waits for, as a mathematical value: the primitive
/// to be tested next, the parameter of the nearest hit so far, or the far
/// end of the window, and that hit.
pub struct Cursor {
    pub next: nat,
    pub closest: Scalar,
    pub best: Option<HitRecord>,
}

/// A scan of a list in progress: every primitive is tested in turn against
/// the nearest hit found so far.
pub struct Scan {
    pub next: usize,
    pub len: usize,
    pub t_min: Scalar,
    pub closest: Scalar,
    pub best: Option<HitRecord>,
}

impl View for Scan {
    type V = Cursor;

    open spec fn view(&self) -> Cursor {
        Cursor { next: self.next as nat, closest: self.closest, best: self.best }
    }
}

/// The cursor after a primitive test: a hit becomes the nearest so far, and
/// its parameter the far end of the window; the next primitive is taken up.
pub open spec fn after_test(cursor: Cursor, found: Option<HitRecord>) -> Cursor {
    match found {
        Some(hit) => Cursor { next: cursor.next + 1, closest: hit.time, best: Some(hit) },
        None => Cursor { next: cursor.next + 1, ..cursor },
    }
}

impl HitableList {
    /// An empty list.
    pub fn new() -> (list: HitableList)
        ensures
            list.0@.len() == 0,
    {
        HitableList(Vec::new())
    }

    /// Adds a primitive at the end.
    pub fn push(&mut self, hitable: Bounded)
        ensures
            final(self).0@ == old(self).0@.push(hitable),
    {
        self.0.push(hitable);
    }

    /// Starts the scan for the nearest hit between `t_min` and `t_max`.
    pub fn hit(&self, t_min: Scalar, t_max: Scalar) -> (scan: Scan)
        ensures
            scan@ == (Cursor { next: 0, closest: t_max, best: None }),
            scan.len == self.0@.len(),
            scan.t_min == t_min,
    {
        Scan { next: 0, len: self.0.len(), t_min, closest: t_max, best: None }
    }

    /// The box of the whole list: the union of the boxes of its primitives.
    /// The list must not be empty.
    pub fn bounding_box(&self) -> (b: Option<AABB>)
        requires
            self.0@.len() > 0,
        ensures
            b == Some(union_of(boxes_of(self.0@), self.0@.len())),
    {
        let mut outbox: AABB = self.0[0].bbox;
        let mut i: usize = 0;
        while i < self.0.len()
            invariant
                i <= self.0@.len(),
                outbox == union_of(boxes_of(self.0@), i as nat),
            decreases self.0@.len() - i,
        {
            outbox = surrounding_box(&outbox, &self.0[i].bbox);
            i = i + 1;
        }
        Some(outbox)
    }
}

impl Scan {
    /// Whether every primitive has been tested.
    pub open spec fn finished(self) -> bool {
        self.next >= self.len
    }

    /// What the scan asks next.
    pub open spec fn spec_probe(self) -> Probe {
        if self.next < self.len {
            Probe::Primitive { index: self.next, t_min: self.t_min, t_max: self.closest }
        } else {
            Probe::Done
        }
    }

    /// What the scan asks next: a primitive test, or nothing.
    pub fn probe(&self) -> (p: Probe)
        ensures
            p == self.spec_probe(),
    {
        if self.next < self.len {
            Probe::Primitive { index: self.next, t_min: self.t_min, t_max: self.closest }
        } else {
            Probe::Done
        }
    }

    /// Takes the answer to a primitive test: the hit, if the ray meets the
    /// primitive within the window.
    pub fn answer(self, found: Option<HitRecord>) -> (out: Scan)
        requires
            !self.finished(),
        ensures
            out@ == after_test(self@, found),
            out.len == self.len,
            out.t_min == self.t_min,
    {
        match found {
            Some(hit) => Scan {
                next: self.next + 1,
                len: self.len,
                t_min: self.t_min,
                closest: hit.time,
                best: Some(hit),
            },
            None => Scan {
                next: self.next + 1,
                len: self.len,
                t_min: self.t_min,
                closest: self.closest,
                best: self.best,
            },
        }
    }

    /// What the scan has found. Once the scan is over this is its result.
    pub fn result(self) -> (r: Option<HitRecord>)
        ensures
            r == self@.best,
    {
        self.best
    }
}

/// The union of the boxes of a list holds each of them.
pub proof fn list_box_contains_each(boxes: Seq<AABB>, n: nat, i: int)
    requires
        0 <= i < n <= boxes.len(),
        forall|j: int| 0 <= j < boxes.len() ==> (#[trigger] boxes[j]).is_number(),
    ensures
        union_of(boxes, n).contains(boxes[i]),
        union_of(boxes, n).is_number(),
    decreases n,
{
    list_box_is_number(boxes, (n - 1) as nat);
    crate::aabb::union_contains_both(union_of(boxes, (n - 1) as nat), boxes[n - 1]);
    if i < n - 1 {
        list_box_contains_each(boxes, (n - 1) as nat, i);
        crate::aabb::contains_is_transitive(
            union_of(boxes, n),
            union_of(boxes, (n - 1) as nat),
            boxes[i],
        );
    }
}

/// The union of boxes whose coordinates are numbers has numbers for
/// coordinates.
pub proof fn list_box_is_number(boxes: Seq<AABB>, n: nat)
    requires
        n <= boxes.len(),
        boxes.len() > 0,
        forall|j: int| 0 <= j < boxes.len() ==> (#[trigger] boxes[j]).is_number(),
    ensures
        union_of(boxes, n).is_number(),
    decreases n,
{
    if n > 0 {
        list_box_is_number(boxes, (n - 1) as nat);
        crate::aabb::union_contains_both(union_of(boxes, (n - 1) as nat), boxes[n - 1]);
    }
}

/// The union of the boxes of a list lies inside every box that holds each
/// of them: it is the smallest box around the list.
pub proof fn list_box_is_least(boxes: Seq<AABB>, n: nat, around: AABB)
    requires
        n <= boxes.len(),
        boxes.len() > 0,
        forall|j: int| 0 <= j < boxes.len() ==> (#[trigger] boxes[j]).is_number(),
        forall|j: int| 0 <= j < boxes.len() ==> around.contains(#[trigger] boxes[j]),
    ensures
        around.contains(union_of(boxes, n)),
    decreases n,
{
    if n > 0 {
        list_box_is_least(boxes, (n - 1) as nat, around);
        list_box_is_number(boxes, (n - 1) as nat);
        crate::aabb::union_is_least(union_of(boxes, (n - 1) as nat), boxes[n - 1], around);
    }
}

} // verus!
