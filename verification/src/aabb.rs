//! Axis-aligned bounding boxes: the slab test and the union.
use vstd::prelude::*;
use crate::scalar::Scalar;
use crate::vec3::Vec3;

verus! {

/// An axis-aligned box, given by its corner of least and its corner of
/// greatest coordinates.
#[derive(Clone, Copy, Debug, PartialEq, Eq, Structural)]
pub struct AABB {
    pub min: Vec3,
    pub max: Vec3,
}

/// Where a ray meets the two planes that bound a box along one axis.
///
/// `inverse` is the reciprocal of the ray's direction along the axis, `t0`
/// the parameter at which the ray meets the plane of the box's least
/// coordinate and `t1` that of its greatest. A ray that runs against the
/// axis meets them in the opposite order.
#[derive(Clone, Copy, Debug, PartialEq, Eq, Structural)]
pub struct Slab {
    pub inverse: Scalar,
    pub t0: Scalar,
    pub t1: Scalar,
}

/// A stretch of ray parameters, from `lo` to `hi`.
#[derive(Clone, Copy, Debug, PartialEq, Eq, Structural)]
pub struct Window {
    pub lo: Scalar,
    pub hi: Scalar,
}

impl Window {
    /// Whether no parameter lies in the window.
    pub open spec fn is_empty(self) -> bool {
        self.hi.spec_lt(self.lo)
    }
}

impl Slab {
    /// Whether the ray runs against the axis.
    pub open spec fn backwards(self) -> bool {
        self.inverse.spec_lt(Scalar { ord: 0 })
    }

    /// The parameter at which the ray enters the slab.
    pub open spec fn near(self) -> Scalar {
        if self.backwards() {
            self.t1
        } else {
            self.t0
        }
    }

    /// The parameter at which the ray leaves the slab.
    pub open spec fn far(self) -> Scalar {
        if self.backwards() {
            self.t0
        } else {
            self.t1
        }
    }

    /// Whether all three parts are numbers.
    pub open spec fn is_number(self) -> bool {
        self.inverse.is_number() && self.t0.is_number() && self.t1.is_number()
    }

    /// The part of a window that lies inside the slab.
    pub open spec fn narrow(self, w: Window) -> Window {
        Window { lo: w.lo.spec_max(self.near()), hi: w.hi.spec_min(self.far()) }
    }

    /// The slab as the same ray meets it when it runs the other way.
    pub open spec fn reversed(self) -> Slab {
        Slab {
            inverse: self.inverse.spec_neg(),
            t0: self.t0.spec_neg(),
            t1: self.t1.spec_neg(),
        }
    }

    /// The part of a window that lies inside the slab.
    pub fn clip(&self, w: Window) -> (out: Window)
        ensures
            out == self.narrow(w),
    {
        let backwards: bool = self.inverse.lt(Scalar::zero());
        let near: Scalar = if backwards {
            self.t1
        } else {
            self.t0
        };
        let far: Scalar = if backwards {
            self.t0
        } else {
            self.t1
        };
        Window { lo: w.lo.max(near), hi: w.hi.min(far) }
    }
}

/// The window left after the first `n` slabs have narrowed it, or `None`
/// once one of them has left it empty.
pub open spec fn narrowed(slabs: Seq<Slab>, w: Window, n: nat) -> Option<Window>
    decreases n,
{
    if n == 0 {
        Some(w)
    } else {
        match narrowed(slabs, w, (n - 1) as nat) {
            None => None,
            Some(before) => {
                let after = slabs[n - 1].narrow(before);
                if after.is_empty() {
                    None
                } else {
                    Some(after)
                }
            },
        }
    }
}

impl AABB {
    /// Whether `other` lies inside this box, faces included.
    pub open spec fn contains(self, other: AABB) -> bool {
        &&& self.min.x.ord <= other.min.x.ord
        &&& self.min.y.ord <= other.min.y.ord
        &&& self.min.z.ord <= other.min.z.ord
        &&& other.max.x.ord <= self.max.x.ord
        &&& other.max.y.ord <= self.max.y.ord
        &&& other.max.z.ord <= self.max.z.ord
    }

    /// Whether all six coordinates are numbers.
    pub open spec fn is_number(self) -> bool {
        self.min.is_number() && self.max.is_number()
    }

    /// Whether the box is well formed: its coordinates are numbers, and along
    /// no axis does the least exceed the greatest.
    pub open spec fn wf(self) -> bool {
        &&& self.is_number()
        &&& self.min.x.ord <= self.max.x.ord
        &&& self.min.y.ord <= self.max.y.ord
        &&& self.min.z.ord <= self.max.z.ord
    }

    /// The slab test: whether a ray that meets the box's three slabs as
    /// given passes through the box somewhere between `t_min` and `t_max`.
    pub open spec fn spec_hit(slabs: Seq<Slab>, t_min: Scalar, t_max: Scalar) -> bool {
        narrowed(slabs, Window { lo: t_min, hi: t_max }, 3) is Some
    }

    pub fn new(min: Vec3, max: Vec3) -> (b: AABB)
        ensures
            b == (AABB { min, max }),
    {
        AABB { min, max }
    }

    pub fn min(&self) -> (v: Vec3)
        ensures
            v == self.min,
    {
        self.min
    }

    pub fn max(&self) -> (v: Vec3)
        ensures
            v == self.max,
    {
        self.max
    }

    /// The slab test. The window from `t_min` to `t_max` is narrowed by one
    /// slab after the other, and the ray misses as soon as nothing is left.
    pub fn hit(slabs: &[Slab; 3], t_min: Scalar, t_max: Scalar) -> (b: bool)
        ensures
            b == Self::spec_hit(slabs@, t_min, t_max),
    {
        let mut w = Window { lo: t_min, hi: t_max };
        let mut i: usize = 0;
        while i < 3
            invariant
                i <= 3,
                narrowed(slabs@, Window { lo: t_min, hi: t_max }, i as nat) == Some(w),
            decreases 3 - i,
        {
            w = slabs[i].clip(w);
            if w.hi.lt(w.lo) {
                proof {
                    never_widens(slabs@, Window { lo: t_min, hi: t_max }, (i + 1) as nat, 3);
                }
                return false;
            }
            i = i + 1;
        }
        true
    }
}

/// Once a slab has emptied the window, the later slabs leave it so.
pub proof fn never_widens(slabs: Seq<Slab>, w: Window, n: nat, m: nat)
    requires
        n <= m,
        narrowed(slabs, w, n) is None,
    ensures
        narrowed(slabs, w, m) is None,
    decreases m,
{
    if n < m {
        never_widens(slabs, w, n, (m - 1) as nat);
    }
}

/// The smallest box that holds both `box0` and `box1`.
pub open spec fn spec_surrounding_box(box0: AABB, box1: AABB) -> AABB {
    AABB {
        min: Vec3 {
            x: box0.min.x.spec_min(box1.min.x),
            y: box0.min.y.spec_min(box1.min.y),
            z: box0.min.z.spec_min(box1.min.z),
        },
        max: Vec3 {
            x: box0.max.x.spec_max(box1.max.x),
            y: box0.max.y.spec_max(box1.max.y),
            z: box0.max.z.spec_max(box1.max.z),
        },
    }
}

/// The smallest box that holds both `box0` and `box1`: along each axis the
/// lesser of the two least and the greater of the two greatest coordinates.
pub fn surrounding_box(box0: &AABB, box1: &AABB) -> (out: AABB)
    ensures
        out == spec_surrounding_box(*box0, *box1),
{
    let min = Vec3::new(
        box0.min.x.min(box1.min.x),
        box0.min.y.min(box1.min.y),
        box0.min.z.min(box1.min.z),
    );
    let max = Vec3::new(
        box0.max.x.max(box1.max.x),
        box0.max.y.max(box1.max.y),
        box0.max.z.max(box1.max.z),
    );
    AABB { min, max }
}

/// The union of two boxes holds each of them.
pub proof fn union_contains_both(a: AABB, b: AABB)
    requires
        a.is_number(),
        b.is_number(),
    ensures
        spec_surrounding_box(a, b).contains(a),
        spec_surrounding_box(a, b).contains(b),
        spec_surrounding_box(a, b).is_number(),
{
}

/// The union of two boxes lies inside every box that holds both: it is the
/// smallest such box.
pub proof fn union_is_least(a: AABB, b: AABB, c: AABB)
    requires
        a.is_number(),
        b.is_number(),
        c.contains(a),
        c.contains(b),
    ensures
        c.contains(spec_surrounding_box(a, b)),
{
}

/// The union of well-formed boxes is well formed.
pub proof fn union_is_well_formed(a: AABB, b: AABB)
    requires
        a.wf(),
        b.wf(),
    ensures
        spec_surrounding_box(a, b).wf(),
{
}

/// The union does not depend on the order of the two boxes.
pub proof fn union_commutes(a: AABB, b: AABB)
    requires
        a.is_number(),
        b.is_number(),
    ensures
        spec_surrounding_box(a, b) == spec_surrounding_box(b, a),
{
}

/// The union of three boxes does not depend on how they are grouped.
pub proof fn union_associates(a: AABB, b: AABB, c: AABB)
    requires
        a.is_number(),
        b.is_number(),
        c.is_number(),
    ensures
        spec_surrounding_box(spec_surrounding_box(a, b), c) == spec_surrounding_box(
            a,
            spec_surrounding_box(b, c),
        ),
{
}

/// A box that holds another holds whatever that one holds.
pub proof fn contains_is_transitive(a: AABB, b: AABB, c: AABB)
    requires
        a.contains(b),
        b.contains(c),
    ensures
        a.contains(c),
{
}

/// The greatest of the window's start and the three entry parameters.
pub open spec fn latest_entry(slabs: Seq<Slab>, t_min: Scalar) -> Scalar {
    t_min.spec_max(slabs[0].near()).spec_max(slabs[1].near()).spec_max(slabs[2].near())
}

/// The least of the window's end and the three exit parameters.
pub open spec fn earliest_exit(slabs: Seq<Slab>, t_max: Scalar) -> Scalar {
    t_max.spec_min(slabs[0].far()).spec_min(slabs[1].far()).spec_min(slabs[2].far())
}

/// Where every parameter is a number, the slab test passes exactly when the
/// ray has entered all three slabs before it leaves any of them.
pub proof fn hit_is_overlap(slabs: Seq<Slab>, t_min: Scalar, t_max: Scalar)
    requires
        slabs.len() == 3,
        forall|i: int| 0 <= i < 3 ==> (#[trigger] slabs[i]).is_number(),
        t_min.is_number(),
        t_max.is_number(),
    ensures
        AABB::spec_hit(slabs, t_min, t_max) == (latest_entry(slabs, t_min).ord <= earliest_exit(
            slabs,
            t_max,
        ).ord),
{
    let w = Window { lo: t_min, hi: t_max };
    assert(slabs[0].is_number() && slabs[1].is_number() && slabs[2].is_number());
    reveal_with_fuel(narrowed, 4);
}

/// The slab test does not depend on the way the ray runs: the same line,
/// run through in the opposite direction between the opposite bounds, meets
/// the box or misses it as the ray does.
pub proof fn hit_is_direction_symmetric(slabs: Seq<Slab>, t_min: Scalar, t_max: Scalar)
    requires
        slabs.len() == 3,
        forall|i: int| 0 <= i < 3 ==> (#[trigger] slabs[i]).is_number() && slabs[i].inverse.ord != 0,
        t_min.is_number(),
        t_max.is_number(),
    ensures
        AABB::spec_hit(
            Seq::new(3, |i: int| slabs[i].reversed()),
            t_max.spec_neg(),
            t_min.spec_neg(),
        ) == AABB::spec_hit(slabs, t_min, t_max),
{
    let back = Seq::new(3, |i: int| slabs[i].reversed());
    assert(slabs[0].is_number() && slabs[1].is_number() && slabs[2].is_number());
    assert(back[0] == slabs[0].reversed());
    assert(back[1] == slabs[1].reversed());
    assert(back[2] == slabs[2].reversed());
    hit_is_overlap(slabs, t_min, t_max);
    hit_is_overlap(back, t_max.spec_neg(), t_min.spec_neg());
}

/// A ray that passes through a box passes through every box that it enters
/// no later and leaves no earlier along each axis, and in every window that
/// begins no later and ends no earlier.
pub proof fn hit_grows_with_slabs(
    inner: Seq<Slab>,
    outer: Seq<Slab>,
    t_min: Scalar,
    t_max: Scalar,
    wider_min: Scalar,
    wider_max: Scalar,
)
    requires
        inner.len() == 3,
        outer.len() == 3,
        forall|i: int| 0 <= i < 3 ==> (#[trigger] inner[i]).is_number(),
        forall|i: int|
            0 <= i < 3 ==> (#[trigger] outer[i]).is_number() && outer[i].near().ord
                <= inner[i].near().ord && inner[i].far().ord <= outer[i].far().ord,
        t_min.is_number(),
        t_max.is_number(),
        wider_min.is_number(),
        wider_max.is_number(),
        wider_min.ord <= t_min.ord,
        t_max.ord <= wider_max.ord,
        AABB::spec_hit(inner, t_min, t_max),
    ensures
        AABB::spec_hit(outer, wider_min, wider_max),
{
    assert(inner[0].is_number() && inner[1].is_number() && inner[2].is_number());
    assert(outer[0].is_number() && outer[1].is_number() && outer[2].is_number());
    assert(outer[0].near().ord <= inner[0].near().ord && inner[0].far().ord
        <= outer[0].far().ord);
    assert(outer[1].near().ord <= inner[1].near().ord && inner[1].far().ord
        <= outer[1].far().ord);
    assert(outer[2].near().ord <= inner[2].near().ord && inner[2].far().ord
        <= outer[2].far().ord);
    hit_is_overlap(inner, t_min, t_max);
    hit_is_overlap(outer, wider_min, wider_max);
}

/// A ray that starts inside the box meets it: where the ray has entered
/// every slab by parameter zero and left none before it, every window that
/// holds zero passes the slab test.
pub proof fn hit_from_inside(slabs: Seq<Slab>, t_min: Scalar, t_max: Scalar)
    requires
        slabs.len() == 3,
        forall|i: int|
            0 <= i < 3 ==> (#[trigger] slabs[i]).is_number() && slabs[i].near().ord <= 0
                <= slabs[i].far().ord,
        t_min.is_number(),
        t_max.is_number(),
        t_min.ord <= 0 <= t_max.ord,
    ensures
        AABB::spec_hit(slabs, t_min, t_max),
{
    assert(slabs[0].is_number() && slabs[1].is_number() && slabs[2].is_number());
    assert(slabs[0].near().ord <= 0 <= slabs[0].far().ord);
    assert(slabs[1].near().ord <= 0 <= slabs[1].far().ord);
    assert(slabs[2].near().ord <= 0 <= slabs[2].far().ord);
    hit_is_overlap(slabs, t_min, t_max);
}

} // verus!
