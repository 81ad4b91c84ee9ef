//! Spheres, at rest and in motion.
//!
//! A ray meets a sphere where a quadratic in the ray's parameter vanishes.
//! The caller solves it; which root counts as the hit is decided here.
use vstd::prelude::*;
use std::sync::Arc;
use crate::aabb::{spec_surrounding_box, surrounding_box, AABB};
use crate::hitable::HitRecord;
use crate::material::Material;
use crate::scalar::{Scalar, ONE_ORD};
use crate::vec3::Vec3;

verus! {

/// A place where a ray crosses the surface of a sphere: the ray's parameter
/// there, the point, the unit normal that points away from the centre, and
/// the surface coordinates of the point.
#[derive(Clone, Copy, Debug, PartialEq, Eq, Structural)]
pub struct Crossing {
    pub time: Scalar,
    pub point: Vec3,
    pub normal: Vec3,
    pub u: Scalar,
    pub v: Scalar,
}

impl Crossing {
    /// Whether the crossing lies strictly inside the window.
    pub open spec fn within(self, t_min: Scalar, t_max: Scalar) -> bool {
        self.time.spec_lt(t_max) && t_min.spec_lt(self.time)
    }

    /// The record of a hit at this crossing of a surface made of `material`.
    pub open spec fn record(self, material: Arc<Material>) -> HitRecord {
        HitRecord {
            point: self.point,
            normal: self.normal,
            time: self.time,
            u: self.u,
            v: self.v,
            material,
        }
    }
}

/// The hit of a ray on a sphere of `material`. `discriminant` is that of the
/// quadratic, `near` the crossing at its smaller root and `far` the one at
/// its greater root. A ray hits only where the discriminant is positive;
/// the nearer crossing counts if it lies inside the window, and else the
/// farther one if that does.
pub open spec fn nearest_crossing(
    material: Arc<Material>,
    discriminant: Scalar,
    near: Crossing,
    far: Crossing,
    t_min: Scalar,
    t_max: Scalar,
) -> Option<HitRecord> {
    if !(Scalar { ord: 0 }).spec_lt(discriminant) {
        None
    } else if near.within(t_min, t_max) {
        Some(near.record(material))
    } else if far.within(t_min, t_max) {
        Some(far.record(material))
    } else {
        None
    }
}

/// The azimuth of a point of the sphere, folded onto the half turn from
/// zero: an angle below zero is mirrored to the angle above.
pub open spec fn spec_fold_azimuth(phi: Scalar) -> Scalar {
    if phi.spec_lt(Scalar { ord: 0 }) {
        phi.spec_neg()
    } else {
        phi
    }
}

/// The azimuth of a point of the sphere, folded onto the half turn from
/// zero. The surface coordinate `u` is this angle over the full turn, so
/// that the two halves of the sphere share one range of `u`.
pub fn fold_azimuth(phi: Scalar) -> (folded: Scalar)
    ensures
        folded == spec_fold_azimuth(phi),
        phi.is_number() ==> folded.ord >= 0,
{
    if phi.lt(Scalar::zero()) {
        phi.neg()
    } else {
        phi
    }
}

/// Chooses the hit among the two crossings.
fn choose_crossing(
    material: &Arc<Material>,
    discriminant: Scalar,
    near: &Crossing,
    far: &Crossing,
    t_min: Scalar,
    t_max: Scalar,
) -> (hit: Option<HitRecord>)
    ensures
        hit == nearest_crossing(*material, discriminant, *near, *far, t_min, t_max),
{
    if discriminant.gt(Scalar::zero()) {
        if near.time.lt(t_max) && near.time.gt(t_min) {
            return Some(
                HitRecord::new(near.point, near.normal, near.time, material.clone(), near.u, near.v),
            );
        }
        if far.time.lt(t_max) && far.time.gt(t_min) {
            return Some(
                HitRecord::new(far.point, far.normal, far.time, material.clone(), far.u, far.v),
            );
        }
    }
    None
}

/// A sphere at rest.
#[derive(Clone, Debug, PartialEq, Eq)]
pub struct Sphere {
    pub center: Vec3,
    pub radius: Scalar,
    pub material: Arc<Material>,
}

impl Sphere {
    pub fn new(center: Vec3, radius: Scalar, material: Material) -> (s: Sphere)
        ensures
            s.center == center,
            s.radius == radius,
            *s.material == material,
    {
        Sphere { center, radius, material: Arc::new(material) }
    }

    /// The hit of a ray on the sphere between `t_min` and `t_max`, given
    /// the discriminant of the quadratic and the crossings at its two roots.
    pub fn hit(
        &self,
        discriminant: Scalar,
        near: &Crossing,
        far: &Crossing,
        t_min: Scalar,
        t_max: Scalar,
    ) -> (hit: Option<HitRecord>)
        ensures
            hit == nearest_crossing(self.material, discriminant, *near, *far, t_min, t_max),
    {
        choose_crossing(&self.material, discriminant, near, far, t_min, t_max)
    }
}

/// A sphere whose centre moves in a straight line from `center0` at `time0`
/// to `center1` at `time1`, and rests outside that interval.
#[derive(Clone, Debug, PartialEq, Eq)]
pub struct MovingSphere {
    pub center0: Vec3,
    pub center1: Vec3,
    pub time0: Scalar,
    pub time1: Scalar,
    pub radius: Scalar,
    pub material: Arc<Material>,
}

/// How far the centre has come on its way, from 0 at the start to 1 at the
/// end: `fraction`, which is the time elapsed since `time0` over the length
/// of the interval, held between 0 and 1.
pub open spec fn spec_progress(fraction: Scalar) -> Scalar {
    fraction.spec_min(Scalar { ord: ONE_ORD }).spec_max(Scalar { ord: 0 })
}

impl MovingSphere {
    pub fn new(
        center0: Vec3,
        center1: Vec3,
        time0: Scalar,
        time1: Scalar,
        radius: Scalar,
        material: Material,
    ) -> (s: MovingSphere)
        ensures
            s.center0 == center0,
            s.center1 == center1,
            s.time0 == time0,
            s.time1 == time1,
            s.radius == radius,
            *s.material == material,
    {
        MovingSphere { center0, center1, time0, time1, radius, material: Arc::new(material) }
    }

    /// Where the centre stands, given how far it has come and the point
    /// `between` that lies so far along the way: at `center0` before it has
    /// set out, at `center1` once it has arrived, and at `between` on the
    /// way.
    pub open spec fn spec_center(self, fraction: Scalar, between: Vec3) -> Vec3 {
        let progress = spec_progress(fraction);
        if progress.ord == 0 {
            self.center0
        } else if progress.ord == ONE_ORD {
            self.center1
        } else {
            between
        }
    }

    /// How far the centre has come on its way, from 0 to 1.
    pub fn progress(fraction: Scalar) -> (w: Scalar)
        ensures
            w == spec_progress(fraction),
            0 <= w.ord <= ONE_ORD,
    {
        fraction.min(Scalar::one()).max(Scalar::zero())
    }

    /// Where the centre stands. `fraction` is the time elapsed since `time0`
    /// over the length of the interval, and `between` the point that lies
    /// `progress(fraction)` of the way from `center0` to `center1`.
    pub fn center(&self, fraction: Scalar, between: Vec3) -> (c: Vec3)
        ensures
            c == self.spec_center(fraction, between),
    {
        let progress: Scalar = Self::progress(fraction);
        if progress.ord == 0 {
            self.center0
        } else if progress.ord == ONE_ORD {
            self.center1
        } else {
            between
        }
    }

    /// The hit of a ray on the sphere between `t_min` and `t_max`, given
    /// the discriminant of the quadratic and the crossings at its two roots.
    pub fn hit(
        &self,
        discriminant: Scalar,
        near: &Crossing,
        far: &Crossing,
        t_min: Scalar,
        t_max: Scalar,
    ) -> (hit: Option<HitRecord>)
        ensures
            hit == nearest_crossing(self.material, discriminant, *near, *far, t_min, t_max),
    {
        choose_crossing(&self.material, discriminant, near, far, t_min, t_max)
    }

    /// The box of the sphere over an interval: the union of its box at the
    /// start and its box at the end.
    pub fn bounding_box(box0: &AABB, box1: &AABB) -> (b: Option<AABB>)
        ensures
            b == Some(spec_surrounding_box(*box0, *box1)),
    {
        Some(surrounding_box(box0, box1))
    }
}

/// The centre does not leave its way: before the start it rests at
/// `center0`, from the end on at `center1`.
pub proof fn center_rests_at_ends(s: MovingSphere, fraction: Scalar, between: Vec3)
    requires
        fraction.is_number(),
    ensures
        fraction.ord <= 0 ==> s.spec_center(fraction, between) == s.center0,
        fraction.ord >= ONE_ORD ==> s.spec_center(fraction, between) == s.center1,
        0 < fraction.ord < ONE_ORD ==> s.spec_center(fraction, between) == between
            && spec_progress(fraction) == fraction,
{
}

/// Points that mirror each other in azimuth are folded onto the same angle.
pub proof fn azimuth_is_mirrored(phi: Scalar)
    requires
        phi.is_number(),
    ensures
        spec_fold_azimuth(phi.spec_neg()) == spec_fold_azimuth(phi),
        spec_fold_azimuth(phi).ord >= 0,
{
}

/// A hit lies strictly inside the window.
pub proof fn hit_lies_in_window(
    material: Arc<Material>,
    discriminant: Scalar,
    near: Crossing,
    far: Crossing,
    t_min: Scalar,
    t_max: Scalar,
)
    ensures
        nearest_crossing(material, discriminant, near, far, t_min, t_max) matches Some(hit) ==> {
            &&& t_min.ord < hit.time.ord < t_max.ord
            &&& hit.time.is_number()
            &&& hit.material == material
            &&& hit == near.record(material) || hit == far.record(material)
        },
{
}

/// Drawing in the far end of the window does not change which crossing is
/// found, only whether it is found: the hit in the narrower window is the
/// hit in the wider one where that lies before the new end, and none where
/// it does not.
pub proof fn hit_outlasts_narrowing(
    material: Arc<Material>,
    discriminant: Scalar,
    near: Crossing,
    far: Crossing,
    t_min: Scalar,
    t_max: Scalar,
    closer: Scalar,
)
    requires
        near.time.is_number(),
        far.time.is_number(),
        near.time.ord <= far.time.ord,
        closer.is_number(),
        t_max.is_number(),
        closer.ord <= t_max.ord,
    ensures
        nearest_crossing(material, discriminant, near, far, t_min, closer) == (match nearest_crossing(
            material,
            discriminant,
            near,
            far,
            t_min,
            t_max,
        ) {
            Some(hit) => if hit.time.spec_lt(closer) {
                Some(hit)
            } else {
                None
            },
            None => None,
        }),
{
}

} // verus!
