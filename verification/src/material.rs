//! Materials: whether and how light scatters where a ray meets a surface.
//!
//! The directions in which light may go on are worked out by the caller,
//! who also draws the random numbers. Whether light goes on at all, and in
//! which of those directions, is decided here.
use vstd::prelude::*;
use crate::hitable::HitRecord;
use crate::ray::Ray;
use crate::scalar::{Scalar, ONE_ORD};
use crate::texture::Texture;
use crate::vec3::Vec3;

verus! {

/// A diffuse surface that shows a texture.
#[derive(Debug, PartialEq, Eq)]
pub struct Lambertian {
    pub albedo: Texture,
}

/// A mirror, blurred by `fuzz`.
#[derive(Clone, Debug, PartialEq, Eq)]
pub struct Metal {
    pub albedo: Vec3,
    pub fuzz: Scalar,
}

/// A clear medium that refracts.
#[derive(Clone, Debug, PartialEq, Eq)]
pub struct Dielectric {
    pub refraction_index: Scalar,
}

/// A material: diffuse, metallic or clear.
#[derive(Debug, PartialEq, Eq)]
pub enum Material {
    Lambertian(Lambertian),
    Metal(Metal),
    Dielectric(Dielectric),
}

/// The ray that leaves the place of a hit in `direction`, at the moment of
/// the ray that came in.
pub open spec fn scattered(r_in: Ray, hit_record: HitRecord, direction: Vec3) -> Ray {
    Ray { origin: hit_record.point, direction, time: r_in.time }
}

/// The colour that takes nothing away: one in every channel.
pub open spec fn white() -> Vec3 {
    Vec3 { x: Scalar { ord: ONE_ORD }, y: Scalar { ord: ONE_ORD }, z: Scalar { ord: ONE_ORD } }
}

impl Lambertian {
    pub fn new(albedo: Texture) -> (m: Lambertian)
        ensures
            m.albedo == albedo,
    {
        Lambertian { albedo }
    }

    /// Scatters diffusely, whatever the ray that came in: light goes on in
    /// `direction`, which is the normal at the hit plus a random point of
    /// the unit ball, weakened by the colour of the texture at the hit.
    /// `sines` and `noise` are what the texture needs to tell its colour
    /// there.
    pub fn scatter(
        &self,
        r_in: &Ray,
        hit_record: &HitRecord,
        direction: Vec3,
        sines: Scalar,
        noise: Vec3,
    ) -> (out: Option<(Ray, Vec3)>)
        ensures
            out == Some(
                (
                    scattered(*r_in, *hit_record, direction),
                    self.albedo.spec_value(sines, noise),
                ),
            ),
    {
        let attenuation = self.albedo.value(
            hit_record.u,
            hit_record.v,
            hit_record.point,
            sines,
            noise,
        );
        Some((Ray::new(hit_record.point, direction, r_in.time), attenuation))
    }
}

/// `fuzz` held between 0 and 1.
pub open spec fn spec_clamp_fuzz(fuzz: Scalar) -> Scalar {
    fuzz.spec_min(Scalar { ord: ONE_ORD }).spec_max(Scalar { ord: 0 })
}

impl Metal {
    /// A metal of colour `albedo`. The blur `fuzz` is held between 0 and 1.
    pub fn new(albedo: Vec3, fuzz: Scalar) -> (m: Metal)
        ensures
            m.albedo == albedo,
            m.fuzz == spec_clamp_fuzz(fuzz),
            0 <= m.fuzz.ord <= ONE_ORD,
    {
        Metal { albedo, fuzz: fuzz.min(Scalar::one()).max(Scalar::zero()) }
    }

    /// What a metal does with a ray. `reflected` is the mirrored direction,
    /// blurred, and `facing` its dot product with the normal at the hit.
    /// Light goes on in that direction if it points away from the surface;
    /// light that would go into the surface is absorbed.
    pub open spec fn spec_scatter(
        self,
        r_in: Ray,
        hit_record: HitRecord,
        reflected: Vec3,
        facing: Scalar,
    ) -> Option<(Ray, Vec3)> {
        if (Scalar { ord: 0 }).spec_lt(facing) {
            Some((scattered(r_in, hit_record, reflected), self.albedo))
        } else {
            None
        }
    }

    /// Reflects, or absorbs the blurred reflection that points into the
    /// surface.
    pub fn scatter(&self, r_in: &Ray, hit_record: &HitRecord, reflected: Vec3, facing: Scalar) -> (out:
        Option<(Ray, Vec3)>)
        ensures
            out == self.spec_scatter(*r_in, *hit_record, reflected, facing),
    {
        if facing.gt(Scalar::zero()) {
            Some((Ray::new(hit_record.point, reflected, r_in.time), self.albedo))
        } else {
            None
        }
    }
}

/// The side from which a ray meets the surface of a clear medium: the
/// normal that points against the ray, and the ratio of the refraction
/// indices, that of the side the ray comes from over that of the side it
/// goes to.
#[derive(Clone, Copy, Debug, PartialEq, Eq, Structural)]
pub struct Interface {
    pub outward_normal: Vec3,
    pub ni_over_nt: Scalar,
    pub leaving: bool,
}

/// What refraction would do with a ray: the discriminant of Snell's law,
/// the refracted direction, which means something only where the
/// discriminant is positive, and the share of light that is reflected
/// rather than refracted, by Schlick's approximation.
#[derive(Clone, Copy, Debug, PartialEq, Eq, Structural)]
pub struct Refraction {
    pub discriminant: Scalar,
    pub refracted: Vec3,
    pub reflectance: Scalar,
}

impl Dielectric {
    pub fn new(refraction_index: Scalar) -> (m: Dielectric)
        ensures
            m.refraction_index == refraction_index,
    {
        Dielectric { refraction_index }
    }

    /// The side from which a ray meets the surface. `facing` is the dot
    /// product of the ray's direction with the normal at the hit, and
    /// `reciprocal` one over the refraction index. A ray that runs with the
    /// normal leaves the medium: the normal is turned round, and the ratio is
    /// the index. Any other ray enters the medium: the normal stays, and
    /// the ratio is the reciprocal.
    pub open spec fn spec_orient(self, facing: Scalar, normal: Vec3, reciprocal: Scalar) -> Interface {
        if (Scalar { ord: 0 }).spec_lt(facing) {
            Interface {
                outward_normal: normal.spec_neg(),
                ni_over_nt: self.refraction_index,
                leaving: true,
            }
        } else {
            Interface { outward_normal: normal, ni_over_nt: reciprocal, leaving: false }
        }
    }

    /// The side from which a ray meets the surface.
    pub fn orient(&self, facing: Scalar, normal: Vec3, reciprocal: Scalar) -> (side: Interface)
        ensures
            side == self.spec_orient(facing, normal, reciprocal),
    {
        if facing.gt(Scalar::zero()) {
            Interface {
                outward_normal: normal.neg(),
                ni_over_nt: self.refraction_index,
                leaving: true,
            }
        } else {
            Interface { outward_normal: normal, ni_over_nt: reciprocal, leaving: false }
        }
    }

    /// Whether the ray is refracted: refraction must be possible, and the
    /// number drawn must exceed the share of light that is reflected.
    pub open spec fn refracts(refraction: Refraction, draw: Scalar) -> bool {
        (Scalar { ord: 0 }).spec_lt(refraction.discriminant) && refraction.reflectance.spec_lt(
            draw,
        )
    }

    /// What a clear medium does with a ray: it refracts it or reflects it,
    /// and takes nothing away. `reflected` is the mirrored direction and
    /// `draw` a number drawn evenly between 0 and 1.
    pub open spec fn spec_scatter(
        r_in: Ray,
        hit_record: HitRecord,
        refraction: Refraction,
        reflected: Vec3,
        draw: Scalar,
    ) -> Option<(Ray, Vec3)> {
        if Self::refracts(refraction, draw) {
            Some((scattered(r_in, hit_record, refraction.refracted), white()))
        } else {
            Some((scattered(r_in, hit_record, reflected), white()))
        }
    }

    /// Refracts or reflects. Where refraction is impossible the ray is
    /// reflected; where it is possible, one draw decides, and the ray is
    /// reflected with the probability that Schlick's approximation gives.
    pub fn scatter(
        &self,
        r_in: &Ray,
        hit_record: &HitRecord,
        refraction: &Refraction,
        reflected: Vec3,
        draw: Scalar,
    ) -> (out: Option<(Ray, Vec3)>)
        ensures
            out == Self::spec_scatter(*r_in, *hit_record, *refraction, reflected, draw),
    {
        let attenuation = Vec3::splat(Scalar::one());
        if refraction.discriminant.gt(Scalar::zero()) {
            if draw.gt(refraction.reflectance) {
                return Some(
                    (Ray::new(hit_record.point, refraction.refracted, r_in.time), attenuation),
                );
            }
        }
        Some((Ray::new(hit_record.point, reflected, r_in.time), attenuation))
    }
}

/// A clear medium always scatters, and takes nothing away: the attenuation
/// is one in every channel, whatever the ray and whatever is drawn.
pub proof fn dielectric_takes_nothing(
    r_in: Ray,
    hit_record: HitRecord,
    refraction: Refraction,
    reflected: Vec3,
    draw: Scalar,
)
    ensures
        Dielectric::spec_scatter(r_in, hit_record, refraction, reflected, draw) matches Some(out)
            && out.1 == white() && out.0.origin == hit_record.point && (out.0.direction
            == reflected || out.0.direction == refraction.refracted),
{
}

/// Where refraction is possible, a clear medium reflects exactly the draws
/// that do not exceed the reflectance: of draws spread evenly between 0 and
/// 1, the share that the reflectance names.
pub proof fn dielectric_reflects_by_reflectance(
    r_in: Ray,
    hit_record: HitRecord,
    refraction: Refraction,
    reflected: Vec3,
    draw: Scalar,
)
    requires
        refraction.discriminant.is_number(),
        refraction.discriminant.ord > 0,
        refraction.reflectance.is_number(),
        draw.is_number(),
    ensures
        Dielectric::spec_scatter(r_in, hit_record, refraction, reflected, draw) == Some(
            (
                scattered(
                    r_in,
                    hit_record,
                    if draw.ord <= refraction.reflectance.ord {
                        reflected
                    } else {
                        refraction.refracted
                    },
                ),
                white(),
            ),
        ),
{
}

/// A metal never scatters light into its own surface.
pub proof fn metal_scatters_outward(
    m: Metal,
    r_in: Ray,
    hit_record: HitRecord,
    reflected: Vec3,
    facing: Scalar,
)
    ensures
        m.spec_scatter(r_in, hit_record, reflected, facing) is Some <==> facing.is_number()
            && facing.ord > 0,
{
}

} // verus!
