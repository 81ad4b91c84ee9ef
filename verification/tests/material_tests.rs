use path_tracer::hitable::HitRecord;
use path_tracer::material::{Dielectric, Interface, Lambertian, Material, Metal, Refraction};
use path_tracer::ray::Ray;
use path_tracer::scalar::Scalar;
use path_tracer::texture::{CheckerTexture, SolidColor, Texture};
use path_tracer::vec3::Vec3;
use rand::rngs::StdRng;
use rand::{Rng, SeedableRng};
use std::sync::Arc;

fn s(x: f64) -> Scalar {
    Scalar::from_bits(x.to_bits())
}

fn f(x: Scalar) -> f64 {
    f64::from_bits(x.to_bits())
}

fn v(a: [f64; 3]) -> Vec3 {
    Vec3::new(s(a[0]), s(a[1]), s(a[2]))
}

fn white() -> Vec3 {
    v([1.0, 1.0, 1.0])
}

fn a_hit() -> HitRecord {
    HitRecord::new(
        v([1.0, 2.0, 3.0]),
        v([0.0, 1.0, 0.0]),
        s(4.5),
        Arc::new(Material::Dielectric(Dielectric::new(s(1.5)))),
        s(0.25),
        s(0.5),
    )
}

fn a_ray() -> Ray {
    Ray::new(v([1.0, 6.5, 3.0]), v([0.0, -1.0, 0.0]), s(0.75))
}

#[test]
fn hit_record_keeps_its_parts() {
    let hit = a_hit();
    assert_eq!(hit.point(), v([1.0, 2.0, 3.0]));
    assert_eq!(hit.normal(), v([0.0, 1.0, 0.0]));
    assert_eq!(f(hit.time()), 4.5);
    assert_eq!(f(hit.u()), 0.25);
    assert_eq!(f(hit.v()), 0.5);
    assert_eq!(*hit.material(), Material::Dielectric(Dielectric::new(s(1.5))));
}

#[test]
fn lambertian_always_scatters() {
    let m = Lambertian::new(Texture::Solid(SolidColor::new(v([0.4, 0.2, 0.1]))));
    let out = m.scatter(&a_ray(), &a_hit(), v([0.1, 1.2, -0.3]), s(0.5), v([9.0, 9.0, 9.0]));
    assert_eq!(
        out,
        Some((Ray::new(v([1.0, 2.0, 3.0]), v([0.1, 1.2, -0.3]), s(0.75)), v([0.4, 0.2, 0.1])))
    );
}

#[test]
fn lambertian_is_weakened_by_the_colour_of_its_texture() {
    let board = Texture::Checker(CheckerTexture::new(
        Texture::Solid(SolidColor::new(v([0.2, 0.3, 0.1]))),
        Texture::Solid(SolidColor::new(v([0.9, 0.9, 0.9]))),
    ));
    let m = Lambertian::new(board);
    let (_, odd) = m.scatter(&a_ray(), &a_hit(), v([0.0, 1.0, 0.0]), s(-0.5), v([9.0, 9.0, 9.0])).unwrap();
    assert_eq!(odd, v([0.2, 0.3, 0.1]));
    let (_, even) = m.scatter(&a_ray(), &a_hit(), v([0.0, 1.0, 0.0]), s(0.5), v([9.0, 9.0, 9.0])).unwrap();
    assert_eq!(even, v([0.9, 0.9, 0.9]));
}

#[test]
fn metal_fuzz_is_held_between_zero_and_one() {
    assert_eq!(f(Metal::new(white(), s(0.3)).fuzz), 0.3);
    assert_eq!(f(Metal::new(white(), s(0.0)).fuzz), 0.0);
    assert_eq!(f(Metal::new(white(), s(1.0)).fuzz), 1.0);
    assert_eq!(f(Metal::new(white(), s(7.0)).fuzz), 1.0);
    assert_eq!(f(Metal::new(white(), s(-2.0)).fuzz), 0.0);
    assert_eq!(Metal::new(v([0.7, 0.6, 0.5]), s(0.0)).albedo, v([0.7, 0.6, 0.5]));
}

#[test]
fn metal_reflects_what_points_outward() {
    let m = Metal::new(v([0.7, 0.6, 0.5]), s(0.0));
    let out = m.scatter(&a_ray(), &a_hit(), v([0.0, 1.0, 0.0]), s(1.0));
    assert_eq!(
        out,
        Some((Ray::new(v([1.0, 2.0, 3.0]), v([0.0, 1.0, 0.0]), s(0.75)), v([0.7, 0.6, 0.5])))
    );
    assert!(m.scatter(&a_ray(), &a_hit(), v([1.0, 0.001, 0.0]), s(0.001)).is_some());
}

#[test]
fn metal_absorbs_what_points_inward() {
    let m = Metal::new(v([0.7, 0.6, 0.5]), s(1.0));
    assert_eq!(m.scatter(&a_ray(), &a_hit(), v([0.3, -0.2, 0.0]), s(-0.2)), None);
    assert_eq!(m.scatter(&a_ray(), &a_hit(), v([1.0, 0.0, 0.0]), s(0.0)), None);
    assert_eq!(m.scatter(&a_ray(), &a_hit(), v([1.0, 0.0, 0.0]), s(-0.0)), None);
    assert_eq!(m.scatter(&a_ray(), &a_hit(), v([1.0, 0.0, 0.0]), s(f64::NAN)), None);
}

#[test]
fn dielectric_tells_the_side_of_the_surface() {
    let m = Dielectric::new(s(1.5));
    // against the normal: the ray enters
    assert_eq!(
        m.orient(s(-1.0), v([0.0, 1.0, 0.0]), s(1.0 / 1.5)),
        Interface { outward_normal: v([0.0, 1.0, 0.0]), ni_over_nt: s(1.0 / 1.5), leaving: false }
    );
    // with the normal: the ray leaves
    assert_eq!(
        m.orient(s(1.0), v([0.0, 1.0, 0.0]), s(1.0 / 1.5)),
        Interface { outward_normal: v([0.0, -1.0, 0.0]), ni_over_nt: s(1.5), leaving: true }
    );
    // along the surface counts as entering
    assert!(!m.orient(s(0.0), v([0.0, 1.0, 0.0]), s(1.0 / 1.5)).leaving);
}

fn possible(reflectance: f64) -> Refraction {
    Refraction { discriminant: s(0.5), refracted: v([0.0, -1.0, 0.0]), reflectance: s(reflectance) }
}

#[test]
fn dielectric_refracts_when_the_draw_exceeds_the_reflectance() {
    let m = Dielectric::new(s(1.5));
    let out = m.scatter(&a_ray(), &a_hit(), &possible(0.04), v([0.0, 1.0, 0.0]), s(0.5));
    assert_eq!(out, Some((Ray::new(v([1.0, 2.0, 3.0]), v([0.0, -1.0, 0.0]), s(0.75)), white())));
}

#[test]
fn dielectric_reflects_when_the_draw_does_not_exceed_the_reflectance() {
    let m = Dielectric::new(s(1.5));
    let out = m.scatter(&a_ray(), &a_hit(), &possible(0.04), v([0.0, 1.0, 0.0]), s(0.01));
    assert_eq!(out, Some((Ray::new(v([1.0, 2.0, 3.0]), v([0.0, 1.0, 0.0]), s(0.75)), white())));
    let out = m.scatter(&a_ray(), &a_hit(), &possible(0.04), v([0.0, 1.0, 0.0]), s(0.04));
    assert_eq!(out, Some((Ray::new(v([1.0, 2.0, 3.0]), v([0.0, 1.0, 0.0]), s(0.75)), white())));
}

#[test]
fn dielectric_reflects_when_refraction_is_impossible() {
    let m = Dielectric::new(s(1.5));
    for discriminant in [-0.25, 0.0, f64::NAN] {
        let total = Refraction {
            discriminant: s(discriminant),
            refracted: v([f64::NAN, f64::NAN, f64::NAN]),
            reflectance: s(0.0),
        };
        let out = m.scatter(&a_ray(), &a_hit(), &total, v([0.6, 0.8, 0.0]), s(0.99));
        assert_eq!(out, Some((Ray::new(v([1.0, 2.0, 3.0]), v([0.6, 0.8, 0.0]), s(0.75)), white())));
    }
}

#[test]
fn dielectric_attenuation_is_always_one() {
    let m = Dielectric::new(s(1.5));
    let mut rng = StdRng::seed_from_u64(5);
    for _ in 0..1000 {
        let refraction = Refraction {
            discriminant: s(rng.gen_range(-1.0..1.0)),
            refracted: v([0.0, -1.0, 0.0]),
            reflectance: s(rng.gen::<f64>()),
        };
        let (_, attenuation) = m.scatter(&a_ray(), &a_hit(), &refraction, v([0.0, 1.0, 0.0]), s(rng.gen::<f64>())).unwrap();
        assert_eq!(attenuation, white());
    }
}

#[test]
fn dielectric_reflects_with_the_probability_of_schlick_at_normal_incidence() {
    let index: f64 = 1.5;
    let m = Dielectric::new(s(index));
    // a ray that meets the surface head on
    let ni_over_nt = 1.0 / index;
    let cos_theta: f64 = 1.0;
    let r0 = ((ni_over_nt - 1.0) / (ni_over_nt + 1.0)).powi(2);
    let reflectance = r0 + (1.0 - r0) * (1.0 - cos_theta).powi(5);
    assert!((reflectance - 0.04).abs() < 1e-12);
    let discriminant = 1.0 - ni_over_nt.powi(2) * (1.0 - cos_theta.powi(2));
    let refraction = Refraction {
        discriminant: s(discriminant),
        refracted: v([0.0, -1.0, 0.0]),
        reflectance: s(reflectance),
    };
    let mut rng = StdRng::seed_from_u64(99);
    let trials = 200_000;
    let mut reflected = 0;
    for _ in 0..trials {
        let (ray, _) = m.scatter(&a_ray(), &a_hit(), &refraction, v([0.0, 1.0, 0.0]), s(rng.gen::<f64>())).unwrap();
        if ray.direction() == v([0.0, 1.0, 0.0]) {
            reflected += 1;
        }
    }
    let share = reflected as f64 / trials as f64;
    assert!((share - r0).abs() < 0.003, "share of reflections {}", share);
}
