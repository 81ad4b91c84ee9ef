use path_tracer::integrator::{ray_color, window, Bounce, Light, Path};
use path_tracer::scalar::Scalar;
use path_tracer::vec3::Vec3;

fn s(x: f64) -> Scalar {
    Scalar::from_bits(x.to_bits())
}

fn f(x: Scalar) -> f64 {
    f64::from_bits(x.to_bits())
}

fn v(a: [f64; 3]) -> Vec3 {
    Vec3::new(s(a[0]), s(a[1]), s(a[2]))
}

/// Follows a path through what became of its rays; returns the path and the
/// number of rays that were traced.
fn follow(depth: usize, bounces: &[Bounce]) -> (Path, usize) {
    let mut path = ray_color(depth);
    let mut traced = 0;
    while !path.is_ended() {
        path = path.bounce(bounces[traced]);
        traced += 1;
    }
    (path, traced)
}

/// The colour of a finished path: the light at its end, weakened by every
/// attenuation, the last first.
fn colour(path: &Path, sky: [f64; 3]) -> [f64; 3] {
    let mut c = match path.end.unwrap() {
        Light::Black => [0.0, 0.0, 0.0],
        Light::Sky => sky,
    };
    for att in path.attenuations.iter().rev() {
        c = [f(att.x) * c[0], f(att.y) * c[1], f(att.z) * c[2]];
    }
    c
}

#[test]
fn rays_are_tested_from_just_beyond_their_origin_to_infinity() {
    let (t_min, t_max) = window();
    assert_eq!(f(t_min), 0.001);
    assert_eq!(f(t_max), f64::INFINITY);
}

#[test]
fn depth_zero_is_black_and_traces_nothing() {
    let path = ray_color(0);
    assert!(path.is_ended());
    assert_eq!(path.end, Some(Light::Black));
    assert!(path.attenuations.is_empty());
    let (path, traced) = follow(0, &[Bounce::Missed]);
    assert_eq!(traced, 0);
    assert_eq!(colour(&path, [0.5, 0.7, 1.0]), [0.0, 0.0, 0.0]);
}

#[test]
fn path_of_positive_depth_asks_for_a_ray() {
    for depth in [1, 2, 5, 50] {
        let path = ray_color(depth);
        assert!(!path.is_ended());
        assert_eq!(path.remaining, depth);
    }
}

#[test]
fn ray_that_misses_ends_in_the_sky() {
    let (path, traced) = follow(5, &[Bounce::Missed]);
    assert_eq!(traced, 1);
    assert_eq!(path.end, Some(Light::Sky));
    assert_eq!(colour(&path, [0.5, 0.7, 1.0]), [0.5, 0.7, 1.0]);
}

#[test]
fn ray_that_is_absorbed_ends_in_black() {
    let (path, traced) = follow(5, &[Bounce::Absorbed]);
    assert_eq!(traced, 1);
    assert_eq!(path.end, Some(Light::Black));
    let (path, traced) = follow(5, &[Bounce::Scattered(v([0.5, 0.5, 0.5])), Bounce::Absorbed]);
    assert_eq!(traced, 2);
    assert_eq!(colour(&path, [0.5, 0.7, 1.0]), [0.0, 0.0, 0.0]);
}

#[test]
fn scattered_rays_weaken_the_light_of_the_sky() {
    let bounces = [
        Bounce::Scattered(v([0.5, 0.5, 0.5])),
        Bounce::Scattered(v([0.5, 1.0, 0.25])),
        Bounce::Missed,
    ];
    let (path, traced) = follow(5, &bounces);
    assert_eq!(traced, 3);
    assert_eq!(path.end, Some(Light::Sky));
    assert_eq!(path.attenuations, vec![v([0.5, 0.5, 0.5]), v([0.5, 1.0, 0.25])]);
    assert_eq!(path.remaining, 3);
    assert_eq!(colour(&path, [1.0, 0.8, 0.4]), [0.25, 0.4, 0.05]);
}

#[test]
fn path_is_cut_off_at_its_depth() {
    let scatter = Bounce::Scattered(v([0.9, 0.9, 0.9]));
    for depth in 1..8 {
        let bounces = vec![scatter; depth + 3];
        let (path, traced) = follow(depth, &bounces);
        assert_eq!(traced, depth);
        assert_eq!(path.end, Some(Light::Black));
        assert_eq!(path.attenuations.len(), depth);
        assert_eq!(path.remaining, 0);
        assert_eq!(colour(&path, [0.5, 0.7, 1.0]), [0.0, 0.0, 0.0]);
    }
}

#[test]
fn last_ray_of_the_depth_may_still_reach_the_sky() {
    let bounces = [Bounce::Scattered(v([0.5, 0.5, 0.5])), Bounce::Missed];
    let (path, traced) = follow(2, &bounces);
    assert_eq!(traced, 2);
    assert_eq!(path.end, Some(Light::Sky));
    let (path, traced) = follow(1, &bounces);
    assert_eq!(traced, 1);
    assert_eq!(path.end, Some(Light::Black));
}
