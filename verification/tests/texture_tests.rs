use path_tracer::perlin::Perlin;
use path_tracer::scalar::Scalar;
use path_tracer::texture::{CheckerTexture, NoiseTexture, SolidColor, Texture};
use path_tracer::vec3::Vec3;

fn s(x: f64) -> Scalar {
    Scalar::from_bits(x.to_bits())
}

fn v(a: [f64; 3]) -> Vec3 {
    Vec3::new(s(a[0]), s(a[1]), s(a[2]))
}

fn solid(level: f64) -> Texture {
    Texture::Solid(SolidColor::new(v([level, level, level])))
}

fn sines(p: [f64; 3]) -> Scalar {
    s(f64::sin(10.0 * p[0]) * f64::sin(10.0 * p[1]) * f64::sin(10.0 * p[2]))
}

fn gradients() -> Vec<Vec3> {
    (0..256).map(|i| v([i as f64, 0.0, 0.0])).collect()
}

#[test]
fn solid_color_is_the_same_everywhere() {
    let t = SolidColor::new(v([0.2, 0.3, 0.1]));
    assert_eq!(t.value(s(0.0), s(0.0), v([0.0, 0.0, 0.0])), v([0.2, 0.3, 0.1]));
    assert_eq!(t.value(s(0.9), s(0.1), v([5.0, -3.0, 1.0e9])), v([0.2, 0.3, 0.1]));
}

#[test]
fn checker_shows_odd_where_the_sines_are_negative() {
    let board = CheckerTexture::new(solid(0.1), solid(0.9));
    assert_eq!(*board.value(s(-0.5)), solid(0.1));
    assert_eq!(*board.value(s(0.5)), solid(0.9));
    assert_eq!(*board.value(s(0.0)), solid(0.9));
    assert_eq!(*board.value(s(-0.0)), solid(0.9));
    assert_eq!(*board.value(s(f64::NAN)), solid(0.9));
}

#[test]
fn checker_alternates_in_space() {
    let board = CheckerTexture::new(solid(0.1), solid(0.9));
    // sin(10 * 0.1) > 0 in all three
    assert_eq!(*board.value(sines([0.1, 0.1, 0.1])), solid(0.9));
    // one step of pi / 10 along x flips the sign
    assert_eq!(*board.value(sines([0.1 + std::f64::consts::PI / 10.0, 0.1, 0.1])), solid(0.1));
    assert_eq!(
        *board.value(sines([0.1 + std::f64::consts::PI / 10.0, 0.1 + std::f64::consts::PI / 10.0, 0.1])),
        solid(0.9)
    );
}

#[test]
fn texture_that_is_no_board_shows_itself() {
    assert_eq!(*solid(0.3).shown(s(-1.0)), solid(0.3));
    assert_eq!(*solid(0.3).shown(s(1.0)), solid(0.3));
    let noise = Texture::Noise(NoiseTexture::new(Perlin::new(gradients()), s(4.0)));
    assert!(matches!(noise.shown(s(-1.0)), Texture::Noise(_)));
}

#[test]
fn boards_within_boards_show_the_square_at_the_point() {
    let inner = Texture::Checker(CheckerTexture::new(solid(0.1), solid(0.2)));
    let outer = Texture::Checker(CheckerTexture::new(inner, solid(0.9)));
    assert_eq!(*outer.shown(s(-1.0)), solid(0.1));
    assert_eq!(*outer.shown(s(1.0)), solid(0.9));
    let other = Texture::Checker(CheckerTexture::new(
        solid(0.9),
        Texture::Checker(CheckerTexture::new(solid(0.1), solid(0.2))),
    ));
    assert_eq!(*other.shown(s(1.0)), solid(0.2));
    assert_eq!(*other.shown(s(-1.0)), solid(0.9));
}

#[test]
fn value_is_the_colour_that_is_seen() {
    let noise = Texture::Noise(NoiseTexture::new(Perlin::new(gradients()), s(4.0)));
    let board = Texture::Checker(CheckerTexture::new(solid(0.1), noise));
    let p = v([1.0, 2.0, 3.0]);
    let grey = v([0.6, 0.6, 0.6]);
    assert_eq!(board.value(s(0.0), s(0.0), p, s(-1.0), grey), v([0.1, 0.1, 0.1]));
    assert_eq!(board.value(s(0.0), s(0.0), p, s(1.0), grey), grey);
    assert_eq!(solid(0.3).value(s(0.5), s(0.5), p, s(1.0), grey), v([0.3, 0.3, 0.3]));
}

#[test]
fn noise_texture_keeps_its_parts() {
    let lattice = Perlin::new(gradients());
    let t = NoiseTexture::new(lattice.clone(), s(4.0));
    assert_eq!(t.scale, s(4.0));
    assert_eq!(t.noise, lattice);
}
