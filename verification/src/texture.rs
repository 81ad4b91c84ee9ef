//! Textures: what colour a surface shows at a point.
//!
//! A checkerboard shows one of two textures, according to the sign of a
//! product of sines at the point. That product is handed in; which texture
//! is shown is decided here.
use vstd::prelude::*;
use crate::perlin::Perlin;
use crate::scalar::Scalar;
use crate::vec3::Vec3;

verus! {

/// One colour everywhere.
#[derive(Clone, Debug, PartialEq, Eq)]
pub struct SolidColor {
    pub color_value: Vec3,
}

/// A checkerboard in space whose squares show two other textures in turn.
#[derive(Debug, PartialEq, Eq)]
pub struct CheckerTexture {
    pub odd: Box<Texture>,
    pub even: Box<Texture>,
}

/// Procedural noise, stretched by `scale`.
#[derive(Clone, Debug, PartialEq, Eq)]
pub struct NoiseTexture {
    pub noise: Perlin,
    pub scale: Scalar,
}

/// A texture: a constant colour, a checkerboard or noise.
#[derive(Debug, PartialEq, Eq)]
pub enum Texture {
    Solid(SolidColor),
    Checker(CheckerTexture),
    Noise(NoiseTexture),
}

impl SolidColor {
    pub fn new(color_value: Vec3) -> (t: SolidColor)
        ensures
            t.color_value == color_value,
    {
        SolidColor { color_value }
    }

    /// The colour at surface coordinates `u`, `v` and point `p`: the same
    /// everywhere.
    pub fn value(&self, u: Scalar, v: Scalar, p: Vec3) -> (c: Vec3)
        ensures
            c == self.color_value,
    {
        self.color_value
    }
}

impl CheckerTexture {
    pub fn new(odd: Texture, even: Texture) -> (t: CheckerTexture)
        ensures
            *t.odd == odd,
            *t.even == even,
    {
        CheckerTexture { odd: Box::new(odd), even: Box::new(even) }
    }

    /// The texture that the board shows where the product of sines is
    /// `sines`: the odd one where that is negative, and else the even one.
    pub open spec fn spec_value(self, sines: Scalar) -> Texture {
        if sines.spec_lt(Scalar { ord: 0 }) {
            *self.odd
        } else {
            *self.even
        }
    }

    /// The texture that the board shows where the product of sines is
    /// `sines`.
    pub fn value(&self, sines: Scalar) -> (t: &Texture)
        ensures
            *t == self.spec_value(sines),
    {
        if sines.lt(Scalar::zero()) {
            &*self.odd
        } else {
            &*self.even
        }
    }
}

impl NoiseTexture {
    pub fn new(noise: Perlin, sc: Scalar) -> (t: NoiseTexture)
        ensures
            t.noise == noise,
            t.scale == sc,
    {
        NoiseTexture { noise, scale: sc }
    }
}

impl Texture {
    /// The texture that is seen in the end where the product of sines is
    /// `sines`: the texture itself, or, through a checkerboard, what the
    /// square at the point shows.
    pub open spec fn spec_shown(self, sines: Scalar) -> Texture
        decreases self,
    {
        match self {
            Texture::Checker(board) => if sines.spec_lt(Scalar { ord: 0 }) {
                board.odd.spec_shown(sines)
            } else {
                board.even.spec_shown(sines)
            },
            _ => self,
        }
    }

    /// The texture that is seen in the end where the product of sines is
    /// `sines`. It is a constant colour or noise, never a checkerboard.
    pub fn shown(&self, sines: Scalar) -> (t: &Texture)
        ensures
            *t == self.spec_shown(sines),
            !(*t is Checker),
        decreases self,
    {
        match self {
            Texture::Checker(board) => board.value(sines).shown(sines),
            _ => self,
        }
    }
}

impl Texture {
    /// The colour of the texture at a point: that of the constant colour
    /// that is seen there, or, where noise is seen, the colour `noise` that
    /// the caller has interpolated from its lattice.
    pub open spec fn spec_value(self, sines: Scalar, noise: Vec3) -> Vec3 {
        match self.spec_shown(sines) {
            Texture::Solid(color) => color.color_value,
            _ => noise,
        }
    }

    /// The colour of the texture at surface coordinates `u`, `v` and point
    /// `p`, where the product of sines is `sines` and the noise that is seen
    /// there, if any, has the colour `noise`.
    pub fn value(&self, u: Scalar, v: Scalar, p: Vec3, sines: Scalar, noise: Vec3) -> (c: Vec3)
        ensures
            c == self.spec_value(sines, noise),
    {
        match self.shown(sines) {
            Texture::Solid(color) => color.value(u, v, p),
            _ => noise,
        }
    }
}

/// What a checkerboard shows in the end is what its square at the point
/// shows in the end.
pub proof fn board_shows_its_square(board: CheckerTexture, sines: Scalar)
    ensures
        Texture::Checker(board).spec_shown(sines) == board.spec_value(sines).spec_shown(sines),
{
}

} // verus!
