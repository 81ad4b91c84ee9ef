//! Points, directions and colours: three scalars.
use vstd::prelude::*;
use crate::scalar::Scalar;

verus! {

/// A triple of scalars: a point, a direction or a colour.
#[derive(Clone, Copy, Debug, PartialEq, Eq, Structural)]
pub struct Vec3 {
    pub x: Scalar,
    pub y: Scalar,
    pub z: Scalar,
}

impl Vec3 {
    /// The component along an axis: 0 for x, 1 for y, 2 for z.
    pub open spec fn at(self, axis: int) -> Scalar {
        if axis == 0 {
            self.x
        } else if axis == 1 {
            self.y
        } else {
            self.z
        }
    }

    /// Whether all three components are numbers.
    pub open spec fn is_number(self) -> bool {
        self.x.is_number() && self.y.is_number() && self.z.is_number()
    }

    /// The triple with every component negated.
    pub open spec fn spec_neg(self) -> Vec3 {
        Vec3 { x: self.x.spec_neg(), y: self.y.spec_neg(), z: self.z.spec_neg() }
    }

    pub fn new(x: Scalar, y: Scalar, z: Scalar) -> (v: Vec3)
        ensures
            v == (Vec3 { x, y, z }),
    {
        Vec3 { x, y, z }
    }

    /// The triple whose components are all `s`.
    pub fn splat(s: Scalar) -> (v: Vec3)
        ensures
            v == (Vec3 { x: s, y: s, z: s }),
    {
        Vec3 { x: s, y: s, z: s }
    }

    /// The component along an axis: 0 for x, 1 for y, 2 for z.
    pub fn get(&self, axis: usize) -> (s: Scalar)
        requires
            axis < 3,
        ensures
            s == self.at(axis as int),
    {
        if axis == 0 {
            self.x
        } else if axis == 1 {
            self.y
        } else {
            self.z
        }
    }

    /// The triple with every component negated.
    pub fn neg(&self) -> (v: Vec3)
        ensures
            v == self.spec_neg(),
    {
        Vec3 { x: self.x.neg(), y: self.y.neg(), z: self.z.neg() }
    }
}

} // verus!
