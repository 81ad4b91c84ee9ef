//! The verified core of an offline Monte-Carlo path tracer.
//!
//! Everything here is checked by Verus. Numbers are carried as
//! [`scalar::Scalar`], the ordinal of an IEEE-754 double, on which
//! comparison, minimum, maximum and negation are exact. Arithmetic that
//! rounds, and every random draw but the shuffling of the noise tables, is
//! left to the caller, who hands the results in; what is decided on them is
//! decided here.
//!
//! - [`scalar`], [`vec3`], [`ray`]: numbers, triples of them, and rays.
//! - [`aabb`]: bounding boxes, their union and the slab test.
//! - [`sphere`], [`hitable`]: the primitives, the record of a hit, and the
//!   scan of a list of primitives for the nearest hit.
//! - [`builder`], [`sort`], [`bvh`], [`search`]: the bounding-volume
//!   hierarchy, how it is built and how it is searched.
//! - [`nearest`], [`equivalence`]: what the nearest hit is, and that the
//!   search of the hierarchy and the scan of the list both find it.
//! - [`texture`], [`perlin`], [`material`]: what a surface shows and how it
//!   scatters light.
//! - [`integrator`]: how far a light path is followed and what it ends in.
//! - [`image`]: the place of each pixel in the picture, and the picture as
//!   a PPM file.
pub mod scalar;
pub mod vec3;
pub mod ray;
pub mod aabb;
pub mod permutation;
pub mod perlin;
pub mod texture;
pub mod material;
pub mod sphere;
pub mod hitable;
pub mod bvh;
pub mod sort;
pub mod builder;
pub mod search;
pub mod nearest;
pub mod equivalence;
pub mod integrator;
pub mod image;
