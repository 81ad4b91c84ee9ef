//! The light path: how far a ray is followed, and what it ends in.
//!
//! A ray is followed from hit to hit until it leaves the scene, is absorbed,
//! or has used up its depth. The colour that arrives is the light at the end
//! of the path, the sky's or none, weakened by the attenuation of every hit
//! on the way. Tracing a ray and scattering it is the caller's part; the
//! caller reports what became of each ray, and the path says whether to go
//! on.
use vstd::prelude::*;
use crate::scalar::{Scalar, INFINITY_ORD};
use crate::vec3::Vec3;

verus! {

/// The ordinal of 0.001, the least parameter at which a hit counts. A ray
/// that leaves a surface would else hit that surface again at once, where
/// rounding has put its origin a little to the wrong side.
pub const SHADOW_EPSILON_ORD: i64 = 0x3F50_624D_D2F1_A9FC;

/// The window in which a ray of a path is tested against the scene: from
/// just beyond its origin to infinity.
pub fn window() -> (w: (Scalar, Scalar))
    ensures
        w.0.ord == SHADOW_EPSILON_ORD,
        w.1.ord == INFINITY_ORD,
        w.0.is_number() && (Scalar { ord: 0 }).spec_lt(w.0) && w.0.spec_lt(w.1),
{
    (Scalar { ord: SHADOW_EPSILON_ORD }, Scalar::infinity())
}

/// What became of a ray that was traced.
#[derive(Clone, Copy, Debug, PartialEq, Eq, Structural)]
pub enum Bounce {
    /// It hit nothing.
    Missed,
    /// It hit a surface that did not scatter it.
    Absorbed,
    /// It hit a surface that scattered it, with this attenuation.
    Scattered(Vec3),
}

/// The light at the end of a path.
#[derive(Clone, Copy, Debug, PartialEq, Eq, Structural)]
pub enum Light {
    /// None: the path was absorbed, or cut off at its depth.
    Black,
    /// The sky's, in the direction of the last ray.
    Sky,
}

/// A path, as a mathematical value: the number of rays that may still be
/// traced, the attenuations of the hits so far, the first hit first, and the
/// light at the end, once the path has ended.
pub struct Trail {
    pub remaining: nat,
    pub attenuations: Seq<Vec3>,
    pub end: Option<Light>,
}

/// A light path in the making.
#[derive(Debug)]
pub struct Path {
    pub remaining: usize,
    pub attenuations: Vec<Vec3>,
    pub end: Option<Light>,
}

impl View for Path {
    type V = Trail;

    open spec fn view(&self) -> Trail {
        Trail {
            remaining: self.remaining as nat,
            attenuations: self.attenuations@,
            end: self.end,
        }
    }
}

/// The trail of a path of the given depth before any ray is traced. At
/// depth zero the path has ended already, in black.
pub open spec fn begin(depth: nat) -> Trail {
    Trail {
        remaining: depth,
        attenuations: Seq::empty(),
        end: if depth == 0 {
            Some(Light::Black)
        } else {
            None
        },
    }
}

/// The trail after a ray was traced. A ray that hits nothing ends the path
/// in the sky's light, one that is absorbed ends it in black. A scattered
/// ray adds its attenuation and uses up one ray of the depth; with the
/// last one the path ends in black.
pub open spec fn advance(trail: Trail, bounce: Bounce) -> Trail
    recommends
        trail.end is None,
        trail.remaining > 0,
{
    match bounce {
        Bounce::Missed => Trail { end: Some(Light::Sky), ..trail },
        Bounce::Absorbed => Trail { end: Some(Light::Black), ..trail },
        Bounce::Scattered(attenuation) => Trail {
            remaining: (trail.remaining - 1) as nat,
            attenuations: trail.attenuations.push(attenuation),
            end: if trail.remaining == 1 {
                Some(Light::Black)
            } else {
                None
            },
        },
    }
}

/// The trail after the rays of a path were traced one after the other,
/// with what `bounces` says became of them. What is reported after the end
/// of the path is not heeded.
pub open spec fn follow(trail: Trail, bounces: Seq<Bounce>) -> Trail
    decreases bounces.len(),
{
    if bounces.len() == 0 || trail.end is Some {
        trail
    } else {
        follow(advance(trail, bounces[0]), bounces.drop_first())
    }
}

/// The colour of a ray traced to the given depth, written as the
/// attenuations to be multiplied and the light that they weaken: black at
/// depth zero; the sky's light for a ray that hits nothing; black for a ray
/// that is absorbed; and for a scattered ray its attenuation times the
/// colour of the ray that goes on, traced to one less.
pub open spec fn color(depth: nat, bounces: Seq<Bounce>) -> (Seq<Vec3>, Light)
    recommends
        bounces.len() >= depth,
    decreases depth,
{
    if depth == 0 {
        (Seq::empty(), Light::Black)
    } else {
        match bounces[0] {
            Bounce::Missed => (Seq::empty(), Light::Sky),
            Bounce::Absorbed => (Seq::empty(), Light::Black),
            Bounce::Scattered(attenuation) => {
                let beyond = color((depth - 1) as nat, bounces.drop_first());
                (seq![attenuation] + beyond.0, beyond.1)
            },
        }
    }
}

impl Path {
    /// The invariant of a path: it goes on exactly as long as rays are left
    /// to trace, unless it has hit nothing or was absorbed.
    pub open spec fn wf(self) -> bool {
        self.end is None ==> self.remaining > 0
    }

    /// Whether the path has ended.
    pub fn is_ended(&self) -> (b: bool)
        ensures
            b == (self@.end is Some),
    {
        self.end.is_some()
    }

    /// Takes note of what became of the ray that was traced last.
    pub fn bounce(self, bounce: Bounce) -> (out: Path)
        requires
            self.wf(),
            self@.end is None,
        ensures
            out@ == advance(self@, bounce),
            out.wf(),
    {
        match bounce {
            Bounce::Missed => Path {
                remaining: self.remaining,
                attenuations: self.attenuations,
                end: Some(Light::Sky),
            },
            Bounce::Absorbed => Path {
                remaining: self.remaining,
                attenuations: self.attenuations,
                end: Some(Light::Black),
            },
            Bounce::Scattered(attenuation) => {
                let mut attenuations = self.attenuations;
                attenuations.push(attenuation);
                let remaining: usize = self.remaining - 1;
                Path {
                    remaining,
                    attenuations,
                    end: if remaining == 0 {
                        Some(Light::Black)
                    } else {
                        None
                    },
                }
            },
        }
    }
}

/// Begins the path of a ray that is traced to `depth`. At depth zero the
/// path has ended before any ray is traced, and its colour is black.
pub fn ray_color(depth: usize) -> (path: Path)
    ensures
        path@ == begin(depth as nat),
        path.wf(),
        depth == 0 ==> path@.end == Some(Light::Black) && path@.attenuations.len() == 0,
{
    Path {
        remaining: depth,
        attenuations: Vec::new(),
        end: if depth == 0 {
            Some(Light::Black)
        } else {
            None
        },
    }
}

/// A path of depth zero is black, and no ray is traced for it: it has ended
/// from the start, and whatever is reported leaves it as it is.
pub proof fn depth_zero_is_black(bounces: Seq<Bounce>)
    ensures
        begin(0).end == Some(Light::Black),
        begin(0).attenuations.len() == 0,
        follow(begin(0), bounces) == begin(0),
        color(0, bounces) == (Seq::<Vec3>::empty(), Light::Black),
{
}

/// Following a path hit by hit gives the colour of the ray: once as many
/// rays are reported as the depth allows, the path has ended, with no more
/// attenuations than its depth, and its attenuations and its light are those
/// of the ray's colour.
pub proof fn path_gives_color(depth: nat, bounces: Seq<Bounce>)
    requires
        bounces.len() >= depth,
    ensures
        follow(begin(depth), bounces).end is Some,
        follow(begin(depth), bounces).attenuations.len() <= depth,
        follow(begin(depth), bounces).attenuations == color(depth, bounces).0,
        follow(begin(depth), bounces).end == Some(color(depth, bounces).1),
{
    path_goes_on(depth, Seq::empty(), bounces);
    assert(Seq::<Vec3>::empty() + color(depth, bounces).0 =~= color(depth, bounces).0);
}

/// A path that has come some way goes on as a path that starts afresh: the
/// attenuations so far, then those of the colour of the ray that goes on.
proof fn path_goes_on(depth: nat, so_far: Seq<Vec3>, bounces: Seq<Bounce>)
    requires
        bounces.len() >= depth,
    ensures
        ({
            let trail = Trail {
                remaining: depth,
                attenuations: so_far,
                end: if depth == 0 {
                    Some(Light::Black)
                } else {
                    None
                },
            };
            let ended = follow(trail, bounces);
            &&& ended.end == Some(color(depth, bounces).1)
            &&& ended.attenuations == so_far + color(depth, bounces).0
            &&& color(depth, bounces).0.len() <= depth
        }),
    decreases depth,
{
    let trail = Trail {
        remaining: depth,
        attenuations: so_far,
        end: if depth == 0 {
            Some(Light::Black)
        } else {
            None
        },
    };
    if depth == 0 {
        assert(so_far + Seq::<Vec3>::empty() =~= so_far);
    } else {
        match bounces[0] {
            Bounce::Scattered(attenuation) => {
                path_goes_on((depth - 1) as nat, so_far.push(attenuation), bounces.drop_first());
                let beyond = color((depth - 1) as nat, bounces.drop_first());
                assert(so_far.push(attenuation) + beyond.0 =~= so_far + (seq![attenuation]
                    + beyond.0));
            },
            _ => {
                let next = advance(trail, bounces[0]);
                assert(follow(next, bounces.drop_first()) == next);
                assert(so_far + Seq::<Vec3>::empty() =~= so_far);
            },
        }
    }
}

} // verus!
