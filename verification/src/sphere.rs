//! Spheres, and which of the points where a ray's line meets one counts as
//! the hit.

use vstd::prelude::*;
use crate::color::Color;
use crate::ray::{Ray, Vec3};
use crate::scalar::Scalar;

verus! {

/// A sphere: the points at distance `radius` from `center`.
#[derive(Clone, Copy, Debug, PartialEq, Eq, Structural)]
pub struct Sphere {
    pub center: Vec3,
    pub radius: Scalar,
}

impl Sphere {
    /// A sphere has a radius above zero.
    pub open spec fn valid(self) -> bool {
        (Scalar { bits: 0 }).spec_lt(self.radius)
    }

    /// The sphere with the given centre and radius. Nothing is checked.
    pub fn new(center: Vec3, radius: Scalar) -> (s: Sphere)
        ensures
            s == (Sphere { center, radius }),
    {
        Sphere { center, radius }
    }

    /// Whether the radius is above zero.
    pub fn is_valid(&self) -> (r: bool)
        ensures
            r == self.valid(),
    {
        Scalar::zero().lt(self.radius)
    }
}

/// A point where a ray's line meets a surface: the parameter `t` of the point
/// `origin + t * direction`, and the colour that the surface's outward normal
/// at that point maps to.
#[derive(Clone, Copy, Debug, PartialEq, Eq, Structural)]
pub struct Hit {
    pub t: Scalar,
    pub color: Color,
}

/// The points where the line of one ray meets one sphere: the real solutions
/// `t` of `|origin + t * direction - center|^2 = radius^2`. A line that
/// touches the sphere has one, a line that passes through it has two.
#[derive(Clone, Copy, Debug, PartialEq, Eq, Structural)]
pub enum Roots {
    No,
    One(Hit),
    Two(Hit, Hit),
}

impl Roots {
    /// Whether `hit` is one of the roots.
    pub open spec fn has(self, hit: Hit) -> bool {
        match self {
            Roots::No => false,
            Roots::One(a) => hit == a,
            Roots::Two(a, b) => hit == a || hit == b,
        }
    }

    /// The root at which the ray hits the sphere: of the roots strictly
    /// inside the ray's range, the one with the smaller parameter; none
    /// where no root is inside. Of two roots inside at one parameter, the
    /// first.
    pub open spec fn spec_nearest(self, ray: Ray) -> Option<Hit> {
        match self {
            Roots::No => None,
            Roots::One(a) => if ray.spec_contains(a.t) {
                Some(a)
            } else {
                None
            },
            Roots::Two(a, b) => if ray.spec_contains(a.t) && ray.spec_contains(b.t) {
                if b.t.spec_lt(a.t) {
                    Some(b)
                } else {
                    Some(a)
                }
            } else if ray.spec_contains(a.t) {
                Some(a)
            } else if ray.spec_contains(b.t) {
                Some(b)
            } else {
                None
            },
        }
    }

    /// The root at which `ray` hits the sphere, if it does.
    ///
    /// A root counts where its parameter lies strictly between `ray.mint` and
    /// `ray.maxt`. Where both roots count the result is the nearer one, where
    /// one counts it is that one, and where none counts there is no hit.
    pub fn nearest(&self, ray: &Ray) -> (hit: Option<Hit>)
        ensures
            hit == self.spec_nearest(*ray),
            hit matches Some(h) ==> self.has(h) && ray.spec_contains(h.t),
            hit matches Some(h) ==> forall|u: Hit|
                #[trigger] self.has(u) && ray.spec_contains(u.t) ==> !u.t.spec_lt(h.t),
            hit is None ==> forall|u: Hit| #[trigger] self.has(u) ==> !ray.spec_contains(u.t),
    {
        match *self {
            Roots::No => None,
            Roots::One(a) => {
                if ray.contains(a.t) {
                    Some(a)
                } else {
                    None
                }
            },
            Roots::Two(a, b) => {
                let a_counts: bool = ray.contains(a.t);
                let b_counts: bool = ray.contains(b.t);
                if a_counts && b_counts {
                    if b.t.lt(a.t) {
                        Some(b)
                    } else {
                        Some(a)
                    }
                } else if a_counts {
                    Some(a)
                } else if b_counts {
                    Some(b)
                } else {
                    None
                }
            },
        }
    }
}

/// What is left of a hit on a ray whose far end is drawn in to `bound`: the
/// hit where it lies before `bound`, nothing where it does not.
pub open spec fn kept_before(hit: Option<Hit>, bound: Scalar) -> Option<Hit> {
    match hit {
        Some(h) => if h.t.spec_lt(bound) {
            Some(h)
        } else {
            None
        },
        None => None,
    }
}

/// The range of a ray is open at `mint`: a root at `mint` itself is never the
/// hit, and it does not keep a second root further along the ray from being
/// reported.
pub proof fn lemma_open_at_mint(ray: Ray, at_start: Hit, far: Hit)
    requires
        at_start.t.key() == ray.mint.key(),
        ray.spec_contains(far.t),
    ensures
        Roots::One(at_start).spec_nearest(ray) is None,
        Roots::Two(at_start, far).spec_nearest(ray) == Some(far),
        Roots::Two(far, at_start).spec_nearest(ray) == Some(far),
{
}

/// Drawing the far end of a ray in changes a sphere's hit in one way only:
/// the hit stays where it lies before the new end, and is lost where it does
/// not. No other root takes its place.
pub proof fn lemma_nearest_of_narrowed(roots: Roots, ray: Ray, bound: Scalar)
    requires
        ray.spec_contains(bound),
    ensures
        roots.spec_nearest(ray.spec_narrowed(bound)) == kept_before(roots.spec_nearest(ray), bound),
{
}

} // verus!
