//! Rays: bounded line segments in space.

use vstd::prelude::*;
use crate::scalar::Scalar;

verus! {

/// A point or a direction in space.
#[derive(Clone, Copy, Debug, PartialEq, Eq, Structural)]
pub struct Vec3 {
    pub x: Scalar,
    pub y: Scalar,
    pub z: Scalar,
}

impl Vec3 {
    /// The vector that points the opposite way.
    pub open spec fn spec_neg(self) -> Vec3 {
        Vec3 { x: self.x.spec_neg(), y: self.y.spec_neg(), z: self.z.spec_neg() }
    }

    /// The vector with the given components.
    pub fn new(x: Scalar, y: Scalar, z: Scalar) -> (v: Vec3)
        ensures
            v == (Vec3 { x, y, z }),
    {
        Vec3 { x, y, z }
    }

    /// The vector that points the opposite way: each component with its sign
    /// flipped.
    pub fn neg(self) -> (v: Vec3)
        ensures
            v == self.spec_neg(),
    {
        Vec3 { x: self.x.neg(), y: self.y.neg(), z: self.z.neg() }
    }
}

/// The points `origin + t * direction` for `t` strictly between `mint` and
/// `maxt`.
#[derive(Clone, Copy, Debug, PartialEq, Eq, Structural)]
pub struct Ray {
    /// Where the ray starts.
    pub origin: Vec3,
    /// Where it heads.
    pub direction: Vec3,
    /// The parameter below which, and at which, a point does not count.
    pub mint: Scalar,
    /// The parameter above which, and at which, a point does not count.
    pub maxt: Scalar,
}

impl Ray {
    /// Whether the point at parameter `t` is on the segment: `mint < t < maxt`.
    pub open spec fn spec_contains(self, t: Scalar) -> bool {
        self.mint.spec_lt(t) && t.spec_lt(self.maxt)
    }

    /// The ray cut off at parameter `t`.
    pub open spec fn spec_narrowed(self, t: Scalar) -> Ray {
        Ray { maxt: t, ..self }
    }

    /// The ray from the same origin that heads the opposite way, over the same
    /// range of parameters.
    pub open spec fn spec_reverse(self) -> Ray {
        Ray { direction: self.direction.spec_neg(), ..self }
    }

    /// A segment that has points: `mint < maxt`.
    pub open spec fn valid(self) -> bool {
        self.mint.spec_lt(self.maxt)
    }

    /// The ray with the given fields. Nothing is checked.
    pub fn new(origin: Vec3, direction: Vec3, mint: Scalar, maxt: Scalar) -> (r: Ray)
        ensures
            r == (Ray { origin, direction, mint, maxt }),
    {
        Ray { origin, direction, mint, maxt }
    }

    /// The ray from the same origin that heads the opposite way, over the same
    /// range of parameters.
    pub fn reverse(&self) -> (r: Ray)
        ensures
            r == self.spec_reverse(),
    {
        Ray {
            origin: self.origin,
            direction: self.direction.neg(),
            mint: self.mint,
            maxt: self.maxt,
        }
    }

    /// Whether `mint < t < maxt`. Both ends are excluded, and a NaN is never
    /// contained.
    pub fn contains(&self, t: Scalar) -> (r: bool)
        ensures
            r == self.spec_contains(t),
    {
        self.mint.lt(t) && t.lt(self.maxt)
    }

    /// Draws the far end in to `t`, so that only points nearer than `t` still
    /// count.
    pub fn narrow(&mut self, t: Scalar)
        ensures
            *final(self) == old(self).spec_narrowed(t),
    {
        self.maxt = t;
    }

    /// Whether the segment has points.
    pub fn is_valid(&self) -> (r: bool)
        ensures
            r == self.valid(),
    {
        self.mint.lt(self.maxt)
    }
}

} // verus!
