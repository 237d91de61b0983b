//! The perspective camera of a scene.

use vstd::prelude::*;
use crate::ray::Vec3;
use crate::scalar::Scalar;

verus! {

/// The bits of `180.0`.
pub const HALF_TURN_BITS: u32 = 0x4334_0000;

/// A rotation, as the four components of a quaternion.
#[derive(Clone, Copy, Debug, PartialEq, Eq, Structural)]
pub struct Quaternion {
    pub x: Scalar,
    pub y: Scalar,
    pub z: Scalar,
    pub w: Scalar,
}

/// Where something is in the world, how it is turned and how it is scaled.
#[derive(Clone, Copy, Debug, PartialEq, Eq, Structural)]
pub struct Transform {
    pub position: Vec3,
    pub orientation: Quaternion,
    pub scale: Vec3,
}

/// A perspective camera. Its own x axis points forward, y across the image
/// and z up.
#[derive(Clone, Copy, Debug, PartialEq, Eq, Structural)]
pub struct Camera {
    /// From the camera's frame to the world. The scale plays no part in the
    /// rays of the camera.
    pub transform: Transform,
    /// The horizontal field of view, in degrees.
    pub fov: Scalar,
    /// Width over height of the image.
    pub aspect_ratio: Scalar,
    /// The distance along the forward axis at which the view begins.
    pub near_clip: Scalar,
    /// The distance along the forward axis at which the view ends.
    pub far_clip: Scalar,
}

impl Camera {
    /// A camera can make rays where its field of view is strictly between 0
    /// and 180 degrees and its aspect ratio is above zero.
    pub open spec fn valid(self) -> bool {
        &&& (Scalar { bits: 0 }).spec_lt(self.fov)
        &&& self.fov.spec_lt(Scalar { bits: HALF_TURN_BITS })
        &&& (Scalar { bits: 0 }).spec_lt(self.aspect_ratio)
    }

    /// The camera with the given fields. Nothing is checked.
    pub fn new(
        transform: Transform,
        fov: Scalar,
        aspect_ratio: Scalar,
        near_clip: Scalar,
        far_clip: Scalar,
    ) -> (c: Camera)
        ensures
            c == (Camera { transform, fov, aspect_ratio, near_clip, far_clip }),
    {
        Camera { transform, fov, aspect_ratio, near_clip, far_clip }
    }

    /// Whether the camera can make rays.
    pub fn is_valid(&self) -> (r: bool)
        ensures
            r == self.valid(),
    {
        let zero: Scalar = Scalar::zero();
        zero.lt(self.fov) && self.fov.lt(Scalar::from_bits(HALF_TURN_BITS)) && zero.lt(
            self.aspect_ratio,
        )
    }
}

} // verus!
