//! The decisions of a small ray-casting renderer, verified.
//!
//! The renderer casts one ray per pixel from a perspective camera towards a
//! set of spheres, keeps the nearest surface that the ray meets, and colours
//! the pixel by that surface's normal, or by a background gradient where the
//! ray meets nothing.
//!
//! Two kinds of work make up such a renderer. The numeric kernel solves for
//! the points where a line meets a sphere and turns a normal into a colour;
//! it works in binary32 arithmetic and lives with the embedding program.
//! This library holds everything else: which root of the surface equation
//! counts as the hit, which of the hits along a ray is shown, what a pixel
//! shows where nothing is hit, and where in the image each pixel goes. Real
//! numbers cross the boundary as [`Scalar`] values, bit patterns that the
//! library orders exactly as the hardware does.

pub mod camera;
pub mod color;
pub mod image_buffer;
pub mod ray;
pub mod scalar;
pub mod scene;
pub mod sphere;
pub mod trace;

pub use camera::{Camera, Quaternion, Transform};
pub use ray::{Ray, Vec3};
pub use scalar::Scalar;
pub use color::Color;
pub use image_buffer::Image;
pub use scene::Scene;
pub use sphere::{Hit, Roots, Sphere};
pub use trace::PixelTrace;
