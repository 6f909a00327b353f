//! The decisions of a small ray tracer for scenes of spheres, proved.
//!
//! A render casts rays from a camera through the pixels of an image, follows
//! each ray through a few diffuse bounces, and averages, gamma-corrects and
//! quantizes what the rays bring back. Its arithmetic is floating-point and is
//! left to the caller and the hardware. Everything that is decided on the way
//! is decided here, on the encodings of the numbers, and proved:
//!
//! - [`scalar`]: which of two numbers is the smaller, whether a number lies in
//!   a window, and the byte that a number truncates to;
//! - [`shape`]: which of the two roots of a ray against a sphere is the hit,
//!   and which member of a scene is hit first;
//! - [`shading`]: how long the walk of a ray goes on and how often its colour
//!   is halved, and whether a bounce direction is drawn again;
//! - [`render`]: which parameters are usable, in which order the pixels are
//!   shaded, and where their bytes go;
//! - [`camera`], [`ray`], [`vector`]: the values that are handed about.

pub mod camera;
pub mod ray;
pub mod render;
pub mod scalar;
pub mod shading;
pub mod shape;
pub mod vector;
