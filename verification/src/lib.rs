//! The decisions of a path tracer, proved.
//!
//! A path tracer alternates arithmetic on real numbers with decisions: which
//! root of a quadratic counts as a hit, which surface of a scene is nearest,
//! whether a material passes a ray on, when a path is cut off. This library
//! holds the decisions. It works on ranks (see [`scalar`]), so every
//! comparison is exact, and leaves the arithmetic to its caller.
//!
//! - [`scalar`]: ranks, and how they order the numbers they stand for.
//! - [`hittable`]: what a hit is, and the laws of being hit.
//! - [`sphere`]: which root of a ray and a sphere is the hit.
//! - [`hittable_list`]: the nearest hit in a scene.
//! - [`sampling`]: which random draws are kept.
//! - [`material`]: what a diffuse, a metal and a clear surface are made of
//!   and decide.
//! - [`color`]: how the colour of a ray is put together, and when a path
//!   ends.

pub mod scalar;
pub mod hittable;
pub mod sphere;
pub mod hittable_list;
pub mod sampling;
pub mod material;
pub mod color;
