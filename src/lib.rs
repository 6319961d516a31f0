//! A small path tracer for scenes of spheres.
//!
//! Numbers are decimal fixed-point values (`fixed::Fixed`), so that every
//! step, from vector arithmetic through ray-sphere intersection, material
//! scattering and the render loop, is stated and proved over exact integer
//! models. Randomness comes from `rand`; the functions that draw state what
//! holds of every draw, and each has a counterpart that takes the draws as
//! arguments.
pub mod fixed;
pub mod sampling;
pub mod vec;
pub mod ray;
pub mod interval;
pub mod color;
pub mod material;
pub mod hittable;
pub mod sphere;
pub mod camera;
