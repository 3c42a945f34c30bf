//! The verified core of an offline path tracer: its spatial index, its hit
//! and sampling rules, and the decisions of its integrator.
//!
//! A path tracer computes with binary64 numbers, and nothing is proved here
//! of sums, products or square roots. What is proved is everything that the
//! renderer decides: how the bounding-volume hierarchy is built and
//! searched, which root of a quadratic is a hit, which face a ray strikes,
//! when a path ends, which sample takes part in which estimate. To that end
//! a number is held as a [`scalar::Scalar`], an integer that orders as the
//! number does, and the arithmetic is the caller's: it hands in the numbers
//! it has computed, or a function that computes them when asked.

pub mod bvh;
pub mod geom;
pub mod img;
pub mod light;
pub mod material;
pub mod math;
pub mod render;
pub mod scalar;
pub mod scene;
pub mod shading;
