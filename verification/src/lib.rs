//! Exact-arithmetic core of a recursive Monte-Carlo ray tracer.
//!
//! The geometric heart of the tracer — vector algebra, ray–sphere
//! intersection, the nearest-hit scene scan, interval bounds, the
//! gamma/quantization color mapping, the seeded sample stream, and the
//! pixel-grid output encoding — is carried out here over exact integer and
//! rational arithmetic, with every function's behaviour pinned down by its
//! contract.  Coordinates live on an integer grid of "ticks" (any uniform
//! scale of the scene), ray parameters and derived points are exact
//! rationals, so intersection decisions and nearest-hit selection are exact
//! rather than rounded.
//!
//! The estimator's per-bounce decisions, the scattering laws' exact parts
//! and the per-pixel ray generation are verified here as well; only the
//! one-time trigonometric camera derivation, float normalization and the
//! final write sit outside, in a thin shell that drives the verified
//! pipeline.

pub mod color;
pub mod hittable;
pub mod integrator;
pub mod interval;
pub mod sphere;
pub mod sqrt;
pub mod camera;
pub mod material;
pub mod ppm;
pub mod rat;
pub mod ray;
pub mod refract;
pub mod rng;
pub mod sample;
pub mod vec3;
pub mod world;
