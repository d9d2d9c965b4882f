//! The verified core of a Monte Carlo path tracer.
//!
//! The library holds what a render is made of besides arithmetic on colours
//! and vectors: the scan of a scene for the closest hit, the walk of a light
//! path from bounce to bounce, the table of sample offsets, the layout of
//! pixel jobs, the packed pixel format, the framebuffer with its single
//! writer, and the export of the finished image. Vectors, scalars and colours
//! are type parameters: the library moves them and never looks inside.
//!
//! Primitives and materials are the caller's, behind the traits `Hittable`
//! and `Material`. Contracts that depend on them speak of the answers that a
//! primitive or a material can give.

pub mod export;
pub mod framebuffer;
pub mod hittable;
pub mod hittable_list;
pub mod integrator;
pub mod material;
pub mod noise;
pub mod pixel;
pub mod ray;
pub mod scheduler;
pub mod settings;
pub mod space_filler;
