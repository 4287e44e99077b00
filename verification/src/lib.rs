//! A sphere-tracing renderer on fixed-point arithmetic.
//!
//! A scene is a list of signed-distance primitives (spheres and planes),
//! each paired with a material. Rays are marched through the distance
//! field until they come within a small threshold of a surface (a hit) or
//! exhaust a distance or iteration budget (a miss). Hits are shaded with a
//! Phong-style local lighting model; mirror materials reflect the ray and
//! march again.
//!
//! All coordinates, distances and colors are fixed-point numbers: an
//! `i64` counting units of `1 / SCALE`. Every operation is specified
//! exactly over the mathematical integers, so each rendering function has
//! a contract that pins its result down to the bit.

pub mod fixed;
pub mod raymarch;
pub mod render;
pub mod scene;
pub mod screen;
pub mod vecmath;
