//! A software triangle rasterizer in fixed-point arithmetic.
//!
//! A mesh of textured triangles is lit, projected onto a raster, and drawn
//! pixel by pixel under a depth buffer. Every routine states what it computes
//! over the integers, and Verus proves that it does.
pub mod barycentric;
pub mod fixed;
pub mod frame;
pub mod lighting;
pub mod line;
pub mod model;
pub mod projector;
pub mod raster;
pub mod render;
pub mod shader;
pub mod triangle;
pub mod vec2f;
pub mod vec3f;
