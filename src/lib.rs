//! A software rendering pipeline on fixed-point numbers: vertices are moved
//! by a 4x4 model matrix and divided by `w`, grouped into triangles and
//! scan-converted into fragments with interpolated depth; models are
//! normalised into the `[-1, 1]` cube with their colours baked from materials
//! and textures; colours land in an RGBA framebuffer in draw order, over a
//! background and a generated star field.
//!
//! Every coordinate, colour channel and matrix entry is an `i64` counted in
//! `fixed::ONE` units.

pub mod fixed;
pub mod matrix;
pub mod vertex;
pub mod triangle;
pub mod framebuffer;
pub mod texture;
pub mod obj;
pub mod pipeline;
pub mod shading;
pub mod moons;
pub mod rings;
pub mod controls;
pub mod transform;
