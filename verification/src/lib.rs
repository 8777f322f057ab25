//! A software 3D renderer with exact rational arithmetic: a clip/rasterize
//! pipeline and a bounding-volume-hierarchy path tracer over one scene model.
pub mod bvh;
pub mod clip;
pub mod color;
pub mod matrix;
pub mod model;
pub mod pathtrace;
pub mod raster;
pub mod rat;
pub mod ray;
pub mod rng;
pub mod shade;
pub mod transform;
pub mod tree;
pub mod vec;

pub use crate::color::Color;
