//! Shape-based rendering with a per-pass drawing cache, a bump-style scratch arena for
//! retained shapes, and the per-variant hardware models that render device screens.

pub mod arena;
pub mod cache;
pub mod canvas;
pub mod geometry;
pub mod model;
pub mod model_mercury;
pub mod model_tt;
pub mod render;
pub mod shape;
