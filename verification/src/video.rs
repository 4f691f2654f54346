//! Meshes, the box that fills them, and what a frame draws of them.
pub mod box_shape;
pub mod graphics;
