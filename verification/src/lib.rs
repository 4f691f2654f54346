//! The core of a small real-time wireframe engine.
//!
//! A [`video::graphics::Mesh`] holds vertices and the line segments and
//! textured faces between them; [`video::graphics::Mesh::append_box`] fills
//! it with boxes, and [`video::graphics::Mesh::draw`] says which calls on a
//! renderer one frame takes, given where each vertex falls on the screen.
//! The library is generic in the type of a point, in the world and on the
//! screen: it decides what is drawn and in which order, and computes with
//! indices only.
//!
//! Beside the mesh stand [`input::Input`], the state of the keyboard and the
//! pointer as batches of events change it, and the plain values
//! [`color::Color`] and [`shape::rect::Rect`].
pub mod color;
pub mod input;
pub mod shape;
pub mod video;
