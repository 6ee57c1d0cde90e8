//! An interactive drawing surface: a pointer drag spans a rectangle on a
//! canvas, and a grid of cells is grown or shrunk incrementally to fill it.
//!
//! All world coordinates are integers; a host converts its own pointer
//! positions before handing them to this library.

pub mod actions;
pub mod audio;
pub mod canvas;
pub mod geometry;
pub mod laws;
pub mod player;
pub mod session;
pub mod table;
