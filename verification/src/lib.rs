//! Hexagon grid coordinates, directions and spiral indexing.
pub mod direction;
pub mod grid;
pub mod hex;
pub mod mesh;
pub mod origin;
pub mod sample;
pub mod spiral;

pub use hex::{Hex, Hex32, Hex8};
