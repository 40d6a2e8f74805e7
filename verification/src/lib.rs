//! Host-side logic of a GPU Marching Cubes renderer.
//!
//! The crate holds everything about the pipeline that is decided in integers:
//! how large the lattice and its buffers are, which cell owns which vertex
//! slots, how the lookup tables are laid out and what makes them valid, which
//! triangles a cell emits for a given sign configuration, and how the frame
//! loop reacts to keys, timers, resizes and surface faults. Every function is
//! verified against the contract it carries, but for two small ones that
//! call into outside crates and say in their comments what is taken on trust.

pub mod buffers;
pub mod extract;
pub mod state;
pub mod tables;
pub mod terrain;
pub mod uniforms;
pub mod volume;
