//! A chunked voxel world engine: block storage, procedural terrain
//! classification, face-culling mesh generation with correct cross-chunk
//! seams, and distance-based chunk streaming around a moving observer.
//!
//! The engine works on plain integer data throughout. The scalar density
//! field that drives terrain is consumed as sampled band values, so
//! generation, meshing and streaming are all stated and checked exactly;
//! evaluating the field itself (coherent noise over floating point) is the
//! caller's side of the boundary, as are the GPU and windowing layers that
//! consume the finished vertex and index buffers.

pub mod block;
pub mod chunk;
pub mod coords;
pub mod input;
pub mod mesh;
pub mod terrain;
pub mod world;
