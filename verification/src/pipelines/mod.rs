//! Bit layouts of the vertex and instance data handed to the GPU.

pub mod sprite;
pub mod terrain;
