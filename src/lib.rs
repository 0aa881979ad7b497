//! Voxel world core: block kinds, chunk storage, texture-atlas packing and
//! visible-surface mesh extraction.

pub mod atlas;
pub mod block;
pub mod chunk;
pub mod math;
pub mod mesh;
