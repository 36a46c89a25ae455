//! Chunked voxel world storage, a block registry, and face-emission meshing.

pub mod atlas;
pub mod block;
pub mod chunk;
pub mod geometry;
pub mod input;
pub mod mesh;
pub mod texture;
pub mod world;
