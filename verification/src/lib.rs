//! Chunked voxel world: dense voxel buffers, the chunk map, terrain generation,
//! chunk persistence, chunk lifecycle and meshing, with machine-checked contracts.

pub mod blocks;
pub mod buffer;
pub mod chunk_map;
pub mod chunks;
pub mod keyed;
pub mod mesh;
pub mod paths;
pub mod persistence;
pub mod shape;
pub mod terraingen;
pub mod voxel;
pub mod world;
