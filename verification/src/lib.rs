//! A chunked voxel terrain core: voxel type codec, fixed-extent chunk
//! storage, face-culled mesh extraction, height-map driven generation,
//! and the streaming policy that keeps a window of chunks resident
//! around a moving observer.

pub mod chunk;
pub mod mesh;
pub mod stream;
pub mod voxel;
pub mod worldgen;
