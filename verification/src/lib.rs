//! A verified model of a sparse-voxel render pipeline.
//!
//! The library covers the host-side logic of the renderer: the named
//! registry of GPU resources (`atlas`), the voxel volume and its scene-text
//! parser (`grid`), the sparse mip regeneration (`mips`), the temporal
//! denoiser's blend and history state machine (`denoiser`), the per-pass
//! bookkeeping (`voxelizer`, `raytracer`), the frame orchestrator (`frame`),
//! and the entity/component store (`entity`, `world`).
//!
//! GPU objects themselves (textures, buffers, samplers, camera matrices)
//! are opaque to this logic: every type that holds one is generic over the
//! handle type, and the process that owns a graphics device instantiates
//! those parameters with its own resource types.

pub mod atlas;
pub mod denoiser;
pub mod entity;
pub mod frame;
pub mod grid;
pub mod mips;
pub mod raytracer;
pub mod text;
pub mod voxelizer;
pub mod world;
