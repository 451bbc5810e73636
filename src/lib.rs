//! A chunked voxel terrain core: floor-division chunk coordinates, band-based
//! terrain filling, an occlusion-culling chunk mesher, a coordinate-keyed world
//! index and the block edit gateway.

pub mod builder;
pub mod chunk;
pub mod coords;
pub mod mesh;
pub mod mesh_laws;
pub mod terrain;
pub mod world;
