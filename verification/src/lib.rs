//! A verified voxel chunk mesher.
//!
//! The library converts a fixed-size 3D grid of block states (a chunk),
//! together with up to 26 neighbouring chunks, into a triangle mesh ready
//! for GPU upload. Face occlusion is decided per block from the six
//! axis-aligned neighbours, which may live in a neighbouring chunk; a
//! missing neighbour chunk is treated as air, so the face stays visible.
//!
//! All geometry is kept in fixed-point coordinates (`BLOCK_UNIT` units per
//! block edge), so every computation is exact integer arithmetic. The
//! conversion to the half-precision floating-point layout expected by the
//! GPU, and the GPU calls themselves, live outside this library.

mod bakery;
mod chunk;
mod coords;
pub mod laws;
mod mesher;
mod registry;
mod world;

pub use bakery::BakedBlockMeshVertex;
pub use bakery::BakedFace;
pub use bakery::BakeryContext;
pub use bakery::BlockModel;
pub use bakery::Quad;
pub use bakery::Side;
pub use bakery::StaticBlockBakery;
pub use bakery::BLOCK_UNIT;
pub use chunk::Chunk;
pub use chunk::CHUNK_VOLUME;
pub use mesher::get_block;
pub use mesher::mesh;
pub use mesher::mesh_chunk;
pub use mesher::neighbour_solid;
pub use mesher::upload;
pub use mesher::ChunkMesh;
pub use mesher::ChunkMeshState;
pub use mesher::ChunkMeshVertex;
pub use mesher::MesherThreadState;
pub use registry::Block;
pub use registry::BlockState;
pub use registry::Blocks;
pub use world::setup;
pub use world::ChunkStorage;
pub use coords::BlockCoord;
pub use coords::ChunkCoord;
pub use coords::CHUNK_SIZE;
pub use coords::CHUNK_POS_LIMIT;
