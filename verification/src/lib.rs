//! A voxel world core: chunk block grids, a block registry model, and a
//! verified chunk mesher that turns a dense block grid into a culled,
//! per-face triangle mesh (vertices plus quad indices).
//!
//! Rendering, windowing and GPU upload are outside collaborators; this crate
//! produces the geometry they consume and proves it well formed.

pub mod advanced_logging;
pub mod blocks;
pub mod direction;
pub mod quad;
pub mod voxel;
pub mod voxel_mesh;
pub mod world;
