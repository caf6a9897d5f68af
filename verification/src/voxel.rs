//! Voxel storage: the traits every grid implements, the two raw layouts,
//! and the way from voxel models to grids.

pub mod common;
pub mod magica_voxel;
pub mod rawchunk;
pub mod vox_frame;
