//! Voxel grids, terrain paging and scene flattening for a voxel raytracer.
//!
//! - [`voxel`]: the traits of voxel grids, the two raw layouts, and the way
//!   from files of voxel models to grids.
//! - [`gen`]: the terrain generator that fills chunks and the pager that
//!   keeps them.
//! - [`scene`]: the scene graph and the walk that flattens it.
//! - [`render`]: texture handles, the upload queue, and what the renderer
//!   remembers between frames.
//! - [`world`]: what is placed around the camera.
//! - [`matrix`]: models as bit patterns.
//!
//! Everything in this crate works on integers: matrices are carried as bit
//! patterns, and whatever needs real arithmetic is handed in by the caller.

pub mod gen;
pub mod matrix;
pub mod render;
pub mod scene;
pub mod voxel;
pub mod world;
