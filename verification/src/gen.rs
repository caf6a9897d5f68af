//! Terrain: the generator that fills chunks and the pager that keeps them.

pub mod pager;
pub mod terrain;
