//! Procedural terrain chunks on an integer fixed-point grid.
//!
//! Lengths and noise values are `i64` counts of `1 / FIXED_ONE` of a unit.
//! A chunk is a square grid of `subdivisions x subdivisions` quads, placed in
//! world space by its integer chunk coordinate, displaced by noise samples
//! taken at its vertices' world positions, and coloured by elevation band.
pub mod chunk;
pub mod config;
pub mod grid;
pub mod palette;
pub mod tiling;

pub use chunk::{generate_chunk, water_chunk, water_level, GridMesh, TerrainChunk, AMPLIFICATION};
pub use config::{TerrainConfig, FIXED_ONE, MAX_CHUNK_EXTENT, MAX_HEIGHT_SCALE, MAX_SUBDIVISIONS};
pub use grid::{axis_coordinate, flat_grid, grid_indices, sample_points, NoisePoint, Vertex};
pub use palette::{palette_for_height, palette_for_normalized, Palette};
