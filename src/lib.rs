//! Density-field instance generation: ordered dithering of a grayscale field into
//! instance positions, the builder that describes where a chunk's instances come from,
//! and the bookkeeping that schedules dithering work per region and caches its results.
//!
//! Lengths, densities and heights are fixed-point numbers in thousandths of a unit
//! (`1500` stands for `1.5`); areas are in millionths of a square unit.
pub mod arith;
pub mod field;
pub mod dithering;
pub mod map;
pub mod grass_spawner;
pub mod scheduler;
pub mod diagnostic;
pub mod save;
