//! A "Doom fire" cellular automaton: the heat grid and its tick, the ember
//! particles that drift above it, the colour ramps, and the rasterizer that
//! turns the grid into RGB bytes.
//!
//! Randomness comes from a `rand` generator that the caller hands in, so a
//! run is reproducible under a fixed seed. The wind of a tick is a whole number
//! of columns that the caller hands in as well.
//!
//! - [`doom_fire`]: the fire and its tick
//! - [`spread`]: the heat pass of a tick
//! - [`particle`]: the embers
//! - [`palette`]: the colour ramps of the variants
//! - [`render`]: frames of RGB bytes
//! - [`fire_types`], [`config`]: variants and settings
//! - [`grid`], [`random`]: cell places, and the draws behind everything

pub mod config;
pub mod doom_fire;
pub mod fire_types;
pub mod grid;
pub mod palette;
pub mod particle;
pub mod random;
pub mod render;
pub mod spread;
