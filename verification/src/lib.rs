//! A deterministic, tick-driven maze-chase engine: a tile board with pellets,
//! a player driven by input, and enemies that wander from junction to junction.

pub mod ai;
pub mod board;
pub mod classic;
pub mod config;
pub mod geometry;
pub mod laws;
pub mod mob;
pub mod query;
pub mod random;
pub mod rules;
pub mod state;
pub mod tick;
pub mod tile;
