//! A two-species predator/prey simulation on a bounded fixed-point arena.
//!
//! Lengths and coordinates are fixed-point numbers: `geometry::UNIT` steps
//! make one whole unit of length. Every pass of the simulation is a total
//! function of the agent store, the shared environment and the settings.

pub mod agent;
pub mod behavior;
pub mod boundary;
pub mod chance;
pub mod collision;
pub mod environment;
pub mod geometry;
pub mod mating;
pub mod numeric;
pub mod perception;
pub mod settings;
pub mod simulation;
pub mod steering;
pub mod vital;
pub mod world;
