//! The configuration snapshot of one run.

use vstd::prelude::*;

verus! {

/// Scalars fixed for the whole run. Lengths, speeds and ranges are in
/// fixed-point steps; `environment_grow_rate` is a ratio in the same
/// fixed-point scale, so `UNIT` leaves the pool unchanged.
#[derive(Clone, Copy, Debug)]
pub struct Settings {
    /// Extent of the arena along x; the arena is centred on the origin.
    pub window_width: i32,
    /// Extent of the arena along y.
    pub window_height: i32,
    /// Predators founded at the start; none if negative.
    pub predator_population: i32,
    /// Prey founded at the start; none if negative.
    pub prey_population: i32,
    /// Length of a predator's step per tick.
    pub predator_speed: i32,
    /// Length of a prey's step per tick.
    pub prey_speed: i32,
    /// Energy a predator is created with.
    pub predator_life: i32,
    /// Energy a prey is created with.
    pub prey_life: i32,
    /// Energy a pursued prey loses per tick.
    pub prey_energy_loss: i32,
    /// Energy a predator loses per tick.
    pub predator_energy_loss: i32,
    /// Energy a prey gains for one unit taken from the pool.
    pub prey_idle_energy_gain: i32,
    /// Energy a predator gains for each prey it takes.
    pub predator_hunt_energy_gain: i32,
    /// Energy a prey needs to reproduce, and pays when it does.
    pub prey_reproduction_energy: i32,
    /// Energy a predator needs to reproduce, and pays when it does.
    pub predator_reproduction_energy: i32,
    /// Distance at which a prey perceives others.
    pub prey_detection_range: i32,
    /// Distance at which a predator perceives others.
    pub predator_detection_range: i32,
    /// Width and height of every newly created agent.
    pub default_dimensions: i32,
    /// Growth of the pool per tick, as a fixed-point ratio.
    pub environment_grow_rate: i32,
    /// Cap of the pool.
    pub environment_max: i32,
    /// Carried with the snapshot; no pass consults it.
    pub wiggle_when_hunted: bool,
}

} // verus!
