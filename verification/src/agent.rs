//! Agents: a predator or a prey with its box, energy and behavioural state.

use vstd::prelude::*;
use crate::geometry::PositionSize;
use crate::settings::Settings;

verus! {

/// What a predator is doing this tick.
#[derive(Clone, Copy, Debug, PartialEq, Eq, Structural)]
pub enum PredatorStatus {
    Idle,
    Mating,
    Hunting,
}

/// What a prey is doing this tick. `Hunted` is the sub-state of being
/// actively pursued; the steering pass itself only ever yields the other three.
#[derive(Clone, Copy, Debug, PartialEq, Eq, Structural)]
pub enum PreyStatus {
    Idle,
    Mating,
    Avoiding,
    Hunted,
}

/// The species of an agent, with the status vocabulary of that species.
#[derive(Clone, Copy, Debug, PartialEq, Eq, Structural)]
pub enum Species {
    Predator(PredatorStatus),
    Prey(PreyStatus),
}

/// A prospective partner: where it stood when it was chosen, and its ordinal.
#[derive(Clone, Copy, Debug, PartialEq, Eq, Structural)]
pub struct MatingTarget {
    pub position: PositionSize,
    pub ordinal: u64,
}

/// One live or dying entity of the store.
#[derive(Clone, Copy, Debug, PartialEq, Eq)]
pub struct Agent {
    pub ordinal: u64,
    pub species: Species,
    pub body: PositionSize,
    pub life: i32,
    pub mortal: bool,
    pub mating_target: Option<MatingTarget>,
}

impl Species {
    pub open spec fn is_predator(self) -> bool {
        self is Predator
    }

    pub open spec fn is_prey(self) -> bool {
        self is Prey
    }

    /// Two species values name the same species, whatever their status.
    pub open spec fn same_as(self, other: Species) -> bool {
        self.is_predator() == other.is_predator()
    }

    /// The same species at rest.
    pub open spec fn at_rest(self) -> Species {
        match self {
            Species::Predator(_) => Species::Predator(PredatorStatus::Idle),
            Species::Prey(_) => Species::Prey(PreyStatus::Idle),
        }
    }

    /// A prey that is fleeing or being pursued.
    pub open spec fn is_threatened(self) -> bool {
        self == Species::Prey(PreyStatus::Avoiding) || self == Species::Prey(PreyStatus::Hunted)
    }
}

/// Energy a species needs to reproduce, which is also what reproduction costs.
pub open spec fn reproduction_energy(species: Species, settings: Settings) -> int {
    if species.is_predator() {
        settings.predator_reproduction_energy as int
    } else {
        settings.prey_reproduction_energy as int
    }
}

/// Energy a member of the species is created with.
pub open spec fn starting_life(species: Species, settings: Settings) -> int {
    if species.is_predator() {
        settings.predator_life as int
    } else {
        settings.prey_life as int
    }
}

/// Distance at which a member of the species perceives others.
pub open spec fn detection_range(species: Species, settings: Settings) -> int {
    if species.is_predator() {
        settings.predator_detection_range as int
    } else {
        settings.prey_detection_range as int
    }
}

/// Length of the step a member of the species takes per tick.
pub open spec fn speed(species: Species, settings: Settings) -> int {
    if species.is_predator() {
        settings.predator_speed as int
    } else {
        settings.prey_speed as int
    }
}

/// Exec counterpart of [`reproduction_energy`].
pub fn reproduction_energy_of(species: Species, settings: &Settings) -> (r: i32)
    ensures
        r == reproduction_energy(species, *settings),
{
    match species {
        Species::Predator(_) => settings.predator_reproduction_energy,
        Species::Prey(_) => settings.prey_reproduction_energy,
    }
}

/// Exec counterpart of [`starting_life`].
pub fn starting_life_of(species: Species, settings: &Settings) -> (r: i32)
    ensures
        r == starting_life(species, *settings),
{
    match species {
        Species::Predator(_) => settings.predator_life,
        Species::Prey(_) => settings.prey_life,
    }
}

/// Exec counterpart of [`detection_range`].
pub fn detection_range_of(species: Species, settings: &Settings) -> (r: i32)
    ensures
        r == detection_range(species, *settings),
{
    match species {
        Species::Predator(_) => settings.predator_detection_range,
        Species::Prey(_) => settings.prey_detection_range,
    }
}

/// Exec counterpart of [`speed`].
pub fn speed_of(species: Species, settings: &Settings) -> (r: i32)
    ensures
        r == speed(species, *settings),
{
    match species {
        Species::Predator(_) => settings.predator_speed,
        Species::Prey(_) => settings.prey_speed,
    }
}

/// The same species at rest.
pub fn rested(species: Species) -> (r: Species)
    ensures
        r == species.at_rest(),
{
    match species {
        Species::Predator(_) => Species::Predator(PredatorStatus::Idle),
        Species::Prey(_) => Species::Prey(PreyStatus::Idle),
    }
}

/// Whether the agent is a prey that is fleeing or being pursued.
pub fn threatened(species: Species) -> (r: bool)
    ensures
        r == species.is_threatened(),
{
    match species {
        Species::Prey(PreyStatus::Avoiding) => true,
        Species::Prey(PreyStatus::Hunted) => true,
        _ => false,
    }
}

} // verus!
