//! Status and movement: what each agent does with what it perceives.

use vstd::prelude::*;
use crate::agent::{speed, speed_of, Agent, PredatorStatus, PreyStatus, Species};
use crate::perception::{find_nearest, nearest, Scan};
use crate::settings::Settings;
use crate::steering::{avoid, move_towards, stepped};
use crate::world::World;

verus! {

/// A predator mates once it holds a target, hunts when it sees prey, and
/// otherwise rests.
pub open spec fn predator_status(holds_target: bool, sees_prey: bool) -> PredatorStatus {
    if holds_target {
        PredatorStatus::Mating
    } else if sees_prey {
        PredatorStatus::Hunting
    } else {
        PredatorStatus::Idle
    }
}

/// A prey flees whenever it sees a predator; else it mates if it holds a
/// target and has the energy; else it rests.
pub open spec fn prey_status(sees_predator: bool, holds_target: bool, life: int, threshold: int) -> PreyStatus {
    if sees_predator {
        PreyStatus::Avoiding
    } else if holds_target && life >= threshold {
        PreyStatus::Mating
    } else {
        PreyStatus::Idle
    }
}

/// `agents[i]` after it has perceived the store and acted on it. An agent
/// flagged mortal is left as it is.
pub open spec fn steered(agents: Seq<Agent>, i: int, settings: Settings) -> Agent {
    let a = agents[i];
    let seen = nearest(agents, i, Scan::Opponents, settings);
    let pace = speed(a.species, settings);
    if a.mortal {
        a
    } else {
        match a.species {
            Species::Predator(_) => {
                let status = Species::Predator(predator_status(a.mating_target is Some, seen is Some));
                match status {
                    Species::Predator(PredatorStatus::Mating) => Agent {
                        species: status,
                        body: stepped(a.body, a.mating_target.unwrap().position, pace),
                        ..a
                    },
                    Species::Predator(PredatorStatus::Hunting) => Agent {
                        species: status,
                        body: stepped(a.body, agents[seen.unwrap()].body, pace),
                        ..a
                    },
                    _ => Agent { species: status, ..a },
                }
            },
            Species::Prey(_) => {
                let status = Species::Prey(
                    prey_status(
                        seen is Some,
                        a.mating_target is Some,
                        a.life as int,
                        settings.prey_reproduction_energy as int,
                    ),
                );
                match status {
                    Species::Prey(PreyStatus::Avoiding) => Agent {
                        species: status,
                        body: stepped(a.body, agents[seen.unwrap()].body, -pace),
                        ..a
                    },
                    Species::Prey(PreyStatus::Mating) => Agent {
                        species: status,
                        body: stepped(a.body, a.mating_target.unwrap().position, pace),
                        ..a
                    },
                    _ => Agent { species: status, ..a },
                }
            },
        }
    }
}

/// The store after a steering pass over the chosen species. Every agent
/// perceives the store as it was when the pass began.
pub open spec fn steering_pass(agents: Seq<Agent>, settings: Settings, predators: bool, preys: bool) -> Seq<Agent> {
    Seq::new(
        agents.len(),
        |i: int|
            if (agents[i].species.is_predator() && predators) || (agents[i].species.is_prey() && preys) {
                steered(agents, i, settings)
            } else {
                agents[i]
            },
    )
}

/// Status of a predator from what it holds and sees.
pub fn classify_predator(holds_target: bool, sees_prey: bool) -> (status: PredatorStatus)
    ensures
        status == predator_status(holds_target, sees_prey),
{
    if holds_target {
        PredatorStatus::Mating
    } else if sees_prey {
        PredatorStatus::Hunting
    } else {
        PredatorStatus::Idle
    }
}

/// Status of a prey from what it sees, holds and has.
pub fn classify_prey(sees_predator: bool, holds_target: bool, life: i32, threshold: i32) -> (status: PreyStatus)
    ensures
        status == prey_status(sees_predator, holds_target, life as int, threshold as int),
{
    if sees_predator {
        PreyStatus::Avoiding
    } else if holds_target && life >= threshold {
        PreyStatus::Mating
    } else {
        PreyStatus::Idle
    }
}

/// What `agents[i]` becomes when it perceives the store and acts.
pub fn steer(agents: &Vec<Agent>, i: usize, settings: &Settings) -> (moved: Agent)
    requires
        i < agents@.len(),
    ensures
        moved == steered(agents@, i as int, *settings),
{
    let mut a = agents[i];
    if a.mortal {
        return a;
    }
    let seen = find_nearest(agents, i, Scan::Opponents, settings);
    let pace: i32 = speed_of(a.species, settings);
    match a.species {
        Species::Predator(_) => {
            let status = classify_predator(a.mating_target.is_some(), seen.is_some());
            a.species = Species::Predator(status);
            match status {
                PredatorStatus::Mating => {
                    let target = a.mating_target.unwrap();
                    move_towards(&mut a.body, &target.position, pace);
                },
                PredatorStatus::Hunting => {
                    let quarry = agents[seen.unwrap()];
                    move_towards(&mut a.body, &quarry.body, pace);
                },
                PredatorStatus::Idle => {},
            }
        },
        Species::Prey(_) => {
            let status = classify_prey(
                seen.is_some(),
                a.mating_target.is_some(),
                a.life,
                settings.prey_reproduction_energy,
            );
            a.species = Species::Prey(status);
            match status {
                PreyStatus::Avoiding => {
                    let threat = agents[seen.unwrap()];
                    avoid(&mut a.body, &threat.body, pace);
                },
                PreyStatus::Mating => {
                    let target = a.mating_target.unwrap();
                    move_towards(&mut a.body, &target.position, pace);
                },
                _ => {},
            }
        },
    }
    a
}

fn run_steering(world: &mut World, settings: &Settings, predators: bool, preys: bool)
    ensures
        final(world).agents@ == steering_pass(old(world).agents@, *settings, predators, preys),
        final(world).next_ordinal == old(world).next_ordinal,
{
    let ghost before = world.agents@;
    let n: usize = world.agents.len();
    let mut moved: Vec<Agent> = Vec::new();
    let mut i: usize = 0;
    while i < n
        invariant
            i <= n,
            n == before.len(),
            world.agents@ == before,
            world.next_ordinal == old(world).next_ordinal,
            moved@.len() == i,
            forall|j: int| 0 <= j < i ==> (#[trigger] moved@[j]) == steering_pass(before, *settings, predators, preys)[j],
        decreases n - i,
    {
        let chosen: bool = match world.agents[i].species {
            Species::Predator(_) => predators,
            Species::Prey(_) => preys,
        };
        if chosen {
            moved.push(steer(&world.agents, i, settings));
        } else {
            moved.push(world.agents[i]);
        }
        i = i + 1;
    }
    world.agents = moved;
}

/// Steering keeps every ordinal in its place.
pub proof fn lemma_steering_keeps_ordinals(agents: Seq<Agent>, settings: Settings, predators: bool, preys: bool)
    ensures
        steering_pass(agents, settings, predators, preys).len() == agents.len(),
        forall|i: int|
            0 <= i < agents.len() ==> {
                let after = #[trigger] steering_pass(agents, settings, predators, preys)[i];
                &&& after.ordinal == agents[i].ordinal
                &&& after.species.same_as(agents[i].species)
                &&& after.life == agents[i].life
                &&& after.mortal == agents[i].mortal
                &&& after.mating_target == agents[i].mating_target
            },
{
}

/// The steering pass of the predators: each live predator takes its status
/// from what it holds and sees, and steps toward its mate or its quarry.
pub fn update_predators(world: &mut World, settings: &Settings)
    ensures
        final(world).agents@ == steering_pass(old(world).agents@, *settings, true, false),
        final(world).next_ordinal == old(world).next_ordinal,
        old(world).wf() ==> final(world).wf(),
{
    proof {
        lemma_steering_keeps_ordinals(world.agents@, *settings, true, false);
    }
    run_steering(world, settings, true, false);
}

/// The steering pass of the prey: each live prey flees the nearest predator
/// it sees, or else steps toward its mate if it has the energy.
pub fn update_preys(world: &mut World, settings: &Settings)
    ensures
        final(world).agents@ == steering_pass(old(world).agents@, *settings, false, true),
        final(world).next_ordinal == old(world).next_ordinal,
        old(world).wf() ==> final(world).wf(),
{
    proof {
        lemma_steering_keeps_ordinals(world.agents@, *settings, false, true);
    }
    run_steering(world, settings, false, true);
}

/// The steering pass of both species at once, so that predators and prey
/// alike perceive the positions from before anyone moved.
pub fn update_agents(world: &mut World, settings: &Settings)
    ensures
        final(world).agents@ == steering_pass(old(world).agents@, *settings, true, true),
        final(world).next_ordinal == old(world).next_ordinal,
        old(world).wf() ==> final(world).wf(),
{
    proof {
        lemma_steering_keeps_ordinals(world.agents@, *settings, true, true);
    }
    run_steering(world, settings, true, true);
}

} // verus!
