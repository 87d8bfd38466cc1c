//! Vital rates: the cost of living, feeding on the pool, and dying.

use vstd::prelude::*;
use crate::agent::{Agent, PreyStatus, Species};
use crate::environment::Environment;
use crate::numeric::{saturate, saturating_difference, saturating_sum};
use crate::settings::Settings;
use crate::world::{survivors, World};

verus! {

/// A live prey that is not being pursued takes a unit from the pool if one
/// is left.
pub open spec fn wants_food(a: Agent) -> bool {
    !a.mortal && a.species.is_prey() && a.species != Species::Prey(PreyStatus::Hunted)
}

/// How many of the first `n` agents want food.
pub open spec fn hungry_among(agents: Seq<Agent>, n: int) -> int
    decreases n,
{
    if n <= 0 {
        0
    } else {
        hungry_among(agents, n - 1) + if wants_food(agents[n - 1]) {
            1int
        } else {
            0int
        }
    }
}

/// `agents[i]` gets a unit: it wants food, and fewer agents before it want
/// food than the pool holds units.
pub open spec fn is_fed(agents: Seq<Agent>, i: int, pool: int) -> bool {
    wants_food(agents[i]) && hungry_among(agents, i) < pool
}

/// Units taken from a pool of `pool` by one pass over `agents`.
pub open spec fn meals(agents: Seq<Agent>, pool: int) -> int {
    let hungry = hungry_among(agents, agents.len() as int);
    if pool <= 0 {
        0
    } else if hungry < pool {
        hungry
    } else {
        pool
    }
}

/// Change of energy of a live agent in one tick.
pub open spec fn vital_change(a: Agent, fed: bool, settings: Settings) -> int {
    match a.species {
        Species::Predator(_) => -(settings.predator_energy_loss as int),
        Species::Prey(PreyStatus::Hunted) => -(settings.prey_energy_loss as int),
        Species::Prey(_) => if fed {
            settings.prey_idle_energy_gain as int
        } else {
            0
        },
    }
}

/// `agents[i]` after the vital-rate pass over a pool that held `pool` units
/// when the pass began. An agent whose energy ends at or below zero is
/// flagged mortal; one that was flagged before is left as it is.
pub open spec fn drained(agents: Seq<Agent>, i: int, pool: int, settings: Settings) -> Agent {
    let a = agents[i];
    if a.mortal {
        a
    } else {
        let life = saturate(a.life + vital_change(a, is_fed(agents, i, pool), settings));
        Agent { life: life as i32, mortal: life <= 0, ..a }
    }
}

/// The store after the vital-rate pass.
pub open spec fn vital_pass(agents: Seq<Agent>, pool: int, settings: Settings) -> Seq<Agent> {
    Seq::new(agents.len(), |i: int| drained(agents, i, pool, settings))
}

/// The vital-rate pass. Predators pay the cost of living; pursued prey pay
/// theirs; every other live prey, in the order of the store, takes one unit
/// from the pool while the pool lasts and gains energy for it.
pub fn drain_life(world: &mut World, environment: &mut Environment, settings: &Settings)
    ensures
        final(world).agents@ == vital_pass(old(world).agents@, old(environment).energy_pool as int, *settings),
        final(world).next_ordinal == old(world).next_ordinal,
        final(environment).max_pool == old(environment).max_pool,
        final(environment).energy_pool == old(environment).energy_pool - meals(
            old(world).agents@,
            old(environment).energy_pool as int,
        ),
        old(world).wf() ==> final(world).wf(),
        old(environment).wf() ==> final(environment).wf(),
{
    let ghost before = world.agents@;
    let ghost start = environment.energy_pool as int;
    let n: usize = world.agents.len();
    let mut pool: i32 = environment.energy_pool;
    let mut after: Vec<Agent> = Vec::new();
    let mut i: usize = 0;
    while i < n
        invariant
            i <= n,
            n == before.len(),
            world.agents@ == before,
            world.next_ordinal == old(world).next_ordinal,
            after@.len() == i,
            forall|j: int| 0 <= j < i ==> (#[trigger] after@[j]) == drained(before, j, start, *settings),
            0 <= hungry_among(before, i as int) <= i,
            pool == start - if start <= 0 {
                0
            } else if hungry_among(before, i as int) < start {
                hungry_among(before, i as int)
            } else {
                start
            },
        decreases n - i,
    {
        let mut a = world.agents[i];
        if !a.mortal {
            match a.species {
                Species::Predator(_) => {
                    a.life = saturating_difference(a.life, settings.predator_energy_loss);
                },
                Species::Prey(PreyStatus::Hunted) => {
                    a.life = saturating_difference(a.life, settings.prey_energy_loss);
                },
                Species::Prey(_) => {
                    if pool > 0 {
                        pool = pool - 1;
                        a.life = saturating_sum(a.life, settings.prey_idle_energy_gain);
                    }
                },
            }
            a.mortal = a.life <= 0;
        }
        after.push(a);
        i = i + 1;
    }
    world.agents = after;
    environment.energy_pool = pool;
}

/// An agent that pays a cost of living ends the pass with less energy than
/// it had, as long as the result still fits the energy's range.
pub proof fn lemma_drain_decreases(agents: Seq<Agent>, i: int, pool: int, settings: Settings)
    requires
        0 <= i < agents.len(),
        !agents[i].mortal,
        agents[i].species.is_predator() ==> settings.predator_energy_loss > 0 && agents[i].life
            - settings.predator_energy_loss >= i32::MIN,
        agents[i].species.is_prey() ==> agents[i].species == Species::Prey(PreyStatus::Hunted)
            && settings.prey_energy_loss > 0 && agents[i].life - settings.prey_energy_loss >= i32::MIN,
    ensures
        drained(agents, i, pool, settings).life < agents[i].life,
        drained(agents, i, pool, settings).life == agents[i].life - if agents[i].species.is_predator() {
            settings.predator_energy_loss
        } else {
            settings.prey_energy_loss
        },
{
}

/// After the vital-rate pass every agent without energy is flagged mortal,
/// so none of them is among the survivors.
pub proof fn lemma_exhausted_are_flagged(agents: Seq<Agent>, pool: int, settings: Settings)
    ensures
        forall|i: int|
            0 <= i < agents.len() && !agents[i].mortal ==> ((#[trigger] vital_pass(agents, pool, settings)[i]).mortal
                <==> vital_pass(agents, pool, settings)[i].life <= 0),
        forall|i: int| 0 <= i < agents.len() && agents[i].mortal ==> (#[trigger] vital_pass(agents, pool, settings)[i]).mortal,
        forall|k: int|
            0 <= k < survivors(vital_pass(agents, pool, settings)).len() ==> (#[trigger] survivors(
                vital_pass(agents, pool, settings),
            )[k]).life > 0,
{
    let after = vital_pass(agents, pool, settings);
    let alive = |a: Agent| !a.mortal;
    assert forall|k: int| 0 <= k < survivors(after).len() implies (#[trigger] survivors(after)[k]).life > 0 by {
        let x = survivors(after)[k];
        after.lemma_filter_pred(alive, k);
        after.lemma_filter_contains_rev(alive, x);
    }
}

/// The pool never goes below zero and never grows by feeding.
pub proof fn lemma_meals_bounded(agents: Seq<Agent>, pool: int)
    ensures
        0 <= meals(agents, pool),
        pool >= 0 ==> meals(agents, pool) <= pool,
{
    lemma_hungry_bounded(agents, agents.len() as int);
}

proof fn lemma_hungry_bounded(agents: Seq<Agent>, n: int)
    ensures
        0 <= hungry_among(agents, n),
    decreases n,
{
    if n > 0 {
        lemma_hungry_bounded(agents, n - 1);
    }
}

} // verus!
