//! The run as a whole: the founding population and the tick.

use vstd::prelude::*;
use crate::agent::{starting_life, starting_life_of, Agent, PredatorStatus, PreyStatus, Species};
use crate::behavior::{steering_pass, update_agents};
use crate::boundary::{fence_pass, half_extent, is_jitter_of, wiggle_squares, window_collision};
use crate::chance::random_between;
use crate::collision::{handle_hostile_collisions, hunt_pass};
use crate::environment::{regrown, update_environment, Environment};
use crate::geometry::PositionSize;
use crate::mating::{
    courtship_pass, handle_mating, lemma_offspring_numbered, mating_pass, offspring, try_mate_predator, try_mate_prey,
};
use crate::settings::Settings;
use crate::vital::{drain_life, lemma_meals_bounded, meals, vital_pass};
use crate::world::{newborn, ordinals_ascend, remove_dead, survivors, World};

verus! {

/// How far a founder may stand from the centre along an axis of `extent`.
pub open spec fn arena_reach(extent: int) -> int {
    if half_extent(extent) < 0 {
        -half_extent(extent)
    } else {
        half_extent(extent)
    }
}

/// A founder's coordinate: from `-reach` up to, but not including, `reach`;
/// zero where the arena has no extent.
pub open spec fn within_span(x: int, reach: int) -> bool {
    if reach == 0 {
        x == 0
    } else {
        -reach <= x < reach
    }
}

/// A founder's box: inside the arena, with the default extent.
pub open spec fn is_founding_box(body: PositionSize, settings: Settings) -> bool {
    &&& within_span(body.x as int, arena_reach(settings.window_width as int))
    &&& within_span(body.y as int, arena_reach(settings.window_height as int))
    &&& body.width == settings.default_dimensions
    &&& body.height == settings.default_dimensions
}

/// How many founders a configured population gives: none where it is
/// negative.
pub open spec fn founders(population: int) -> int {
    if population < 0 {
        0
    } else {
        population
    }
}

/// `a` is a founder of the given species under the given ordinal.
pub open spec fn is_founder(a: Agent, ordinal: int, species: Species, settings: Settings) -> bool {
    &&& is_founding_box(a.body, settings)
    &&& a == newborn(ordinal as u64, species, a.body, starting_life(species, settings) as i32)
}

/// The store just before the consummation pass of a tick: partners chosen,
/// everyone steered, vital rates applied over the regrown pool, prey taken.
pub open spec fn ripened(agents: Seq<Agent>, environment: Environment, settings: Settings) -> Seq<Agent> {
    hunt_pass(vital_pass(maneuvered(agents, settings), replenished(environment, settings), settings), settings)
}

/// The store after mating perception and steering.
pub open spec fn maneuvered(agents: Seq<Agent>, settings: Settings) -> Seq<Agent> {
    steering_pass(courtship_pass(courtship_pass(agents, settings, false), settings, true), settings, true, true)
}

/// The pool after the growth that opens a tick.
pub open spec fn replenished(environment: Environment, settings: Settings) -> int {
    regrown(environment.energy_pool as int, settings.environment_grow_rate as int, environment.max_pool as int)
}

/// The store after one tick without its jitter.
pub open spec fn step_agents(agents: Seq<Agent>, environment: Environment, settings: Settings, first: int) -> Seq<
    Agent,
> {
    fence_pass(survivors(mating_pass(ripened(agents, environment, settings), settings, first)), settings)
}

/// The pool after one tick.
pub open spec fn step_pool(agents: Seq<Agent>, environment: Environment, settings: Settings) -> int {
    replenished(environment, settings) - meals(maneuvered(agents, settings), replenished(environment, settings))
}

/// Children born in one tick.
pub open spec fn step_births(agents: Seq<Agent>, environment: Environment, settings: Settings, first: int) -> int {
    offspring(ripened(agents, environment, settings), settings, first).len() as int
}

fn reach_of(extent: i32) -> (reach: i32)
    ensures
        reach == arena_reach(extent as int),
        reach >= 0,
{
    if extent >= 0 {
        extent / 2
    } else {
        let positive: i64 = -(extent as i64);
        (positive / 2) as i32
    }
}

fn scatter(reach: i32) -> (x: i32)
    requires
        reach >= 0,
    ensures
        within_span(x as int, reach as int),
{
    if reach == 0 {
        0
    } else {
        random_between(-reach, reach)
    }
}

fn populate(world: &mut World, species: Species, population: i32, settings: &Settings)
    requires
        old(world).wf(),
        old(world).next_ordinal == old(world).agents@.len(),
        old(world).agents@.len() + founders(population as int) <= u64::MAX,
    ensures
        final(world).wf(),
        final(world).next_ordinal == final(world).agents@.len(),
        final(world).agents@.len() == old(world).agents@.len() + founders(population as int),
        forall|i: int| 0 <= i < old(world).agents@.len() ==> final(world).agents@[i] == old(world).agents@[i],
        forall|i: int|
            old(world).agents@.len() <= i < final(world).agents@.len() ==> is_founder(
                #[trigger] final(world).agents@[i],
                i,
                species,
                *settings,
            ),
{
    let ghost before = world.agents@;
    let reach_x: i32 = reach_of(settings.window_width);
    let reach_y: i32 = reach_of(settings.window_height);
    let life: i32 = starting_life_of(species, settings);
    let mut made: i32 = 0;
    while made < population
        invariant
            0 <= made <= founders(population as int),
            world.wf(),
            world.next_ordinal == world.agents@.len(),
            world.agents@.len() == before.len() + made,
            before.len() + founders(population as int) <= u64::MAX,
            reach_x == arena_reach(settings.window_width as int),
            reach_y == arena_reach(settings.window_height as int),
            life == starting_life(species, *settings),
            forall|i: int| 0 <= i < before.len() ==> world.agents@[i] == before[i],
            forall|i: int|
                before.len() <= i < world.agents@.len() ==> is_founder(
                    #[trigger] world.agents@[i],
                    i,
                    species,
                    *settings,
                ),
        decreases population - made,
    {
        let body = PositionSize {
            x: scatter(reach_x),
            y: scatter(reach_y),
            width: settings.default_dimensions,
            height: settings.default_dimensions,
        };
        world.spawn(species, body, life);
        made = made + 1;
    }
}

/// Founds a run: a half-full pool, then the configured number of
/// predators and after them of prey, each at rest at a random place inside
/// the arena.
pub fn setup(settings: &Settings) -> (made: (World, Environment))
    ensures
        made.0.wf(),
        made.0.agents@.len() == founders(settings.predator_population as int) + founders(
            settings.prey_population as int,
        ),
        made.0.next_ordinal == made.0.agents@.len(),
        forall|i: int|
            0 <= i < made.0.agents@.len() ==> is_founder(
                #[trigger] made.0.agents@[i],
                i,
                if i < founders(settings.predator_population as int) {
                    Species::Predator(PredatorStatus::Idle)
                } else {
                    Species::Prey(PreyStatus::Idle)
                },
                *settings,
            ),
        made.1.wf(),
        made.1.max_pool == founders(settings.environment_max as int),
        made.1.energy_pool == made.1.max_pool / 2,
{
    let mut world = World::new();
    populate(&mut world, Species::Predator(PredatorStatus::Idle), settings.predator_population, settings);
    populate(&mut world, Species::Prey(PreyStatus::Idle), settings.prey_population, settings);
    (world, Environment::new(settings.environment_max))
}

/// One tick without its jitter: the pool regrows; every agent chooses a
/// partner, takes its status and moves, all on what they perceived before
/// anyone moved; vital rates are applied; prey are taken; mates consummate;
/// the dead are removed; the walls hold everyone in.
pub fn step(world: &mut World, environment: &mut Environment, settings: &Settings)
    requires
        old(world).wf(),
        old(world).has_room(old(world).agents@.len() as int),
    ensures
        final(world).wf(),
        final(world).agents@ == step_agents(
            old(world).agents@,
            *old(environment),
            *settings,
            old(world).next_ordinal as int,
        ),
        final(world).next_ordinal == old(world).next_ordinal + step_births(
            old(world).agents@,
            *old(environment),
            *settings,
            old(world).next_ordinal as int,
        ),
        final(environment).max_pool == old(environment).max_pool,
        final(environment).energy_pool == step_pool(old(world).agents@, *old(environment), *settings),
        old(environment).max_pool >= 0 ==> final(environment).wf(),
        forall|k: int| 0 <= k < final(world).agents@.len() ==> !(#[trigger] final(world).agents@[k]).mortal,
{
    update_environment(environment, settings);
    try_mate_prey(world, settings);
    try_mate_predator(world, settings);
    update_agents(world, settings);
    drain_life(world, environment, settings);
    handle_hostile_collisions(world, settings);
    handle_mating(world, settings);
    remove_dead(world);
    window_collision(world, settings);
}

/// One full tick: [`step`], then the jitter.
pub fn tick(world: &mut World, environment: &mut Environment, settings: &Settings)
    requires
        old(world).wf(),
        old(world).has_room(old(world).agents@.len() as int),
    ensures
        final(world).wf(),
        final(world).agents@.len() == step_agents(
            old(world).agents@,
            *old(environment),
            *settings,
            old(world).next_ordinal as int,
        ).len(),
        forall|i: int|
            0 <= i < final(world).agents@.len() ==> is_jitter_of(
                step_agents(old(world).agents@, *old(environment), *settings, old(world).next_ordinal as int)[i],
                #[trigger] final(world).agents@[i],
            ),
        final(world).next_ordinal == old(world).next_ordinal + step_births(
            old(world).agents@,
            *old(environment),
            *settings,
            old(world).next_ordinal as int,
        ),
        final(environment).max_pool == old(environment).max_pool,
        final(environment).energy_pool == step_pool(old(world).agents@, *old(environment), *settings),
        old(environment).max_pool >= 0 ==> final(environment).wf(),
{
    step(world, environment, settings);
    wiggle_squares(world);
}

/// An agent that the vital-rate pass of a tick leaves without energy, or
/// that was flagged mortal before, is gone when the tick ends: nothing in
/// the store then carries its ordinal.
pub proof fn lemma_exhausted_do_not_survive(
    agents: Seq<Agent>,
    environment: Environment,
    settings: Settings,
    first: int,
    i: int,
)
    requires
        ordinals_ascend(agents, first),
        0 <= first,
        first + agents.len() <= u64::MAX,
        0 <= i < agents.len(),
        ({
            let drained = vital_pass(maneuvered(agents, settings), replenished(environment, settings), settings)[i];
            drained.life <= 0 || drained.mortal
        }),
    ensures
        forall|k: int|
            0 <= k < step_agents(agents, environment, settings, first).len() ==> (#[trigger] step_agents(
                agents,
                environment,
                settings,
                first,
            )[k]).ordinal != agents[i].ordinal,
{
    let n = agents.len() as int;
    let fed = vital_pass(maneuvered(agents, settings), replenished(environment, settings), settings);
    let ripe = ripened(agents, environment, settings);
    let mated = mating_pass(ripe, settings, first);
    let alive = survivors(mated);
    let keep = |a: Agent| !a.mortal;
    assert forall|j: int| 0 <= j < n implies (#[trigger] ripe[j]).ordinal == agents[j].ordinal && (fed[j].mortal
        ==> ripe[j].mortal) by {}
    lemma_offspring_numbered(ripe, settings, first);
    assert forall|k: int| 0 <= k < alive.len() implies (#[trigger] alive[k]).ordinal != agents[i].ordinal by {
        let x = alive[k];
        mated.lemma_filter_pred(keep, k);
        mated.lemma_filter_contains_rev(keep, x);
    }
}

/// The pool stays between zero and its cap through every tick.
pub proof fn lemma_pool_stays_bounded(agents: Seq<Agent>, environment: Environment, settings: Settings)
    requires
        environment.max_pool >= 0,
    ensures
        0 <= replenished(environment, settings) <= environment.max_pool,
        0 <= step_pool(agents, environment, settings) <= environment.max_pool,
{
    lemma_meals_bounded(maneuvered(agents, settings), replenished(environment, settings));
}

} // verus!
