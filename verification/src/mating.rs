//! Reproduction: who may mate, who performs the spawn, and what is born.

use vstd::prelude::*;
use crate::agent::{reproduction_energy, reproduction_energy_of, starting_life, starting_life_of, threatened, Agent, MatingTarget, Species};
use crate::geometry::{is_colliding, overlaps, PositionSize};
use crate::numeric::{halfway, midpoint, saturate, saturating_difference};
use crate::perception::{find_nearest, lemma_nearest_is_closest, nearest, perceives, Scan};
use crate::settings::Settings;
use crate::world::World;

verus! {

/// Enough energy, and not a prey that is fleeing or pursued.
pub open spec fn may_mate(current_energy: int, required_energy: int, species: Species) -> bool {
    !species.is_threatened() && current_energy >= required_energy
}

/// The agent is alive and fit to reproduce under `settings`.
pub open spec fn eligible(a: Agent, settings: Settings) -> bool {
    !a.mortal && may_mate(a.life as int, reproduction_energy(a.species, settings), a.species)
}

/// The agent performs a spawn this tick: it is eligible, its box overlaps
/// the recorded position of its partner, and its ordinal is not below the
/// partner's.
pub open spec fn consummates(a: Agent, settings: Settings) -> bool {
    &&& eligible(a, settings)
    &&& a.mating_target matches Some(t) && overlaps(a.body, t.position) && a.ordinal >= t.ordinal
}

/// The agent once the consummation pass has visited it.
pub open spec fn after_mating(a: Agent, settings: Settings) -> Agent {
    if consummates(a, settings) {
        Agent {
            life: saturate(a.life - reproduction_energy(a.species, settings)) as i32,
            mating_target: None,
            ..a
        }
    } else {
        a
    }
}

/// Where a child is placed: halfway between the parent and the recorded
/// position of the partner, with the default extent.
pub open spec fn cradle(parent: PositionSize, partner: PositionSize, settings: Settings) -> PositionSize {
    PositionSize {
        x: midpoint(parent.x as int, partner.x as int) as i32,
        y: midpoint(parent.y as int, partner.y as int) as i32,
        width: settings.default_dimensions,
        height: settings.default_dimensions,
    }
}

/// The child that `parent` spawns, under the given ordinal.
pub open spec fn child_of(parent: Agent, settings: Settings, ordinal: int) -> Agent {
    Agent {
        ordinal: ordinal as u64,
        species: parent.species.at_rest(),
        body: cradle(parent.body, parent.mating_target.unwrap().position, settings),
        life: starting_life(parent.species, settings) as i32,
        mortal: false,
        mating_target: None,
    }
}

/// The children born in one pass over `agents`, in the order of their
/// spawning parents, numbered upwards from `first`.
pub open spec fn offspring(agents: Seq<Agent>, settings: Settings, first: int) -> Seq<Agent>
    decreases agents.len(),
{
    if agents.len() == 0 {
        Seq::empty()
    } else {
        let earlier = offspring(agents.drop_last(), settings, first);
        if consummates(agents.last(), settings) {
            earlier.push(child_of(agents.last(), settings, first + earlier.len()))
        } else {
            earlier
        }
    }
}

/// The store after the consummation pass: every agent as the pass leaves
/// it, and behind them the children, numbered upwards from `first`.
pub open spec fn mating_pass(agents: Seq<Agent>, settings: Settings, first: int) -> Seq<Agent> {
    Seq::new(agents.len(), |i: int| after_mating(agents[i], settings)) + offspring(agents, settings, first)
}

/// Whether an agent with this energy and status may mate.
pub fn can_mate(current_energy: i32, required_energy: i32, species: Species) -> (ok: bool)
    ensures
        ok == may_mate(current_energy as int, required_energy as int, species),
{
    if threatened(species) {
        return false;
    }
    current_energy >= required_energy
}

/// Whether `a` performs a spawn this tick.
pub fn will_consummate(a: &Agent, settings: &Settings) -> (yes: bool)
    ensures
        yes == consummates(*a, *settings),
{
    if a.mortal || !can_mate(a.life, reproduction_energy_of(a.species, settings), a.species) {
        return false;
    }
    match a.mating_target {
        Some(target) => is_colliding(&a.body, &target.position) && a.ordinal >= target.ordinal,
        None => false,
    }
}

/// At most one child per agent, each numbered by its place among the children.
pub proof fn lemma_offspring_numbered(agents: Seq<Agent>, settings: Settings, first: int)
    requires
        0 <= first,
        first + agents.len() <= u64::MAX,
    ensures
        offspring(agents, settings, first).len() <= agents.len(),
        forall|k: int|
            0 <= k < offspring(agents, settings, first).len() ==> (#[trigger] offspring(
                agents,
                settings,
                first,
            )[k]).ordinal == first + k,
    decreases agents.len(),
{
    if agents.len() > 0 {
        lemma_offspring_numbered(agents.drop_last(), settings, first);
    }
}

/// The consummation pass. Every agent that consummates pays the
/// reproduction energy and forgets its target; its child joins the store
/// behind all agents that were there before, under a fresh ordinal.
pub fn handle_mating(world: &mut World, settings: &Settings)
    requires
        old(world).wf(),
        old(world).has_room(old(world).agents@.len() as int),
    ensures
        final(world).wf(),
        final(world).agents@ == mating_pass(old(world).agents@, *settings, old(world).next_ordinal as int),
        final(world).next_ordinal == old(world).next_ordinal + offspring(
            old(world).agents@,
            *settings,
            old(world).next_ordinal as int,
        ).len(),
{
    let ghost before = world.agents@;
    let first: u64 = world.next_ordinal;
    let n: usize = world.agents.len();
    let mut parents: Vec<Agent> = Vec::new();
    let mut born: Vec<Agent> = Vec::new();
    let mut i: usize = 0;
    while i < n
        invariant
            i <= n,
            n == before.len(),
            world.agents@ == before,
            first + n <= u64::MAX,
            parents@.len() == i,
            forall|j: int| 0 <= j < i ==> (#[trigger] parents@[j]) == after_mating(before[j], *settings),
            born@ == offspring(before.take(i as int), *settings, first as int),
            born@.len() <= i,
        decreases n - i,
    {
        let agent = world.agents[i];
        proof {
            assert(before.take(i + 1).drop_last() =~= before.take(i as int));
        }
        if will_consummate(&agent, settings) {
            let target: MatingTarget = agent.mating_target.unwrap();
            let child = Agent {
                ordinal: first + born.len() as u64,
                species: crate::agent::rested(agent.species),
                body: PositionSize {
                    x: halfway(agent.body.x, target.position.x),
                    y: halfway(agent.body.y, target.position.y),
                    width: settings.default_dimensions,
                    height: settings.default_dimensions,
                },
                life: starting_life_of(agent.species, settings),
                mortal: false,
                mating_target: None,
            };
            born.push(child);
            parents.push(
                Agent {
                    life: saturating_difference(agent.life, reproduction_energy_of(agent.species, settings)),
                    mating_target: None,
                    ..agent
                },
            );
        } else {
            parents.push(agent);
        }
        i = i + 1;
    }
    proof {
        before.lemma_take_len();
        lemma_offspring_numbered(before, *settings, first as int);
    }
    let count: usize = born.len();
    world.agents = parents;
    world.agents.append(&mut born);
    world.next_ordinal = first + count as u64;
}

/// `agents[i]` after it has looked for a partner. An eligible agent records
/// the nearest partner it perceives, or forgets its target where it
/// perceives none; any other agent keeps what it holds.
pub open spec fn courted(agents: Seq<Agent>, i: int, settings: Settings) -> Agent {
    let a = agents[i];
    if eligible(a, settings) {
        Agent {
            mating_target: match nearest(agents, i, Scan::Partners, settings) {
                Some(j) => Some(MatingTarget { position: agents[j].body, ordinal: agents[j].ordinal }),
                None => None,
            },
            ..a
        }
    } else {
        a
    }
}

/// The store after the members of one species have looked for partners.
pub open spec fn courtship_pass(agents: Seq<Agent>, settings: Settings, predators: bool) -> Seq<Agent> {
    Seq::new(
        agents.len(),
        |i: int|
            if agents[i].species.is_predator() == predators {
                courted(agents, i, settings)
            } else {
                agents[i]
            },
    )
}

/// What `agents[i]` becomes when it looks for a partner.
pub fn court(agents: &Vec<Agent>, i: usize, settings: &Settings) -> (suitor: Agent)
    requires
        i < agents@.len(),
    ensures
        suitor == courted(agents@, i as int, *settings),
{
    let mut a = agents[i];
    if a.mortal || !can_mate(a.life, reproduction_energy_of(a.species, settings), a.species) {
        return a;
    }
    a.mating_target = match find_nearest(agents, i, Scan::Partners, settings) {
        Some(j) => {
            let partner = agents[j];
            Some(MatingTarget { position: partner.body, ordinal: partner.ordinal })
        },
        None => None,
    };
    a
}

fn run_courtship(world: &mut World, settings: &Settings, predators: bool)
    ensures
        final(world).agents@ == courtship_pass(old(world).agents@, *settings, predators),
        final(world).next_ordinal == old(world).next_ordinal,
        old(world).wf() ==> final(world).wf(),
{
    let ghost before = world.agents@;
    let n: usize = world.agents.len();
    let mut suitors: Vec<Agent> = Vec::new();
    let mut i: usize = 0;
    while i < n
        invariant
            i <= n,
            n == before.len(),
            world.agents@ == before,
            world.next_ordinal == old(world).next_ordinal,
            suitors@.len() == i,
            forall|j: int| 0 <= j < i ==> (#[trigger] suitors@[j]) == courtship_pass(before, *settings, predators)[j],
        decreases n - i,
    {
        let mine: bool = matches!(world.agents[i].species, Species::Predator(_));
        if mine == predators {
            suitors.push(court(&world.agents, i, settings));
        } else {
            suitors.push(world.agents[i]);
        }
        i = i + 1;
    }
    world.agents = suitors;
}

/// Mating perception of the prey.
pub fn try_mate_prey(world: &mut World, settings: &Settings)
    ensures
        final(world).agents@ == courtship_pass(old(world).agents@, *settings, false),
        final(world).next_ordinal == old(world).next_ordinal,
        old(world).wf() ==> final(world).wf(),
{
    run_courtship(world, settings, false);
}

/// Mating perception of the predators.
pub fn try_mate_predator(world: &mut World, settings: &Settings)
    ensures
        final(world).agents@ == courtship_pass(old(world).agents@, *settings, true),
        final(world).next_ordinal == old(world).next_ordinal,
        old(world).wf() ==> final(world).wf(),
{
    run_courtship(world, settings, true);
}

/// Two agents that have chosen each other, both fit to reproduce and both
/// overlapping the recorded position of the other, have exactly one child
/// between them in a tick, and it is the one with the higher ordinal that
/// spawns it.
pub proof fn lemma_one_child_per_pair(a: Agent, b: Agent, settings: Settings, first: int)
    requires
        a.ordinal != b.ordinal,
        eligible(a, settings),
        eligible(b, settings),
        a.mating_target matches Some(t) && t.ordinal == b.ordinal && overlaps(a.body, t.position),
        b.mating_target matches Some(t) && t.ordinal == a.ordinal && overlaps(b.body, t.position),
    ensures
        consummates(a, settings) <==> a.ordinal > b.ordinal,
        consummates(b, settings) <==> b.ordinal > a.ordinal,
        consummates(a, settings) != consummates(b, settings),
        offspring(seq![a, b], settings, first).len() == 1,
        offspring(seq![a, b], settings, first)[0] == child_of(
            if a.ordinal > b.ordinal {
                a
            } else {
                b
            },
            settings,
            first,
        ),
        after_mating(a, settings).mating_target is None <==> a.ordinal > b.ordinal,
        after_mating(b, settings).mating_target is None <==> b.ordinal > a.ordinal,
{
    reveal_with_fuel(offspring, 3);
}

/// No agent spawns more than one child in a pass, and in a store without
/// consummating agents nothing is born.
pub proof fn lemma_offspring_bounded(agents: Seq<Agent>, settings: Settings, first: int)
    ensures
        offspring(agents, settings, first).len() <= agents.len(),
        (forall|i: int| 0 <= i < agents.len() ==> !consummates(agents[i], settings)) ==> offspring(
            agents,
            settings,
            first,
        ).len() == 0,
    decreases agents.len(),
{
    if agents.len() > 0 {
        lemma_offspring_bounded(agents.drop_last(), settings, first);
    }
}

/// A target recorded by the partner scan names an agent that stood in the
/// store when it was recorded: another member of the species, with the
/// energy to reproduce, at the recorded place.
pub proof fn lemma_courted_target_exists(agents: Seq<Agent>, i: int, settings: Settings)
    requires
        0 <= i < agents.len(),
        eligible(agents[i], settings),
    ensures
        courted(agents, i, settings).mating_target matches Some(t) ==> exists|j: int|
            0 <= j < agents.len() && j != i && (#[trigger] agents[j]).ordinal == t.ordinal && agents[j].body
                == t.position && agents[j].species.same_as(agents[i].species) && agents[j].life
                >= reproduction_energy(agents[i].species, settings),
        courted(agents, i, settings).mating_target is None ==> forall|j: int|
            !perceives(agents, i, j, Scan::Partners, settings),
{
    lemma_nearest_is_closest(agents, i, Scan::Partners, settings);
}

} // verus!
