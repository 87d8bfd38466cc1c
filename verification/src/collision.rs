//! Predation: what happens where a predator's box overlaps a prey's.

use vstd::prelude::*;
use crate::agent::{Agent, Species};
use crate::geometry::{is_colliding, overlaps};
use crate::numeric::saturate;
use crate::settings::Settings;
use crate::world::World;

verus! {

/// Predator `q` takes prey `p`: the prey was alive when the pass began and
/// their boxes overlap.
pub open spec fn is_kill(agents: Seq<Agent>, p: int, q: int) -> bool {
    &&& 0 <= p < agents.len()
    &&& 0 <= q < agents.len()
    &&& agents[p].species.is_prey()
    &&& !agents[p].mortal
    &&& agents[q].species.is_predator()
    &&& overlaps(agents[p].body, agents[q].body)
}

/// How many of the first `n` agents predator `q` takes.
pub open spec fn kills_among(agents: Seq<Agent>, q: int, n: int) -> int
    decreases n,
{
    if n <= 0 {
        0
    } else {
        kills_among(agents, q, n - 1) + if is_kill(agents, n - 1, q) {
            1int
        } else {
            0int
        }
    }
}

/// Some predator takes prey `p`.
pub open spec fn is_caught(agents: Seq<Agent>, p: int) -> bool {
    exists|q: int| is_kill(agents, p, q)
}

/// `agents[i]` after the predation pass: a predator has gained the bounty
/// once for each prey it takes, a prey that is taken is flagged mortal.
pub open spec fn after_hunt(agents: Seq<Agent>, i: int, settings: Settings) -> Agent {
    let a = agents[i];
    match a.species {
        Species::Predator(_) => Agent {
            life: saturate(
                a.life + settings.predator_hunt_energy_gain * kills_among(agents, i, agents.len() as int),
            ) as i32,
            ..a
        },
        Species::Prey(_) => Agent { mortal: a.mortal || is_caught(agents, i), ..a },
    }
}

/// The store after the predation pass.
pub open spec fn hunt_pass(agents: Seq<Agent>, settings: Settings) -> Seq<Agent> {
    Seq::new(agents.len(), |i: int| after_hunt(agents, i, settings))
}

fn count_kills(agents: &Vec<Agent>, q: usize) -> (count: usize)
    requires
        q < agents@.len(),
    ensures
        count == kills_among(agents@, q as int, agents@.len() as int),
{
    let hunter = agents[q];
    let hunts: bool = matches!(hunter.species, Species::Predator(_));
    let mut count: usize = 0;
    let mut p: usize = 0;
    while p < agents.len()
        invariant
            p <= agents@.len(),
            q < agents@.len(),
            hunter == agents@[q as int],
            hunts == hunter.species.is_predator(),
            count <= p,
            count == kills_among(agents@, q as int, p as int),
        decreases agents@.len() - p,
    {
        let other = agents[p];
        let edible: bool = matches!(other.species, Species::Prey(_)) && !other.mortal;
        if hunts && edible && is_colliding(&other.body, &hunter.body) {
            count = count + 1;
        }
        p = p + 1;
    }
    count
}

fn caught(agents: &Vec<Agent>, p: usize) -> (taken: bool)
    requires
        p < agents@.len(),
    ensures
        taken == is_caught(agents@, p as int),
{
    let victim = agents[p];
    let edible: bool = matches!(victim.species, Species::Prey(_)) && !victim.mortal;
    let mut q: usize = 0;
    while q < agents.len()
        invariant
            q <= agents@.len(),
            p < agents@.len(),
            victim == agents@[p as int],
            edible == (victim.species.is_prey() && !victim.mortal),
            forall|k: int| 0 <= k < q ==> !is_kill(agents@, p as int, k),
        decreases agents@.len() - q,
    {
        let other = agents[q];
        if edible && matches!(other.species, Species::Predator(_)) && is_colliding(&victim.body, &other.body) {
            assert(is_kill(agents@, p as int, q as int));
            return true;
        }
        q = q + 1;
    }
    false
}

/// The predation pass. Every prey that was alive and overlaps a predator is
/// flagged mortal, and each predator that overlaps it gains the bounty.
pub fn handle_hostile_collisions(world: &mut World, settings: &Settings)
    ensures
        final(world).agents@ == hunt_pass(old(world).agents@, *settings),
        final(world).next_ordinal == old(world).next_ordinal,
        old(world).wf() ==> final(world).wf(),
{
    let ghost before = world.agents@;
    let n: usize = world.agents.len();
    let mut after: Vec<Agent> = Vec::new();
    let mut i: usize = 0;
    while i < n
        invariant
            i <= n,
            n == before.len(),
            world.agents@ == before,
            world.next_ordinal == old(world).next_ordinal,
            after@.len() == i,
            forall|j: int| 0 <= j < i ==> (#[trigger] after@[j]) == after_hunt(before, j, *settings),
        decreases n - i,
    {
        let mut a = world.agents[i];
        match a.species {
            Species::Predator(_) => {
                let kills: usize = count_kills(&world.agents, i);
                let bounty: i128 = settings.predator_hunt_energy_gain as i128;
                assert(-0x8000_0000 * 0x1_0000_0000_0000_0000 <= bounty * kills <= 0x8000_0000
                    * 0x1_0000_0000_0000_0000) by (nonlinear_arith)
                    requires
                        -0x8000_0000 <= bounty <= 0x8000_0000,
                        0 <= kills <= 0x1_0000_0000_0000_0000,
                ;
                let total: i128 = a.life as i128 + bounty * kills as i128;
                a.life = if total < i32::MIN as i128 {
                    i32::MIN
                } else if total > i32::MAX as i128 {
                    i32::MAX
                } else {
                    total as i32
                };
            },
            Species::Prey(_) => {
                if !a.mortal {
                    a.mortal = caught(&world.agents, i);
                }
            },
        }
        after.push(a);
        i = i + 1;
    }
    world.agents = after;
}

/// A predator that takes no prey has no kills among any number of agents.
proof fn lemma_no_kills(agents: Seq<Agent>, q: int, n: int)
    requires
        forall|p: int| !is_kill(agents, p, q),
    ensures
        kills_among(agents, q, n) == 0,
    decreases n,
{
    if n > 0 {
        lemma_no_kills(agents, q, n - 1);
    }
}

/// Predation happens once: after the pass no prey is left to take, so a
/// second pass over the result changes nothing. A prey under several
/// predators has died once, and each of them has had its bounty once.
pub proof fn lemma_hunt_pass_idempotent(agents: Seq<Agent>, settings: Settings)
    ensures
        hunt_pass(hunt_pass(agents, settings), settings) == hunt_pass(agents, settings),
{
    let once = hunt_pass(agents, settings);
    assert forall|p: int, q: int| !is_kill(once, p, q) by {
        if is_kill(once, p, q) {
            assert(is_kill(agents, p, q));
        }
    }
    assert forall|i: int| 0 <= i < once.len() implies after_hunt(once, i, settings) == once[i] by {
        lemma_no_kills(once, i, once.len() as int);
    }
}

/// A predator takes no agent twice, and it takes none exactly where no
/// live prey lies under it.
pub proof fn lemma_kills_count(agents: Seq<Agent>, q: int, n: int)
    requires
        0 <= n <= agents.len(),
    ensures
        0 <= kills_among(agents, q, n) <= n,
        kills_among(agents, q, n) == 0 <==> forall|p: int| 0 <= p < n ==> !is_kill(agents, p, q),
    decreases n,
{
    if n > 0 {
        lemma_kills_count(agents, q, n - 1);
    }
}

} // verus!
