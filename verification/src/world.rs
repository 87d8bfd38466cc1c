//! The agent store: owns every agent, hands out ordinals, removes the dead.

use vstd::prelude::*;
use crate::agent::{Agent, Species};
use crate::geometry::PositionSize;

verus! {

/// All agents of a run, oldest first, and the ordinal the next one gets.
#[derive(Clone, Debug)]
pub struct World {
    pub agents: Vec<Agent>,
    pub next_ordinal: u64,
}

/// Ordinals grow strictly along `agents` and stay below `bound`.
pub open spec fn ordinals_ascend(agents: Seq<Agent>, bound: int) -> bool {
    &&& forall|i: int, j: int|
        0 <= i < j < agents.len() ==> (#[trigger] agents[i]).ordinal < (#[trigger] agents[j]).ordinal
    &&& forall|i: int| 0 <= i < agents.len() ==> (#[trigger] agents[i]).ordinal < bound
}

/// The agents that are not flagged mortal, in their order.
pub open spec fn survivors(agents: Seq<Agent>) -> Seq<Agent> {
    agents.filter(|a: Agent| !a.mortal)
}

/// How many of the first `n` agents are predators.
pub open spec fn predators_among(agents: Seq<Agent>, n: int) -> int
    decreases n,
{
    if n <= 0 {
        0
    } else {
        predators_among(agents, n - 1) + if agents[n - 1].species.is_predator() {
            1int
        } else {
            0int
        }
    }
}

/// A newly created agent: at rest, alive, untargeted.
pub open spec fn newborn(ordinal: u64, species: Species, body: PositionSize, life: i32) -> Agent {
    Agent { ordinal, species: species.at_rest(), body, life, mortal: false, mating_target: None }
}

impl World {
    /// No ordinal occurs twice, none has been handed out ahead of time, and
    /// the store lists its agents in the order of their creation.
    pub open spec fn wf(&self) -> bool {
        ordinals_ascend(self.agents@, self.next_ordinal as int)
    }

    /// Room for `n` more ordinals.
    pub open spec fn has_room(&self, n: int) -> bool {
        self.next_ordinal + n <= u64::MAX
    }

    /// An empty store whose first agent will get ordinal 0.
    pub fn new() -> (world: World)
        ensures
            world.wf(),
            world.agents@.len() == 0,
            world.next_ordinal == 0,
    {
        World { agents: Vec::new(), next_ordinal: 0 }
    }

    /// Creates an agent at rest and returns its ordinal.
    pub fn spawn(&mut self, species: Species, body: PositionSize, life: i32) -> (ordinal: u64)
        requires
            old(self).wf(),
            old(self).has_room(1),
        ensures
            final(self).wf(),
            ordinal == old(self).next_ordinal,
            final(self).next_ordinal == ordinal + 1,
            final(self).agents@ == old(self).agents@.push(newborn(ordinal, species, body, life)),
    {
        let ordinal: u64 = self.next_ordinal;
        let agent = Agent {
            ordinal,
            species: crate::agent::rested(species),
            body,
            life,
            mortal: false,
            mating_target: None,
        };
        self.agents.push(agent);
        self.next_ordinal = ordinal + 1;
        ordinal
    }

    /// Whether the store can still hand out `n` ordinals.
    pub fn can_spawn(&self, n: usize) -> (ok: bool)
        ensures
            ok == self.has_room(n as int),
    {
        (n as u128) + (self.next_ordinal as u128) <= u64::MAX as u128
    }

    /// Numbers of predators and of prey in the store.
    pub fn population(&self) -> (counts: (usize, usize))
        ensures
            counts.0 == predators_among(self.agents@, self.agents@.len() as int),
            counts.0 + counts.1 == self.agents@.len(),
    {
        let mut predators: usize = 0;
        let mut i: usize = 0;
        while i < self.agents.len()
            invariant
                i <= self.agents.len(),
                predators <= i,
                predators == predators_among(self.agents@, i as int),
            decreases self.agents.len() - i,
        {
            match self.agents[i].species {
                Species::Predator(_) => {
                    predators = predators + 1;
                },
                Species::Prey(_) => {},
            }
            i = i + 1;
        }
        (predators, self.agents.len() - predators)
    }

    /// Whether the store is well formed; for stores that were put together
    /// by hand rather than grown by the passes.
    pub fn is_well_formed(&self) -> (ok: bool)
        ensures
            ok == self.wf(),
    {
        let n: usize = self.agents.len();
        let mut i: usize = 0;
        while i < n
            invariant
                i <= n,
                n == self.agents@.len(),
                forall|k: int| 0 <= k < i ==> (#[trigger] self.agents@[k]).ordinal < self.next_ordinal,
                forall|a: int, b: int|
                    0 <= a < b < i ==> (#[trigger] self.agents@[a]).ordinal < (#[trigger] self.agents@[b]).ordinal,
            decreases n - i,
        {
            if self.agents[i].ordinal >= self.next_ordinal {
                return false;
            }
            if i > 0 && self.agents[i - 1].ordinal >= self.agents[i].ordinal {
                return false;
            }
            i = i + 1;
        }
        true
    }
}

/// Removes every agent flagged mortal; the others keep their order.
pub fn remove_dead(world: &mut World)
    ensures
        final(world).agents@ == survivors(old(world).agents@),
        final(world).next_ordinal == old(world).next_ordinal,
        forall|k: int| 0 <= k < final(world).agents@.len() ==> !(#[trigger] final(world).agents@[k]).mortal,
        old(world).wf() ==> final(world).wf(),
{
    let ghost before = world.agents@;
    let ghost alive = |a: Agent| !a.mortal;
    let mut kept: Vec<Agent> = Vec::new();
    let mut i: usize = 0;
    while i < world.agents.len()
        invariant
            i <= world.agents.len(),
            world.agents@ == before,
            world.next_ordinal == old(world).next_ordinal,
            alive == |a: Agent| !a.mortal,
            kept@ == before.take(i as int).filter(alive),
            forall|k: int| 0 <= k < kept@.len() ==> !(#[trigger] kept@[k]).mortal,
            old(world).wf() ==> ordinals_ascend(kept@, old(world).next_ordinal as int),
            old(world).wf() ==> forall|k: int, j: int|
                0 <= k < kept@.len() && i <= j < before.len() ==> (#[trigger] kept@[k]).ordinal < (
                #[trigger] before[j]).ordinal,
        decreases world.agents.len() - i,
    {
        let agent = world.agents[i];
        proof {
            before.lemma_take_succ_push(i as int);
            before.take(i as int).lemma_filter_push(agent, alive);
        }
        if !agent.mortal {
            kept.push(agent);
        }
        i = i + 1;
    }
    proof {
        before.lemma_take_len();
    }
    world.agents = kept;
}

} // verus!
