//! Nearest-neighbour detection by a scan of the whole store.
//!
//! The closest candidate within the seeker's detection range wins; among
//! candidates at the same distance, the one that stands first in the store.

use vstd::prelude::*;
use crate::agent::{detection_range, detection_range_of, reproduction_energy, reproduction_energy_of, Agent, Species};
use crate::geometry::{distance_squared, in_detection_range, within_range};
use crate::settings::Settings;

verus! {

/// What a seeker looks for.
#[derive(Clone, Copy, Debug, PartialEq, Eq, Structural)]
pub enum Scan {
    /// Any member of the other species.
    Opponents,
    /// Another member of the own species with enough energy to reproduce.
    Partners,
}

/// `agents[j]` is among those that the seeker at `seeker` looks for.
pub open spec fn is_candidate(agents: Seq<Agent>, seeker: int, j: int, scan: Scan, settings: Settings) -> bool {
    match scan {
        Scan::Opponents => !agents[j].species.same_as(agents[seeker].species),
        Scan::Partners => j != seeker && agents[j].species.same_as(agents[seeker].species)
            && agents[j].life >= reproduction_energy(agents[seeker].species, settings),
    }
}

/// `agents[j]` is a candidate within the detection range of the seeker.
pub open spec fn perceives(agents: Seq<Agent>, seeker: int, j: int, scan: Scan, settings: Settings) -> bool {
    &&& 0 <= j < agents.len()
    &&& is_candidate(agents, seeker, j, scan, settings)
    &&& within_range(agents[seeker].body, agents[j].body, detection_range(agents[seeker].species, settings))
}

/// Squared distance from the seeker to `agents[j]`.
pub open spec fn gap(agents: Seq<Agent>, seeker: int, j: int) -> int {
    distance_squared(agents[seeker].body, agents[j].body)
}

/// `agents[j]` is perceived, nothing perceived is closer, and nothing
/// perceived at the same distance stands before it.
pub open spec fn is_nearest(agents: Seq<Agent>, seeker: int, j: int, scan: Scan, settings: Settings) -> bool {
    &&& perceives(agents, seeker, j, scan, settings)
    &&& forall|k: int| #[trigger]
        perceives(agents, seeker, k, scan, settings) ==> gap(agents, seeker, j) < gap(agents, seeker, k) || (gap(
            agents,
            seeker,
            j,
        ) == gap(agents, seeker, k) && j <= k)
}

/// Index of the nearest perceived candidate, if any is perceived.
pub open spec fn nearest(agents: Seq<Agent>, seeker: int, scan: Scan, settings: Settings) -> Option<int> {
    if exists|j: int| perceives(agents, seeker, j, scan, settings) {
        Some(choose|j: int| is_nearest(agents, seeker, j, scan, settings))
    } else {
        None
    }
}

/// At most one index is the nearest.
pub proof fn lemma_nearest_unique(agents: Seq<Agent>, seeker: int, a: int, b: int, scan: Scan, settings: Settings)
    requires
        is_nearest(agents, seeker, a, scan, settings),
        is_nearest(agents, seeker, b, scan, settings),
    ensures
        a == b,
{
}

/// An index that meets [`is_nearest`] is what [`nearest`] gives.
pub proof fn lemma_nearest_found(agents: Seq<Agent>, seeker: int, j: int, scan: Scan, settings: Settings)
    requires
        is_nearest(agents, seeker, j, scan, settings),
    ensures
        nearest(agents, seeker, scan, settings) == Some(j),
{
    let c = choose|c: int| is_nearest(agents, seeker, c, scan, settings);
    lemma_nearest_unique(agents, seeker, j, c, scan, settings);
}

proof fn lemma_best_among(agents: Seq<Agent>, seeker: int, scan: Scan, settings: Settings, n: int) -> (best: Option<
    int,
>)
    requires
        0 <= n <= agents.len(),
    ensures
        best is None ==> forall|k: int| 0 <= k < n ==> !perceives(agents, seeker, k, scan, settings),
        best matches Some(b) ==> {
            &&& 0 <= b < n
            &&& perceives(agents, seeker, b, scan, settings)
            &&& forall|k: int|
                0 <= k < n && #[trigger] perceives(agents, seeker, k, scan, settings) ==> gap(agents, seeker, b) < gap(
                    agents,
                    seeker,
                    k,
                ) || (gap(agents, seeker, b) == gap(agents, seeker, k) && b <= k)
        },
    decreases n,
{
    if n == 0 {
        None
    } else {
        let earlier = lemma_best_among(agents, seeker, scan, settings, n - 1);
        if perceives(agents, seeker, n - 1, scan, settings) && (earlier is None || gap(agents, seeker, n - 1) < gap(
            agents,
            seeker,
            earlier.unwrap(),
        )) {
            Some(n - 1)
        } else {
            earlier
        }
    }
}

/// What [`nearest`] gives is the nearest perceived candidate, and it gives
/// none only where none is perceived.
pub proof fn lemma_nearest_is_closest(agents: Seq<Agent>, seeker: int, scan: Scan, settings: Settings)
    ensures
        match nearest(agents, seeker, scan, settings) {
            Some(j) => is_nearest(agents, seeker, j, scan, settings),
            None => forall|k: int| !perceives(agents, seeker, k, scan, settings),
        },
{
    match lemma_best_among(agents, seeker, scan, settings, agents.len() as int) {
        Some(b) => {
            assert(is_nearest(agents, seeker, b, scan, settings));
        },
        None => {},
    }
}

/// The result of a scan depends only on the species, boxes and energies in
/// the store.
pub proof fn lemma_nearest_reads(a: Seq<Agent>, b: Seq<Agent>, seeker: int, scan: Scan, settings: Settings)
    requires
        a.len() == b.len(),
        0 <= seeker < a.len(),
        forall|k: int|
            0 <= k < a.len() ==> (#[trigger] a[k]).species.same_as(b[k].species) && a[k].body == b[k].body && a[k].life
                == b[k].life,
    ensures
        nearest(a, seeker, scan, settings) == nearest(b, seeker, scan, settings),
{
    assert forall|j: int| perceives(a, seeker, j, scan, settings) == perceives(b, seeker, j, scan, settings) by {}
    assert forall|j: int| gap(a, seeker, j) == gap(b, seeker, j) || !perceives(a, seeker, j, scan, settings) by {}
    lemma_nearest_is_closest(a, seeker, scan, settings);
    match nearest(a, seeker, scan, settings) {
        Some(j) => {
            lemma_nearest_found(b, seeker, j, scan, settings);
        },
        None => {},
    }
}

/// Scans the store for the candidate nearest to `agents[seeker]`.
pub fn find_nearest(agents: &Vec<Agent>, seeker: usize, scan: Scan, settings: &Settings) -> (found: Option<usize>)
    requires
        seeker < agents@.len(),
    ensures
        found is Some == nearest(agents@, seeker as int, scan, *settings) is Some,
        found matches Some(j) ==> j < agents@.len() && nearest(agents@, seeker as int, scan, *settings) == Some(
            j as int,
        ),
{
    let me = agents[seeker];
    let range: i32 = detection_range_of(me.species, settings);
    let threshold: i32 = reproduction_energy_of(me.species, settings);
    let mine: bool = matches!(me.species, Species::Predator(_));
    let mut best: Option<usize> = None;
    let mut best_gap: u128 = 0;
    let mut i: usize = 0;
    while i < agents.len()
        invariant
            i <= agents@.len(),
            seeker < agents@.len(),
            me == agents@[seeker as int],
            range == detection_range(me.species, *settings),
            threshold == reproduction_energy(me.species, *settings),
            mine == me.species.is_predator(),
            best is None ==> forall|k: int| 0 <= k < i ==> !perceives(agents@, seeker as int, k, scan, *settings),
            best matches Some(b) ==> {
                &&& b < i
                &&& best_gap == gap(agents@, seeker as int, b as int)
                &&& perceives(agents@, seeker as int, b as int, scan, *settings)
                &&& forall|k: int|
                    0 <= k < i && #[trigger] perceives(agents@, seeker as int, k, scan, *settings) ==> best_gap < gap(
                        agents@,
                        seeker as int,
                        k,
                    ) || (best_gap == gap(agents@, seeker as int, k) && b <= k)
            },
        decreases agents@.len() - i,
    {
        let other = agents[i];
        let theirs: bool = matches!(other.species, Species::Predator(_));
        let wanted: bool = match scan {
            Scan::Opponents => mine != theirs,
            Scan::Partners => i != seeker && mine == theirs && other.life >= threshold,
        };
        if wanted {
            let (detected, distance) = in_detection_range(&me.body, &other.body, range);
            if detected && (best.is_none() || distance < best_gap) {
                best = Some(i);
                best_gap = distance;
            }
        }
        i = i + 1;
    }
    proof {
        match best {
            Some(b) => {
                lemma_nearest_found(agents@, seeker as int, b as int, scan, *settings);
            },
            None => {},
        }
    }
    best
}

} // verus!
