//! The arena's hard walls, and the jitter that keeps agents from piling up.

use vstd::prelude::*;
use crate::agent::Agent;
use crate::chance::random_between;
use crate::geometry::{PositionSize, UNIT};
use crate::numeric::saturating_sum;
use crate::settings::Settings;
use crate::steering::displaced;
use crate::world::World;

verus! {

/// Half of `extent`, cut off toward zero.
pub open spec fn half_extent(extent: int) -> int {
    if extent >= 0 {
        extent / 2
    } else {
        -((-extent) / 2)
    }
}

/// `x` held from above by `half`, then from below by `-half`.
pub open spec fn confined(x: int, half: int) -> int {
    let upper = if x > half {
        half
    } else {
        x
    };
    if upper < -half {
        -half
    } else {
        upper
    }
}

/// `body` with its origin held inside the arena, which is centred on the
/// origin of the plane.
pub open spec fn fenced(body: PositionSize, settings: Settings) -> PositionSize {
    PositionSize {
        x: confined(body.x as int, half_extent(settings.window_width as int)) as i32,
        y: confined(body.y as int, half_extent(settings.window_height as int)) as i32,
        ..body
    }
}

/// The store after the boundary pass.
pub open spec fn fence_pass(agents: Seq<Agent>, settings: Settings) -> Seq<Agent> {
    Seq::new(agents.len(), |i: int| Agent { body: fenced(agents[i].body, settings), ..agents[i] })
}

/// `a` moved by `(dx, dy)`.
pub open spec fn jittered(a: Agent, dx: int, dy: int) -> Agent {
    Agent { body: displaced(a.body, dx, dy), ..a }
}

/// `after` is `before` moved by less than one whole unit on each axis.
pub open spec fn is_jitter_of(before: Agent, after: Agent) -> bool {
    exists|dx: int, dy: int|
        -UNIT <= dx < UNIT && -UNIT <= dy < UNIT && after == #[trigger] jittered(before, dx, dy)
}

/// Holding a coordinate that is already held changes nothing.
pub proof fn lemma_confined_idempotent(x: int, half: int)
    ensures
        confined(confined(x, half), half) == confined(x, half),
{
}

/// Fencing a box that is already fenced changes nothing.
pub proof fn lemma_fenced_idempotent(body: PositionSize, settings: Settings)
    ensures
        fenced(fenced(body, settings), settings) == fenced(body, settings),
{
    lemma_confined_idempotent(body.x as int, half_extent(settings.window_width as int));
    lemma_confined_idempotent(body.y as int, half_extent(settings.window_height as int));
}

/// A second boundary pass over the store changes nothing.
pub proof fn lemma_fence_pass_idempotent(agents: Seq<Agent>, settings: Settings)
    ensures
        fence_pass(fence_pass(agents, settings), settings) == fence_pass(agents, settings),
{
    assert forall|i: int| 0 <= i < agents.len() implies fence_pass(fence_pass(agents, settings), settings)[i]
        == fence_pass(agents, settings)[i] by {
        lemma_fenced_idempotent(agents[i].body, settings);
    }
}

/// A fenced origin lies inside the arena whenever the arena has a
/// non-negative extent.
pub proof fn lemma_fenced_inside(body: PositionSize, settings: Settings)
    requires
        settings.window_width >= 0,
        settings.window_height >= 0,
    ensures
        -half_extent(settings.window_width as int) <= fenced(body, settings).x <= half_extent(
            settings.window_width as int,
        ),
        -half_extent(settings.window_height as int) <= fenced(body, settings).y <= half_extent(
            settings.window_height as int,
        ),
{
}

fn halve(extent: i32) -> (half: i32)
    ensures
        half == half_extent(extent as int),
{
    if extent >= 0 {
        extent / 2
    } else {
        let positive: i64 = -(extent as i64);
        (-(positive / 2)) as i32
    }
}

fn confine(x: i32, half: i32) -> (r: i32)
    requires
        half > i32::MIN,
    ensures
        r == confined(x as int, half as int),
{
    let upper: i32 = if x > half {
        half
    } else {
        x
    };
    if upper < -half {
        -half
    } else {
        upper
    }
}

/// The boundary pass: every origin is held inside the arena.
pub fn window_collision(world: &mut World, settings: &Settings)
    ensures
        final(world).agents@ == fence_pass(old(world).agents@, *settings),
        final(world).next_ordinal == old(world).next_ordinal,
        old(world).wf() ==> final(world).wf(),
{
    let ghost before = world.agents@;
    let half_width: i32 = halve(settings.window_width);
    let half_height: i32 = halve(settings.window_height);
    let n: usize = world.agents.len();
    let mut after: Vec<Agent> = Vec::new();
    let mut i: usize = 0;
    while i < n
        invariant
            i <= n,
            n == before.len(),
            world.agents@ == before,
            world.next_ordinal == old(world).next_ordinal,
            half_width == half_extent(settings.window_width as int),
            half_height == half_extent(settings.window_height as int),
            after@.len() == i,
            forall|j: int| 0 <= j < i ==> (#[trigger] after@[j]) == fence_pass(before, *settings)[j],
        decreases n - i,
    {
        let mut a = world.agents[i];
        a.body.x = confine(a.body.x, half_width);
        a.body.y = confine(a.body.y, half_height);
        after.push(a);
        i = i + 1;
    }
    world.agents = after;
}

/// Moves `body` by `(dx, dy)`, held inside the coordinate range.
pub fn wiggle(body: &mut PositionSize, dx: i32, dy: i32)
    ensures
        *final(body) == displaced(*old(body), dx as int, dy as int),
{
    body.x = saturating_sum(body.x, dx);
    body.y = saturating_sum(body.y, dy);
}

/// The jitter pass: every agent is moved by a random amount of less than
/// one whole unit on each axis, drawn independently.
pub fn wiggle_squares(world: &mut World)
    ensures
        final(world).agents@.len() == old(world).agents@.len(),
        forall|i: int|
            0 <= i < old(world).agents@.len() ==> is_jitter_of(
                old(world).agents@[i],
                #[trigger] final(world).agents@[i],
            ),
        final(world).next_ordinal == old(world).next_ordinal,
        old(world).wf() ==> final(world).wf(),
{
    let ghost before = world.agents@;
    let n: usize = world.agents.len();
    let mut after: Vec<Agent> = Vec::new();
    let mut i: usize = 0;
    while i < n
        invariant
            i <= n,
            n == before.len(),
            world.agents@ == before,
            world.next_ordinal == old(world).next_ordinal,
            after@.len() == i,
            forall|j: int| 0 <= j < i ==> is_jitter_of(before[j], #[trigger] after@[j]),
            forall|j: int| 0 <= j < i ==> (#[trigger] after@[j]).ordinal == before[j].ordinal,
        decreases n - i,
    {
        let mut a = world.agents[i];
        let dx: i32 = random_between(-UNIT, UNIT);
        let dy: i32 = random_between(-UNIT, UNIT);
        wiggle(&mut a.body, dx, dy);
        assert(a == jittered(before[i as int], dx as int, dy as int));
        after.push(a);
        i = i + 1;
    }
    world.agents = after;
}

} // verus!
