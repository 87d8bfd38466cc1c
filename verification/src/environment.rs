//! The shared, regrowing energy pool that the prey feed on.

use vstd::prelude::*;
use crate::geometry::UNIT;
use crate::settings::Settings;

verus! {

/// The pool and its cap.
#[derive(Clone, Copy, Debug, PartialEq, Eq, Structural)]
pub struct Environment {
    pub energy_pool: i32,
    pub max_pool: i32,
}

/// `pool * rate`, with `rate` a fixed-point ratio, rounded to the nearest
/// whole number (halves upwards).
pub open spec fn scaled(pool: int, rate: int) -> int {
    (2 * (pool * rate) + UNIT) / (2 * UNIT)
}

/// The pool after one tick of growth: scaled, then held between zero and
/// the cap.
pub open spec fn regrown(pool: int, rate: int, cap: int) -> int {
    let grown = scaled(pool, rate);
    let capped = if grown > cap {
        cap
    } else {
        grown
    };
    if capped < 0 {
        0
    } else {
        capped
    }
}

impl Environment {
    /// The pool is never negative and never above its cap.
    pub open spec fn wf(&self) -> bool {
        0 <= self.energy_pool <= self.max_pool
    }

    /// A pool that starts half full. A negative cap counts as zero.
    pub fn new(max_pool: i32) -> (env: Environment)
        ensures
            env.wf(),
            env.max_pool == if max_pool < 0 {
                0
            } else {
                max_pool
            },
            env.energy_pool == env.max_pool / 2,
    {
        let cap: i32 = if max_pool < 0 {
            0
        } else {
            max_pool
        };
        Environment { energy_pool: cap / 2, max_pool: cap }
    }
}

/// Growth of the pool by the configured rate, capped.
pub fn update_environment(environment: &mut Environment, settings: &Settings)
    ensures
        final(environment).max_pool == old(environment).max_pool,
        final(environment).energy_pool == regrown(
            old(environment).energy_pool as int,
            settings.environment_grow_rate as int,
            old(environment).max_pool as int,
        ),
        old(environment).max_pool >= 0 ==> final(environment).wf(),
{
    let pool: i128 = environment.energy_pool as i128;
    let rate: i128 = settings.environment_grow_rate as i128;
    assert(-0x8000_0000 * 0x8000_0000 <= pool * rate <= 0x8000_0000 * 0x8000_0000) by (nonlinear_arith)
        requires
            -0x8000_0000 <= pool <= 0x8000_0000,
            -0x8000_0000 <= rate <= 0x8000_0000,
    ;
    let doubled: i128 = 2 * (pool * rate) + UNIT as i128;
    let cap: i32 = environment.max_pool;
    let ceiling: i32 = if cap < 0 {
        0
    } else {
        cap
    };
    if doubled < 0 {
        environment.energy_pool = 0;
    } else {
        let grown: i128 = doubled / (2 * UNIT as i128);
        if grown > cap as i128 {
            environment.energy_pool = ceiling;
        } else {
            environment.energy_pool = grown as i32;
        }
    }
}

} // verus!
