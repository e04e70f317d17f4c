//! Game constants and the asteroid tier table, in fixed-point units
//! (`SCALE` units per pixel, velocities per second, times in `SCALE`-ths of
//! a second).

use vstd::prelude::*;

verus! {

/// Fixed-point scale: the number of units in one screen pixel, and in one
/// second of simulation time.
pub const SCALE: i64 = 1000;

/// Collision radius of the player's ship.
pub const PLAYER_SIZE: i64 = 10_000;

/// Minimum spawn distance kept around the player.
pub const PLAYER_CLEAR_RADIUS: i64 = 250_000;

/// Speed limit for the player's ship.
pub const MAX_SPEED: i64 = 1_000_000;

/// Thrust acceleration, units per second squared.
pub const ACCELERATION: i64 = 500_000;

/// Magnitude-preserving deceleration, units per second squared.
pub const FRICTION: i64 = 100;

/// Turn rate, milliradians per second.
pub const TURN_SPEED: i64 = 5_000;

/// Reload time between shots.
pub const SHOT_COOLDOWN: i64 = 500;

/// Lifetime of a bullet.
pub const BULLET_MAX_LIFE: i64 = 500;

/// Muzzle speed of a bullet.
pub const BULLET_SPEED: i64 = 1_000_000;

/// Collision radius of a bullet.
pub const BULLET_RADIUS: i64 = 2_000;

/// Asteroids in the first wave of a session.
pub const ASTEROID_STARTING_COUNT: u32 = 10;

/// Number of asteroid tiers.
pub const TIER_COUNT: usize = 3;

/// One full turn in milliradians.
pub const TAU_MRAD: i64 = 6_283;

/// Largest frame delta the simulation accepts.
pub const DT_MAX: i64 = 1_000_000;

/// Largest screen bound the simulation accepts.
pub const BOUND_MAX: i64 = 10_000_000;

/// Largest tier speed (the smallest tier is the fastest).
pub const MAX_TIER_SPEED: i64 = 180_000;

/// Largest tier radius (tier 0).
pub const MAX_TIER_SIZE: i64 = 60_000;

/// Placement attempts before a spawn loop gives up.
pub const SPAWN_ATTEMPTS: u64 = 100_000;

/// Static configuration of one asteroid tier: collision radius, speed of a
/// freshly randomized velocity, and score value.
#[derive(Clone, Copy, PartialEq, Eq, Structural, Debug)]
pub struct AsteroidPrototype {
    pub size: i64,
    pub speed: i64,
    pub score: u32,
}

/// The tier table: tier 0 is largest, slowest and cheapest; later tiers are
/// smaller, faster and worth more. Indices at or above `TIER_COUNT` are
/// clamped to the last tier.
pub open spec fn spec_tier(i: int) -> AsteroidPrototype {
    if i == 0 {
        AsteroidPrototype { size: 60_000, speed: 20_000, score: 1 }
    } else if i == 1 {
        AsteroidPrototype { size: 30_000, speed: 60_000, score: 2 }
    } else {
        AsteroidPrototype { size: 15_000, speed: 180_000, score: 3 }
    }
}

/// Look one tier up in the table.
pub fn tier(i: usize) -> (t: AsteroidPrototype)
    requires
        i < TIER_COUNT,
    ensures
        t == spec_tier(i as int),
        0 < t.size <= MAX_TIER_SIZE,
        0 < t.speed <= MAX_TIER_SPEED,
        1 <= t.score <= 3,
{
    if i == 0 {
        AsteroidPrototype { size: 60_000, speed: 20_000, score: 1 }
    } else if i == 1 {
        AsteroidPrototype { size: 30_000, speed: 60_000, score: 2 }
    } else {
        AsteroidPrototype { size: 15_000, speed: 180_000, score: 3 }
    }
}

} // verus!
