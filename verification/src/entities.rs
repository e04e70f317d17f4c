//! The entities of a session: player, bullets and asteroids, with their
//! well-formedness invariants and the asteroid spawn and split rules.

use vstd::prelude::*;

use crate::config::{
    spec_tier, tier, AsteroidPrototype, BOUND_MAX, BULLET_MAX_LIFE, BULLET_SPEED, MAX_SPEED,
    MAX_TIER_SIZE, MAX_TIER_SPEED, SCALE, SHOT_COOLDOWN, SPAWN_ATTEMPTS, TAU_MRAD, TIER_COUNT,
};
use crate::geom::{dist_sq, iabs, rescale, spec_dist_sq, Vec2};
use crate::rng::rand_range_i64;

verus! {

/// Valid screen bounds: at least one pixel, at most `BOUND_MAX` on each
/// axis.
pub open spec fn wf_bounds(b: Vec2) -> bool {
    SCALE <= b.x <= BOUND_MAX && SCALE <= b.y <= BOUND_MAX
}

/// The player's ship.
#[derive(Clone, Copy, PartialEq, Eq, Structural, Debug)]
pub struct Player {
    pub pos: Vec2,
    /// Facing angle in milliradians, kept in `[0, TAU_MRAD)`.
    pub angle_mrad: i64,
    pub velocity: Vec2,
    /// Time until the next shot may fire; never negative.
    pub shot_cooldown: i64,
}

impl Player {
    pub open spec fn wf(self, bounds: Vec2) -> bool {
        &&& 0 <= self.pos.x <= bounds.x
        &&& 0 <= self.pos.y <= bounds.y
        &&& iabs(self.velocity.x as int) <= MAX_SPEED
        &&& iabs(self.velocity.y as int) <= MAX_SPEED
        &&& self.velocity.sq_mag() <= MAX_SPEED * MAX_SPEED
        &&& 0 <= self.shot_cooldown <= SHOT_COOLDOWN
        &&& 0 <= self.angle_mrad < TAU_MRAD
    }
}

/// A projectile; removed once its remaining life reaches zero.
#[derive(Clone, Copy, PartialEq, Eq, Structural, Debug)]
pub struct Bullet {
    pub pos: Vec2,
    pub velocity: Vec2,
    pub life: i64,
}

impl Bullet {
    pub open spec fn wf(self, bounds: Vec2) -> bool {
        &&& 0 <= self.pos.x <= bounds.x
        &&& 0 <= self.pos.y <= bounds.y
        &&& iabs(self.velocity.x as int) <= BULLET_SPEED
        &&& iabs(self.velocity.y as int) <= BULLET_SPEED
        &&& 0 < self.life <= BULLET_MAX_LIFE
    }
}

/// An asteroid: position, velocity and an index into the tier table.
#[derive(Clone, Copy, PartialEq, Eq, Structural, Debug)]
pub struct Asteroid {
    pub pos: Vec2,
    pub velocity: Vec2,
    pub prototype_index: usize,
}

impl Asteroid {
    pub open spec fn tier_ok(self) -> bool {
        self.prototype_index < TIER_COUNT
    }

    /// The collision radius given by this asteroid's tier.
    pub open spec fn size_spec(self) -> int {
        spec_tier(self.prototype_index as int).size as int
    }

    /// A velocity a freshly randomized asteroid of this tier may carry:
    /// its magnitude is at most the tier's speed and, rounding aside, not
    /// below it — at least 98% of it, stated on squares
    /// (`2401/2500 == (49/50)^2`). Only the direction is free.
    pub open spec fn vel_ok(self) -> bool {
        let sp = spec_tier(self.prototype_index as int).speed as int;
        &&& iabs(self.velocity.x as int) <= sp
        &&& iabs(self.velocity.y as int) <= sp
        &&& self.velocity.sq_mag() <= sp * sp
        &&& 2500 * self.velocity.sq_mag() >= 2401 * sp * sp
    }

    /// Asteroids may stick out of the screen by up to the largest tier
    /// radius: the wrap allows an asteroid its own radius of margin, and a
    /// child spawned by splitting starts at its larger parent's position.
    pub open spec fn wf(self, bounds: Vec2) -> bool {
        &&& self.tier_ok()
        &&& -MAX_TIER_SIZE <= self.pos.x <= bounds.x + MAX_TIER_SIZE
        &&& -MAX_TIER_SIZE <= self.pos.y <= bounds.y + MAX_TIER_SIZE
        &&& iabs(self.velocity.x as int) <= MAX_TIER_SPEED
        &&& iabs(self.velocity.y as int) <= MAX_TIER_SPEED
    }

    /// A uniformly random direction, by rejection sampling a point of the
    /// annulus between half and full unit radius (the angle stays uniform;
    /// the inner cutoff keeps the later rescaling's rounding loss small);
    /// falls back to a fixed direction if the sampling budget is ever
    /// exhausted.
    fn random_dir() -> (d: Vec2)
        ensures
            !d.is_zero(),
            iabs(d.x as int) <= SCALE,
            iabs(d.y as int) <= SCALE,
            250_000 <= d.sq_mag() <= SCALE * SCALE,
    {
        let mut tries: u32 = 0;
        while tries < 16
            invariant
                tries <= 16,
            decreases 16 - tries,
        {
            let x: i64 = rand_range_i64(-SCALE, SCALE);
            let y: i64 = rand_range_i64(-SCALE, SCALE);
            proof {
                assert(0 <= x * x <= 1_000_000 && 0 <= y * y <= 1_000_000) by (nonlinear_arith)
                    requires
                        -1000 <= x <= 1000,
                        -1000 <= y <= 1000,
                ;
            }
            let sq: i64 = x * x + y * y;
            if 250_000 <= sq && sq <= SCALE * SCALE {
                return Vec2 { x, y };
            }
            tries = tries + 1;
        }
        Vec2 { x: SCALE, y: 0 }
    }

    /// A fresh asteroid of the given tier at the given position, with a
    /// freshly randomized direction at the tier's fixed speed.
    pub fn new(prototype_index: usize, pos: Vec2) -> (a: Asteroid)
        requires
            prototype_index < TIER_COUNT,
        ensures
            a.pos == pos,
            a.prototype_index == prototype_index,
            a.vel_ok(),
    {
        let dir = Self::random_dir();
        let proto = tier(prototype_index);
        let velocity = rescale(dir, proto.speed);
        Asteroid { pos, velocity, prototype_index }
    }

    /// A fresh asteroid of the given tier at a uniformly random position
    /// within the screen bounds.
    pub fn new_inside(prototype_index: usize, bounds: Vec2) -> (a: Asteroid)
        requires
            prototype_index < TIER_COUNT,
            wf_bounds(bounds),
        ensures
            a.prototype_index == prototype_index,
            0 <= a.pos.x <= bounds.x,
            0 <= a.pos.y <= bounds.y,
            a.vel_ok(),
    {
        let pos = Vec2 { x: rand_range_i64(0, bounds.x), y: rand_range_i64(0, bounds.y) };
        Self::new(prototype_index, pos)
    }

    /// This asteroid's tier entry.
    pub fn prototype(&self) -> (t: AsteroidPrototype)
        requires
            self.tier_ok(),
        ensures
            t == spec_tier(self.prototype_index as int),
    {
        tier(self.prototype_index)
    }

    /// This asteroid's collision radius.
    pub fn size(&self) -> (s: i64)
        requires
            self.tier_ok(),
        ensures
            s == self.size_spec(),
    {
        self.prototype().size
    }

    /// The score awarded when this asteroid is destroyed by a bullet.
    pub fn score(&self) -> (s: u32)
        requires
            self.tier_ok(),
        ensures
            s == spec_tier(self.prototype_index as int).score,
    {
        self.prototype().score
    }

    /// Split on destruction by a bullet: a top-tier asteroid yields no
    /// children; any other yields exactly two children of the next tier at
    /// the parent's position, each with a freshly randomized direction at
    /// the next tier's speed.
    pub fn split(&self) -> (r: Option<(Asteroid, Asteroid)>)
        requires
            self.tier_ok(),
        ensures
            r is Some <==> self.prototype_index + 1 < TIER_COUNT,
            (match r {
                Option::Some(pair) => {
                    &&& pair.0.pos == self.pos
                    &&& pair.1.pos == self.pos
                    &&& pair.0.prototype_index == self.prototype_index + 1
                    &&& pair.1.prototype_index == self.prototype_index + 1
                    &&& pair.0.vel_ok()
                    &&& pair.1.vel_ok()
                },
                Option::None => self.prototype_index == TIER_COUNT - 1,
            }),
    {
        if self.prototype_index == TIER_COUNT - 1 {
            Option::None
        } else {
            Option::Some(
                (
                    Asteroid::new(self.prototype_index + 1, self.pos),
                    Asteroid::new(self.prototype_index + 1, self.pos),
                ),
            )
        }
    }
}

/// The placement rule for the `j`-th asteroid of `s`, spawned by
/// `Asteroid::try_place`: tier 0 with a tier-0 velocity, on screen, clear
/// of the avoid circle, and not overlapping any earlier asteroid of `s`.
pub open spec fn spawn_placement_ok(
    s: Seq<Asteroid>,
    j: int,
    bounds: Vec2,
    avoid_pos: Vec2,
    avoid_dist: int,
) -> bool {
    let a = s[j];
    &&& a.prototype_index == 0
    &&& a.vel_ok()
    &&& 0 <= a.pos.x <= bounds.x
    &&& 0 <= a.pos.y <= bounds.y
    &&& spec_dist_sq(a.pos, avoid_pos) >= (spec_tier(0).size + avoid_dist) * (spec_tier(0).size
        + avoid_dist)
    &&& forall|k: int|
        0 <= k < j ==> spec_dist_sq(a.pos, (#[trigger] s[k]).pos) >= (spec_tier(0).size
            + spec_tier(s[k].prototype_index as int).size) * (spec_tier(0).size + spec_tier(
            s[k].prototype_index as int,
        ).size)
}

impl Asteroid {
    /// Place one tier-0 asteroid at the candidate position exactly when
    /// the placement rule accepts it: the candidate must clear the avoid
    /// circle (its own radius plus `avoid_dist` around `avoid_pos`) and
    /// must not overlap any asteroid already in `v` by the radius sum.
    /// Returns whether the candidate was placed; a rejected candidate
    /// leaves `v` untouched.
    #[verifier::loop_isolation(false)]
    pub fn try_place(
        v: &mut Vec<Asteroid>,
        pos: Vec2,
        bounds: Vec2,
        avoid_pos: Vec2,
        avoid_dist: i64,
    ) -> (placed: bool)
        requires
            wf_bounds(bounds),
            0 <= avoid_dist <= 1_000_000,
            0 <= avoid_pos.x <= bounds.x,
            0 <= avoid_pos.y <= bounds.y,
            0 <= pos.x <= bounds.x,
            0 <= pos.y <= bounds.y,
            forall|k: int| 0 <= k < old(v)@.len() ==> (#[trigger] old(v)@[k]).wf(bounds),
        ensures
            placed <==> (spec_dist_sq(pos, avoid_pos) >= (spec_tier(0).size + avoid_dist) * (
            spec_tier(0).size + avoid_dist) && (forall|k: int|
                0 <= k < old(v)@.len() ==> spec_dist_sq(pos, (#[trigger] old(v)@[k]).pos) >= (
                spec_tier(0).size + spec_tier(old(v)@[k].prototype_index as int).size) * (
                spec_tier(0).size + spec_tier(old(v)@[k].prototype_index as int).size))),
            !placed ==> final(v)@ == old(v)@,
            placed ==> final(v)@ == old(v)@.push(final(v)@.last()),
            placed ==> {
                let a = final(v)@.last();
                &&& a.pos == pos
                &&& a.prototype_index == 0
                &&& a.vel_ok()
                &&& a.wf(bounds)
            },
            placed ==> spawn_placement_ok(
                final(v)@,
                old(v)@.len() as int,
                bounds,
                avoid_pos,
                avoid_dist as int,
            ),
            forall|k: int| 0 <= k < final(v)@.len() ==> (#[trigger] final(v)@[k]).wf(bounds),
    {
        let size0: i64 = tier(0).size;
        let clear: i64 = size0 + avoid_dist;
        proof {
            assert(0 <= clear * clear <= 2_000_000_000_000) by (nonlinear_arith)
                requires
                    0 <= clear <= 1_060_000,
            ;
        }
        if dist_sq(pos, avoid_pos) < clear * clear {
            return false;
        }
        let mut ok = true;
        let mut k: usize = 0;
        while k < v.len()
            invariant
                k <= v@.len(),
                ok ==> forall|m: int|
                    0 <= m < k ==> spec_dist_sq(pos, (#[trigger] v@[m]).pos) >= (spec_tier(
                        0,
                    ).size + spec_tier(v@[m].prototype_index as int).size) * (spec_tier(0).size
                        + spec_tier(v@[m].prototype_index as int).size),
                !ok ==> exists|m: int|
                    0 <= m < v@.len() && spec_dist_sq(pos, (#[trigger] v@[m]).pos) < (spec_tier(
                        0,
                    ).size + spec_tier(v@[m].prototype_index as int).size) * (spec_tier(0).size
                        + spec_tier(v@[m].prototype_index as int).size),
            decreases v@.len() - k,
        {
            let other: Asteroid = v[k];
            let rs: i64 = size0 + tier(other.prototype_index).size;
            proof {
                assert(0 <= rs * rs <= 100_000_000_000) by (nonlinear_arith)
                    requires
                        0 <= rs <= 200_000,
                ;
            }
            if dist_sq(pos, other.pos) < rs * rs {
                ok = false;
            }
            k = k + 1;
        }
        if ok {
            let ghost prev = v@;
            let a = Asteroid::new(0, pos);
            v.push(a);
            proof {
                assert(v@.subrange(0, prev.len() as int) =~= prev);
                assert(spawn_placement_ok(
                    v@,
                    prev.len() as int,
                    bounds,
                    avoid_pos,
                    avoid_dist as int,
                ));
            }
            true
        } else {
            false
        }
    }

    /// Fill `v` up to `count` asteroids of tier 0, handing uniformly drawn
    /// candidate positions to `try_place` until the count is reached.
    /// Sampling runs under a large but fixed attempt budget, so a
    /// pathological configuration (a clear radius large relative to the
    /// screen) starves the loop instead of hanging it; in that case fewer
    /// than `count` asteroids are placed.
    #[verifier::loop_isolation(false)]
    pub fn spawn_many(
        v: &mut Vec<Asteroid>,
        count: u32,
        bounds: Vec2,
        avoid_pos: Vec2,
        avoid_dist: i64,
    )
        requires
            wf_bounds(bounds),
            0 <= avoid_dist <= 1_000_000,
            0 <= avoid_pos.x <= bounds.x,
            0 <= avoid_pos.y <= bounds.y,
            forall|k: int| 0 <= k < old(v)@.len() ==> (#[trigger] old(v)@[k]).wf(bounds),
        ensures
            old(v)@.len() >= count as int ==> final(v)@ == old(v)@,
            old(v)@.len() < count as int ==> final(v)@.len() <= count as int,
            final(v)@.len() >= old(v)@.len(),
            final(v)@.subrange(0, old(v)@.len() as int) == old(v)@,
            forall|k: int| 0 <= k < final(v)@.len() ==> (#[trigger] final(v)@[k]).wf(bounds),
            forall|j: int|
                old(v)@.len() <= j < final(v)@.len() ==> spawn_placement_ok(
                    final(v)@,
                    j,
                    bounds,
                    avoid_pos,
                    avoid_dist as int,
                ),
    {
        let ghost n0: int = v@.len() as int;
        let mut attempts: u64 = 0;
        while v.len() < count as usize && attempts < SPAWN_ATTEMPTS
            invariant
                v@.len() >= n0,
                n0 < count as int ==> v@.len() <= count as int,
                n0 >= count as int ==> v@ == old(v)@,
                v@.subrange(0, n0) == old(v)@,
                forall|k: int| 0 <= k < v@.len() ==> (#[trigger] v@[k]).wf(bounds),
                forall|j: int|
                    n0 <= j < v@.len() ==> spawn_placement_ok(
                        v@,
                        j,
                        bounds,
                        avoid_pos,
                        avoid_dist as int,
                    ),
            decreases SPAWN_ATTEMPTS - attempts,
        {
            attempts = attempts + 1;
            let x: i64 = rand_range_i64(0, bounds.x);
            let y: i64 = rand_range_i64(0, bounds.y);
            let ghost prev = v@;
            let placed = Self::try_place(v, Vec2 { x, y }, bounds, avoid_pos, avoid_dist);
            proof {
                if placed {
                    assert(v@.subrange(0, n0) =~= prev.subrange(0, n0));
                    assert forall|j: int|
                        n0 <= j < prev.len() implies spawn_placement_ok(
                        v@,
                        j,
                        bounds,
                        avoid_pos,
                        avoid_dist as int,
                    ) by {
                        assert(spawn_placement_ok(prev, j, bounds, avoid_pos, avoid_dist as int));
                    }
                }
            }
        }
    }
}

} // verus!
