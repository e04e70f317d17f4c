//! The session state and the once-per-frame simulation step.

use vstd::prelude::*;

use crate::collide::{resolve_collisions, resolve_upto, CollisionOutcome};
use crate::config::{
    ASTEROID_STARTING_COUNT, DT_MAX, PLAYER_CLEAR_RADIUS, SCALE, SHOT_COOLDOWN, TAU_MRAD,
    TURN_SPEED,
};
use crate::entities::{spawn_placement_ok, wf_bounds, Asteroid, Bullet, Player};
use crate::geom::{mul_div, Vec2};
use crate::motion::{
    integrate_player, move_asteroids, spec_fired, spec_live_bullets, spec_move_ast,
    spec_new_bullet, spec_player_after, step_bullets, wf_input, FrameInput,
};
use crate::config::{BULLET_MAX_LIFE, BULLET_SPEED};

verus! {

/// Which way the player is turning this frame.
#[derive(Clone, Copy, PartialEq, Eq, Structural, Debug)]
pub enum TurnInput {
    Left,
    Straight,
    Right,
}

/// The side-effect cues one step reports back to the caller: a shot was
/// fired, bullets exploded asteroids, the player died. The caller plays
/// the matching sounds; the simulation itself is pure.
#[derive(Clone, Copy, PartialEq, Eq, Structural, Debug)]
pub struct StepEvents {
    pub fired: bool,
    pub explosions: usize,
    pub died: bool,
}

/// Powers of two.
pub open spec fn p2(k: int) -> int
    decreases k,
{
    if k <= 0 {
        1
    } else {
        2 * p2(k - 1)
    }
}

/// Floor of the base-2 logarithm, with anything below 2 mapped to 0.
pub open spec fn spec_log2(n: int) -> int
    decreases n,
{
    if n < 2 {
        0
    } else {
        1 + spec_log2(n / 2)
    }
}

/// The size of a fresh wave at a given score.
pub open spec fn spec_wave_target(score: int) -> int {
    spec_log2(score) + ASTEROID_STARTING_COUNT
}

proof fn lemma_p2_pos(k: int)
    ensures
        p2(k) >= 1,
    decreases k,
{
    if k > 0 {
        lemma_p2_pos(k - 1);
    }
}

proof fn lemma_p2_mono(i: int, j: int)
    requires
        0 <= i <= j,
    ensures
        p2(i) <= p2(j),
    decreases j,
{
    if i < j {
        lemma_p2_mono(i, j - 1);
        lemma_p2_pos(j - 1);
    }
}

proof fn lemma_p2_31()
    ensures
        p2(31) == 0x8000_0000,
{
    reveal_with_fuel(p2, 33);
}

proof fn lemma_log2_lb(m: int)
    requires
        1 <= m,
    ensures
        0 <= spec_log2(m),
        p2(spec_log2(m)) <= m,
    decreases m,
{
    if m >= 2 {
        lemma_log2_lb(m / 2);
    }
}

/// Floor of the base-2 logarithm of a 32-bit score; 0 and 1 map to 0.
pub fn floor_log2_u32(n: u32) -> (r: u32)
    ensures
        r as int == spec_log2(n as int),
        r <= 31,
    decreases n,
{
    if n < 2 {
        0
    } else {
        let s: u32 = floor_log2_u32(n / 2);
        proof {
            lemma_log2_lb(n as int / 2);
            if s >= 31 {
                lemma_p2_mono(31, s as int);
                lemma_p2_31();
                assert(false);
            }
        }
        1 + s
    }
}

/// The turn applied in one frame, reduced to one revolution.
pub open spec fn spec_turn_step(dt: int) -> int {
    (TURN_SPEED as int * dt / (SCALE as int)) % (TAU_MRAD as int)
}

/// The facing angle after one frame of turning, kept in `[0, TAU_MRAD)`.
pub open spec fn spec_angle_after(a: int, turning: TurnInput, dt: int) -> int {
    match turning {
        TurnInput::Straight => a,
        TurnInput::Right => (a + spec_turn_step(dt)) % (TAU_MRAD as int),
        TurnInput::Left => (a + TAU_MRAD - spec_turn_step(dt)) % (TAU_MRAD as int),
    }
}

/// One game session: the player, the live bullets and asteroids, the
/// score, the level counter and the game-over flag.
pub struct State {
    pub player: Player,
    pub bullets: Vec<Bullet>,
    pub asteroids: Vec<Asteroid>,
    pub score: u32,
    pub game_over: bool,
    pub level: u32,
}

impl State {
    /// Every entity of the session is well-formed for these bounds.
    pub open spec fn wf(self, bounds: Vec2) -> bool {
        &&& self.player.wf(bounds)
        &&& forall|k: int| 0 <= k < self.bullets@.len() ==> (#[trigger] self.bullets@[k]).wf(
            bounds,
        )
        &&& forall|k: int| 0 <= k < self.asteroids@.len() ==> (#[trigger] self.asteroids@[k]).wf(
            bounds,
        )
    }

    /// A fresh session: the player centered, at rest and ready to fire;
    /// no bullets; score zero, level one; and the starting wave of tier-0
    /// asteroids placed clear of the player and of each other.
    pub fn new(screen_bounds: Vec2) -> (s: State)
        requires
            wf_bounds(screen_bounds),
        ensures
            s.player.pos.x as int == screen_bounds.x as int / 2,
            s.player.pos.y as int == screen_bounds.y as int / 2,
            s.player.angle_mrad == 0,
            s.player.velocity == (Vec2 { x: 0, y: 0 }),
            s.player.shot_cooldown == 0,
            s.bullets@.len() == 0,
            s.score == 0,
            !s.game_over,
            s.level == 1,
            s.asteroids@.len() <= ASTEROID_STARTING_COUNT,
            forall|j: int|
                0 <= j < s.asteroids@.len() ==> spawn_placement_ok(
                    s.asteroids@,
                    j,
                    screen_bounds,
                    s.player.pos,
                    PLAYER_CLEAR_RADIUS as int,
                ),
            s.wf(screen_bounds),
    {
        let px: i64 = ((screen_bounds.x as u64) / 2) as i64;
        let py: i64 = ((screen_bounds.y as u64) / 2) as i64;
        let player = Player {
            pos: Vec2 { x: px, y: py },
            angle_mrad: 0,
            velocity: Vec2 { x: 0, y: 0 },
            shot_cooldown: 0,
        };
        let mut asteroids: Vec<Asteroid> = Vec::new();
        Asteroid::spawn_many(
            &mut asteroids,
            ASTEROID_STARTING_COUNT,
            screen_bounds,
            player.pos,
            PLAYER_CLEAR_RADIUS,
        );
        let bullets: Vec<Bullet> = Vec::new();
        State { player, bullets, asteroids, score: 0, game_over: false, level: 1 }
    }

    /// Turn the ship: the turn rate times the frame delta is added to (or
    /// subtracted from) the facing angle, modulo one revolution. Nothing
    /// else changes.
    pub fn apply_turn(&mut self, turning: TurnInput, dt: i64)
        requires
            0 <= dt <= DT_MAX,
            0 <= old(self).player.angle_mrad < TAU_MRAD,
        ensures
            final(self).player.angle_mrad as int == spec_angle_after(
                old(self).player.angle_mrad as int,
                turning,
                dt as int,
            ),
            0 <= final(self).player.angle_mrad < TAU_MRAD,
            final(self).player.pos == old(self).player.pos,
            final(self).player.velocity == old(self).player.velocity,
            final(self).player.shot_cooldown == old(self).player.shot_cooldown,
            final(self).bullets@ == old(self).bullets@,
            final(self).asteroids@ == old(self).asteroids@,
            final(self).score == old(self).score,
            final(self).game_over == old(self).game_over,
            final(self).level == old(self).level,
    {
        let sraw: u64 = (TURN_SPEED * dt) as u64 / (SCALE as u64);
        let s: u64 = sraw % (TAU_MRAD as u64);
        let a: u64 = self.player.angle_mrad as u64;
        let na: u64 = match turning {
            TurnInput::Straight => a,
            TurnInput::Right => (a + s) % (TAU_MRAD as u64),
            TurnInput::Left => (a + (TAU_MRAD as u64) - s) % (TAU_MRAD as u64),
        };
        self.player.angle_mrad = na as i64;
    }

    /// One simulation step, given the frame's inputs and the fixed screen
    /// bounds. In order: the player integrates (cooldown, thrust,
    /// friction, speed clamp, movement, wrap) and a shot may fire; the
    /// bullets (the new one included) age, move, wrap and expire; the
    /// asteroids move and wrap; collisions resolve with splitting and
    /// scoring; and an emptied field triggers the next wave and a level
    /// bump. The returned events say which sound cues the frame owes.
    pub fn step(&mut self, input: FrameInput, screen_bounds: Vec2) -> (ev: StepEvents)
        requires
            old(self).wf(screen_bounds),
            wf_input(input),
            wf_bounds(screen_bounds),
        ensures
            ({
                let p0 = old(self).player;
                let pa = spec_player_after(p0, input, screen_bounds);
                let fired = spec_fired(p0, input);
                let bs_in = if fired {
                    old(self).bullets@.push(spec_new_bullet(pa, input.heading))
                } else {
                    old(self).bullets@
                };
                let bs1 = spec_live_bullets(bs_in, input.dt as int, screen_bounds);
                let as1 = old(self).asteroids@.map_values(
                    |a: Asteroid| spec_move_ast(a, input.dt as int, screen_bounds),
                );
                let r = resolve_upto(as1, bs1, pa.pos, as1.len() as int);
                let score1 = if old(self).score + r.score <= u32::MAX {
                    old(self).score + r.score
                } else {
                    u32::MAX as int
                };
                &&& final(self).player == pa
                &&& ev.fired == fired
                &&& final(self).bullets@ == r.bullets
                &&& ev.explosions as int == bs1.len() - r.bullets.len()
                &&& ev.died == r.dead
                &&& final(self).score as int == score1
                &&& final(self).game_over == (old(self).game_over || r.dead)
                &&& (r.survivors.len() + r.kids.len() > 0 ==> {
                    &&& final(self).level == old(self).level
                    &&& final(self).asteroids@.len() == r.survivors.len() + r.kids.len()
                    &&& final(self).asteroids@.subrange(0, r.survivors.len() as int)
                        == r.survivors
                    &&& forall|c: int|
                        0 <= c < r.kids.len() ==> {
                            let kc = #[trigger] final(self).asteroids@[r.survivors.len() + c];
                            &&& kc.pos == r.kids[c].pos
                            &&& kc.prototype_index == r.kids[c].tier
                            &&& kc.vel_ok()
                        }
                })
                &&& (r.survivors.len() + r.kids.len() == 0 ==> {
                    &&& final(self).level as int == if old(self).level < u32::MAX {
                        old(self).level + 1
                    } else {
                        old(self).level as int
                    }
                    &&& final(self).asteroids@.len() <= spec_wave_target(score1)
                    &&& forall|j: int|
                        0 <= j < final(self).asteroids@.len() ==> spawn_placement_ok(
                            final(self).asteroids@,
                            j,
                            screen_bounds,
                            pa.pos,
                            PLAYER_CLEAR_RADIUS as int,
                        )
                })
            }),
            final(self).wf(screen_bounds),
            // the shot cooldown never goes negative, and a fire request is
            // honored exactly when the cooldown was spent at the start
            final(self).player.shot_cooldown >= 0,
            ev.fired <==> (input.fire && old(self).player.shot_cooldown <= 0),
            ev.fired ==> final(self).player.shot_cooldown == SHOT_COOLDOWN,
            !ev.fired ==> final(self).player.shot_cooldown == (
            if old(self).player.shot_cooldown - input.dt > 0 {
                old(self).player.shot_cooldown - input.dt
            } else {
                0int
            }),
    {
        let fired = integrate_player(&mut self.player, input, screen_bounds);
        if fired {
            let bvx: i64 = mul_div(input.heading.x, BULLET_SPEED, SCALE);
            let bvy: i64 = mul_div(input.heading.y, BULLET_SPEED, SCALE);
            self.bullets.push(
                Bullet {
                    pos: self.player.pos,
                    velocity: Vec2 { x: bvx, y: bvy },
                    life: BULLET_MAX_LIFE,
                },
            );
        }
        step_bullets(&mut self.bullets, input.dt, screen_bounds);
        move_asteroids(&mut self.asteroids, input.dt, screen_bounds);
        let out: CollisionOutcome = resolve_collisions(
            &mut self.asteroids,
            &mut self.bullets,
            self.player.pos,
            screen_bounds,
        );
        let head: u128 = (u32::MAX - self.score) as u128;
        if out.score_delta <= head {
            self.score = self.score + (out.score_delta as u32);
        } else {
            self.score = u32::MAX;
        }
        if out.died {
            self.game_over = true;
        }
        if self.asteroids.len() == 0 {
            let target: u32 = floor_log2_u32(self.score) + ASTEROID_STARTING_COUNT;
            Asteroid::spawn_many(
                &mut self.asteroids,
                target,
                screen_bounds,
                self.player.pos,
                PLAYER_CLEAR_RADIUS,
            );
            self.level = if self.level < u32::MAX {
                self.level + 1
            } else {
                self.level
            };
        }
        StepEvents { fired, explosions: out.exploded, died: out.died }
    }
}

} // verus!
