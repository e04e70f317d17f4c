//! Per-frame movement integration: thrust, friction, the speed clamp,
//! position updates and screen wrapping, for the player, bullets and
//! asteroids.

use vstd::prelude::*;

use crate::config::{
    spec_tier, tier, ACCELERATION, BULLET_MAX_LIFE, BULLET_SPEED, DT_MAX, FRICTION, MAX_SPEED,
    SCALE, SHOT_COOLDOWN,
};
use crate::entities::{wf_bounds, Asteroid, Bullet, Player};
use crate::geom::{
    iabs, isqrt_ceil_u64, mul_div, spec_mul_div, spec_rescale, spec_wrap, spec_wrap_margin,
    sqrt_ceil, rescale, wrap_coord, wrap_margin, Vec2,
};

verus! {

/// One frame's already-sampled inputs: the elapsed time, the held keys,
/// and the ship's current heading as a fixed-point unit vector (the caller
/// supplies `(cos, sin)` of the facing angle, scaled by `SCALE` and
/// rounded; the squared magnitude must stay within 0.2% of `SCALE`
/// squared, which rounded trigonometry always meets).
#[derive(Clone, Copy, PartialEq, Eq, Structural, Debug)]
pub struct FrameInput {
    pub dt: i64,
    pub thrust: bool,
    pub fire: bool,
    pub heading: Vec2,
}

pub open spec fn wf_input(inp: FrameInput) -> bool {
    &&& 0 <= inp.dt <= DT_MAX
    &&& iabs(inp.heading.x as int) <= SCALE
    &&& iabs(inp.heading.y as int) <= SCALE
    &&& 998_000 <= inp.heading.sq_mag() <= 1_002_000
}

/// A shot fires exactly when the fire input is held and the cooldown has
/// run out at the start of the step.
pub open spec fn spec_fired(p: Player, inp: FrameInput) -> bool {
    inp.fire && p.shot_cooldown <= 0
}

/// Velocity after thrust: while the thrust input is held, the heading
/// direction times the acceleration constant, scaled by the frame delta,
/// is added on.
pub open spec fn spec_thrust_vel(p: Player, inp: FrameInput) -> Vec2 {
    if inp.thrust {
        Vec2 {
            x: (p.velocity.x + spec_mul_div(
                inp.heading.x as int,
                ACCELERATION * inp.dt,
                SCALE * SCALE,
            )) as i64,
            y: (p.velocity.y + spec_mul_div(
                inp.heading.y as int,
                ACCELERATION * inp.dt,
                SCALE * SCALE,
            )) as i64,
        }
    } else {
        p.velocity
    }
}

/// Friction: subtract `d` from the velocity's magnitude along its own
/// direction, stopping at zero if the decrement overshoots.
pub open spec fn spec_friction(v: Vec2, d: int) -> Vec2 {
    if v.is_zero() {
        v
    } else {
        let m = sqrt_ceil(v.sq_mag());
        if d >= m {
            Vec2 { x: 0, y: 0 }
        } else {
            Vec2 {
                x: (v.x - spec_mul_div(v.x as int, d, m)) as i64,
                y: (v.y - spec_mul_div(v.y as int, d, m)) as i64,
            }
        }
    }
}

/// Magnitude-preserving deceleration, rounding toward zero; never speeds
/// the ship up or flips a component's sign.
fn apply_friction(v: Vec2, d: i64) -> (r: Vec2)
    requires
        0 <= d <= 1_000_000,
        iabs(v.x as int) <= 1_000_000_000,
        iabs(v.y as int) <= 1_000_000_000,
    ensures
        r == spec_friction(v, d as int),
        iabs(r.x as int) <= iabs(v.x as int),
        iabs(r.y as int) <= iabs(v.y as int),
        r.sq_mag() <= v.sq_mag(),
{
    if v.x == 0 && v.y == 0 {
        return v;
    }
    proof {
        assert(0 <= v.x * v.x <= 1_000_000_000_000_000_000 && 0 <= v.y * v.y
            <= 1_000_000_000_000_000_000) by (nonlinear_arith)
            requires
                iabs(v.x as int) <= 1_000_000_000,
                iabs(v.y as int) <= 1_000_000_000,
        ;
    }
    let sq: i64 = v.x * v.x + v.y * v.y;
    let m: u64 = isqrt_ceil_u64(sq as u64);
    proof {
        crate::geom::lemma_sqrt_ceil_bounds(sq as int);
    }
    if d as u64 >= m {
        let r = Vec2 { x: 0, y: 0 };
        proof {
            assert(r.sq_mag() <= v.sq_mag()) by (nonlinear_arith)
                requires
                    r.sq_mag() == 0,
                    0 <= v.x * v.x,
                    0 <= v.y * v.y,
                    v.sq_mag() == v.x * v.x + v.y * v.y,
            ;
        }
        return r;
    }
    let mi: i64 = m as i64;
    proof {
        assert(iabs(v.x as int) * d <= 1_000_000_000_000_000 && iabs(v.y as int) * d
            <= 1_000_000_000_000_000) by (nonlinear_arith)
            requires
                iabs(v.x as int) <= 1_000_000_000,
                iabs(v.y as int) <= 1_000_000_000,
                0 <= d <= 1_000_000,
        ;
    }
    let fx: i64 = mul_div(v.x, d, mi);
    let fy: i64 = mul_div(v.y, d, mi);
    let r = Vec2 { x: v.x - fx, y: v.y - fy };
    proof {
        assert(iabs(r.x as int) <= iabs(v.x as int) && iabs(r.y as int) <= iabs(v.y as int));
        assert(r.sq_mag() <= v.sq_mag()) by (nonlinear_arith)
            requires
                iabs(r.x as int) <= iabs(v.x as int),
                iabs(r.y as int) <= iabs(v.y as int),
                r.sq_mag() == r.x * r.x + r.y * r.y,
                v.sq_mag() == v.x * v.x + v.y * v.y,
        ;
    }
    r
}

/// The player's state after one integration step: cooldown decrement and
/// reload, thrust, friction, the speed clamp on the resulting
/// (post-friction) magnitude, movement, and the hard screen wrap. The
/// facing angle is not touched here.
pub open spec fn spec_player_after(p: Player, inp: FrameInput, bounds: Vec2) -> Player {
    let fired = spec_fired(p, inp);
    let cd1 = if p.shot_cooldown - inp.dt > 0 {
        p.shot_cooldown - inp.dt
    } else {
        0int
    };
    let cd = if fired {
        SHOT_COOLDOWN as int
    } else {
        cd1
    };
    let v1 = spec_thrust_vel(p, inp);
    let d = FRICTION as int * inp.dt as int / (SCALE as int);
    let v2 = spec_friction(v1, d);
    let s2 = v2.sq_mag();
    let v3 = if s2 > MAX_SPEED * MAX_SPEED {
        spec_rescale(v2, MAX_SPEED as int)
    } else if s2 < 0 {
        // a squared magnitude is never negative, so this guard never fires;
        // it is kept deliberately as a harmless no-op rather than removed
        Vec2 { x: 0, y: 0 }
    } else {
        v2
    };
    let px = spec_wrap(p.pos.x + spec_mul_div(v3.x as int, inp.dt as int, SCALE as int), bounds.x as int);
    let py = spec_wrap(p.pos.y + spec_mul_div(v3.y as int, inp.dt as int, SCALE as int), bounds.y as int);
    Player {
        pos: Vec2 { x: px as i64, y: py as i64 },
        angle_mrad: p.angle_mrad,
        velocity: v3,
        shot_cooldown: cd as i64,
    }
}

/// Integrate the player for one frame. Returns whether a shot fires this
/// frame (fire held and cooldown spent).
pub fn integrate_player(p: &mut Player, inp: FrameInput, bounds: Vec2) -> (fired: bool)
    requires
        old(p).wf(bounds),
        wf_input(inp),
        wf_bounds(bounds),
    ensures
        *final(p) == spec_player_after(*old(p), inp, bounds),
        fired == spec_fired(*old(p), inp),
        final(p).wf(bounds),
{
    let fired = inp.fire && p.shot_cooldown <= 0;
    let cd_dec: i64 = p.shot_cooldown - inp.dt;
    let cd1: i64 = if cd_dec > 0 {
        cd_dec
    } else {
        0
    };
    let cd: i64 = if fired {
        SHOT_COOLDOWN
    } else {
        cd1
    };
    let v1: Vec2 = if inp.thrust {
        let adt: i64 = ACCELERATION * inp.dt;
        proof {
            assert(iabs(inp.heading.x as int) * adt <= 500_000_000_000_000 && iabs(
                inp.heading.y as int,
            ) * adt <= 500_000_000_000_000) by (nonlinear_arith)
                requires
                    iabs(inp.heading.x as int) <= 1000,
                    iabs(inp.heading.y as int) <= 1000,
                    0 <= adt <= 500_000_000_000,
            ;
        }
        let dvx: i64 = mul_div(inp.heading.x, adt, SCALE * SCALE);
        let dvy: i64 = mul_div(inp.heading.y, adt, SCALE * SCALE);
        Vec2 { x: p.velocity.x + dvx, y: p.velocity.y + dvy }
    } else {
        p.velocity
    };
    let d: i64 = ((FRICTION * inp.dt) as u64 / (SCALE as u64)) as i64;
    proof {
        assert(d as int == FRICTION as int * inp.dt as int / (SCALE as int));
    }
    let v2 = apply_friction(v1, d);
    proof {
        assert(0 <= v2.x * v2.x <= 1_000_000_000_000_000_000 && 0 <= v2.y * v2.y
            <= 1_000_000_000_000_000_000) by (nonlinear_arith)
            requires
                iabs(v2.x as int) <= 1_000_000_000,
                iabs(v2.y as int) <= 1_000_000_000,
        ;
    }
    let s2: i64 = v2.x * v2.x + v2.y * v2.y;
    let v3: Vec2 = if s2 > MAX_SPEED * MAX_SPEED {
        proof {
            assert(v2.x != 0 || v2.y != 0) by (nonlinear_arith)
                requires
                    s2 == v2.x * v2.x + v2.y * v2.y,
                    s2 > 0,
            ;
        }
        rescale(v2, MAX_SPEED)
    } else if s2 < 0 {
        // a squared magnitude is never negative, so this guard never fires;
        // it is kept deliberately as a harmless no-op rather than removed
        Vec2 { x: 0, y: 0 }
    } else {
        v2
    };
    proof {
        if s2 <= MAX_SPEED * MAX_SPEED {
            assert(iabs(v3.x as int) <= MAX_SPEED && iabs(v3.y as int) <= MAX_SPEED)
                by (nonlinear_arith)
                requires
                    v3.sq_mag() <= 1_000_000_000_000,
                    v3.sq_mag() == v3.x * v3.x + v3.y * v3.y,
            ;
        }
        assert(iabs(v3.x as int) * inp.dt <= 1_000_000_000_000 && iabs(v3.y as int) * inp.dt
            <= 1_000_000_000_000_000_000) by (nonlinear_arith)
            requires
                iabs(v3.x as int) <= 1_000_000,
                iabs(v3.y as int) <= 1_000_000,
                0 <= inp.dt <= 1_000_000,
        ;
    }
    let mvx: i64 = mul_div(v3.x, inp.dt, SCALE);
    let mvy: i64 = mul_div(v3.y, inp.dt, SCALE);
    let px: i64 = wrap_coord(p.pos.x + mvx, bounds.x);
    let py: i64 = wrap_coord(p.pos.y + mvy, bounds.y);
    *p = Player {
        pos: Vec2 { x: px, y: py },
        angle_mrad: p.angle_mrad,
        velocity: v3,
        shot_cooldown: cd,
    };
    fired
}

/// The bullet a firing frame appends: spawned at the player's (already
/// integrated) position, along the heading at the fixed bullet speed,
/// with full life.
pub open spec fn spec_new_bullet(pa: Player, heading: Vec2) -> Bullet {
    Bullet {
        pos: pa.pos,
        velocity: Vec2 {
            x: spec_mul_div(heading.x as int, BULLET_SPEED as int, SCALE as int) as i64,
            y: spec_mul_div(heading.y as int, BULLET_SPEED as int, SCALE as int) as i64,
        },
        life: BULLET_MAX_LIFE,
    }
}

/// One bullet after one frame: life runs down, the position advances and
/// wraps at the hard screen edge.
pub open spec fn spec_move_bullet(b: Bullet, dt: int, bounds: Vec2) -> Bullet {
    Bullet {
        pos: Vec2 {
            x: spec_wrap(b.pos.x + spec_mul_div(b.velocity.x as int, dt, SCALE as int), bounds.x as int) as i64,
            y: spec_wrap(b.pos.y + spec_mul_div(b.velocity.y as int, dt, SCALE as int), bounds.y as int) as i64,
        },
        velocity: b.velocity,
        life: (b.life - dt) as i64,
    }
}

/// All bullets after one frame, in order, with the expired ones (life at
/// or below zero) removed.
pub open spec fn spec_live_bullets(bs: Seq<Bullet>, dt: int, bounds: Vec2) -> Seq<Bullet>
    decreases bs.len(),
{
    if bs.len() == 0 {
        Seq::empty()
    } else {
        let pre = spec_live_bullets(bs.drop_last(), dt, bounds);
        let mb = spec_move_bullet(bs.last(), dt, bounds);
        if mb.life > 0 {
            pre.push(mb)
        } else {
            pre
        }
    }
}

/// Advance every bullet by one frame and drop the expired ones.
#[verifier::loop_isolation(false)]
pub fn step_bullets(bullets: &mut Vec<Bullet>, dt: i64, bounds: Vec2)
    requires
        0 <= dt <= DT_MAX,
        wf_bounds(bounds),
        forall|k: int| 0 <= k < old(bullets)@.len() ==> (#[trigger] old(bullets)@[k]).wf(bounds),
    ensures
        final(bullets)@ == spec_live_bullets(old(bullets)@, dt as int, bounds),
        forall|k: int| 0 <= k < final(bullets)@.len() ==> (#[trigger] final(bullets)@[k]).wf(
            bounds,
        ),
{
    let ghost bs_in = bullets@;
    let mut out: Vec<Bullet> = Vec::new();
    let mut j: usize = 0;
    while j < bullets.len()
        invariant
            j <= bs_in.len(),
            bullets@ == bs_in,
            out@ == spec_live_bullets(bs_in.take(j as int), dt as int, bounds),
            forall|k: int| 0 <= k < out@.len() ==> (#[trigger] out@[k]).wf(bounds),
        decreases bs_in.len() - j,
    {
        let b: Bullet = bullets[j];
        proof {
            assert(iabs(b.velocity.x as int) * dt <= 1_000_000_000_000 && iabs(
                b.velocity.y as int,
            ) * dt <= 1_000_000_000_000) by (nonlinear_arith)
                requires
                    iabs(b.velocity.x as int) <= 1_000_000,
                    iabs(b.velocity.y as int) <= 1_000_000,
                    0 <= dt <= 1_000_000,
            ;
        }
        let mvx: i64 = mul_div(b.velocity.x, dt, SCALE);
        let mvy: i64 = mul_div(b.velocity.y, dt, SCALE);
        let nb = Bullet {
            pos: Vec2 {
                x: wrap_coord(b.pos.x + mvx, bounds.x),
                y: wrap_coord(b.pos.y + mvy, bounds.y),
            },
            velocity: b.velocity,
            life: b.life - dt,
        };
        if nb.life > 0 {
            out.push(nb);
        }
        proof {
            assert(bs_in.take(j as int + 1).drop_last() =~= bs_in.take(j as int));
            assert(bs_in.take(j as int + 1).last() == bs_in[j as int]);
        }
        j = j + 1;
    }
    proof {
        assert(bs_in.take(bs_in.len() as int) =~= bs_in);
    }
    *bullets = out;
}

/// One asteroid after one frame: the position advances and wraps with the
/// asteroid's own radius as margin, so it fully leaves the screen before
/// reappearing on the opposite edge.
pub open spec fn spec_move_ast(a: Asteroid, dt: int, bounds: Vec2) -> Asteroid {
    let sz = spec_tier(a.prototype_index as int).size as int;
    Asteroid {
        pos: Vec2 {
            x: spec_wrap_margin(
                a.pos.x + spec_mul_div(a.velocity.x as int, dt, SCALE as int),
                bounds.x as int,
                sz,
            ) as i64,
            y: spec_wrap_margin(
                a.pos.y + spec_mul_div(a.velocity.y as int, dt, SCALE as int),
                bounds.y as int,
                sz,
            ) as i64,
        },
        velocity: a.velocity,
        prototype_index: a.prototype_index,
    }
}

/// Advance every asteroid by one frame.
#[verifier::loop_isolation(false)]
pub fn move_asteroids(asteroids: &mut Vec<Asteroid>, dt: i64, bounds: Vec2)
    requires
        0 <= dt <= DT_MAX,
        wf_bounds(bounds),
        forall|k: int| 0 <= k < old(asteroids)@.len() ==> (#[trigger] old(asteroids)@[k]).wf(
            bounds,
        ),
    ensures
        final(asteroids)@ == old(asteroids)@.map_values(
            |a: Asteroid| spec_move_ast(a, dt as int, bounds),
        ),
        forall|k: int| 0 <= k < final(asteroids)@.len() ==> (#[trigger] final(asteroids)@[k]).wf(
            bounds,
        ),
{
    let ghost as_in = asteroids@;
    let mut out: Vec<Asteroid> = Vec::new();
    let mut j: usize = 0;
    while j < asteroids.len()
        invariant
            j <= as_in.len(),
            asteroids@ == as_in,
            out@.len() == j,
            forall|k: int| 0 <= k < j ==> out@[k] == spec_move_ast(as_in[k], dt as int, bounds),
            forall|k: int| 0 <= k < out@.len() ==> (#[trigger] out@[k]).wf(bounds),
        decreases as_in.len() - j,
    {
        let a: Asteroid = asteroids[j];
        proof {
            assert(iabs(a.velocity.x as int) * dt <= 1_000_000_000_000 && iabs(
                a.velocity.y as int,
            ) * dt <= 1_000_000_000_000) by (nonlinear_arith)
                requires
                    iabs(a.velocity.x as int) <= 1_000_000,
                    iabs(a.velocity.y as int) <= 1_000_000,
                    0 <= dt <= 1_000_000,
            ;
        }
        let sz: i64 = tier(a.prototype_index).size;
        let mvx: i64 = mul_div(a.velocity.x, dt, SCALE);
        let mvy: i64 = mul_div(a.velocity.y, dt, SCALE);
        let na = Asteroid {
            pos: Vec2 {
                x: wrap_margin(a.pos.x + mvx, bounds.x, sz),
                y: wrap_margin(a.pos.y + mvy, bounds.y, sz),
            },
            velocity: a.velocity,
            prototype_index: a.prototype_index,
        };
        out.push(na);
        j = j + 1;
    }
    proof {
        assert(out@ =~= as_in.map_values(|a: Asteroid| spec_move_ast(a, dt as int, bounds)));
    }
    *asteroids = out;
}

} // verus!
