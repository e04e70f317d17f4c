use asteroids_core::config::{BULLET_MAX_LIFE, SHOT_COOLDOWN};
use asteroids_core::entities::{Asteroid, Bullet, Player};
use asteroids_core::geom::Vec2;
use asteroids_core::motion::FrameInput;
use asteroids_core::state::State;

const BOUNDS: Vec2 = Vec2 { x: 1_024_000, y: 768_000 };

fn quiet_state() -> State {
    // a single far-away asteroid keeps the wave manager idle
    let rock = Asteroid {
        pos: Vec2 { x: 950_000, y: 700_000 },
        velocity: Vec2 { x: 0, y: 0 },
        prototype_index: 2,
    };
    State {
        player: Player {
            pos: Vec2 { x: 200_000, y: 200_000 },
            angle_mrad: 0,
            velocity: Vec2 { x: 0, y: 0 },
            shot_cooldown: 0,
        },
        bullets: Vec::new(),
        asteroids: vec![rock],
        score: 0,
        game_over: false,
        level: 1,
    }
}

fn input(dt: i64, thrust: bool, fire: bool) -> FrameInput {
    FrameInput { dt, thrust, fire, heading: Vec2 { x: 1000, y: 0 } }
}

// Cooldown law: a fire request is honored iff the cooldown is spent at the
// start of the step; firing reloads the full cooldown.
#[test]
fn fire_honored_iff_cooldown_spent() {
    let mut s = quiet_state();
    let ev = s.step(input(16, false, true), BOUNDS);
    assert!(ev.fired);
    assert_eq!(s.player.shot_cooldown, SHOT_COOLDOWN);
    assert_eq!(s.bullets.len(), 1);

    let ev = s.step(input(16, false, true), BOUNDS);
    assert!(!ev.fired);
    assert_eq!(s.player.shot_cooldown, SHOT_COOLDOWN - 16);
    // the held fire input was not honored, so no second bullet appeared
    assert_eq!(s.bullets.len(), 1);
}

#[test]
fn no_fire_without_input() {
    let mut s = quiet_state();
    let ev = s.step(input(16, false, false), BOUNDS);
    assert!(!ev.fired);
    assert!(s.bullets.is_empty());
}

// Cooldown law: the cooldown decrements by the frame delta and never goes
// negative.
#[test]
fn cooldown_clamps_at_zero() {
    let mut s = quiet_state();
    s.player.shot_cooldown = 100;
    let ev = s.step(input(64, false, true), BOUNDS);
    assert!(!ev.fired);
    assert_eq!(s.player.shot_cooldown, 36);
    let ev = s.step(input(1_000_000, false, false), BOUNDS);
    assert!(!ev.fired);
    assert_eq!(s.player.shot_cooldown, 0);
}

#[test]
fn new_bullet_speed_and_life() {
    let mut s = quiet_state();
    s.step(input(0, false, true), BOUNDS);
    assert_eq!(s.bullets.len(), 1);
    let b = &s.bullets[0];
    // fired along the heading at the fixed bullet speed, at the player
    assert_eq!(b.velocity, Vec2 { x: 1_000_000, y: 0 });
    assert_eq!(b.pos, s.player.pos);
    assert_eq!(b.life, BULLET_MAX_LIFE);
}

#[test]
fn bullet_expires_when_life_runs_out() {
    let mut s = quiet_state();
    s.bullets.push(Bullet {
        pos: Vec2 { x: 500_000, y: 100_000 },
        velocity: Vec2 { x: 0, y: 0 },
        life: 500,
    });
    s.step(input(499, false, false), BOUNDS);
    assert_eq!(s.bullets.len(), 1);
    assert_eq!(s.bullets[0].life, 1);
    s.step(input(1, false, false), BOUNDS);
    assert!(s.bullets.is_empty());
}

// Wrap invariant for bullets: crossing the right edge teleports to x = 0.
#[test]
fn bullet_wraps_at_screen_edge() {
    let mut s = quiet_state();
    s.bullets.push(Bullet {
        pos: Vec2 { x: 1_023_000, y: 100_000 },
        velocity: Vec2 { x: 1_000_000, y: 0 },
        life: 500,
    });
    s.step(input(16, false, false), BOUNDS);
    assert_eq!(s.bullets.len(), 1);
    assert_eq!(s.bullets[0].pos.x, 0);
    assert_eq!(s.bullets[0].pos.y, 100_000);
}

// The player's velocity is clamped to exactly the speed limit when thrust
// overshoots it (axis-aligned case is exact in fixed point).
#[test]
fn player_speed_clamped_to_max() {
    let mut s = quiet_state();
    s.player.velocity = Vec2 { x: 1_000_000, y: 0 };
    s.step(input(1_000_000, true, false), BOUNDS);
    assert_eq!(s.player.velocity, Vec2 { x: 1_000_000, y: 0 });
}

#[test]
fn player_integration_exact_frame() {
    let mut s = quiet_state();
    s.player.pos = Vec2 { x: 512_000, y: 384_000 };
    // one second of thrust along +x from rest
    s.step(input(1000, true, false), BOUNDS);
    // thrust: +500_000; friction: -100 over one second at the ceiling
    // magnitude, so 500_000 * 100 / 500_000 = 100 comes off
    assert_eq!(s.player.velocity, Vec2 { x: 499_900, y: 0 });
    // the position advances by the post-friction velocity for one second
    assert_eq!(s.player.pos, Vec2 { x: 512_000 + 499_900, y: 384_000 });
}
