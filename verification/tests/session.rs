use asteroids_core::config::{ASTEROID_STARTING_COUNT, PLAYER_CLEAR_RADIUS};
use asteroids_core::entities::{Asteroid, Bullet, Player};
use asteroids_core::geom::Vec2;
use asteroids_core::motion::FrameInput;
use asteroids_core::state::{State, TurnInput};

const BOUNDS: Vec2 = Vec2 { x: 1_024_000, y: 768_000 };

fn idle(dt: i64) -> FrameInput {
    FrameInput { dt, thrust: false, fire: false, heading: Vec2 { x: 1000, y: 0 } }
}

fn dist_sq(a: Vec2, b: Vec2) -> i64 {
    (a.x - b.x) * (a.x - b.x) + (a.y - b.y) * (a.y - b.y)
}

// Session start: screen 1024x768, starting count 10 at tier 0 — exactly 10
// asteroids spawn, none within the clear radius of the player's center
// (512, 384), and no two overlap by radius sum.
#[test]
fn fresh_session_spawns_clear_field() {
    quad_rand::srand(31);
    let s = State::new(BOUNDS);
    assert_eq!(s.player.pos, Vec2 { x: 512_000, y: 384_000 });
    assert_eq!(s.player.angle_mrad, 0);
    assert_eq!(s.player.velocity, Vec2 { x: 0, y: 0 });
    assert_eq!(s.player.shot_cooldown, 0);
    assert_eq!(s.score, 0);
    assert_eq!(s.level, 1);
    assert!(!s.game_over);
    assert!(s.bullets.is_empty());
    assert_eq!(s.asteroids.len(), ASTEROID_STARTING_COUNT as usize);
    let clear = 60_000 + PLAYER_CLEAR_RADIUS;
    for a in s.asteroids.iter() {
        assert_eq!(a.prototype_index, 0);
        assert!(0 <= a.pos.x && a.pos.x <= BOUNDS.x);
        assert!(0 <= a.pos.y && a.pos.y <= BOUNDS.y);
        assert!(dist_sq(a.pos, s.player.pos) >= clear * clear);
    }
    for i in 0..s.asteroids.len() {
        for j in 0..i {
            let sum = 60_000 + 60_000;
            assert!(dist_sq(s.asteroids[i].pos, s.asteroids[j].pos) >= sum * sum);
        }
    }
}

// Wave-empty trigger: once the field empties, floor(log2(score)) + 10
// asteroids spawn and the level increments by exactly one.
#[test]
fn wave_respawn_after_last_asteroid() {
    quad_rand::srand(32);
    let rock = Asteroid {
        pos: Vec2 { x: 500_000, y: 384_000 },
        velocity: Vec2 { x: 0, y: 0 },
        prototype_index: 2,
    };
    let bullet = Bullet {
        pos: Vec2 { x: 500_000 + 16_000, y: 384_000 },
        velocity: Vec2 { x: 0, y: 0 },
        life: 500,
    };
    let mut s = State {
        player: Player {
            pos: Vec2 { x: 100_000, y: 100_000 },
            angle_mrad: 0,
            velocity: Vec2 { x: 0, y: 0 },
            shot_cooldown: 0,
        },
        bullets: vec![bullet],
        asteroids: vec![rock],
        score: 0,
        game_over: false,
        level: 1,
    };
    let ev = s.step(idle(0), BOUNDS);
    assert_eq!(ev.explosions, 1);
    // the tier-2 kill scored 3, so the next wave holds floor(log2(3)) + 10
    assert_eq!(s.score, 3);
    assert_eq!(s.level, 2);
    assert_eq!(s.asteroids.len(), 11);
    for a in s.asteroids.iter() {
        assert_eq!(a.prototype_index, 0);
        assert!(dist_sq(a.pos, s.player.pos) >= (60_000 + PLAYER_CLEAR_RADIUS) * (60_000 + PLAYER_CLEAR_RADIUS));
    }
}

// Wave-empty trigger with score zero: log2(0) contributes nothing, so the
// fresh wave holds exactly the starting count.
#[test]
fn wave_respawn_at_zero_score() {
    quad_rand::srand(33);
    let rock = Asteroid {
        pos: Vec2 { x: 512_000, y: 384_000 },
        velocity: Vec2 { x: 0, y: 0 },
        prototype_index: 0,
    };
    let mut s = State {
        player: Player {
            pos: Vec2 { x: 512_000, y: 384_000 },
            angle_mrad: 0,
            velocity: Vec2 { x: 0, y: 0 },
            shot_cooldown: 0,
        },
        bullets: Vec::new(),
        asteroids: vec![rock],
        score: 0,
        game_over: false,
        level: 1,
    };
    let ev = s.step(idle(0), BOUNDS);
    assert!(ev.died);
    assert!(s.game_over);
    assert_eq!(s.score, 0);
    assert_eq!(s.level, 2);
    assert_eq!(s.asteroids.len(), 10);
}

// Player-asteroid overlap sets game-over; the following frame's state is a
// fresh session with score, level and asteroid field reset.
#[test]
fn game_over_resets_session() {
    quad_rand::srand(34);
    let rock = Asteroid {
        pos: Vec2 { x: 512_000, y: 384_000 },
        velocity: Vec2 { x: 0, y: 0 },
        prototype_index: 1,
    };
    let mut s = State {
        player: Player {
            pos: Vec2 { x: 520_000, y: 384_000 },
            angle_mrad: 1234,
            velocity: Vec2 { x: 5_000, y: 0 },
            shot_cooldown: 250,
        },
        bullets: Vec::new(),
        asteroids: vec![rock],
        score: 777,
        game_over: false,
        level: 9,
    };
    let ev = s.step(idle(16), BOUNDS);
    assert!(ev.died);
    assert!(s.game_over);
    // next frame: the session is discarded and rebuilt from scratch
    if s.game_over {
        s = State::new(BOUNDS);
    }
    assert_eq!(s.score, 0);
    assert_eq!(s.level, 1);
    assert!(!s.game_over);
    assert!(s.bullets.is_empty());
    assert_eq!(s.player.pos, Vec2 { x: 512_000, y: 384_000 });
    assert_eq!(s.player.shot_cooldown, 0);
    assert_eq!(s.asteroids.len(), ASTEROID_STARTING_COUNT as usize);
    for a in s.asteroids.iter() {
        assert_eq!(a.prototype_index, 0);
    }
}

#[test]
fn turning_moves_the_angle_modulo_a_revolution() {
    let mut s = State::new(BOUNDS);
    s.apply_turn(TurnInput::Right, 500);
    assert_eq!(s.player.angle_mrad, 2500);
    s.apply_turn(TurnInput::Straight, 500);
    assert_eq!(s.player.angle_mrad, 2500);
    s.apply_turn(TurnInput::Left, 500);
    assert_eq!(s.player.angle_mrad, 0);
    s.apply_turn(TurnInput::Left, 500);
    assert_eq!(s.player.angle_mrad, 6283 - 2500);
    // a very long frame still lands inside one revolution
    s.apply_turn(TurnInput::Right, 1_000_000);
    assert!(0 <= s.player.angle_mrad && s.player.angle_mrad < 6283);
}

// An asteroid wraps with its radius as margin: it fully leaves the screen
// before reappearing on the opposite edge, offset by its own radius.
#[test]
fn asteroid_wraps_with_radius_margin() {
    quad_rand::srand(35);
    let rock = Asteroid {
        pos: Vec2 { x: -59_000, y: 300_000 },
        velocity: Vec2 { x: -20_000, y: 0 },
        prototype_index: 0,
    };
    let mut s = State {
        player: Player {
            pos: Vec2 { x: 900_000, y: 700_000 },
            angle_mrad: 0,
            velocity: Vec2 { x: 0, y: 0 },
            shot_cooldown: 0,
        },
        bullets: Vec::new(),
        asteroids: vec![rock],
        score: 0,
        game_over: false,
        level: 1,
    };
    s.step(idle(100), BOUNDS);
    // moved to -61_000, so x + 60_000 < 0: wrap to bounds.x + 60_000
    assert_eq!(s.asteroids[0].pos, Vec2 { x: 1_024_000 + 60_000, y: 300_000 });
}
