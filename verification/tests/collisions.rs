use asteroids_core::entities::{Asteroid, Bullet, Player};
use asteroids_core::geom::Vec2;
use asteroids_core::motion::FrameInput;
use asteroids_core::state::State;

const BOUNDS: Vec2 = Vec2 { x: 1_024_000, y: 768_000 };

fn state_with(asteroids: Vec<Asteroid>, bullets: Vec<Bullet>) -> State {
    State {
        player: Player {
            pos: Vec2 { x: 100_000, y: 100_000 },
            angle_mrad: 0,
            velocity: Vec2 { x: 0, y: 0 },
            shot_cooldown: 0,
        },
        bullets,
        asteroids,
        score: 0,
        game_over: false,
        level: 1,
    }
}

fn idle(dt: i64) -> FrameInput {
    FrameInput { dt, thrust: false, fire: false, heading: Vec2 { x: 1000, y: 0 } }
}

fn still_rock(tier: usize, x: i64, y: i64) -> Asteroid {
    Asteroid { pos: Vec2 { x, y }, velocity: Vec2 { x: 0, y: 0 }, prototype_index: tier }
}

fn still_bullet(x: i64, y: i64) -> Bullet {
    Bullet { pos: Vec2 { x, y }, velocity: Vec2 { x: 0, y: 0 }, life: 500 }
}

// Splitting conservation: a tier-0 or tier-1 asteroid yields exactly two
// children of the next tier at the parent's former position; a top-tier
// asteroid yields none.
#[test]
fn split_tier0_yields_two_tier1_children() {
    quad_rand::srand(11);
    let a = still_rock(0, 400_000, 300_000);
    let (c1, c2) = a.split().expect("tier 0 splits");
    assert_eq!(c1.prototype_index, 1);
    assert_eq!(c2.prototype_index, 1);
    assert_eq!(c1.pos, a.pos);
    assert_eq!(c2.pos, a.pos);
    // children fly at the next tier's speed up to rounding: at most it,
    // and no more than two percent under it
    let sq1 = c1.velocity.x * c1.velocity.x + c1.velocity.y * c1.velocity.y;
    let sq2 = c2.velocity.x * c2.velocity.x + c2.velocity.y * c2.velocity.y;
    assert!(sq1 <= 60_000 * 60_000 && 2500 * sq1 >= 2401 * 60_000 * 60_000);
    assert!(sq2 <= 60_000 * 60_000 && 2500 * sq2 >= 2401 * 60_000 * 60_000);
}

#[test]
fn split_tier1_yields_two_tier2_children() {
    quad_rand::srand(12);
    let a = still_rock(1, 400_000, 300_000);
    let (c1, c2) = a.split().expect("tier 1 splits");
    assert_eq!(c1.prototype_index, 2);
    assert_eq!(c2.prototype_index, 2);
    assert_eq!(c1.pos, a.pos);
    assert_eq!(c2.pos, a.pos);
    let sq1 = c1.velocity.x * c1.velocity.x + c1.velocity.y * c1.velocity.y;
    assert!(sq1 <= 180_000i64 * 180_000 && 2500 * sq1 >= 2401 * 180_000 * 180_000);
}

#[test]
fn split_top_tier_yields_none() {
    let a = still_rock(2, 400_000, 300_000);
    assert!(a.split().is_none());
}

// Hit threshold: a bullet a hair inside the radius sum registers, a hair
// outside does not (radius sum = 60 + 2 pixels; a hair = 0.01 pixel).
#[test]
fn bullet_hit_just_inside_radius_sum() {
    quad_rand::srand(21);
    let rock = still_rock(0, 500_000, 384_000);
    let bullet = still_bullet(500_000 + 62_000 - 10, 384_000);
    let mut s = state_with(vec![rock], vec![bullet]);
    let ev = s.step(idle(0), BOUNDS);
    assert_eq!(ev.explosions, 1);
    assert_eq!(s.score, 1);
    assert!(s.bullets.is_empty());
    // the tier-0 rock split into two tier-1 children at its position
    assert_eq!(s.asteroids.len(), 2);
    assert_eq!(s.asteroids[0].prototype_index, 1);
    assert_eq!(s.asteroids[1].prototype_index, 1);
    assert_eq!(s.asteroids[0].pos, Vec2 { x: 500_000, y: 384_000 });
    assert_eq!(s.asteroids[1].pos, Vec2 { x: 500_000, y: 384_000 });
    assert!(!s.game_over);
}

#[test]
fn bullet_miss_just_outside_radius_sum() {
    let rock = still_rock(0, 500_000, 384_000);
    let bullet = still_bullet(500_000 + 62_000 + 10, 384_000);
    let mut s = state_with(vec![rock], vec![bullet]);
    let ev = s.step(idle(0), BOUNDS);
    assert_eq!(ev.explosions, 0);
    assert_eq!(s.score, 0);
    assert_eq!(s.bullets.len(), 1);
    assert_eq!(s.asteroids.len(), 1);
    assert_eq!(s.asteroids[0].prototype_index, 0);
}

// Each destroyed asteroid awards its tier's score: tiers are worth
// 1, 2 and 3 points.
#[test]
fn tier_scores_accrue() {
    quad_rand::srand(22);
    let rocks = vec![
        still_rock(2, 200_000, 600_000),
        still_rock(1, 500_000, 200_000),
    ];
    let bullets = vec![
        still_bullet(200_000 + 10_000, 600_000),
        still_bullet(500_000 + 20_000, 200_000),
    ];
    let mut s = state_with(rocks, bullets);
    let ev = s.step(idle(0), BOUNDS);
    assert_eq!(ev.explosions, 2);
    // tier 2 scores 3, tier 1 scores 2
    assert_eq!(s.score, 5);
    // only the tier-1 rock spawns children (two of tier 2)
    assert_eq!(s.asteroids.len(), 2);
    assert_eq!(s.asteroids[0].prototype_index, 2);
    assert_eq!(s.asteroids[1].prototype_index, 2);
}

// A bullet is consumed by the first asteroid it overlaps: one bullet
// cannot destroy two overlapping asteroids.
#[test]
fn bullet_consumed_by_first_overlap() {
    quad_rand::srand(23);
    let rocks = vec![
        still_rock(2, 500_000, 384_000),
        still_rock(2, 510_000, 384_000),
    ];
    let bullets = vec![still_bullet(505_000, 384_000)];
    let mut s = state_with(rocks, bullets);
    let ev = s.step(idle(0), BOUNDS);
    assert_eq!(ev.explosions, 1);
    assert_eq!(s.score, 3);
    assert_eq!(s.asteroids.len(), 1);
    assert!(s.bullets.is_empty());
}

// Player contact destroys the asteroid without children and without score.
#[test]
fn player_contact_spawns_no_children() {
    quad_rand::srand(24);
    let rocks = vec![
        still_rock(0, 100_000, 100_000),
        still_rock(2, 900_000, 700_000),
    ];
    let mut s = state_with(rocks, Vec::new());
    let ev = s.step(idle(0), BOUNDS);
    assert!(ev.died);
    assert!(s.game_over);
    assert_eq!(s.score, 0);
    // the tier-0 rock is gone with no children; the distant rock remains
    assert_eq!(s.asteroids.len(), 1);
    assert_eq!(s.asteroids[0].prototype_index, 2);
}
