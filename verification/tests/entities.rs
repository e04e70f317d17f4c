use asteroids_core::entities::Asteroid;
use asteroids_core::geom::Vec2;

const BOUNDS: Vec2 = Vec2 { x: 1_024_000, y: 768_000 };

// The tier table: tier 0 is largest, slowest, cheapest; later tiers are
// smaller, faster, worth more.
#[test]
fn tier_table_values() {
    let pos = Vec2 { x: 100_000, y: 100_000 };
    let t0 = Asteroid::new(0, pos);
    let t1 = Asteroid::new(1, pos);
    let t2 = Asteroid::new(2, pos);
    assert_eq!(t0.size(), 60_000);
    assert_eq!(t1.size(), 30_000);
    assert_eq!(t2.size(), 15_000);
    assert_eq!(t0.score(), 1);
    assert_eq!(t1.score(), 2);
    assert_eq!(t2.score(), 3);
    assert_eq!(t0.prototype().speed, 20_000);
    assert_eq!(t1.prototype().speed, 60_000);
    assert_eq!(t2.prototype().speed, 180_000);
}

// A fresh asteroid flies at its tier's speed up to rounding: never above
// it, and never more than two percent below it.
#[test]
fn new_keeps_position_and_flies_at_tier_speed() {
    quad_rand::srand(41);
    for tier in 0..3usize {
        let pos = Vec2 { x: 300_000, y: 500_000 };
        let a = Asteroid::new(tier, pos);
        assert_eq!(a.pos, pos);
        assert_eq!(a.prototype_index, tier);
        let speed = a.prototype().speed;
        let sq = a.velocity.x * a.velocity.x + a.velocity.y * a.velocity.y;
        assert!(sq <= speed * speed);
        assert!(2500 * sq >= 2401 * speed * speed);
    }
}

// The per-candidate placement step accepts and rejects exactly by the
// clearance rules, and a rejected candidate changes nothing.
#[test]
fn try_place_accepts_and_rejects_exactly() {
    quad_rand::srand(44);
    let mut v: Vec<Asteroid> = Vec::new();
    let center = Vec2 { x: 512_000, y: 384_000 };
    // a hair inside the avoid circle (radius 60 + clearance 250 pixels)
    let near = Vec2 { x: 512_000 + 310_000 - 10, y: 384_000 };
    assert!(!Asteroid::try_place(&mut v, near, BOUNDS, center, 250_000));
    assert!(v.is_empty());
    // a hair outside it
    let clear = Vec2 { x: 512_000 + 310_000 + 10, y: 384_000 };
    assert!(Asteroid::try_place(&mut v, clear, BOUNDS, center, 250_000));
    assert_eq!(v.len(), 1);
    assert_eq!(v[0].pos, clear);
    assert_eq!(v[0].prototype_index, 0);
    // overlapping the placed asteroid by a hair (radius sum 120 pixels)
    let overlap = Vec2 { x: clear.x, y: 384_000 + 120_000 - 10 };
    assert!(!Asteroid::try_place(&mut v, overlap, BOUNDS, center, 250_000));
    assert_eq!(v.len(), 1);
    // clear of both the player and the placed asteroid
    let apart = Vec2 { x: clear.x, y: 384_000 + 120_000 + 10 };
    assert!(Asteroid::try_place(&mut v, apart, BOUNDS, center, 250_000));
    assert_eq!(v.len(), 2);
    assert_eq!(v[1].pos, apart);
}

// Positions drawn through the randomness primitive stay within the screen
// and actually vary from draw to draw.
#[test]
fn new_inside_samples_the_whole_screen() {
    quad_rand::srand(42);
    let mut seen_distinct = false;
    let mut last: Option<Vec2> = None;
    for _ in 0..100 {
        let a = Asteroid::new_inside(0, BOUNDS);
        assert!(0 <= a.pos.x && a.pos.x <= BOUNDS.x);
        assert!(0 <= a.pos.y && a.pos.y <= BOUNDS.y);
        if let Some(prev) = last {
            if prev != a.pos {
                seen_distinct = true;
            }
        }
        last = Some(a.pos);
    }
    assert!(seen_distinct);
}

// spawn_many fills up to the requested count and leaves what was already
// there untouched.
#[test]
fn spawn_many_respects_existing_and_count() {
    quad_rand::srand(43);
    let mut v: Vec<Asteroid> = Vec::new();
    Asteroid::spawn_many(&mut v, 5, BOUNDS, Vec2 { x: 512_000, y: 384_000 }, 250_000);
    assert_eq!(v.len(), 5);
    let first = v[0];
    Asteroid::spawn_many(&mut v, 8, BOUNDS, Vec2 { x: 512_000, y: 384_000 }, 250_000);
    assert_eq!(v.len(), 8);
    assert_eq!(v[0], first);
    // asking for fewer than are present changes nothing
    Asteroid::spawn_many(&mut v, 3, BOUNDS, Vec2 { x: 512_000, y: 384_000 }, 250_000);
    assert_eq!(v.len(), 8);
}
