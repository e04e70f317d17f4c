//! Collision resolution between bullets, asteroids and the player, with
//! asteroid splitting and score accrual.
//!
//! Asteroids are processed in order. Each asteroid consumes every still
//! remaining bullet that overlaps it; every such hit awards the tier's
//! score and, below the top tier, spawns two children of the next tier at
//! the parent's position. Independently the asteroid is tested against the
//! player; contact destroys it (without children) and ends the session.
//! All removals and insertions are applied after the scan, never mid-scan.

use vstd::prelude::*;

use crate::config::{spec_tier, tier, BULLET_RADIUS, MAX_TIER_SPEED, PLAYER_SIZE, TIER_COUNT};
use crate::entities::{wf_bounds, Asteroid, Bullet};
use crate::geom::{dist_sq, spec_dist_sq, Vec2};

verus! {

/// A bullet overlaps an asteroid: their distance is below the sum of the
/// collision radii.
pub open spec fn bullet_hits(b: Bullet, a: Asteroid) -> bool {
    spec_dist_sq(b.pos, a.pos) < (spec_tier(a.prototype_index as int).size + BULLET_RADIUS) * (
    spec_tier(a.prototype_index as int).size + BULLET_RADIUS)
}

/// An asteroid overlaps the player.
pub open spec fn player_hits(ppos: Vec2, a: Asteroid) -> bool {
    spec_dist_sq(ppos, a.pos) < (spec_tier(a.prototype_index as int).size + PLAYER_SIZE) * (
    spec_tier(a.prototype_index as int).size + PLAYER_SIZE)
}

/// The bullets of `bs` that miss `a`, in order.
pub open spec fn keep_misses(bs: Seq<Bullet>, a: Asteroid) -> Seq<Bullet>
    decreases bs.len(),
{
    if bs.len() == 0 {
        Seq::empty()
    } else {
        let pre = keep_misses(bs.drop_last(), a);
        if bullet_hits(bs.last(), a) {
            pre
        } else {
            pre.push(bs.last())
        }
    }
}

/// How many bullets of `bs` hit `a`.
pub open spec fn hit_count(bs: Seq<Bullet>, a: Asteroid) -> int
    decreases bs.len(),
{
    if bs.len() == 0 {
        0int
    } else {
        hit_count(bs.drop_last(), a) + if bullet_hits(bs.last(), a) {
            1int
        } else {
            0int
        }
    }
}

pub proof fn lemma_keep_misses_len(bs: Seq<Bullet>, a: Asteroid)
    ensures
        0 <= hit_count(bs, a) <= bs.len(),
        keep_misses(bs, a).len() == bs.len() - hit_count(bs, a),
    decreases bs.len(),
{
    if bs.len() == 0 {
    } else {
        lemma_keep_misses_len(bs.drop_last(), a);
    }
}

/// Position and tier of one child asteroid owed by splitting; the child's
/// velocity is freshly randomized and only bounded, not pinned.
pub struct KidSpec {
    pub pos: Vec2,
    pub tier: usize,
}

/// The child entry owed by splitting `a`.
pub open spec fn kid_of(a: Asteroid) -> KidSpec {
    KidSpec { pos: a.pos, tier: (a.prototype_index + 1) as usize }
}

/// The children owed by `h` bullet hits on `a`: two per hit below the top
/// tier, none at the top tier.
pub open spec fn kid_entries(a: Asteroid, h: int) -> Seq<KidSpec>
    decreases h,
{
    if h <= 0 || a.prototype_index + 1 >= TIER_COUNT {
        Seq::empty()
    } else {
        kid_entries(a, h - 1) + seq![kid_of(a), kid_of(a)]
    }
}

pub proof fn lemma_kid_entries(a: Asteroid, h: int)
    requires
        0 <= h,
    ensures
        kid_entries(a, h).len() == if a.prototype_index + 1 < TIER_COUNT {
            2 * h
        } else {
            0
        },
        forall|c: int| 0 <= c < kid_entries(a, h).len() ==> kid_entries(a, h)[c] == kid_of(a),
    decreases h,
{
    if h == 0 || a.prototype_index + 1 >= TIER_COUNT {
    } else {
        lemma_kid_entries(a, h - 1);
    }
}

/// The outcome of resolving the first `i` asteroids against the bullets
/// and the player.
pub struct Resolution {
    /// Asteroids that survived, in order, unchanged.
    pub survivors: Seq<Asteroid>,
    /// Bullets not yet consumed.
    pub bullets: Seq<Bullet>,
    /// Score awarded, one tier score per consumed bullet.
    pub score: int,
    /// Children owed by splitting, in spawn order.
    pub kids: Seq<KidSpec>,
    /// Whether any asteroid touched the player.
    pub dead: bool,
}

/// Resolve the first `i` asteroids of `asts`, threading the bullet set
/// through: each asteroid consumes the remaining bullets that hit it, is
/// destroyed by any hit or by player contact, and owes two children of the
/// next tier per hit while below the top tier.
pub open spec fn resolve_upto(asts: Seq<Asteroid>, bs0: Seq<Bullet>, ppos: Vec2, i: int) -> Resolution
    decreases i,
{
    if i <= 0 {
        Resolution {
            survivors: Seq::empty(),
            bullets: bs0,
            score: 0,
            kids: Seq::empty(),
            dead: false,
        }
    } else {
        let p = resolve_upto(asts, bs0, ppos, i - 1);
        let a = asts[i - 1];
        let h = hit_count(p.bullets, a);
        let phit = player_hits(ppos, a);
        Resolution {
            survivors: if h == 0 && !phit {
                p.survivors.push(a)
            } else {
                p.survivors
            },
            bullets: keep_misses(p.bullets, a),
            score: p.score + h * spec_tier(a.prototype_index as int).score,
            kids: p.kids + kid_entries(a, h),
            dead: p.dead || phit,
        }
    }
}

pub proof fn lemma_resolve_bullets_len(asts: Seq<Asteroid>, bs0: Seq<Bullet>, ppos: Vec2, i: int)
    requires
        0 <= i <= asts.len(),
    ensures
        resolve_upto(asts, bs0, ppos, i).bullets.len() <= bs0.len(),
    decreases i,
{
    if i > 0 {
        lemma_resolve_bullets_len(asts, bs0, ppos, i - 1);
        lemma_keep_misses_len(resolve_upto(asts, bs0, ppos, i - 1).bullets, asts[i - 1]);
    }
}

/// What one frame's collision resolution reports back.
pub struct CollisionOutcome {
    /// Score awarded this frame.
    pub score_delta: u128,
    /// Bullets consumed this frame (one explosion cue each).
    pub exploded: usize,
    /// Whether the player was hit this frame.
    pub died: bool,
}

/// Remove from `bullets` every bullet that hits `a`, pushing two children
/// of the next tier onto `kids` for each hit while `a` is below the top
/// tier. Returns the number of hits.
#[verifier::loop_isolation(false)]
fn strike_asteroid(bullets: &mut Vec<Bullet>, a: Asteroid, kids: &mut Vec<Asteroid>, bounds: Vec2) -> (hits:
    usize)
    requires
        wf_bounds(bounds),
        a.wf(bounds),
        forall|k: int| 0 <= k < old(bullets)@.len() ==> (#[trigger] old(bullets)@[k]).wf(bounds),
    ensures
        final(bullets)@ == keep_misses(old(bullets)@, a),
        hits as int == hit_count(old(bullets)@, a),
        hits <= old(bullets)@.len(),
        forall|k: int| 0 <= k < final(bullets)@.len() ==> (#[trigger] final(bullets)@[k]).wf(
            bounds,
        ),
        final(kids)@.len() == old(kids)@.len() + kid_entries(a, hits as int).len(),
        final(kids)@.subrange(0, old(kids)@.len() as int) == old(kids)@,
        forall|c: int|
            old(kids)@.len() <= c < final(kids)@.len() ==> {
                let kc = #[trigger] final(kids)@[c];
                &&& kc.pos == a.pos
                &&& kc.prototype_index == a.prototype_index + 1
                &&& kc.vel_ok()
                &&& kc.wf(bounds)
            },
{
    let ghost bs_in = bullets@;
    let ghost k0 = kids@.len() as int;
    let proto = tier(a.prototype_index);
    let rs: i64 = proto.size + BULLET_RADIUS;
    proof {
        assert(0 <= rs * rs <= 100_000_000_000) by (nonlinear_arith)
            requires
                0 <= rs <= 200_000,
        ;
    }
    let mut kept: Vec<Bullet> = Vec::new();
    let mut hits: usize = 0;
    let mut j: usize = 0;
    while j < bullets.len()
        invariant
            j <= bs_in.len(),
            bullets@ == bs_in,
            kept@ == keep_misses(bs_in.take(j as int), a),
            hits as int == hit_count(bs_in.take(j as int), a),
            hits <= j,
            forall|k: int| 0 <= k < kept@.len() ==> (#[trigger] kept@[k]).wf(bounds),
            kids@.len() == k0 + kid_entries(a, hits as int).len(),
            kids@.subrange(0, k0) == old(kids)@,
            forall|c: int|
                k0 <= c < kids@.len() ==> {
                    let kc = #[trigger] kids@[c];
                    &&& kc.pos == a.pos
                    &&& kc.prototype_index == a.prototype_index + 1
                    &&& kc.vel_ok()
                    &&& kc.wf(bounds)
                },
        decreases bs_in.len() - j,
    {
        let b: Bullet = bullets[j];
        proof {
            lemma_keep_misses_len(bs_in.take(j as int), a);
            assert(bs_in.take(j as int + 1).drop_last() =~= bs_in.take(j as int));
            assert(bs_in.take(j as int + 1).last() == bs_in[j as int]);
        }
        if dist_sq(b.pos, a.pos) < rs * rs {
            hits = hits + 1;
            if let Option::Some(pair) = a.split() {
                let ghost before = kids@;
                kids.push(pair.0);
                kids.push(pair.1);
                proof {
                    lemma_kid_entries(a, hits as int);
                    lemma_kid_entries(a, hits as int - 1);
                    assert(spec_tier(a.prototype_index as int + 1).speed <= MAX_TIER_SPEED);
                    assert(pair.0.wf(bounds));
                    assert(pair.1.wf(bounds));
                    assert(kids@.subrange(0, k0) =~= before.subrange(0, k0));
                }
            } else {
                proof {
                    lemma_kid_entries(a, hits as int);
                    lemma_kid_entries(a, hits as int - 1);
                }
            }
        } else {
            kept.push(b);
        }
        j = j + 1;
    }
    proof {
        assert(bs_in.take(bs_in.len() as int) =~= bs_in);
        lemma_keep_misses_len(bs_in, a);
    }
    *bullets = kept;
    hits
}

/// Resolve one frame's collisions: every asteroid against the remaining
/// bullets and the player, then apply all removals and owed children
/// atomically. The survivors keep their exact state; children carry a
/// bounded, freshly randomized velocity.
#[verifier::loop_isolation(false)]
pub fn resolve_collisions(
    asteroids: &mut Vec<Asteroid>,
    bullets: &mut Vec<Bullet>,
    player_pos: Vec2,
    bounds: Vec2,
) -> (out: CollisionOutcome)
    requires
        wf_bounds(bounds),
        0 <= player_pos.x <= bounds.x,
        0 <= player_pos.y <= bounds.y,
        forall|k: int| 0 <= k < old(asteroids)@.len() ==> (#[trigger] old(asteroids)@[k]).wf(
            bounds,
        ),
        forall|k: int| 0 <= k < old(bullets)@.len() ==> (#[trigger] old(bullets)@[k]).wf(bounds),
    ensures
        ({
            let r = resolve_upto(
                old(asteroids)@,
                old(bullets)@,
                player_pos,
                old(asteroids)@.len() as int,
            );
            &&& final(bullets)@ == r.bullets
            &&& out.score_delta as int == r.score
            &&& out.died == r.dead
            &&& out.exploded as int == old(bullets)@.len() - r.bullets.len()
            &&& final(asteroids)@.len() == r.survivors.len() + r.kids.len()
            &&& final(asteroids)@.subrange(0, r.survivors.len() as int) == r.survivors
            &&& forall|c: int|
                0 <= c < r.kids.len() ==> {
                    let kc = #[trigger] final(asteroids)@[r.survivors.len() + c];
                    &&& kc.pos == r.kids[c].pos
                    &&& kc.prototype_index == r.kids[c].tier
                    &&& kc.vel_ok()
                    &&& kc.wf(bounds)
                }
        }),
        forall|k: int| 0 <= k < final(asteroids)@.len() ==> (#[trigger] final(asteroids)@[k]).wf(
            bounds,
        ),
        forall|k: int| 0 <= k < final(bullets)@.len() ==> (#[trigger] final(bullets)@[k]).wf(
            bounds,
        ),
{
    let ghost as0 = asteroids@;
    let ghost bs0 = bullets@;
    let nb: usize = bullets.len();
    let mut survivors: Vec<Asteroid> = Vec::new();
    let mut kids: Vec<Asteroid> = Vec::new();
    let mut score_delta: u128 = 0;
    let mut exploded: usize = 0;
    let mut died = false;
    let mut i: usize = 0;
    while i < asteroids.len()
        invariant
            i <= as0.len(),
            asteroids@ == as0,
            ({
                let r = resolve_upto(as0, bs0, player_pos, i as int);
                &&& survivors@ == r.survivors
                &&& bullets@ == r.bullets
                &&& score_delta as int == r.score
                &&& died == r.dead
                &&& exploded as int == bs0.len() - r.bullets.len()
                &&& kids@.len() == r.kids.len()
                &&& forall|c: int|
                    0 <= c < kids@.len() ==> {
                        let kc = #[trigger] kids@[c];
                        &&& kc.pos == r.kids[c].pos
                        &&& kc.prototype_index == r.kids[c].tier
                        &&& kc.vel_ok()
                        &&& kc.wf(bounds)
                    }
            }),
            score_delta as int <= 3 * exploded as int,
            nb as int == bs0.len(),
            forall|k: int| 0 <= k < survivors@.len() ==> (#[trigger] survivors@[k]).wf(bounds),
            forall|k: int| 0 <= k < bullets@.len() ==> (#[trigger] bullets@[k]).wf(bounds),
        decreases as0.len() - i,
    {
        let ghost r_prev = resolve_upto(as0, bs0, player_pos, i as int);
        let a: Asteroid = asteroids[i];
        let proto = tier(a.prototype_index);
        let ghost kids_before = kids@;
        let hits: usize = strike_asteroid(bullets, a, &mut kids, bounds);
        proof {
            lemma_keep_misses_len(r_prev.bullets, a);
            lemma_kid_entries(a, hits as int);
            lemma_resolve_bullets_len(as0, bs0, player_pos, i as int);
            assert((hits as int) * (proto.score as int) <= 3 * (hits as int)) by (nonlinear_arith)
                requires
                    0 <= hits as int,
                    0 <= proto.score as int <= 3,
            ;
        }
        score_delta = score_delta + (hits as u128) * (proto.score as u128);
        exploded = exploded + hits;
        let player_rs: i64 = proto.size + PLAYER_SIZE;
        proof {
            assert(0 <= player_rs * player_rs <= 100_000_000_000) by (nonlinear_arith)
                requires
                    0 <= player_rs <= 200_000,
            ;
        }
        let phit = dist_sq(player_pos, a.pos) < player_rs * player_rs;
        if phit {
            died = true;
        }
        if hits == 0 && !phit {
            survivors.push(a);
        }
        i = i + 1;
        proof {
            let r_next = resolve_upto(as0, bs0, player_pos, i as int);
            assert(r_next.kids == r_prev.kids + kid_entries(a, hits as int));
            assert(kids@.subrange(0, kids_before.len() as int) == kids_before);
            assert forall|c: int| 0 <= c < kids@.len() implies {
                let kc = #[trigger] kids@[c];
                &&& kc.pos == r_next.kids[c].pos
                &&& kc.prototype_index == r_next.kids[c].tier
                &&& kc.vel_ok()
                &&& kc.wf(bounds)
            } by {
                if c < kids_before.len() {
                    assert(kids@[c] == kids_before[c]);
                    assert(r_next.kids[c] == r_prev.kids[c]);
                } else {
                    assert(r_next.kids[c] == kid_entries(a, hits as int)[c - r_prev.kids.len()]);
                    assert(r_next.kids[c] == kid_of(a));
                }
            }
        }
    }
    proof {
        assert(asteroids@.take(as0.len() as int) =~= as0);
    }
    let mut assembled: Vec<Asteroid> = survivors;
    let ghost sv = assembled@;
    let ghost kd = kids@;
    assembled.append(&mut kids);
    *asteroids = assembled;
    proof {
        assert(asteroids@.subrange(0, sv.len() as int) =~= sv);
    }
    CollisionOutcome { score_delta, exploded, died }
}

} // verus!
