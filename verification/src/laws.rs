//! The library's laws, stated over the spec functions that the executable
//! contracts use. Each is proved here once and for all inputs; the
//! executable functions' own `ensures` restate the same facts where they
//! apply.

use vstd::prelude::*;

use crate::collide::{kid_entries, kid_of};
use crate::config::{SHOT_COOLDOWN, TIER_COUNT};
use crate::entities::Asteroid;
use crate::geom::{spec_wrap, spec_wrap_margin};
use crate::motion::{spec_fired, spec_player_after, FrameInput};
use crate::entities::Player;
use crate::geom::Vec2;

verus! {

/// Wrap invariant: after one integration step a hard-wrapped coordinate
/// lies within `[0, bound]`, whatever the pre-wrap value was — boundary
/// values included.
pub proof fn lemma_wrap_in_bounds(x: int, bound: int)
    requires
        0 <= bound,
    ensures
        0 <= spec_wrap(x, bound) <= bound,
{
}

/// Wrap invariant with a radius margin: a margin-wrapped coordinate lies
/// within `[-m, bound + m]`, whatever the pre-wrap value was.
pub proof fn lemma_wrap_margin_in_bounds(x: int, bound: int, m: int)
    requires
        0 <= bound,
        0 <= m,
    ensures
        -m <= spec_wrap_margin(x, bound, m) <= bound + m,
{
}

/// Speed clamp: a velocity whose magnitude exceeds the limit is rescaled
/// to the limit up to rounding — never above it, and no more than two
/// percent below it (on squares: `2401/2500 == (49/50)^2`) — with each
/// component's sign, and so the direction's quadrant, preserved. Exact
/// equality is out of reach of integer rounding; `lemma_clamp_exact_on_axis`
/// below gives it where it does hold.
pub proof fn lemma_speed_clamp_window(v: Vec2, t: int)
    requires
        v.sq_mag() > t * t,
        1000 <= t <= 2_000_000,
        crate::geom::iabs(v.x as int) <= 1_000_000_000,
        crate::geom::iabs(v.y as int) <= 1_000_000_000,
    ensures
        crate::geom::spec_rescale(v, t).sq_mag() <= t * t,
        2500 * crate::geom::spec_rescale(v, t).sq_mag() >= 2401 * t * t,
        v.x >= 0 ==> crate::geom::spec_rescale(v, t).x >= 0,
        v.x <= 0 ==> crate::geom::spec_rescale(v, t).x <= 0,
        v.y >= 0 ==> crate::geom::spec_rescale(v, t).y >= 0,
        v.y <= 0 ==> crate::geom::spec_rescale(v, t).y <= 0,
{
    assert(v.sq_mag() >= 250_000 && (v.x != 0 || v.y != 0)) by (nonlinear_arith)
        requires
            v.sq_mag() > t * t,
            v.sq_mag() == v.x * v.x + v.y * v.y,
            1000 <= t,
    ;
    crate::geom::lemma_rescale_bounds(v, t);
    crate::geom::lemma_rescale_lower_bound(v, t);
}

/// Speed clamp, exact fragment: on an axis-aligned velocity the clamp
/// lands exactly on the target magnitude, with the direction unchanged.
/// (For general vectors the squared magnitude is capped by
/// `lemma_rescale_bounds` in `geom`; rounding toward zero can leave it
/// just below the target there.)
pub proof fn lemma_clamp_exact_on_axis(vx: i64, t: int)
    requires
        0 < vx <= 1_000_000_000,
        0 <= t <= 2_000_000,
    ensures
        crate::geom::spec_rescale(Vec2 { x: vx, y: 0 }, t) == (Vec2 { x: t as i64, y: 0 }),
{
    let v = Vec2 { x: vx, y: 0 };
    let s = v.sq_mag();
    assert(s == vx * vx);
    assert(vx * vx >= 1 && vx * vx < (vx + 1) * (vx + 1)) by (nonlinear_arith)
        requires
            0 < vx,
    ;
    crate::geom::lemma_sqrt_floor_unique(s, vx as int);
    assert(crate::geom::sqrt_ceil(s) == vx as int);
    vstd::arithmetic::div_mod::lemma_div_multiples_vanish(t, vx as int);
    assert((vx as int) * t == t * (vx as int)) by (nonlinear_arith);
    assert(crate::geom::spec_mul_div(vx as int, t, vx as int) == t);
    vstd::arithmetic::div_mod::lemma_div_of0(vx as int);
    assert(crate::geom::spec_mul_div(0, t, vx as int) == 0);
}

/// Cooldown law: the shot cooldown never goes negative; a fire request is
/// honored exactly when the fire input is held and the cooldown has run
/// out at the start of the step; and a fired shot resets the cooldown to
/// the reload constant.
pub proof fn lemma_cooldown(p: Player, inp: FrameInput, bounds: Vec2)
    requires
        0 <= p.shot_cooldown <= SHOT_COOLDOWN,
        crate::motion::wf_input(inp),
    ensures
        spec_player_after(p, inp, bounds).shot_cooldown >= 0,
        spec_fired(p, inp) <==> (inp.fire && p.shot_cooldown == 0),
        spec_fired(p, inp) ==> spec_player_after(p, inp, bounds).shot_cooldown == SHOT_COOLDOWN,
        !spec_fired(p, inp) ==> spec_player_after(p, inp, bounds).shot_cooldown == (
        if p.shot_cooldown - inp.dt > 0 {
            p.shot_cooldown - inp.dt
        } else {
            0int
        }),
{
}

/// Splitting conservation: destroying an asteroid below the top tier with
/// `h` bullet hits owes exactly two children per hit, each at the
/// parent's position and of the next tier; destroying a top-tier asteroid
/// owes none. (The score awarded — one tier score per hit — is part of
/// `resolve_upto`'s definition and of `State::step`'s contract.)
pub proof fn lemma_split_conservation(a: Asteroid, h: int)
    requires
        a.tier_ok(),
        0 <= h,
    ensures
        a.prototype_index + 1 < TIER_COUNT ==> kid_entries(a, h).len() == 2 * h,
        a.prototype_index + 1 == TIER_COUNT ==> kid_entries(a, h).len() == 0,
        forall|c: int| 0 <= c < kid_entries(a, h).len() ==> kid_entries(a, h)[c] == kid_of(a),
{
    crate::collide::lemma_kid_entries(a, h);
}

} // verus!
