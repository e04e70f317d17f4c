//! Fixed-point plane geometry: vectors, integer square roots, magnitude
//! scaling, screen wrapping and squared distances.

use vstd::prelude::*;

verus! {

/// A position or velocity in fixed-point units (one pixel is `config::SCALE`
/// units).
#[derive(Clone, Copy, PartialEq, Eq, Structural, Debug)]
pub struct Vec2 {
    pub x: i64,
    pub y: i64,
}

impl Vec2 {
    /// Squared magnitude, as an unbounded integer.
    pub open spec fn sq_mag(self) -> int {
        self.x * self.x + self.y * self.y
    }

    pub open spec fn is_zero(self) -> bool {
        self.x == 0 && self.y == 0
    }
}

/// Absolute value of an unbounded integer.
pub open spec fn iabs(v: int) -> int {
    if v < 0 {
        -v
    } else {
        v
    }
}

/// The integer square root, rounded down (0 for negative inputs).
pub open spec fn sqrt_floor(n: int) -> int
    decreases n,
{
    if n <= 0 {
        0
    } else {
        let p = sqrt_floor(n - 1);
        if (p + 1) * (p + 1) <= n {
            p + 1
        } else {
            p
        }
    }
}

pub proof fn lemma_sqrt_floor_bounds(n: int)
    requires
        0 <= n,
    ensures
        0 <= sqrt_floor(n),
        sqrt_floor(n) * sqrt_floor(n) <= n,
        n < (sqrt_floor(n) + 1) * (sqrt_floor(n) + 1),
    decreases n,
{
    if n <= 0 {
    } else {
        lemma_sqrt_floor_bounds(n - 1);
        let p = sqrt_floor(n - 1);
        if (p + 1) * (p + 1) <= n {
            assert(sqrt_floor(n) == p + 1);
            assert(n < (p + 2) * (p + 2)) by (nonlinear_arith)
                requires
                    n - 1 < (p + 1) * (p + 1),
                    (p + 1) * (p + 1) <= n,
                    0 <= p,
            ;
        } else {
            assert(sqrt_floor(n) == p);
            assert(p * p <= n - 1);
        }
    }
}

pub proof fn lemma_sqrt_floor_unique(n: int, r: int)
    requires
        0 <= n,
        0 <= r,
        r * r <= n,
        n < (r + 1) * (r + 1),
    ensures
        r == sqrt_floor(n),
{
    lemma_sqrt_floor_bounds(n);
    let s = sqrt_floor(n);
    if r < s {
        assert((r + 1) * (r + 1) <= s * s) by (nonlinear_arith)
            requires
                0 <= r,
                r + 1 <= s,
        ;
    } else if s < r {
        assert((s + 1) * (s + 1) <= r * r) by (nonlinear_arith)
            requires
                0 <= s,
                s + 1 <= r,
        ;
    }
}

/// The integer square root, rounded up.
pub open spec fn sqrt_ceil(n: int) -> int {
    if sqrt_floor(n) * sqrt_floor(n) == n {
        sqrt_floor(n)
    } else {
        sqrt_floor(n) + 1
    }
}

pub proof fn lemma_sqrt_ceil_bounds(n: int)
    requires
        0 <= n,
    ensures
        0 <= sqrt_ceil(n),
        n <= sqrt_ceil(n) * sqrt_ceil(n),
        n > 0 ==> 1 <= sqrt_ceil(n),
        n > 0 ==> (sqrt_ceil(n) - 1) * (sqrt_ceil(n) - 1) < n,
        sqrt_ceil(n) <= n,
{
    lemma_sqrt_floor_bounds(n);
    let p = sqrt_floor(n);
    if p * p == n {
        assert(p <= p * p) by (nonlinear_arith)
            requires
                0 <= p,
        ;
        if p == 0 {
            assert(p * p == 0) by (nonlinear_arith)
                requires
                    p == 0,
            ;
        }
        if n > 0 {
            assert((p - 1) * (p - 1) < p * p) by (nonlinear_arith)
                requires
                    1 <= p,
            ;
        }
    } else {
        if p == 0 {
            assert((p + 1) * (p + 1) == 1) by (nonlinear_arith)
                requires
                    p == 0,
            ;
            assert(n < 1);
        } else {
            assert(p + 1 <= p * p + 1) by (nonlinear_arith)
                requires
                    1 <= p,
            ;
            assert(p * p + 1 <= n);
            assert(n <= (p + 1) * (p + 1)) by (nonlinear_arith)
                requires
                    n < (p + 1) * (p + 1),
            ;
        }
    }
}

/// Binary-search integer square root.
pub fn isqrt_u64(n: u64) -> (r: u64)
    ensures
        r == sqrt_floor(n as int),
        r < 4_294_967_296,
{
    let mut lo: u64 = 0;
    let mut hi: u64 = 4_294_967_296;
    assert((hi as int) * (hi as int) > n as int) by (nonlinear_arith)
        requires
            hi == 4_294_967_296,
            n <= 0xffff_ffff_ffff_ffff,
    ;
    while hi - lo > 1
        invariant
            lo < hi,
            hi <= 4_294_967_296,
            (lo as int) * (lo as int) <= n as int,
            (hi as int) * (hi as int) > n as int,
        decreases hi - lo,
    {
        let mid: u64 = lo + (hi - lo) / 2;
        proof {
            assert((mid as int) * (mid as int) <= 0x1_0000_0000_0000_0000) by (nonlinear_arith)
                requires
                    0 <= mid as int <= 0x1_0000_0000,
            ;
        }
        let sq: u128 = (mid as u128) * (mid as u128);
        if sq <= n as u128 {
            lo = mid;
        } else {
            hi = mid;
        }
    }
    proof {
        lemma_sqrt_floor_unique(n as int, lo as int);
    }
    lo
}

/// Integer square root rounded up.
pub fn isqrt_ceil_u64(n: u64) -> (r: u64)
    ensures
        r == sqrt_ceil(n as int),
        r <= 4_294_967_296,
{
    let f: u64 = isqrt_u64(n);
    proof {
        assert((f as int) * (f as int) <= 0x1_0000_0000_0000_0000) by (nonlinear_arith)
            requires
                0 <= f as int <= 0x1_0000_0000,
        ;
    }
    if (f as u128) * (f as u128) == n as u128 {
        f
    } else {
        f + 1
    }
}

/// `v * num / den` with the magnitude rounded toward zero, as the spec-level
/// image of the executable `mul_div`.
pub open spec fn spec_mul_div(v: int, num: int, den: int) -> int {
    if v >= 0 {
        v * num / den
    } else {
        -((-v) * num / den)
    }
}

/// Scale an integer by a nonnegative ratio, rounding the magnitude toward
/// zero so the sign of the input is preserved.
pub fn mul_div(v: i64, num: i64, den: i64) -> (r: i64)
    requires
        0 <= num,
        0 < den,
        iabs(v as int) <= i64::MAX,
        iabs(v as int) * num <= i64::MAX,
    ensures
        r == spec_mul_div(v as int, num as int, den as int),
        iabs(r as int) * den <= iabs(v as int) * num,
        num <= den ==> iabs(r as int) <= iabs(v as int),
        v >= 0 ==> r >= 0,
        v <= 0 ==> r <= 0,
{
    let av: u64 = if v < 0 {
        (-v) as u64
    } else {
        v as u64
    };
    assert(av as int == iabs(v as int));
    let prod: u64 = av * (num as u64);
    let q: u64 = prod / (den as u64);
    proof {
        let a: int = av as int;
        let nn: int = num as int;
        let d: int = den as int;
        let qq: int = q as int;
        let pr: int = a * nn;
        assert(qq == pr / d);
        vstd::arithmetic::div_mod::lemma_fundamental_div_mod(pr, d);
        assert(qq * d <= pr) by (nonlinear_arith)
            requires
                pr == d * qq + pr % d,
                pr % d >= 0,
        ;
        assert(qq <= pr) by (nonlinear_arith)
            requires
                1 <= d,
                0 <= qq,
                qq * d <= pr,
        ;
        assert(a == 0 ==> pr == 0) by (nonlinear_arith)
            requires
                pr == a * nn,
        ;
        if num <= den {
            assert(qq <= a) by (nonlinear_arith)
                requires
                    0 <= nn <= d,
                    1 <= d,
                    0 <= a,
                    0 <= qq,
                    qq * d <= a * nn,
            ;
        }
    }
    if v < 0 {
        -(q as i64)
    } else {
        q as i64
    }
}

/// Hard screen wrap for point entities: crossing a bound teleports the
/// coordinate to the opposite edge.
pub open spec fn spec_wrap(x: int, bound: int) -> int {
    if x > bound {
        0
    } else if x < 0 {
        bound
    } else {
        x
    }
}

/// Wrap one coordinate into `[0, bound]`.
pub fn wrap_coord(x: i64, bound: i64) -> (r: i64)
    requires
        0 <= bound,
    ensures
        r == spec_wrap(x as int, bound as int),
        0 <= r <= bound,
{
    if x > bound {
        0
    } else if x < 0 {
        bound
    } else {
        x
    }
}

/// Screen wrap with a radius margin: the entity fully leaves the screen
/// before it reappears on the opposite edge, offset by its own radius.
pub open spec fn spec_wrap_margin(x: int, bound: int, m: int) -> int {
    if x + m < 0 {
        bound + m
    } else if x - m > bound {
        -m
    } else {
        x
    }
}

/// Wrap one coordinate into `[-m, bound + m]`.
pub fn wrap_margin(x: i64, bound: i64, m: i64) -> (r: i64)
    requires
        0 <= bound <= 100_000_000,
        0 <= m <= 100_000_000,
    ensures
        r == spec_wrap_margin(x as int, bound as int, m as int),
        -m <= r <= bound + m,
{
    if x < -m {
        bound + m
    } else if x > bound + m {
        -m
    } else {
        x
    }
}

pub open spec fn spec_dist_sq(a: Vec2, b: Vec2) -> int {
    (a.x - b.x) * (a.x - b.x) + (a.y - b.y) * (a.y - b.y)
}

/// Squared distance between two points.
pub fn dist_sq(a: Vec2, b: Vec2) -> (r: i64)
    requires
        iabs(a.x as int) <= 100_000_000,
        iabs(a.y as int) <= 100_000_000,
        iabs(b.x as int) <= 100_000_000,
        iabs(b.y as int) <= 100_000_000,
    ensures
        r == spec_dist_sq(a, b),
        r >= 0,
{
    let dx: i64 = a.x - b.x;
    let dy: i64 = a.y - b.y;
    proof {
        assert(dx * dx >= 0 && dx * dx <= 40_000_000_000_000_000) by (nonlinear_arith)
            requires
                iabs(dx as int) <= 200_000_000,
        ;
        assert(dy * dy >= 0 && dy * dy <= 40_000_000_000_000_000) by (nonlinear_arith)
            requires
                iabs(dy as int) <= 200_000_000,
        ;
    }
    dx * dx + dy * dy
}

/// If both components of `(sx, sy)` were scaled down from `(vx, vy)` by the
/// ratio `num / den`, and `(vx, vy)` has magnitude at most `den`, then the
/// scaled vector has magnitude at most `num`.
pub proof fn lemma_scaled_sq_le(sx: int, sy: int, vx: int, vy: int, num: int, den: int)
    requires
        0 < den,
        0 <= num,
        iabs(sx) * den <= iabs(vx) * num,
        iabs(sy) * den <= iabs(vy) * num,
        vx * vx + vy * vy <= den * den,
    ensures
        sx * sx + sy * sy <= num * num,
{
    let ax = iabs(sx);
    let ay = iabs(sy);
    let cx = iabs(vx);
    let cy = iabs(vy);
    assert(sx * sx == ax * ax && sy * sy == ay * ay && vx * vx == cx * cx && vy * vy == cy * cy)
        by (nonlinear_arith)
        requires
            ax == iabs(sx) && (ax == sx || ax == -sx),
            ay == iabs(sy) && (ay == sy || ay == -sy),
            cx == iabs(vx) && (cx == vx || cx == -vx),
            cy == iabs(vy) && (cy == vy || cy == -vy),
    ;
    assert(ax * ax * (den * den) <= cx * cx * (num * num)) by (nonlinear_arith)
        requires
            0 <= ax,
            0 <= cx,
            0 < den,
            0 <= num,
            ax * den <= cx * num,
    ;
    assert(ay * ay * (den * den) <= cy * cy * (num * num)) by (nonlinear_arith)
        requires
            0 <= ay,
            0 <= cy,
            0 < den,
            0 <= num,
            ay * den <= cy * num,
    ;
    assert((ax * ax + ay * ay) * (den * den) <= (cx * cx + cy * cy) * (num * num))
        by (nonlinear_arith)
        requires
            ax * ax * (den * den) <= cx * cx * (num * num),
            ay * ay * (den * den) <= cy * cy * (num * num),
    ;
    assert((cx * cx + cy * cy) * (num * num) <= (den * den) * (num * num)) by (nonlinear_arith)
        requires
            cx * cx + cy * cy <= den * den,
            0 <= num,
    ;
    assert(ax * ax + ay * ay <= num * num) by (nonlinear_arith)
        requires
            (ax * ax + ay * ay) * (den * den) <= (den * den) * (num * num),
            0 < den,
            0 <= ax * ax + ay * ay,
    ;
}

/// Floor division of a magnitude distributes as expected: the result's
/// magnitude, multiplied back by the denominator, does not exceed the
/// scaled input, the sign is preserved, and a ratio at most one never
/// grows the magnitude.
pub proof fn lemma_mul_div_props(v: int, num: int, den: int)
    requires
        0 <= num,
        0 < den,
    ensures
        iabs(spec_mul_div(v, num, den)) * den <= iabs(v) * num,
        v >= 0 ==> spec_mul_div(v, num, den) >= 0,
        v <= 0 ==> spec_mul_div(v, num, den) <= 0,
        num <= den ==> iabs(spec_mul_div(v, num, den)) <= iabs(v),
{
    let a = iabs(v);
    assert(a * num >= 0) by (nonlinear_arith)
        requires
            0 <= a,
            0 <= num,
    ;
    let q = a * num / den;
    vstd::arithmetic::div_mod::lemma_fundamental_div_mod(a * num, den);
    vstd::arithmetic::div_mod::lemma_div_pos_is_pos(a * num, den);
    assert(q * den <= a * num) by (nonlinear_arith)
        requires
            a * num == den * q + (a * num) % den,
            (a * num) % den >= 0,
    ;
    assert(a == 0 ==> a * num == 0) by (nonlinear_arith);
    if num <= den {
        assert(q <= a) by (nonlinear_arith)
            requires
                0 <= num <= den,
                1 <= den,
                0 <= a,
                0 <= q,
                q * den <= a * num,
        ;
    }
}

/// The mathematical content of the speed clamp: rescaling a nonzero
/// vector to a target magnitude `t` caps the squared magnitude at `t * t`
/// and preserves the sign of each component (the integer analogue of
/// "magnitude equals the limit and the direction is unchanged"; rounding
/// toward zero can leave the magnitude just below the limit).
pub proof fn lemma_rescale_bounds(v: Vec2, t: int)
    requires
        !v.is_zero(),
        0 <= t <= 2_000_000,
        iabs(v.x as int) <= 1_000_000_000,
        iabs(v.y as int) <= 1_000_000_000,
    ensures
        spec_rescale(v, t).sq_mag() <= t * t,
        iabs(spec_rescale(v, t).x as int) <= t,
        iabs(spec_rescale(v, t).y as int) <= t,
        v.x >= 0 ==> spec_rescale(v, t).x >= 0,
        v.x <= 0 ==> spec_rescale(v, t).x <= 0,
        v.y >= 0 ==> spec_rescale(v, t).y >= 0,
        v.y <= 0 ==> spec_rescale(v, t).y <= 0,
{
    let s = v.sq_mag();
    assert(1 <= s && v.x * v.x >= 0 && v.y * v.y >= 0) by (nonlinear_arith)
        requires
            v.x != 0 || v.y != 0,
            s == v.x * v.x + v.y * v.y,
    ;
    lemma_sqrt_ceil_bounds(s);
    let m = sqrt_ceil(s);
    let rx = spec_mul_div(v.x as int, t, m);
    let ry = spec_mul_div(v.y as int, t, m);
    lemma_mul_div_props(v.x as int, t, m);
    lemma_mul_div_props(v.y as int, t, m);
    lemma_scaled_sq_le(rx, ry, v.x as int, v.y as int, t, m);
    assert(iabs(v.x as int) <= m && iabs(v.y as int) <= m) by (nonlinear_arith)
        requires
            v.x * v.x + v.y * v.y <= m * m,
            0 < m,
    ;
    assert(iabs(rx) <= t) by (nonlinear_arith)
        requires
            iabs(rx) * m <= iabs(v.x as int) * t,
            iabs(v.x as int) <= m,
            0 <= iabs(rx),
            0 <= iabs(v.x as int),
            0 < m,
            0 <= t,
    ;
    assert(iabs(ry) <= t) by (nonlinear_arith)
        requires
            iabs(ry) * m <= iabs(v.y as int) * t,
            iabs(v.y as int) <= m,
            0 <= iabs(ry),
            0 <= iabs(v.y as int),
            0 < m,
            0 <= t,
    ;
    assert(spec_rescale(v, t).x as int == rx && spec_rescale(v, t).y as int == ry);
}

/// The speed clamp from below: rescaling loses only rounding, so when the
/// input's magnitude is at least 500 units and the target at least 1000,
/// the result's magnitude is at least 98% of the target (stated on
/// squares: `2500 * |r|^2 >= 2401 * t^2`, and `2401/2500 == (49/50)^2`).
pub proof fn lemma_rescale_lower_bound(v: Vec2, t: int)
    requires
        250_000 <= v.sq_mag(),
        iabs(v.x as int) <= 1_000_000_000,
        iabs(v.y as int) <= 1_000_000_000,
        1000 <= t <= 2_000_000,
    ensures
        2500 * spec_rescale(v, t).sq_mag() >= 2401 * t * t,
{
    let s = v.sq_mag();
    let ax = iabs(v.x as int);
    let ay = iabs(v.y as int);
    assert(ax * ax == v.x * v.x && ay * ay == v.y * v.y) by (nonlinear_arith)
        requires
            ax == v.x || ax == -v.x,
            ay == v.y || ay == -v.y,
    ;
    lemma_sqrt_ceil_bounds(s);
    let m = sqrt_ceil(s);
    assert(500 <= m) by (nonlinear_arith)
        requires
            m * m >= s,
            s >= 250_000,
            m >= 0,
    ;
    // exact floor-division form of each scaled component's magnitude
    let qx = ax * t / m;
    let qy = ay * t / m;
    let rx = spec_mul_div(v.x as int, t, m);
    let ry = spec_mul_div(v.y as int, t, m);
    lemma_mul_div_props(v.x as int, t, m);
    lemma_mul_div_props(v.y as int, t, m);
    assert(0 <= ax * t && 0 <= ay * t) by (nonlinear_arith)
        requires
            0 <= ax,
            0 <= ay,
            0 <= t,
    ;
    vstd::arithmetic::div_mod::lemma_div_pos_is_pos(ax * t, m);
    vstd::arithmetic::div_mod::lemma_div_pos_is_pos(ay * t, m);
    assert(iabs(rx) == qx && iabs(ry) == qy);
    vstd::arithmetic::div_mod::lemma_fundamental_div_mod(ax * t, m);
    vstd::arithmetic::div_mod::lemma_fundamental_div_mod(ay * t, m);
    vstd::arithmetic::div_mod::lemma_mod_bound(ax * t, m);
    vstd::arithmetic::div_mod::lemma_mod_bound(ay * t, m);
    let ux = qx * m;
    let uy = qy * m;
    assert(ux >= ax * t - m && ux <= ax * t && 0 <= ax * t) by (nonlinear_arith)
        requires
            ax * t == m * qx + (ax * t) % m,
            0 <= (ax * t) % m < m,
            ux == qx * m,
            0 <= ax,
            0 <= t,
    ;
    assert(uy >= ay * t - m && uy <= ay * t && 0 <= ay * t) by (nonlinear_arith)
        requires
            ay * t == m * qy + (ay * t) % m,
            0 <= (ay * t) % m < m,
            uy == qy * m,
            0 <= ay,
            0 <= t,
    ;
    // squaring (u + m) >= a*t >= 0 recovers the unrounded products
    assert((ux + m) * (ux + m) >= (ax * t) * (ax * t)) by (nonlinear_arith)
        requires
            ux + m >= ax * t,
            ax * t >= 0,
    ;
    assert((uy + m) * (uy + m) >= (ay * t) * (ay * t)) by (nonlinear_arith)
        requires
            uy + m >= ay * t,
            ay * t >= 0,
    ;
    assert((ax * t) * (ax * t) + (ay * t) * (ay * t) == s * (t * t)) by (nonlinear_arith)
        requires
            s == ax * ax + ay * ay,
    ;
    assert((ux + m) * (ux + m) == ux * ux + 2 * (ux * m) + m * m) by (nonlinear_arith);
    assert((uy + m) * (uy + m) == uy * uy + 2 * (uy * m) + m * m) by (nonlinear_arith);
    // each cross term is at most m*m*t, since a component is at most m
    assert(ax <= m && ay <= m) by (nonlinear_arith)
        requires
            ax * ax <= m * m,
            ay * ay <= m * m,
            0 <= ax,
            0 <= ay,
            0 < m,
    ;
    assert(ux * m <= (m * m) * t && uy * m <= (m * m) * t) by (nonlinear_arith)
        requires
            ux <= ax * t,
            uy <= ay * t,
            ax <= m,
            ay <= m,
            0 <= t,
            0 < m,
    ;
    assert(ux * ux + uy * uy >= s * (t * t) - 4 * ((m * m) * t) - 2 * (m * m));
    // back to the rounded components
    assert(ux * ux == (qx * qx) * (m * m) && uy * uy == (qy * qy) * (m * m)) by (nonlinear_arith)
        requires
            ux == qx * m,
            uy == qy * m,
    ;
    let x2 = qx * qx + qy * qy;
    assert(x2 * (m * m) >= s * (t * t) - 4 * ((m * m) * t) - 2 * (m * m)) by (nonlinear_arith)
        requires
            (qx * qx) * (m * m) + (qy * qy) * (m * m) >= s * (t * t) - 4 * ((m * m) * t) - 2 * (m
                * m),
            x2 == qx * qx + qy * qy,
    ;
    // the ceiling square root undershoots the magnitude by less than one
    assert(s * (t * t) >= ((m - 1) * (m - 1) + 1) * (t * t)) by (nonlinear_arith)
        requires
            s >= (m - 1) * (m - 1) + 1,
            t * t >= 0,
    ;
    // scalar core: with m >= 500 and t >= 1000 the rounding losses stay
    // under two percent of the target magnitude
    assert(2500 * (((m - 1) * (m - 1) + 1) * (t * t)) - 2500 * (4 * ((m * m) * t)) - 2500 * (2 * (m
        * m)) >= (2401 * t * t) * (m * m)) by (nonlinear_arith)
        requires
            500 <= m,
            1000 <= t <= 2_000_000,
    ;
    assert((2500 * x2) * (m * m) == 2500 * (x2 * (m * m))) by (nonlinear_arith);
    assert(2500 * x2 >= 2401 * t * t) by (nonlinear_arith)
        requires
            (2500 * x2) * (m * m) >= (2401 * t * t) * (m * m),
            0 < m,
    ;
    assert(qx <= t && qy <= t) by (nonlinear_arith)
        requires
            ux == qx * m,
            uy == qy * m,
            ux <= ax * t,
            uy <= ay * t,
            ax <= m,
            ay <= m,
            0 <= qx,
            0 <= qy,
            0 <= t,
            0 < m,
    ;
    assert(spec_rescale(v, t).x as int == rx && spec_rescale(v, t).y as int == ry);
    assert(spec_rescale(v, t).sq_mag() == rx * rx + ry * ry);
    assert(rx * rx + ry * ry == x2) by (nonlinear_arith)
        requires
            iabs(rx) == qx && (rx == qx || rx == -qx),
            iabs(ry) == qy && (ry == qy || ry == -qy),
            x2 == qx * qx + qy * qy,
    ;
}

/// Rescale a nonzero vector so its magnitude becomes (at most, and up to
/// rounding exactly) `t`, preserving the direction's component signs.
pub open spec fn spec_rescale(v: Vec2, t: int) -> Vec2 {
    let m = sqrt_ceil(v.sq_mag());
    Vec2 { x: spec_mul_div(v.x as int, t, m) as i64, y: spec_mul_div(v.y as int, t, m) as i64 }
}

/// Rescale `v` to magnitude `t`: divide each component by the (rounded-up)
/// magnitude of `v` and multiply by `t`, rounding toward zero.
pub fn rescale(v: Vec2, t: i64) -> (r: Vec2)
    requires
        !v.is_zero(),
        0 <= t <= 2_000_000,
        iabs(v.x as int) <= 1_000_000_000,
        iabs(v.y as int) <= 1_000_000_000,
    ensures
        r == spec_rescale(v, t as int),
        r.sq_mag() <= t * t,
        iabs(r.x as int) <= t,
        iabs(r.y as int) <= t,
        v.x >= 0 ==> r.x >= 0,
        v.x <= 0 ==> r.x <= 0,
        v.y >= 0 ==> r.y >= 0,
        v.y <= 0 ==> r.y <= 0,
        v.sq_mag() >= 250_000 && t >= 1000 ==> 2500 * r.sq_mag() >= 2401 * t * t,
{
    proof {
        assert(v.x * v.x >= 0 && v.x * v.x <= 1_000_000_000_000_000_000 && v.y * v.y >= 0 && v.y
            * v.y <= 1_000_000_000_000_000_000 && (v.x != 0 ==> v.x * v.x >= 1) && (v.y != 0
            ==> v.y * v.y >= 1)) by (nonlinear_arith)
            requires
                iabs(v.x as int) <= 1_000_000_000,
                iabs(v.y as int) <= 1_000_000_000,
        ;
    }
    let sq: i64 = v.x * v.x + v.y * v.y;
    let m: u64 = isqrt_ceil_u64(sq as u64);
    proof {
        lemma_sqrt_ceil_bounds(sq as int);
        lemma_sqrt_floor_bounds(sq as int);
        assert(m >= 1);
        let fl: int = sqrt_floor(sq as int);
        assert(fl < 2_000_000_000) by (nonlinear_arith)
            requires
                0 <= fl,
                fl * fl <= 2_000_000_000_000_000_000,
        ;
        assert(m as int <= fl + 1);
    }
    let mi: i64 = m as i64;
    proof {
        assert(iabs(v.x as int) * (t as int) <= 2_000_000_000_000_000 && iabs(v.y as int) * (
        t as int) <= 2_000_000_000_000_000) by (nonlinear_arith)
            requires
                0 <= iabs(v.x as int) <= 1_000_000_000,
                0 <= iabs(v.y as int) <= 1_000_000_000,
                0 <= t as int <= 2_000_000,
        ;
    }
    let rx: i64 = mul_div(v.x, t, mi);
    let ry: i64 = mul_div(v.y, t, mi);
    proof {
        lemma_rescale_bounds(v, t as int);
        if v.sq_mag() >= 250_000 && t >= 1000 {
            lemma_rescale_lower_bound(v, t as int);
        }
    }
    Vec2 { x: rx, y: ry }
}

} // verus!
