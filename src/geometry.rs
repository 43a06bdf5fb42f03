//! Integer plane geometry: positions, exact squared distances, and a step
//! towards a point that never overshoots it.

use vstd::prelude::*;

verus! {

/// A position in world units.
#[derive(Clone, Copy, Debug, PartialEq, Eq, Structural)]
pub struct Point {
    pub x: i32,
    pub y: i32,
}

/// A point that policies aim at. It may lie beyond the grid of stored
/// positions (a point projected far ahead), but within `AIM_LIMIT`.
#[derive(Clone, Copy, Debug, PartialEq, Eq, Structural)]
pub struct Aim {
    pub x: i64,
    pub y: i64,
}

/// Bound on the coordinates of an aim point (two to the fortieth).
pub const AIM_LIMIT: i64 = 1099511627776;

pub open spec fn sq(v: int) -> int {
    v * v
}

/// Squared Euclidean distance between two points given by coordinates.
pub open spec fn dist_sq(ax: int, ay: int, bx: int, by: int) -> int {
    sq(ax - bx) + sq(ay - by)
}

impl Aim {
    pub open spec fn fits(&self) -> bool {
        -AIM_LIMIT <= self.x <= AIM_LIMIT && -AIM_LIMIT <= self.y <= AIM_LIMIT
    }

    pub fn from_point(p: Point) -> (r: Aim)
        ensures
            r.x == p.x,
            r.y == p.y,
            r.fits(),
    {
        Aim { x: p.x as i64, y: p.y as i64 }
    }
}

proof fn lemma_square_bound(v: int, b: int)
    requires
        -b <= v <= b,
    ensures
        0 <= v * v <= b * b,
{
    assert(0 <= v * v <= b * b) by (nonlinear_arith)
        requires
            -b <= v <= b,
    ;
}

/// Squared distance from a stored position to an aim point.
pub fn distance_sq(p: Point, a: Aim) -> (r: i128)
    requires
        a.fits(),
    ensures
        r == dist_sq(p.x as int, p.y as int, a.x as int, a.y as int),
        r >= 0,
{
    let dx: i128 = p.x as i128 - a.x as i128;
    let dy: i128 = p.y as i128 - a.y as i128;
    proof {
        lemma_square_bound(dx as int, 0x200_0000_0000);
        lemma_square_bound(dy as int, 0x200_0000_0000);
    }
    dx * dx + dy * dy
}

/// Squared distance between two stored positions.
pub fn point_distance_sq(p: Point, q: Point) -> (r: i128)
    ensures
        r == dist_sq(p.x as int, p.y as int, q.x as int, q.y as int),
        r >= 0,
{
    distance_sq(p, Aim::from_point(q))
}

/// `d` is the integer square root of `n`.
pub open spec fn is_root(d: int, n: int) -> bool {
    0 <= d && d * d <= n < (d + 1) * (d + 1)
}

/// The integer square root, by bisection.
pub fn isqrt(n: u128) -> (r: u128)
    ensures
        is_root(r as int, n as int),
{
    let mut lo: u128 = 0;
    let mut hi: u128 = 0x1_0000_0000_0000_0000;
    assert(n < hi * hi) by (nonlinear_arith)
        requires
            hi == 0x1_0000_0000_0000_0000u128,
            n <= u128::MAX,
    ;
    while hi - lo > 1
        invariant
            lo < hi <= 0x1_0000_0000_0000_0000u128,
            lo * lo <= n,
            n < hi * hi,
        decreases hi - lo,
    {
        let mid: u128 = lo + (hi - lo) / 2;
        assert(mid * mid <= 0xffff_ffff_ffff_ffffu128 * 0xffff_ffff_ffff_ffffu128) by (nonlinear_arith)
            requires
                mid < 0x1_0000_0000_0000_0000u128,
        ;
        if mid * mid <= n {
            lo = mid;
        } else {
            hi = mid;
        }
    }
    lo
}

/// Moves `amount` of the way `dist` along a signed offset `delta`, rounding
/// the length of the move down.
pub open spec fn scaled(delta: int, amount: int, dist: int) -> int {
    if delta >= 0 {
        (delta * amount) / dist
    } else {
        -((-delta * amount) / dist)
    }
}

/// Where a step of length `step` from `from` towards `to` ends, given the
/// integer distance `d` between them.
pub open spec fn stepped(from: Point, to: Point, step: int, d: int) -> Point {
    if dist_sq(from.x as int, from.y as int, to.x as int, to.y as int) <= step * step {
        to
    } else {
        Point {
            x: (from.x + scaled(to.x - from.x, step, d)) as i32,
            y: (from.y + scaled(to.y - from.y, step, d)) as i32,
        }
    }
}

/// `v` lies between `a` and `b`, both included.
pub open spec fn between(v: int, a: int, b: int) -> bool {
    (a <= v <= b) || (b <= v <= a)
}

proof fn lemma_scaled_within(delta: int, amount: int, dist: int)
    requires
        0 <= amount <= dist,
        0 < dist,
    ensures
        between(scaled(delta, amount, dist), 0, delta),
{
    if delta >= 0 {
        assert(0 <= delta * amount <= delta * dist) by (nonlinear_arith)
            requires
                0 <= amount <= dist,
                delta >= 0,
        ;
        assert((delta * dist) / dist == delta) by (nonlinear_arith)
            requires
                0 < dist,
        ;
        vstd::arithmetic::div_mod::lemma_div_is_ordered(delta * amount, delta * dist, dist);
        vstd::arithmetic::div_mod::lemma_div_pos_is_pos(delta * amount, dist);
    } else {
        let m = -delta;
        assert(0 <= m * amount <= m * dist) by (nonlinear_arith)
            requires
                0 <= amount <= dist,
                m >= 0,
        ;
        assert((m * dist) / dist == m) by (nonlinear_arith)
            requires
                0 < dist,
        ;
        vstd::arithmetic::div_mod::lemma_div_is_ordered(m * amount, m * dist, dist);
        vstd::arithmetic::div_mod::lemma_div_pos_is_pos(m * amount, dist);
    }
}

/// One offset of a step: `delta` scaled by `step / d`.
fn scale_offset(delta: i64, step: u64, d: u128) -> (r: i64)
    requires
        -0x1_0000_0000 <= delta <= 0x1_0000_0000,
        0 < d,
        step <= d,
    ensures
        r == scaled(delta as int, step as int, d as int),
        between(r as int, 0, delta as int),
{
    proof {
        lemma_scaled_within(delta as int, step as int, d as int);
    }
    let m: u128 = if delta >= 0 { delta as u128 } else { (-delta) as u128 };
    assert(m * (step as u128) <= 0x1_0000_0000u128 * 0xffff_ffff_ffff_ffffu128) by (nonlinear_arith)
        requires
            m <= 0x1_0000_0000u128,
            step <= 0xffff_ffff_ffff_ffffu64,
    ;
    let part: u128 = (m * (step as u128)) / d;
    if delta >= 0 {
        part as i64
    } else {
        -(part as i64)
    }
}

/// `r` is where a step of length `step` from `from` towards `to` lands,
/// `d` being the integer distance between them.
pub open spec fn lands_at(r: Point, from: Point, to: Point, step: int, d: int) -> bool {
    &&& is_root(d, dist_sq(from.x as int, from.y as int, to.x as int, to.y as int))
    &&& r == stepped(from, to, step, d)
}

/// Moves from `from` towards `to` by at most `step` units: straight onto `to`
/// when it lies within `step`, else `step` units along the line between them,
/// each coordinate of the move rounded towards `from`.
pub fn move_towards(from: Point, to: Point, step: u32) -> (r: Point)
    ensures
        exists|d: int| lands_at(r, from, to, step as int, d),
        between(r.x as int, from.x as int, to.x as int),
        between(r.y as int, from.y as int, to.y as int),
{
    let dist2: i128 = point_distance_sq(from, to);
    let d: u128 = isqrt(dist2 as u128);
    let s: i128 = step as i128;
    assert(s * s <= 0xffff_ffffi128 * 0xffff_ffffi128) by (nonlinear_arith)
        requires
            0 <= s <= 0xffff_ffffi128,
    ;
    if dist2 <= s * s {
        proof {
            assert(lands_at(to, from, to, step as int, d as int));
        }
        to
    } else {
        assert(d >= step && d > 0) by (nonlinear_arith)
            requires
                d * d <= dist2,
                dist2 < (d + 1) * (d + 1),
                dist2 > (step as int) * (step as int),
                step >= 0,
        ;
        let dx: i64 = to.x as i64 - from.x as i64;
        let dy: i64 = to.y as i64 - from.y as i64;
        let mx: i64 = scale_offset(dx, step as u64, d);
        let my: i64 = scale_offset(dy, step as u64, d);
        let r = Point { x: (from.x as i64 + mx) as i32, y: (from.y as i64 + my) as i32 };
        assert(lands_at(r, from, to, step as int, d as int));
        r
    }
}

} // verus!
