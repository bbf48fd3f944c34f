//! Integer geometry: square roots, vectors, distances and unit directions.
use vstd::prelude::*;
use crate::units::{COORD_MAX, DIR_ONE, SECOND, SPEED_MAX, DELTA_MAX};

verus! {

/// Whether `r` is the integer square root of `n`, rounded down.
pub open spec fn is_sqrt_floor(n: int, r: int) -> bool {
    0 <= r && r * r <= n < (r + 1) * (r + 1)
}

/// The integer square root of `n`, rounded down.
pub open spec fn sqrt_floor(n: int) -> int {
    choose|r: int| is_sqrt_floor(n, r)
}

/// A number has at most one rounded-down square root.
pub proof fn lemma_sqrt_floor_unique(n: int, a: int, b: int)
    requires
        is_sqrt_floor(n, a),
        is_sqrt_floor(n, b),
    ensures
        a == b,
{
    if a < b {
        assert((a + 1) * (a + 1) <= b * b) by (nonlinear_arith)
            requires 0 <= a, a + 1 <= b;
    } else if b < a {
        assert((b + 1) * (b + 1) <= a * a) by (nonlinear_arith)
            requires 0 <= b, b + 1 <= a;
    }
}

/// Any witness of the rounded-down square root is `sqrt_floor`.
pub proof fn lemma_sqrt_floor_is(n: int, r: int)
    requires
        is_sqrt_floor(n, r),
    ensures
        sqrt_floor(n) == r,
{
    let c = choose|c: int| is_sqrt_floor(n, c);
    lemma_sqrt_floor_unique(n, c, r);
}

/// The square root is monotone.
pub proof fn lemma_sqrt_floor_monotone(m: int, n: int, a: int, b: int)
    requires
        is_sqrt_floor(m, a),
        is_sqrt_floor(n, b),
        m <= n,
    ensures
        a <= b,
{
    if b < a {
        assert((b + 1) * (b + 1) <= a * a) by (nonlinear_arith)
            requires 0 <= b, b + 1 <= a;
    }
}

/// Every number from 0 on has a rounded-down square root.
pub proof fn lemma_sqrt_floor_exists(n: int)
    requires
        n >= 0,
    ensures
        is_sqrt_floor(n, sqrt_floor(n)),
    decreases n,
{
    if n == 0 {
        assert(is_sqrt_floor(0, 0));
    } else {
        lemma_sqrt_floor_exists(n - 1);
        let r = sqrt_floor(n - 1);
        if n < (r + 1) * (r + 1) {
            assert(is_sqrt_floor(n, r));
        } else {
            assert((r + 1) * (r + 1) < (r + 2) * (r + 2)) by (nonlinear_arith)
                requires r >= 0;
            assert(is_sqrt_floor(n, r + 1));
        }
    }
}

/// Computes the integer square root of `n`, rounded down.
pub fn isqrt(n: u128) -> (r: u128)
    ensures
        is_sqrt_floor(n as int, r as int),
        r == sqrt_floor(n as int),
        r <= 0xFFFF_FFFF_FFFF_FFFF,
{
    let mut lo: u128 = 0;
    let mut hi: u128 = 0x1_0000_0000_0000_0000;
    assert(0x1_0000_0000_0000_0000int * 0x1_0000_0000_0000_0000int > u128::MAX)
        by (nonlinear_arith);
    while hi - lo > 1
        invariant
            lo < hi <= 0x1_0000_0000_0000_0000,
            lo * lo <= n < hi * hi,
        decreases hi - lo,
    {
        let mid: u128 = lo + (hi - lo) / 2;
        assert(mid * mid <= 0xFFFF_FFFF_FFFF_FFFF * 0xFFFF_FFFF_FFFF_FFFF) by (nonlinear_arith)
            requires 0 <= mid <= 0xFFFF_FFFF_FFFF_FFFF;
        if mid * mid <= n {
            lo = mid;
        } else {
            hi = mid;
        }
    }
    proof {
        lemma_sqrt_floor_is(n as int, lo as int);
    }
    lo
}

/// A point or an offset in the plane, in length steps.
#[derive(Clone, Copy, Debug, PartialEq, Eq, Structural)]
pub struct Vec2 {
    pub x: i64,
    pub y: i64,
}

impl Vec2 {
    /// Whether both coordinates lie inside the world.
    pub open spec fn in_world(self) -> bool {
        &&& -COORD_MAX <= self.x <= COORD_MAX
        &&& -COORD_MAX <= self.y <= COORD_MAX
    }

    /// Whether the vector is a direction: zero, or of unit length up to
    /// rounding. It is no longer than a unit, and unless it is zero it would
    /// be longer than a unit with each part one millionth larger.
    pub open spec fn is_direction(self) -> bool {
        &&& -DIR_ONE <= self.x <= DIR_ONE
        &&& -DIR_ONE <= self.y <= DIR_ONE
        &&& self.x * self.x + self.y * self.y <= DIR_ONE * DIR_ONE
        &&& (self.x == 0 && self.y == 0) || (magnitude(self.x as int) + 1) * (magnitude(
            self.x as int,
        ) + 1) + (magnitude(self.y as int) + 1) * (magnitude(self.y as int) + 1) > DIR_ONE
            * DIR_ONE
    }

    /// Decides whether both coordinates lie inside the world.
    pub fn is_in_world(&self) -> (r: bool)
        ensures
            r == self.in_world(),
    {
        -COORD_MAX <= self.x && self.x <= COORD_MAX && -COORD_MAX <= self.y && self.y
            <= COORD_MAX
    }

    /// Decides whether the vector is a direction.
    pub fn is_a_direction(&self) -> (r: bool)
        ensures
            r == self.is_direction(),
    {
        if -DIR_ONE <= self.x && self.x <= DIR_ONE && -DIR_ONE <= self.y && self.y <= DIR_ONE {
            assert(0 <= self.x * self.x <= DIR_ONE * DIR_ONE) by (nonlinear_arith)
                requires -DIR_ONE <= self.x <= DIR_ONE;
            assert(0 <= self.y * self.y <= DIR_ONE * DIR_ONE) by (nonlinear_arith)
                requires -DIR_ONE <= self.y <= DIR_ONE;
            let ax: i64 = if self.x >= 0 {
                self.x
            } else {
                -self.x
            };
            let ay: i64 = if self.y >= 0 {
                self.y
            } else {
                -self.y
            };
            assert(0 <= (ax + 1) * (ax + 1) <= (DIR_ONE + 1) * (DIR_ONE + 1)) by (nonlinear_arith)
                requires 0 <= ax <= DIR_ONE;
            assert(0 <= (ay + 1) * (ay + 1) <= (DIR_ONE + 1) * (DIR_ONE + 1)) by (nonlinear_arith)
                requires 0 <= ay <= DIR_ONE;
            self.x * self.x + self.y * self.y <= DIR_ONE * DIR_ONE && ((self.x == 0 && self.y
                == 0) || (ax + 1) * (ax + 1) + (ay + 1) * (ay + 1) > DIR_ONE * DIR_ONE)
        } else {
            false
        }
    }

    /// The vector with the given parts.
    pub fn new(x: i64, y: i64) -> (v: Vec2)
        ensures
            v.x == x,
            v.y == y,
    {
        Vec2 { x, y }
    }

    /// The origin, which is also the direction of no movement.
    pub fn zero() -> (v: Vec2)
        ensures
            v.x == 0,
            v.y == 0,
    {
        Vec2 { x: 0, y: 0 }
    }
}

/// `v` held to the range from `lo` to `hi`.
pub open spec fn clamped(v: int, lo: int, hi: int) -> int {
    if v < lo {
        lo
    } else if v > hi {
        hi
    } else {
        v
    }
}

/// The coordinate that `v` becomes inside the world.
pub open spec fn clamp_coord(v: int) -> int {
    clamped(v, -COORD_MAX, COORD_MAX as int)
}

/// The sum of two coordinates, held inside the world.
pub fn add_coord(a: i64, b: i64) -> (r: i64)
    requires
        -COORD_MAX <= a <= COORD_MAX,
        -4 * COORD_MAX <= b <= 4 * COORD_MAX,
    ensures
        r == clamp_coord(a + b),
        -COORD_MAX <= r <= COORD_MAX,
{
    let s: i64 = a + b;
    if s < -COORD_MAX {
        -COORD_MAX
    } else if s > COORD_MAX {
        COORD_MAX
    } else {
        s
    }
}

/// The square of the distance between two points.
pub open spec fn dist_sq(a: Vec2, b: Vec2) -> int {
    (a.x - b.x) * (a.x - b.x) + (a.y - b.y) * (a.y - b.y)
}

/// Computes the square of the distance between two points of the world.
pub fn distance_squared(a: Vec2, b: Vec2) -> (r: u128)
    requires
        a.in_world(),
        b.in_world(),
    ensures
        r == dist_sq(a, b),
        r <= 8 * COORD_MAX * COORD_MAX,
{
    let dx: i128 = a.x as i128 - b.x as i128;
    let dy: i128 = a.y as i128 - b.y as i128;
    assert(0 <= dx * dx <= 4 * COORD_MAX * COORD_MAX) by (nonlinear_arith)
        requires -2 * COORD_MAX <= dx <= 2 * COORD_MAX;
    assert(0 <= dy * dy <= 4 * COORD_MAX * COORD_MAX) by (nonlinear_arith)
        requires -2 * COORD_MAX <= dy <= 2 * COORD_MAX;
    let s: i128 = dx * dx + dy * dy;
    s as u128
}

/// Whether the distance between `a` and `b` is at most `reach`.
pub open spec fn within(a: Vec2, b: Vec2, reach: int) -> bool {
    reach >= 0 && dist_sq(a, b) <= reach * reach
}

/// Whether the distance between `a` and `b` is less than `reach`.
pub open spec fn closer_than(a: Vec2, b: Vec2, reach: int) -> bool {
    reach > 0 && dist_sq(a, b) < reach * reach
}

/// Decides whether the distance between two points is at most `reach`.
pub fn is_within(a: Vec2, b: Vec2, reach: i64) -> (r: bool)
    requires
        a.in_world(),
        b.in_world(),
    ensures
        r == within(a, b, reach as int),
{
    if reach < 0 {
        return false;
    }
    let d: u128 = distance_squared(a, b);
    let w: u128 = reach as u128;
    assert(w * w <= 0x7FFF_FFFF_FFFF_FFFF * 0x7FFF_FFFF_FFFF_FFFF) by (nonlinear_arith)
        requires 0 <= w <= 0x7FFF_FFFF_FFFF_FFFF;
    d <= w * w
}

/// Decides whether the distance between two points is less than `reach`.
pub fn is_closer_than(a: Vec2, b: Vec2, reach: i64) -> (r: bool)
    requires
        a.in_world(),
        b.in_world(),
    ensures
        r == closer_than(a, b, reach as int),
{
    if reach <= 0 {
        return false;
    }
    let d: u128 = distance_squared(a, b);
    let w: u128 = reach as u128;
    assert(w * w <= 0x7FFF_FFFF_FFFF_FFFF * 0x7FFF_FFFF_FFFF_FFFF) by (nonlinear_arith)
        requires 0 <= w <= 0x7FFF_FFFF_FFFF_FFFF;
    d < w * w
}

/// The quotient of `n` by a positive `d`, rounded towards zero.
pub open spec fn trunc_div(n: int, d: int) -> int {
    if n >= 0 {
        n / d
    } else {
        -((-n) / d)
    }
}

/// Divides by a positive number, rounding towards zero.
pub fn div_toward_zero(n: i128, d: i128) -> (r: i128)
    requires
        d > 0,
        n > i128::MIN,
    ensures
        r == trunc_div(n as int, d as int),
        n >= 0 ==> 0 <= r <= n,
        n <= 0 ==> n <= r <= 0,
{
    if n >= 0 {
        let q: i128 = n / d;
        assert(0 <= n as int / d as int <= n) by (nonlinear_arith)
            requires n >= 0, d > 0;
        q
    } else {
        let m: i128 = -n;
        let q: i128 = m / d;
        assert(0 <= m as int / d as int <= m) by (nonlinear_arith)
            requires m >= 0, d > 0;
        -q
    }
}

/// How far something at `speed` gets in `dt` microseconds, rounded down.
pub open spec fn reach_in(speed: int, dt: int) -> int {
    speed * dt / (SECOND as int)
}

/// How far something moves along one axis in `dt` microseconds, at `speed`
/// length steps per second, when `dir` millionths of its motion go along that
/// axis; rounded towards zero.
pub open spec fn travel(dir: int, speed: int, dt: int) -> int {
    trunc_div(dir * speed * dt, DIR_ONE * SECOND)
}

/// Computes `travel`.
pub fn travel_along(dir: i64, speed: i64, dt: i64) -> (r: i64)
    requires
        -DIR_ONE <= dir <= DIR_ONE,
        0 <= speed <= SPEED_MAX,
        0 <= dt <= DELTA_MAX,
    ensures
        r == travel(dir as int, speed as int, dt as int),
        -COORD_MAX <= r <= COORD_MAX,
{
    assert(0 <= speed * dt <= SPEED_MAX * DELTA_MAX) by (nonlinear_arith)
        requires 0 <= speed <= SPEED_MAX, 0 <= dt <= DELTA_MAX;
    let sd: i128 = speed as i128 * dt as i128;
    assert(-(DIR_ONE * (SPEED_MAX * DELTA_MAX)) <= dir * (speed * dt) <= DIR_ONE * (SPEED_MAX
        * DELTA_MAX)) by (nonlinear_arith)
        requires
            -DIR_ONE <= dir <= DIR_ONE,
            0 <= speed * dt <= SPEED_MAX * DELTA_MAX,
    ;
    assert(dir * speed * dt == dir * (speed * dt)) by (nonlinear_arith);
    let n: i128 = dir as i128 * sd;
    let q: i128 = div_toward_zero(n, DIR_ONE as i128 * SECOND as i128);
    proof {
        let big = DIR_ONE * SECOND;
        if n >= 0 {
            assert(n as int / big <= COORD_MAX) by (nonlinear_arith)
                requires 0 <= n <= 1_000_000 * (1_000_000_000 * 1_000_000_000int), big
                    == 1_000_000_000_000int;
        } else {
            assert((-n) as int / big <= COORD_MAX) by (nonlinear_arith)
                requires 0 <= -n <= 1_000_000 * (1_000_000_000 * 1_000_000_000int), big
                    == 1_000_000_000_000int;
        }
    }
    q as i64
}

/// The size of one part of the unit vector along an offset whose part on
/// that axis is `d` and whose squared length is `len_sq`: the part's share of
/// the length, in millionths, rounded down.
pub open spec fn unit_size(d: int, len_sq: int) -> int {
    sqrt_floor((DIR_ONE * DIR_ONE * (d * d)) / len_sq)
}

/// The part along one axis of the unit vector along an offset, in millionths
/// and rounded towards zero, where the offset's part on that axis is `d` and
/// its part on the other axis is `other`; zero where `d` is zero.
pub open spec fn unit_part(d: int, other: int) -> int {
    if d == 0 {
        0
    } else if d > 0 {
        unit_size(d, d * d + other * other)
    } else {
        -unit_size(d, d * d + other * other)
    }
}

/// The unit vector along any offset is of unit length at most.
pub proof fn lemma_unit_is_short(dx: int, dy: int)
    ensures
        unit_part(dx, dy) * unit_part(dx, dy) + unit_part(dy, dx) * unit_part(dy, dx) <= DIR_ONE
            * DIR_ONE,
{
    let n = dx * dx + dy * dy;
    let one = DIR_ONE * DIR_ONE;
    assert(dx * dx >= 0 && dy * dy >= 0) by (nonlinear_arith);
    assert(dx != 0 ==> dx * dx > 0) by (nonlinear_arith);
    assert(dy != 0 ==> dy * dy > 0) by (nonlinear_arith);
    if n <= 0 {
        assert(dx == 0 && dy == 0);
        assert(unit_part(dx, dy) == 0 && unit_part(dy, dx) == 0);
    } else {
        let a = one * (dx * dx);
        let b = one * (dy * dy);
        assert(a >= 0 && b >= 0 && a + b == one * n) by (nonlinear_arith)
            requires
                a == one * (dx * dx),
                b == one * (dy * dy),
                n == dx * dx + dy * dy,
                dx * dx >= 0,
                dy * dy >= 0,
                one >= 0,
        ;
        let qa = a / n;
        let qb = b / n;
        assert(qa >= 0 && qb >= 0 && qa + qb <= one) by (nonlinear_arith)
            requires a >= 0, b >= 0, n > 0, a + b == one * n, qa == a / n, qb == b / n;
        lemma_sqrt_floor_exists(qa);
        lemma_sqrt_floor_exists(qb);
        let ma = sqrt_floor(qa);
        let mb = sqrt_floor(qb);
        assert(n == dy * dy + dx * dx);
        assert(unit_part(dx, dy) * unit_part(dx, dy) <= qa) by (nonlinear_arith)
            requires
                ma * ma <= qa,
                qa >= 0,
                unit_part(dx, dy) == 0 || unit_part(dx, dy) == ma || unit_part(dx, dy) == -ma,
        ;
        assert(unit_part(dy, dx) * unit_part(dy, dx) <= qb) by (nonlinear_arith)
            requires
                mb * mb <= qb,
                qb >= 0,
                unit_part(dy, dx) == 0 || unit_part(dy, dx) == mb || unit_part(dy, dx) == -mb,
        ;
        assert(unit_part(dx, dy) * unit_part(dx, dy) + unit_part(dy, dx) * unit_part(dy, dx)
            <= one);
    }
}

/// The size of `v`, without its sign.
pub open spec fn magnitude(v: int) -> int {
    if v >= 0 {
        v
    } else {
        -v
    }
}

/// The unit vector along an offset that is not zero is of unit length up to
/// rounding: each part is rounded towards zero by less than one millionth,
/// so that with each part one millionth larger the vector would be longer
/// than a unit.
pub proof fn lemma_unit_is_long(dx: int, dy: int)
    requires
        dx != 0 || dy != 0,
    ensures
        (magnitude(unit_part(dx, dy)) + 1) * (magnitude(unit_part(dx, dy)) + 1) + (magnitude(
            unit_part(dy, dx),
        ) + 1) * (magnitude(unit_part(dy, dx)) + 1) > DIR_ONE * DIR_ONE,
        unit_part(dx, dy) * unit_part(dx, dy) + unit_part(dy, dx) * unit_part(dy, dx) > DIR_ONE
            * DIR_ONE - 4 * DIR_ONE - 2,
{
    let n = dx * dx + dy * dy;
    let one = DIR_ONE * DIR_ONE;
    assert(dx * dx >= 0 && dy * dy >= 0) by (nonlinear_arith);
    assert(dx != 0 ==> dx * dx > 0) by (nonlinear_arith);
    assert(dy != 0 ==> dy * dy > 0) by (nonlinear_arith);
    assert(n > 0);
    assert(n == dy * dy + dx * dx);
    let a = one * (dx * dx);
    let b = one * (dy * dy);
    assert(a >= 0 && b >= 0 && a + b == one * n) by (nonlinear_arith)
        requires
            a == one * (dx * dx),
            b == one * (dy * dy),
            n == dx * dx + dy * dy,
            dx * dx >= 0,
            dy * dy >= 0,
            one >= 0,
    ;
    let qa = a / n;
    let qb = b / n;
    assert(qa >= 0 && a < (qa + 1) * n) by (nonlinear_arith)
        requires a >= 0, n > 0, qa == a / n;
    assert(qb >= 0 && b < (qb + 1) * n) by (nonlinear_arith)
        requires b >= 0, n > 0, qb == b / n;
    lemma_sqrt_floor_exists(qa);
    lemma_sqrt_floor_exists(qb);
    let ux = magnitude(unit_part(dx, dy));
    let uy = magnitude(unit_part(dy, dx));
    let sx = (ux + 1) * (ux + 1);
    let sy = (uy + 1) * (uy + 1);
    if dx != 0 {
        assert(ux == sqrt_floor(qa));
        assert(sx >= qa + 1);
    } else {
        assert(ux == 0);
        assert(a == 0) by (nonlinear_arith)
            requires a == one * (dx * dx), dx == 0;
        assert(sx == 1) by (nonlinear_arith)
            requires sx == (ux + 1) * (ux + 1), ux == 0;
    }
    assert(sx * n > a) by (nonlinear_arith)
        requires n > 0, a >= 0, (sx >= qa + 1 && a < (qa + 1) * n) || (sx == 1 && a == 0);
    if dy != 0 {
        assert(uy == sqrt_floor(qb));
        assert(sy >= qb + 1);
    } else {
        assert(uy == 0);
        assert(b == 0) by (nonlinear_arith)
            requires b == one * (dy * dy), dy == 0;
        assert(sy == 1) by (nonlinear_arith)
            requires sy == (uy + 1) * (uy + 1), uy == 0;
    }
    assert(sy * n > b) by (nonlinear_arith)
        requires n > 0, b >= 0, (sy >= qb + 1 && b < (qb + 1) * n) || (sy == 1 && b == 0);
    assert(sx + sy > one) by (nonlinear_arith)
        requires sx * n > a, sy * n > b, a + b == one * n, n > 0;
    lemma_unit_is_short(dx, dy);
    let px = unit_part(dx, dy);
    let py = unit_part(dy, dx);
    assert(ux * ux == px * px) by (nonlinear_arith)
        requires ux == px || ux == -px;
    assert(uy * uy == py * py) by (nonlinear_arith)
        requires uy == py || uy == -py;
    assert(0 <= ux <= DIR_ONE && 0 <= uy <= DIR_ONE) by (nonlinear_arith)
        requires ux * ux + uy * uy <= DIR_ONE * DIR_ONE, ux >= 0, uy >= 0;
    assert(sx == ux * ux + 2 * ux + 1 && sy == uy * uy + 2 * uy + 1) by (nonlinear_arith)
        requires sx == (ux + 1) * (ux + 1), sy == (uy + 1) * (uy + 1);
}

/// Computes one part of the unit vector along the offset whose part on that
/// axis is `d` and whose part on the other axis is `other`.
fn unit_part_of(d: i64, other: i64) -> (r: i64)
    requires
        -2 * COORD_MAX <= d <= 2 * COORD_MAX,
        -2 * COORD_MAX <= other <= 2 * COORD_MAX,
    ensures
        r == unit_part(d as int, other as int),
        -DIR_ONE <= r <= DIR_ONE,
        d > 0 ==> r >= 0,
        d < 0 ==> r <= 0,
{
    if d == 0 {
        return 0;
    }
    let a: i128 = d as i128;
    let b: i128 = other as i128;
    assert(0 < a * a <= 4 * COORD_MAX * COORD_MAX) by (nonlinear_arith)
        requires -2 * COORD_MAX <= a <= 2 * COORD_MAX, a != 0;
    assert(0 <= b * b <= 4 * COORD_MAX * COORD_MAX) by (nonlinear_arith)
        requires -2 * COORD_MAX <= b <= 2 * COORD_MAX;
    let dd: u128 = (a * a) as u128;
    let len_sq: u128 = dd + (b * b) as u128;
    let one_sq: u128 = DIR_ONE as u128 * DIR_ONE as u128;
    assert(one_sq * dd <= 1_000_000_000_000 * (4 * COORD_MAX * COORD_MAX)) by (nonlinear_arith)
        requires one_sq == 1_000_000_000_000u128, 0 <= dd <= 4 * COORD_MAX * COORD_MAX;
    let share: u128 = (one_sq * dd) / len_sq;
    let m: u128 = isqrt(share);
    proof {
        assert(DIR_ONE * DIR_ONE * (d * d) == one_sq * dd) by (nonlinear_arith)
            requires one_sq == DIR_ONE * DIR_ONE, dd == d * d;
        assert(share <= one_sq) by (nonlinear_arith)
            requires share == (one_sq * dd) / (len_sq as int), 0 < dd <= len_sq, one_sq >= 0;
        assert(is_sqrt_floor(one_sq as int, DIR_ONE as int)) by (nonlinear_arith)
            requires one_sq == 1_000_000_000_000u128;
        lemma_sqrt_floor_monotone(share as int, one_sq as int, m as int, DIR_ONE as int);
    }
    if d > 0 {
        m as i64
    } else {
        -(m as i64)
    }
}

/// Computes the unit vector, in millionths, that points from `from` to `to`;
/// the zero vector where the two coincide.
pub fn direction_to(from: Vec2, to: Vec2) -> (r: Vec2)
    requires
        from.in_world(),
        to.in_world(),
    ensures
        r.x == unit_part(to.x - from.x, to.y - from.y),
        r.y == unit_part(to.y - from.y, to.x - from.x),
        r.is_direction(),
        from == to ==> r.x == 0 && r.y == 0,
{
    let dx: i64 = to.x - from.x;
    let dy: i64 = to.y - from.y;
    proof {
        lemma_unit_is_short(dx as int, dy as int);
        if dx != 0 || dy != 0 {
            lemma_unit_is_long(dx as int, dy as int);
        }
    }
    Vec2 { x: unit_part_of(dx, dy), y: unit_part_of(dy, dx) }
}

/// Computes the unit vector, in millionths, along `v`; the zero vector for
/// the zero vector.
pub fn normalize_or_zero(v: Vec2) -> (r: Vec2)
    requires
        v.in_world(),
    ensures
        r.x == unit_part(v.x as int, v.y as int),
        r.y == unit_part(v.y as int, v.x as int),
        r.is_direction(),
{
    proof {
        lemma_unit_is_short(v.x as int, v.y as int);
        if v.x != 0 || v.y != 0 {
            lemma_unit_is_long(v.x as int, v.y as int);
        }
    }
    Vec2 { x: unit_part_of(v.x, v.y), y: unit_part_of(v.y, v.x) }
}

} // verus!
