//! Scales and limits of the fixed-point representation.
use vstd::prelude::*;

verus! {

/// Length steps in one world unit.
pub const UNIT: i64 = 1_000;

/// Time steps (microseconds) in one second.
pub const SECOND: i64 = 1_000_000;

/// The value that stands for 1 in a direction.
pub const DIR_ONE: i64 = 1_000_000;

/// Largest coordinate magnitude; positions saturate here.
pub const COORD_MAX: i64 = 1_000_000_000_000;

/// Largest speed, in length steps per second.
pub const SPEED_MAX: i64 = 1_000_000_000;

/// Largest point on the clock; the clock saturates here.
pub const TIME_MAX: i64 = 1_000_000_000_000_000_000;

/// Largest duration of one tick.
pub const DELTA_MAX: i64 = 1_000_000_000;

/// Largest radius of a blast or a hitbox.
pub const RADIUS_MAX: i64 = 1_000_000_000_000;

/// Whether `t` is a point on the clock.
pub open spec fn valid_time(t: int) -> bool {
    0 <= t <= TIME_MAX
}

/// Whether `d` is the duration of a tick.
pub open spec fn valid_delta(d: int) -> bool {
    0 <= d <= DELTA_MAX
}

/// Whether `s` is a speed.
pub open spec fn valid_speed(s: int) -> bool {
    0 <= s <= SPEED_MAX
}

/// Whether `r` is a radius.
pub open spec fn valid_radius(r: int) -> bool {
    0 <= r <= RADIUS_MAX
}

/// The clock after `delta` has passed since `t`.
pub open spec fn clock_after(t: int, delta: int) -> int {
    if t + delta <= TIME_MAX {
        t + delta
    } else {
        TIME_MAX as int
    }
}

/// Advances a clock reading by `delta`, saturating at `TIME_MAX`.
pub fn advance_clock(t: i64, delta: i64) -> (r: i64)
    requires
        valid_time(t as int),
        valid_delta(delta as int),
    ensures
        r == clock_after(t as int, delta as int),
        valid_time(r as int),
        r >= t,
{
    if t <= TIME_MAX - delta {
        t + delta
    } else {
        TIME_MAX
    }
}

/// Decides whether `t` is a point on the clock.
pub fn is_valid_time(t: i64) -> (r: bool)
    ensures
        r == valid_time(t as int),
{
    0 <= t && t <= TIME_MAX
}

/// Decides whether `d` is the duration of a tick.
pub fn is_valid_delta(d: i64) -> (r: bool)
    ensures
        r == valid_delta(d as int),
{
    0 <= d && d <= DELTA_MAX
}

/// Decides whether `s` is a speed.
pub fn is_valid_speed(s: i64) -> (r: bool)
    ensures
        r == valid_speed(s as int),
{
    0 <= s && s <= SPEED_MAX
}

/// Decides whether `r` is a radius.
pub fn is_valid_radius(r: i64) -> (ok: bool)
    ensures
        ok == valid_radius(r as int),
{
    0 <= r && r <= RADIUS_MAX
}

} // verus!
