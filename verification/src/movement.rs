//! The movement engine: turns a steering intent into a change of position.
use vstd::prelude::*;
use crate::units::{valid_speed, valid_delta, COORD_MAX, UNIT};
use crate::math::{Vec2, travel, travel_along, clamp_coord, add_coord};

verus! {

/// Half the width of the play field: the horizontal bound of the world.
pub const MAX_X: i64 = 350_000;

/// The steering intent of something that moves by itself: a direction, of
/// unit length or zero, and the speed at which to follow it.
#[derive(Clone, Copy, Debug, PartialEq, Eq, Structural)]
pub struct MovementController {
    pub intent: Vec2,
    pub max_speed: i64,
}

impl MovementController {
    /// Whether the intent is a direction and the speed a speed.
    pub open spec fn wf(self) -> bool {
        self.intent.is_direction() && valid_speed(self.max_speed as int)
    }

    /// No intent yet, at the speed of a walking player.
    pub fn new() -> (c: MovementController)
        ensures
            c.intent.x == 0,
            c.intent.y == 0,
            c.max_speed == 400 * UNIT,
            c.wf(),
    {
        MovementController { intent: Vec2 { x: 0, y: 0 }, max_speed: 400 * UNIT }
    }
}

/// Where a coordinate is after moving for `dt` microseconds with the share
/// `dir` of `speed`; the world's edge stops it.
pub open spec fn moved_coord(at: int, dir: int, speed: int, dt: int) -> int {
    clamp_coord(at + travel(dir, speed, dt))
}

/// Where `position` is after following `c` for `dt` microseconds.
pub open spec fn moved(position: Vec2, c: MovementController, dt: int) -> Vec2 {
    Vec2 {
        x: moved_coord(position.x as int, c.intent.x as int, c.max_speed as int, dt) as i64,
        y: moved_coord(position.y as int, c.intent.y as int, c.max_speed as int, dt) as i64,
    }
}

/// One step of the movement engine for one entity.
pub fn apply_movement(position: Vec2, c: MovementController, dt: i64) -> (r: Vec2)
    requires
        position.in_world(),
        c.wf(),
        valid_delta(dt as int),
    ensures
        r == moved(position, c, dt as int),
        r.in_world(),
{
    let dx: i64 = travel_along(c.intent.x, c.max_speed, dt);
    let dy: i64 = travel_along(c.intent.y, c.max_speed, dt);
    Vec2 { x: add_coord(position.x, dx), y: add_coord(position.y, dy) }
}

/// Wherever the step stays inside the world, the position after it is the
/// position before it plus direction times speed times the time passed.
pub proof fn lemma_step_is_velocity_times_time(position: Vec2, c: MovementController, dt: int)
    requires
        position.in_world(),
        c.wf(),
        valid_delta(dt),
        -COORD_MAX <= position.x + travel(c.intent.x as int, c.max_speed as int, dt) <= COORD_MAX,
        -COORD_MAX <= position.y + travel(c.intent.y as int, c.max_speed as int, dt) <= COORD_MAX,
    ensures
        moved(position, c, dt).x == position.x + travel(
            c.intent.x as int,
            c.max_speed as int,
            dt,
        ),
        moved(position, c, dt).y == position.y + travel(
            c.intent.y as int,
            c.max_speed as int,
            dt,
        ),
{
}

/// A zero intent, a zero speed or no time passed leaves the position as it is.
pub proof fn lemma_no_intent_no_move(position: Vec2, c: MovementController, dt: int)
    requires
        position.in_world(),
        c.wf(),
        valid_delta(dt),
        (c.intent.x == 0 && c.intent.y == 0) || c.max_speed == 0 || dt == 0,
    ensures
        moved(position, c, dt) == position,
{
    assert(c.intent.x * c.max_speed * dt == 0) by (nonlinear_arith)
        requires c.intent.x == 0 || c.max_speed == 0 || dt == 0;
    assert(c.intent.y * c.max_speed * dt == 0) by (nonlinear_arith)
        requires c.intent.y == 0 || c.max_speed == 0 || dt == 0;
}

/// The horizontal coordinate after screen wrap: past one bound it comes back
/// at the opposite one.
pub open spec fn wrapped_x(x: int, bound: int) -> int {
    if x > bound {
        -bound
    } else if x < -bound {
        bound
    } else {
        x
    }
}

/// Screen wrap for one entity.
pub fn apply_screen_wrap(position: Vec2, bound: i64) -> (r: Vec2)
    requires
        0 <= bound <= COORD_MAX,
    ensures
        r.x == wrapped_x(position.x as int, bound as int),
        r.y == position.y,
        -bound <= r.x <= bound,
{
    if position.x > bound {
        Vec2 { x: -bound, y: position.y }
    } else if position.x < -bound {
        Vec2 { x: bound, y: position.y }
    } else {
        position
    }
}

} // verus!
