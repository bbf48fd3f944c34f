//! Shots: projectiles that steer to their target, brake near it, and arrive.
use vstd::prelude::*;
use crate::units::{valid_speed, valid_delta};
use crate::math::{
    Vec2, closer_than, is_closer_than, unit_part, direction_to, dist_sq, distance_squared,
    sqrt_floor, isqrt, clamped,
};
use crate::units::COORD_MAX;
use crate::movement::{MovementController, moved, apply_movement};
use crate::math::travel;

verus! {

/// Closer to its target than this, a shot brakes.
pub const SLOWDOWN_THRESHOLD_DISTANCE: i64 = 10_000;

/// Closer to its target than this, a shot has arrived.
pub const ARRIVAL_DISTANCE: i64 = 100;

/// How close a blast must come to a shot to set it off.
pub const SHOT_HITBOX_RADIUS: i64 = 5_000;

/// The radius of the blast of a shot that arrived.
pub const SHOT_EXPLOSION_RADIUS: i64 = 16_000;

/// The life span of the blast of a shot that arrived.
pub const SHOT_EXPLOSION_LIFE_SPAN: i64 = 1_000_000;

/// How large a shot is drawn where it starts, in thousandths.
pub const SHOT_INITIAL_SCALE: i64 = 2_000;

/// How large a shot is drawn at its target, in thousandths.
pub const SHOT_FINAL_SCALE: i64 = 500;

/// The distance between two points, rounded down.
pub open spec fn distance(a: Vec2, b: Vec2) -> int {
    sqrt_floor(dist_sq(a, b))
}

/// How large a shot is drawn that has `left` to go of a way of `whole`: it
/// shrinks from the initial to the final scale with the square of the share
/// of the way that lies behind it. A way of no length leaves the initial
/// scale.
pub open spec fn shot_scale(whole: int, left: int) -> int {
    if whole <= 0 {
        SHOT_INITIAL_SCALE as int
    } else {
        let gone = clamped(whole - left, 0, whole);
        SHOT_INITIAL_SCALE - ((SHOT_INITIAL_SCALE - SHOT_FINAL_SCALE) * (gone * gone)) / (whole
            * whole)
    }
}

/// A projectile: its speed, where it is headed while it is under way, and
/// where it started.
#[derive(Clone, Copy, Debug, PartialEq, Eq, Structural)]
pub struct Shot {
    pub speed: i64,
    pub target: Option<Vec2>,
    pub initial_location: Vec2,
}

impl Shot {
    /// The speed is a speed, and target and origin lie in the world.
    pub open spec fn wf(self) -> bool {
        &&& valid_speed(self.speed as int)
        &&& self.target.is_some() ==> self.target.unwrap().in_world()
        &&& self.initial_location.in_world()
    }

    /// Whether the shot has arrived: it has no target any more.
    pub open spec fn arrived(self) -> bool {
        self.target.is_none()
    }

    /// Whether a shot at `position` reaches its target in this tick.
    pub open spec fn arrives_at(self, position: Vec2) -> bool {
        self.target.is_some() && closer_than(
            position,
            self.target.unwrap(),
            ARRIVAL_DISTANCE as int,
        )
    }

    /// Whether a shot at `position` is under way after this tick.
    pub open spec fn flies_from(self, position: Vec2) -> bool {
        self.target.is_some() && !self.arrives_at(position)
    }

    /// The speed of a shot at `position` after this tick: half of what it
    /// was while the shot is under way inside the braking distance.
    pub open spec fn next_speed(self, position: Vec2) -> int {
        if self.flies_from(position) && closer_than(
            position,
            self.target.unwrap(),
            SLOWDOWN_THRESHOLD_DISTANCE as int,
        ) {
            self.speed / 2
        } else {
            self.speed as int
        }
    }

    /// The shot after a tick that finds it at `position`.
    pub open spec fn after_step(self, position: Vec2) -> Shot {
        Shot {
            speed: self.next_speed(position) as i64,
            target: if self.arrives_at(position) {
                None
            } else {
                self.target
            },
            initial_location: self.initial_location,
        }
    }

    /// The course of a shot at `position` that is under way: straight at the
    /// target, at the speed of this tick.
    pub open spec fn course(self, position: Vec2) -> MovementController {
        let target = self.target.unwrap();
        MovementController {
            intent: Vec2 {
                x: unit_part(target.x - position.x, target.y - position.y) as i64,
                y: unit_part(target.y - position.y, target.x - position.x) as i64,
            },
            max_speed: self.next_speed(position) as i64,
        }
    }

    /// Where a shot at `position` is after a tick of `dt` microseconds.
    pub open spec fn position_after(self, position: Vec2, dt: int) -> Vec2 {
        if self.flies_from(position) {
            moved(position, self.course(position), dt)
        } else {
            position
        }
    }

    /// How large a shot at `position` that is under way is drawn.
    pub open spec fn scale_at(self, position: Vec2) -> int {
        shot_scale(
            distance(self.initial_location, self.target.unwrap()),
            distance(position, self.target.unwrap()),
        )
    }

    /// Computes how large a shot at `position` that is under way is drawn.
    pub fn scale(&self, position: Vec2) -> (r: i64)
        requires
            self.wf(),
            self.target.is_some(),
            position.in_world(),
        ensures
            r == self.scale_at(position),
            SHOT_FINAL_SCALE <= r <= SHOT_INITIAL_SCALE,
    {
        let target: Vec2 = self.target.unwrap();
        let whole: u128 = isqrt(distance_squared(self.initial_location, target));
        let left: u128 = isqrt(distance_squared(position, target));
        assert(whole * whole <= 8 * COORD_MAX * COORD_MAX);
        assert(whole <= 3_000_000_000_000) by (nonlinear_arith)
            requires whole * whole <= 8 * 1_000_000_000_000 * 1_000_000_000_000int, whole >= 0;
        if whole == 0 {
            return SHOT_INITIAL_SCALE;
        }
        let gone: u128 = if left >= whole {
            0
        } else {
            whole - left
        };
        assert(0 <= gone * gone <= whole * whole) by (nonlinear_arith)
            requires 0 <= gone <= whole;
        assert(0 < whole * whole <= 3_000_000_000_000 * 3_000_000_000_000int) by (nonlinear_arith)
            requires 0 < whole <= 3_000_000_000_000;
        let shrink: u128 = (1_500 * (gone * gone)) / (whole * whole);
        assert(shrink <= 1_500) by (nonlinear_arith)
            requires
                shrink == (1_500 * (gone * gone)) / ((whole * whole) as int),
                0 <= gone * gone <= whole * whole,
                whole * whole > 0,
        ;
        SHOT_INITIAL_SCALE - shrink as i64
    }

    /// One tick of a shot at `position`. A shot within the arrival distance
    /// of its target gives the target up and stays; any other shot under way
    /// flies on towards the target, at half its speed once it is within the
    /// braking distance. Returns where the shot is afterwards.
    pub fn update_shot_position(&mut self, position: Vec2, dt: i64) -> (r: Vec2)
        requires
            old(self).wf(),
            position.in_world(),
            valid_delta(dt as int),
        ensures
            *final(self) == old(self).after_step(position),
            r == old(self).position_after(position, dt as int),
            final(self).wf(),
            r.in_world(),
    {
        match self.target {
            None => position,
            Some(target) => {
                if is_closer_than(position, target, ARRIVAL_DISTANCE) {
                    self.target = None;
                    position
                } else {
                    let direction: Vec2 = direction_to(position, target);
                    if is_closer_than(position, target, SLOWDOWN_THRESHOLD_DISTANCE) {
                        self.speed = self.speed / 2;
                    }
                    apply_movement(
                        position,
                        MovementController { intent: direction, max_speed: self.speed },
                        dt,
                    )
                }
            },
        }
    }
}

/// A shot under way ends a tick at its position plus direction times speed
/// times the time passed, wherever that lies inside the world: the direction
/// is the unit vector to its target, and the speed is its own, or half of it
/// within the braking distance. No time passed leaves it where it is, and
/// target and origin stay as they are.
pub proof fn lemma_shot_step_is_velocity_times_time(s: Shot, position: Vec2, dt: int)
    requires
        s.wf(),
        position.in_world(),
        valid_delta(dt),
        s.flies_from(position),
    ensures
        ({
            let target = s.target.unwrap();
            let speed = s.next_speed(position);
            let x = position.x + travel(
                unit_part(target.x - position.x, target.y - position.y),
                speed,
                dt,
            );
            let y = position.y + travel(
                unit_part(target.y - position.y, target.x - position.x),
                speed,
                dt,
            );
            -COORD_MAX <= x <= COORD_MAX && -COORD_MAX <= y <= COORD_MAX ==> s.position_after(
                position,
                dt,
            ).x == x && s.position_after(position, dt).y == y
        }),
        dt == 0 ==> s.position_after(position, dt) == position,
        s.after_step(position).speed == s.next_speed(position),
        s.after_step(position).target == s.target,
        s.after_step(position).initial_location == s.initial_location,
{
    let target = s.target.unwrap();
    let dx = target.x - position.x;
    let dy = target.y - position.y;
    crate::math::lemma_unit_is_short(dx, dy);
    let ux = unit_part(dx, dy);
    let uy = unit_part(dy, dx);
    let one = crate::units::DIR_ONE as int;
    assert(-one <= ux <= one && -one <= uy <= one) by (nonlinear_arith)
        requires ux * ux + uy * uy <= one * one, one > 0;
    let c = s.course(position);
    assert(c.intent.x == unit_part(dx, dy));
    assert(c.intent.y == unit_part(dy, dx));
    assert(0 <= s.speed / 2 <= s.speed);
    assert(c.max_speed == s.next_speed(position));
    if dt == 0 {
        assert(c.intent.x * c.max_speed * dt == 0) by (nonlinear_arith)
            requires dt == 0;
        assert(c.intent.y * c.max_speed * dt == 0) by (nonlinear_arith)
            requires dt == 0;
    }
}

/// A shot that has arrived stays where it is and as it is.
pub proof fn lemma_arrived_shot_rests(s: Shot, position: Vec2, dt: int)
    requires
        s.arrived(),
    ensures
        s.after_step(position) == s,
        s.position_after(position, dt) == position,
{
}

/// A shot gives its target up exactly when it is within the arrival distance
/// of it, and then does not move in that tick.
pub proof fn lemma_arrival(s: Shot, position: Vec2, dt: int)
    requires
        s.wf(),
        s.target.is_some(),
    ensures
        s.after_step(position).arrived() <==> closer_than(
            position,
            s.target.unwrap(),
            ARRIVAL_DISTANCE as int,
        ),
        s.after_step(position).arrived() ==> s.position_after(position, dt) == position,
{
}

/// The entity that `s` is, at the place it starts from: a hazard that a blast
/// can set off on its way.
pub fn shot_of(s: Shot) -> (e: crate::entity::Entity)
    ensures
        e == crate::entity::shot_entity(s),
{
    crate::entity::Entity {
        tag: crate::entity::Tag::Shot,
        position: s.initial_location,
        scale: Vec2 { x: SHOT_INITIAL_SCALE, y: SHOT_INITIAL_SCALE },
        sprite_index: 0,
        screen_wrap: false,
        movement: None,
        hazard: Some(
            crate::explosions::ExplosionController {
                should_explode: false,
                explosion_radius: SHOT_EXPLOSION_RADIUS,
                hitbox_radius: SHOT_HITBOX_RADIUS,
                explosion_life_span: SHOT_EXPLOSION_LIFE_SPAN,
            },
        ),
        explosion: None,
        building: None,
        enemy: None,
        shot: Some(s),
        shooting: None,
        reticle: None,
    }
}

/// A new shot, as an entity at `initial_location`.
pub fn shot(speed: i64, target: Option<Vec2>, initial_location: Vec2) -> (e: crate::entity::Entity)
    ensures
        e == crate::entity::shot_entity(Shot { speed, target, initial_location }),
{
    shot_of(Shot { speed, target, initial_location })
}

/// The end of a shot's life: a shot that has arrived, which is one without a
/// target, gives way to its blast, where it is; any other entity stays as it
/// is.
pub fn shot_end_of_life(e: crate::entity::Entity) -> (r: crate::entity::Entity)
    requires
        e.wf(),
    ensures
        r == e.landed(),
        r.wf(),
{
    match e.shot {
        Some(s) => {
            if s.target.is_none() {
                return crate::explosions::explosion(
                    e.position,
                    SHOT_EXPLOSION_RADIUS,
                    SHOT_EXPLOSION_LIFE_SPAN,
                );
            }
        },
        None => {},
    }
    e
}

} // verus!
