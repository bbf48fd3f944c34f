//! The reticle: it follows the place that the cannon aims at.
use vstd::prelude::*;
use crate::units::{valid_speed, valid_delta, SECOND};
use crate::math::{
    Vec2, dist_sq, distance_squared, unit_part, direction_to, travel, lemma_unit_is_short,
};
use crate::units::DIR_ONE;
use crate::movement::{MovementController, moved, apply_movement};
use crate::shooting::{ShootingController, offset_from, aim_from};

verus! {

/// The aiming mark: how fast it moves, the pace and the state of its colour
/// wave (both for the presentation layer only), and the place it is drawn to.
#[derive(Clone, Copy, Debug, PartialEq, Eq, Structural)]
pub struct Reticle {
    pub move_speed: i64,
    pub visual_speed: i64,
    pub visual_wave_val: i64,
    pub target: Option<Vec2>,
}

impl Reticle {
    /// The speed is a speed and the target lies in the world.
    pub open spec fn wf(self) -> bool {
        &&& valid_speed(self.move_speed as int)
        &&& self.target.is_some() ==> self.target.unwrap().in_world()
    }

    /// The reticle after it has looked for a firer: drawn to where the firer
    /// aims, or, without a firer, to where it was drawn before.
    pub open spec fn retargeted(self, firer: Option<(Vec2, ShootingController)>) -> Reticle {
        Reticle {
            move_speed: self.move_speed,
            visual_speed: self.visual_speed,
            visual_wave_val: self.visual_wave_val,
            target: match firer {
                Some((position, controller)) => Some(
                    offset_from(position, controller.target_offset),
                ),
                None => self.target,
            },
        }
    }

    /// The course of a reticle at `position` towards its target.
    pub open spec fn course(self, position: Vec2) -> MovementController {
        let target = self.target.unwrap();
        MovementController {
            intent: Vec2 {
                x: unit_part(target.x - position.x, target.y - position.y) as i64,
                y: unit_part(target.y - position.y, target.x - position.x) as i64,
            },
            max_speed: self.move_speed,
        }
    }

    /// Whether a reticle at `position` reaches its target in a tick of `dt`
    /// microseconds: the target is no further than the reticle gets in that
    /// time.
    pub open spec fn lands(self, position: Vec2, dt: int) -> bool {
        dist_sq(position, self.target.unwrap()) * (SECOND * SECOND) <= (self.move_speed * dt) * (
        self.move_speed * dt)
    }

    /// Where a reticle at `position` is after a tick of `dt` microseconds: on
    /// its target if it reaches it, else one tick's way along the straight
    /// line to it; where it was if it has no target.
    pub open spec fn eased(self, position: Vec2, dt: int) -> Vec2 {
        match self.target {
            None => position,
            Some(target) => if self.lands(position, dt) {
                target
            } else {
                moved(position, self.course(position), dt)
            },
        }
    }

    /// Looks for a firer and takes over where it aims.
    pub fn update_reticle_target(&mut self, firer: Option<(Vec2, ShootingController)>)
        requires
            old(self).wf(),
            firer.is_some() ==> firer.unwrap().0.in_world() && firer.unwrap().1.wf(),
        ensures
            *final(self) == old(self).retargeted(firer),
            final(self).wf(),
    {
        match firer {
            Some((position, controller)) => {
                self.target = Some(aim_from(position, controller.target_offset));
            },
            None => {},
        }
    }

    /// Moves a reticle at `position` towards its target for one tick and
    /// returns where it is then. It never moves past the target.
    pub fn update_reticle_position(&self, position: Vec2, dt: i64) -> (r: Vec2)
        requires
            self.wf(),
            position.in_world(),
            valid_delta(dt as int),
        ensures
            r == self.eased(position, dt as int),
            r.in_world(),
    {
        match self.target {
            None => position,
            Some(target) => {
                assert(0 <= self.move_speed * dt <= 1_000_000_000 * 1_000_000_000int)
                    by (nonlinear_arith)
                    requires
                        0 <= self.move_speed <= 1_000_000_000,
                        0 <= dt <= 1_000_000_000,
                ;
                let way: u128 = (self.move_speed * dt) as u128;
                assert(way * way <= 1_000_000_000_000_000_000 * 1_000_000_000_000_000_000int)
                    by (nonlinear_arith)
                    requires 0 <= way <= 1_000_000_000_000_000_000;
                let gap: u128 = distance_squared(position, target);
                assert(SECOND * SECOND == 1_000_000_000_000int);
                if gap * 1_000_000_000_000 <= way * way {
                    target
                } else {
                    let direction: Vec2 = direction_to(position, target);
                    apply_movement(
                        position,
                        MovementController { intent: direction, max_speed: self.move_speed },
                        dt,
                    )
                }
            },
        }
    }
}

impl Default for Reticle {
    /// A reticle of 450 units per second that is drawn nowhere yet.
    fn default() -> (r: Reticle)
        ensures
            r.move_speed == 450_000,
            r.visual_speed == 8_000,
            r.visual_wave_val == 500,
            r.target.is_none(),
            r.wf(),
    {
        Reticle { move_speed: 450_000, visual_speed: 8_000, visual_wave_val: 500, target: None }
    }
}

/// A reticle that reaches its target lands exactly on it, and one that is on
/// its target stays there.
pub proof fn lemma_reticle_lands_on_target(r: Reticle, position: Vec2, dt: int)
    requires
        r.wf(),
        r.target.is_some(),
        valid_delta(dt),
    ensures
        r.lands(position, dt) ==> r.eased(position, dt) == r.target.unwrap(),
        position == r.target.unwrap() ==> r.eased(position, dt) == position,
{
    let way = r.move_speed * dt;
    assert(way * way >= 0) by (nonlinear_arith);
}

/// A reticle never moves past its target: where it does not land on the
/// target, the step that it takes is shorter than its distance from the
/// target.
pub proof fn lemma_reticle_never_overshoots(r: Reticle, position: Vec2, dt: int)
    requires
        r.wf(),
        r.target.is_some(),
        valid_delta(dt),
        !r.lands(position, dt),
    ensures
        ({
            let c = r.course(position);
            let step_x = travel(c.intent.x as int, c.max_speed as int, dt);
            let step_y = travel(c.intent.y as int, c.max_speed as int, dt);
            step_x * step_x + step_y * step_y < dist_sq(position, r.target.unwrap())
        }),
{
    let target = r.target.unwrap();
    let dx = target.x - position.x;
    let dy = target.y - position.y;
    let ux = unit_part(dx, dy);
    let uy = unit_part(dy, dx);
    lemma_unit_is_short(dx, dy);
    let one = DIR_ONE as int;
    let second = SECOND as int;
    let speed = r.move_speed as int;
    let way = speed * dt;
    let gap = dist_sq(position, target);
    assert(way >= 0) by (nonlinear_arith)
        requires way == speed * dt, speed >= 0, dt >= 0;
    assert(-one <= ux <= one && -one <= uy <= one) by (nonlinear_arith)
        requires ux * ux + uy * uy <= one * one, one > 0;
    let c = r.course(position);
    assert(c.intent.x == ux && c.intent.y == uy);
    let step_x = travel(ux, speed, dt);
    let step_y = travel(uy, speed, dt);
    lemma_step_is_shorter(ux, speed, dt);
    lemma_step_is_shorter(uy, speed, dt);
    let k = one * second;
    let a = step_x * step_x;
    let b = step_y * step_y;
    let u = ux * ux;
    let v = uy * uy;
    let w = way * way;
    let o = one * one;
    let s2 = second * second;
    assert(w >= 0) by (nonlinear_arith)
        requires w == way * way;
    assert((step_x * k) * (step_x * k) == a * (o * s2)) by (nonlinear_arith)
        requires a == step_x * step_x, k == one * second, o == one * one, s2 == second * second;
    assert((step_y * k) * (step_y * k) == b * (o * s2)) by (nonlinear_arith)
        requires b == step_y * step_y, k == one * second, o == one * one, s2 == second * second;
    assert((a + b) * (o * s2) == a * (o * s2) + b * (o * s2)) by (nonlinear_arith);
    assert(u * w + v * w == (u + v) * w) by (nonlinear_arith);
    assert((u + v) * w <= o * w) by (nonlinear_arith)
        requires u + v <= o, w >= 0;
    assert((a + b) * (o * s2) == o * ((a + b) * s2)) by (nonlinear_arith);
    assert((a + b) * s2 <= w) by (nonlinear_arith)
        requires o * ((a + b) * s2) <= o * w, o > 0;
    assert(step_x * step_x + step_y * step_y < gap) by (nonlinear_arith)
        requires
            (step_x * step_x + step_y * step_y) * (second * second) <= way * way,
            way * way < gap * (second * second),
            second > 0,
    ;
}

/// The square of a step along one axis, brought to the scale of direction
/// and time, is at most the square of the direction's part times the square
/// of speed times time.
pub proof fn lemma_step_is_shorter(dir: int, speed: int, dt: int)
    requires
        speed >= 0,
        dt >= 0,
    ensures
        (travel(dir, speed, dt) * (DIR_ONE * SECOND)) * (travel(dir, speed, dt) * (DIR_ONE
            * SECOND)) <= (dir * dir) * ((speed * dt) * (speed * dt)),
{
    let k = DIR_ONE * SECOND;
    let n = dir * speed * dt;
    let way = speed * dt;
    let t = travel(dir, speed, dt);
    assert(n == dir * way) by (nonlinear_arith)
        requires n == dir * speed * dt, way == speed * dt;
    if n >= 0 {
        assert(0 <= (n / k) * k <= n) by (nonlinear_arith)
            requires n >= 0, k > 0;
        assert((t * k) * (t * k) <= n * n) by (nonlinear_arith)
            requires 0 <= t * k <= n;
    } else {
        let m = -n;
        assert(0 <= (m / k) * k <= m) by (nonlinear_arith)
            requires m >= 0, k > 0;
        assert(t == -(m / k));
        assert((t * k) * (t * k) <= n * n) by (nonlinear_arith)
            requires 0 <= (m / k) * k <= m, t == -(m / k), m == -n;
    }
    assert(n * n == (dir * dir) * (way * way)) by (nonlinear_arith)
        requires n == dir * way;
}

/// The reticle, as an entity in the middle of the field.
pub fn reticle() -> (e: crate::entity::Entity)
    ensures
        e == crate::entity::reticle_entity(),
{
    let mut e = crate::entity::bare_entity(
        crate::entity::Tag::Reticle,
        Vec2 { x: 0, y: 0 },
        2000,
    );
    e.reticle = Some(Reticle::default());
    e
}

} // verus!
