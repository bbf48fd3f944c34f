//! Explosions: the hazards that can detonate, the blasts they turn into, and
//! how a blast ages and reaches other hazards.
use vstd::prelude::*;
use crate::units::{valid_time, valid_delta, valid_radius, SECOND, UNIT};
use crate::math::{Vec2, within, is_within};

verus! {

/// Frames in the picture strip of a blast.
pub const NUM_FRAMES: usize = 11;

/// What makes an entity a hazard: whether it is about to detonate, how large
/// its blast will be and how long it will last, and how close another blast
/// must come to set it off.
#[derive(Clone, Copy, Debug, PartialEq, Eq, Structural)]
pub struct ExplosionController {
    pub should_explode: bool,
    pub explosion_radius: i64,
    pub hitbox_radius: i64,
    pub explosion_life_span: i64,
}

impl ExplosionController {
    /// Both radii are radii and the life span is a time.
    pub open spec fn wf(self) -> bool {
        &&& valid_radius(self.explosion_radius as int)
        &&& valid_radius(self.hitbox_radius as int)
        &&& valid_time(self.explosion_life_span as int)
    }

    /// A hazard with the given values.
    pub fn new(
        should_explode: bool,
        explosion_radius: i64,
        hitbox_radius: i64,
        explosion_life_span: i64,
    ) -> (c: ExplosionController)
        ensures
            c.should_explode == should_explode,
            c.explosion_radius == explosion_radius,
            c.hitbox_radius == hitbox_radius,
            c.explosion_life_span == explosion_life_span,
    {
        ExplosionController { should_explode, explosion_radius, hitbox_radius, explosion_life_span }
    }

    /// The same hazard, now about to detonate.
    pub open spec fn triggered(self) -> ExplosionController {
        ExplosionController {
            should_explode: true,
            explosion_radius: self.explosion_radius,
            hitbox_radius: self.hitbox_radius,
            explosion_life_span: self.explosion_life_span,
        }
    }
}

impl Default for ExplosionController {
    /// A quiet hazard with a blast of 100 units for one second and a hitbox
    /// of 5 units.
    fn default() -> (c: ExplosionController)
        ensures
            !c.should_explode,
            c.explosion_radius == 100 * UNIT,
            c.hitbox_radius == 5 * UNIT,
            c.explosion_life_span == SECOND,
            c.wf(),
    {
        ExplosionController {
            should_explode: false,
            explosion_radius: 100 * UNIT,
            hitbox_radius: 5 * UNIT,
            explosion_life_span: SECOND,
        }
    }
}

/// Which frame of its strip a blast shows, and for how long each is shown.
#[derive(Clone, Copy, Debug, PartialEq, Eq, Structural)]
pub struct ExplosionAnimation {
    pub frame_time: i64,
    pub frame_index: usize,
}

impl Default for ExplosionAnimation {
    /// The first frame, a tenth of a second per frame.
    fn default() -> (a: ExplosionAnimation)
        ensures
            a.frame_time == SECOND / 10,
            a.frame_index == 0,
    {
        ExplosionAnimation { frame_time: SECOND / 10, frame_index: 0 }
    }
}

/// A live blast: its reach, its fixed centre, and how much of its life is
/// left.
#[derive(Clone, Copy, Debug, PartialEq, Eq, Structural)]
pub struct Explosion {
    pub radius: i64,
    pub center: Vec2,
    pub explosion_max_life_span: i64,
    pub explosion_life_span_remaining: i64,
}

/// The frame that shows when `remaining` of a life of `max` is left: the
/// share of the life that is left, spread over the frames after the first and
/// rounded up.
pub open spec fn frame_index_of(remaining: int, max: int) -> int {
    (remaining * (NUM_FRAMES - 1) + max - 1) / max
}

impl Explosion {
    /// The radius is a radius, the centre is in the world, and what is left
    /// of the life is neither negative nor more than the whole.
    pub open spec fn wf(self) -> bool {
        &&& valid_radius(self.radius as int)
        &&& self.center.in_world()
        &&& valid_time(self.explosion_max_life_span as int)
        &&& 0 <= self.explosion_life_span_remaining <= self.explosion_max_life_span
    }

    /// A blast at the start of its life.
    pub fn new(radius: i64, center: Vec2, explosion_max_life_span: i64) -> (e: Explosion)
        ensures
            e.radius == radius,
            e.center == center,
            e.explosion_max_life_span == explosion_max_life_span,
            e.explosion_life_span_remaining == explosion_max_life_span,
    {
        Explosion {
            radius,
            center,
            explosion_max_life_span,
            explosion_life_span_remaining: explosion_max_life_span,
        }
    }

    /// The blast after `dt` more microseconds of its life.
    pub open spec fn aged(self, dt: int) -> Explosion {
        Explosion {
            radius: self.radius,
            center: self.center,
            explosion_max_life_span: self.explosion_max_life_span,
            explosion_life_span_remaining: if self.explosion_life_span_remaining - dt > 0 {
                (self.explosion_life_span_remaining - dt) as i64
            } else {
                0
            },
        }
    }

    /// Whether the blast is over after `dt` more microseconds.
    pub open spec fn expires(self, dt: int) -> bool {
        self.explosion_life_span_remaining - dt <= 0
    }

    /// The frame that the blast shows.
    pub open spec fn frame(self) -> int {
        frame_index_of(
            self.explosion_life_span_remaining as int,
            self.explosion_max_life_span as int,
        )
    }

    /// Whether the blast sets off a hazard at `position` with a hitbox of
    /// `hitbox_radius`: their distance is at most the sum of the two radii.
    pub open spec fn reaches(self, position: Vec2, hitbox_radius: int) -> bool {
        within(self.center, position, self.radius + hitbox_radius)
    }

    /// Ages the blast by one tick. Returns whether it is still alive; a blast
    /// whose life has run out keeps no life at all.
    pub fn age(&mut self, dt: i64) -> (alive: bool)
        requires
            old(self).wf(),
            valid_delta(dt as int),
        ensures
            *final(self) == old(self).aged(dt as int),
            alive == !old(self).expires(dt as int),
            final(self).wf(),
            final(self).explosion_life_span_remaining <= old(self).explosion_life_span_remaining,
    {
        let left: i64 = self.explosion_life_span_remaining - dt;
        if left > 0 {
            self.explosion_life_span_remaining = left;
            true
        } else {
            self.explosion_life_span_remaining = 0;
            false
        }
    }

    /// Computes the frame that the blast shows.
    pub fn frame_index(&self) -> (f: usize)
        requires
            self.wf(),
            self.explosion_life_span_remaining > 0,
        ensures
            f == self.frame(),
            1 <= f <= NUM_FRAMES - 1,
    {
        let max: i128 = self.explosion_max_life_span as i128;
        let left: i128 = self.explosion_life_span_remaining as i128;
        let top: i128 = left * 10 + max - 1;
        let f: i128 = top / max;
        assert(1 <= top as int / max as int <= 10) by (nonlinear_arith)
            requires 0 < left <= max, top == left * 10 + max - 1;
        f as usize
    }

    /// Decides whether the blast sets off a hazard at `position`.
    pub fn is_reaching(&self, position: Vec2, hitbox_radius: i64) -> (r: bool)
        requires
            self.wf(),
            position.in_world(),
            valid_radius(hitbox_radius as int),
        ensures
            r == self.reaches(position, hitbox_radius as int),
    {
        is_within(self.center, position, self.radius + hitbox_radius)
    }
}

/// The blast that a hazard at `position` turns into.
pub open spec fn blast_of(position: Vec2, hazard: ExplosionController) -> Explosion {
    Explosion {
        radius: hazard.explosion_radius,
        center: position,
        explosion_max_life_span: hazard.explosion_life_span,
        explosion_life_span_remaining: hazard.explosion_life_span,
    }
}

/// What is left of a blast's life never grows, and the blast is over exactly
/// when nothing is left: not while anything is.
pub proof fn lemma_life_runs_down(e: Explosion, dt: int)
    requires
        e.wf(),
        valid_delta(dt),
    ensures
        e.aged(dt).explosion_life_span_remaining <= e.explosion_life_span_remaining,
        e.expires(dt) <==> e.aged(dt).explosion_life_span_remaining == 0,
        !e.expires(dt) ==> e.aged(dt).explosion_life_span_remaining
            == e.explosion_life_span_remaining - dt,
        e.aged(dt).wf(),
{
}

/// How large a blast of the given radius is drawn, in thousandths: an eighth
/// of the radius.
pub open spec fn blast_scale(radius: int) -> int {
    if radius >= 0 {
        radius / 8
    } else {
        0
    }
}

/// A blast at the start of its life, as an entity: drawn an eighth of its
/// radius large, on its first frame.
pub fn explosion(position: Vec2, radius: i64, lifespan: i64) -> (e: crate::entity::Entity)
    ensures
        e == crate::entity::explosion_entity(
            Explosion {
                radius,
                center: position,
                explosion_max_life_span: lifespan,
                explosion_life_span_remaining: lifespan,
            },
        ),
{
    crate::entity::Entity {
        tag: crate::entity::Tag::Explosion,
        position,
        scale: if radius >= 0 {
            Vec2 { x: radius / 8, y: radius / 8 }
        } else {
            Vec2 { x: 0, y: 0 }
        },
        sprite_index: 0,
        screen_wrap: false,
        movement: None,
        hazard: None,
        explosion: Some(Explosion::new(radius, position, lifespan)),
        building: None,
        enemy: None,
        shot: None,
        shooting: None,
        reticle: None,
    }
}

} // verus!
