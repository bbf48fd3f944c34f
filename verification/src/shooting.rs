//! Firing: a shot leaves the cannon when the trigger was just pulled and the
//! cannon has reloaded.
use vstd::prelude::*;
use crate::units::{valid_time, valid_speed};
use crate::math::{Vec2, clamp_coord, add_coord};
use crate::shot::Shot;

verus! {

/// The lowest aim: level with the cannon.
pub const MIN_TARGET_OFFSET_Y: i64 = 0;

/// The highest aim above the cannon.
pub const MAX_TARGET_OFFSET_Y: i64 = 540_000;

/// What lets an entity fire: whether the trigger was just pulled, when it
/// last fired, how long it reloads, how fast its shots are, and where it aims
/// relative to itself.
#[derive(Clone, Copy, Debug, PartialEq, Eq, Structural)]
pub struct ShootingController {
    pub intent_to_fire: bool,
    pub last_shot_time: i64,
    pub reload_time: i64,
    pub shot_speed: i64,
    pub target_offset: Vec2,
}

/// The place `offset` away from `position`, held inside the world.
pub open spec fn offset_from(position: Vec2, offset: Vec2) -> Vec2 {
    Vec2 {
        x: clamp_coord(position.x + offset.x) as i64,
        y: clamp_coord(position.y + offset.y) as i64,
    }
}

/// Computes the place `offset` away from `position`.
pub fn aim_from(position: Vec2, offset: Vec2) -> (r: Vec2)
    requires
        position.in_world(),
        offset.in_world(),
    ensures
        r == offset_from(position, offset),
        r.in_world(),
{
    Vec2 { x: add_coord(position.x, offset.x), y: add_coord(position.y, offset.y) }
}

impl ShootingController {
    /// Times and speed are in range and the aim is an offset in the world.
    pub open spec fn wf(self) -> bool {
        &&& valid_time(self.last_shot_time as int)
        &&& valid_time(self.reload_time as int)
        &&& valid_speed(self.shot_speed as int)
        &&& self.target_offset.in_world()
    }

    /// Whether a shot leaves at `elapsed`: the trigger was just pulled, and
    /// more than the reload time has passed since the last shot.
    pub open spec fn fires(self, elapsed: int) -> bool {
        self.intent_to_fire && elapsed - self.last_shot_time > self.reload_time
    }

    /// The controller after the firing check at `elapsed`: a shot that left
    /// is remembered, nothing else changes.
    pub open spec fn after_firing(self, elapsed: int) -> ShootingController {
        ShootingController {
            intent_to_fire: self.intent_to_fire,
            last_shot_time: if self.fires(elapsed) {
                elapsed as i64
            } else {
                self.last_shot_time
            },
            reload_time: self.reload_time,
            shot_speed: self.shot_speed,
            target_offset: self.target_offset,
        }
    }

    /// The shot that leaves a firer at `position`.
    pub open spec fn shot_from(self, position: Vec2) -> Shot {
        Shot {
            speed: self.shot_speed,
            target: Some(offset_from(position, self.target_offset)),
            initial_location: position,
        }
    }

    /// The firing check of one tick for a firer at `position`: returns the
    /// shot that leaves, if one does.
    pub fn shoot_if_we_shooting(&mut self, position: Vec2, elapsed: i64) -> (s: Option<Shot>)
        requires
            old(self).wf(),
            position.in_world(),
            valid_time(elapsed as int),
        ensures
            *final(self) == old(self).after_firing(elapsed as int),
            s.is_some() == old(self).fires(elapsed as int),
            s.is_some() ==> s.unwrap() == old(self).shot_from(position),
            s.is_some() ==> s.unwrap().wf(),
            final(self).wf(),
    {
        if self.intent_to_fire && elapsed - self.last_shot_time > self.reload_time {
            self.last_shot_time = elapsed;
            Some(
                Shot {
                    speed: self.shot_speed,
                    target: Some(aim_from(position, self.target_offset)),
                    initial_location: position,
                },
            )
        } else {
            None
        }
    }
}

impl Default for ShootingController {
    /// Trigger at rest, half a second to reload, shots of 640 units per
    /// second, aim 200 units above.
    fn default() -> (c: ShootingController)
        ensures
            !c.intent_to_fire,
            c.last_shot_time == 0,
            c.reload_time == 500_000,
            c.shot_speed == 640_000,
            c.target_offset == (Vec2 { x: 0, y: 200_000 }),
            c.wf(),
    {
        ShootingController {
            intent_to_fire: false,
            last_shot_time: 0,
            reload_time: 500_000,
            shot_speed: 640_000,
            target_offset: Vec2 { x: 0, y: 200_000 },
        }
    }
}

/// After a shot, no further shot leaves until more than the reload time has
/// passed, however often the trigger is pulled.
pub proof fn lemma_reload_blocks_firing(c: ShootingController, elapsed: int, later: int)
    requires
        c.wf(),
        valid_time(elapsed),
        c.fires(elapsed),
        later - elapsed <= c.reload_time,
    ensures
        !c.after_firing(elapsed).fires(later),
{
}

} // verus!
