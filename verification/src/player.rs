//! The player's cannon: how directional and fire intent reach its
//! controllers.
use vstd::prelude::*;
use crate::units::DIR_ONE;
use crate::math::{Vec2, clamped, unit_part, normalize_or_zero};
use crate::movement::MovementController;
use crate::shooting::{ShootingController, MIN_TARGET_OFFSET_Y, MAX_TARGET_OFFSET_Y};

verus! {

/// The height at which the cannon stands.
pub const PLAYER_Y: i64 = -220_000;

/// How far full vertical intent moves the aim in one tick.
pub const PLAYER_RETICLE_Y_SPEED: i64 = 10_000;

/// Which of the four directions are held down.
#[derive(Clone, Copy, Debug, PartialEq, Eq, Structural)]
pub struct DirectionKeys {
    pub up: bool,
    pub down: bool,
    pub left: bool,
    pub right: bool,
}

/// The part of the raw intent along one axis: one step for the key that
/// points up the axis, one step back for the other.
pub open spec fn raw_axis(forward: bool, backward: bool) -> int {
    (if forward { 1int } else { 0 }) - (if backward { 1int } else { 0 })
}

/// Turns the keys that are held down into a directional intent of unit length
/// or zero, so that a diagonal is no faster than a straight line.
pub fn directional_intent(keys: DirectionKeys) -> (r: Vec2)
    ensures
        r.x == unit_part(raw_axis(keys.right, keys.left), raw_axis(keys.up, keys.down)),
        r.y == unit_part(raw_axis(keys.up, keys.down), raw_axis(keys.right, keys.left)),
        r.is_direction(),
{
    let mut x: i64 = 0;
    let mut y: i64 = 0;
    if keys.up {
        y = y + 1;
    }
    if keys.down {
        y = y - 1;
    }
    if keys.left {
        x = x - 1;
    }
    if keys.right {
        x = x + 1;
    }
    normalize_or_zero(Vec2 { x, y })
}

/// How far a vertical intent of `intent_y` millionths moves the aim in one
/// tick, rounded towards zero.
pub open spec fn aim_step(intent_y: int) -> int {
    crate::math::trunc_div(intent_y * PLAYER_RETICLE_Y_SPEED, DIR_ONE as int)
}

/// The vertical aim after a tick with the vertical intent `intent_y`: moved
/// by the step of that intent, and held between the lowest and the highest
/// aim.
pub open spec fn aim_after(offset_y: int, intent_y: int) -> int {
    clamped(offset_y + aim_step(intent_y), MIN_TARGET_OFFSET_Y as int, MAX_TARGET_OFFSET_Y as int)
}

/// The horizontal steering that an intent whose horizontal part is `intent_x`
/// asks for: a full step to the right, a full step to the left, or none.
pub open spec fn sideways(intent_x: int) -> int {
    if intent_x > 0 {
        DIR_ONE as int
    } else if intent_x < 0 {
        -DIR_ONE
    } else {
        0
    }
}

/// Hands the player's intent of one tick to the cannon's controllers: the
/// cannon steers straight to the side that the intent leans to, at unit
/// length, or rests; the vertical part of the intent moves the aim; and the
/// trigger is taken over as it is.
pub fn record_player_directional_input(
    movement: &mut MovementController,
    shooting: &mut ShootingController,
    intent: Vec2,
    fire: bool,
)
    requires
        intent.is_direction(),
        old(shooting).target_offset.in_world(),
    ensures
        final(movement).intent == (Vec2 { x: sideways(intent.x as int) as i64, y: 0 }),
        final(movement).intent.is_direction(),
        final(movement).max_speed == old(movement).max_speed,
        final(shooting).target_offset.x == old(shooting).target_offset.x,
        final(shooting).target_offset.y == aim_after(
            old(shooting).target_offset.y as int,
            intent.y as int,
        ),
        final(shooting).intent_to_fire == fire,
        final(shooting).last_shot_time == old(shooting).last_shot_time,
        final(shooting).reload_time == old(shooting).reload_time,
        final(shooting).shot_speed == old(shooting).shot_speed,
        final(shooting).target_offset.in_world(),
{
    assert((DIR_ONE + 1) * (DIR_ONE + 1) + (0 + 1) * (0 + 1) > DIR_ONE * DIR_ONE)
        by (nonlinear_arith);
    assert(DIR_ONE * DIR_ONE + 0 * 0 <= DIR_ONE * DIR_ONE && (-DIR_ONE) * (-DIR_ONE) + 0 * 0
        <= DIR_ONE * DIR_ONE) by (nonlinear_arith);
    movement.intent = if intent.x > 0 {
        Vec2 { x: DIR_ONE, y: 0 }
    } else if intent.x < 0 {
        Vec2 { x: -DIR_ONE, y: 0 }
    } else {
        Vec2 { x: 0, y: 0 }
    };
    let step: i64 = if intent.y >= 0 {
        intent.y * PLAYER_RETICLE_Y_SPEED / DIR_ONE
    } else {
        -((-intent.y) * PLAYER_RETICLE_Y_SPEED / DIR_ONE)
    };
    let aimed: i64 = shooting.target_offset.y + step;
    shooting.target_offset.y = if aimed < MIN_TARGET_OFFSET_Y {
        MIN_TARGET_OFFSET_Y
    } else if aimed > MAX_TARGET_OFFSET_Y {
        MAX_TARGET_OFFSET_Y
    } else {
        aimed
    };
    shooting.intent_to_fire = fire;
}

/// The cannon's steering is of unit length or zero, and zero exactly for an
/// intent without a horizontal part.
pub proof fn lemma_sideways_is_unit_or_zero(intent_x: int)
    ensures
        sideways(intent_x) * sideways(intent_x) == if intent_x == 0 {
            0
        } else {
            DIR_ONE * DIR_ONE
        },
{
    assert((-DIR_ONE) * (-DIR_ONE) == DIR_ONE * DIR_ONE) by (nonlinear_arith);
}

/// Hands the state of the trigger to the cannon's shooting controller.
pub fn record_player_shooting_input(shooting: &mut ShootingController, fire: bool)
    ensures
        final(shooting).intent_to_fire == fire,
        final(shooting).last_shot_time == old(shooting).last_shot_time,
        final(shooting).reload_time == old(shooting).reload_time,
        final(shooting).shot_speed == old(shooting).shot_speed,
        final(shooting).target_offset == old(shooting).target_offset,
{
    shooting.intent_to_fire = fire;
}

/// The player's cannon, as an entity: it stands in the middle of the ground,
/// moves at up to `max_speed`, and can fire.
pub fn player(max_speed: i64) -> (e: crate::entity::Entity)
    ensures
        e == crate::entity::player_entity(max_speed),
{
    let mut e = crate::entity::bare_entity(
        crate::entity::Tag::Player,
        Vec2 { x: 0, y: PLAYER_Y },
        2000,
    );
    e.movement = Some(MovementController { intent: Vec2 { x: 0, y: 0 }, max_speed });
    e.shooting = Some(ShootingController::default());
    e
}

} // verus!
