//! Enemies: the path they follow down the screen, and the controller that
//! spawns them and raises the level.
use vstd::prelude::*;
use crate::units::{
    valid_time, valid_delta, valid_speed, is_valid_speed, clock_after, advance_clock, SECOND,
    SPEED_MAX,
};
use crate::math::{Vec2, closer_than, is_closer_than, unit_part, direction_to};
use crate::movement::{MovementController, MAX_X};
use crate::explosions::ExplosionController;
use crate::random::random_between;

verus! {

/// The height, out of view, at which enemies appear.
pub const OFFSCREEN_ABOVE: i64 = 500_000;

/// The height that enemies descend to.
pub const MIN_ENEMY_Y_BELOW: i64 = -125_000;

/// Above the lowest height by less than this, an enemy slows down.
pub const SLOWDOWN_DISTANCE: i64 = 200_000;

/// Above the lowest height by less than this, an enemy detonates.
pub const EXPLOSION_DISTANCE: i64 = 20_000;

/// Closer to its target than this, an enemy turns to the next one.
pub const TARGET_REACH: i64 = 10_000;

/// Game time after which the level rises.
pub const LEVEL_TIME: i64 = 10_000_000;

/// Enemies that each level adds to the cap.
pub const NUM_ENEMIES_INCREMENT_PER_LEVEL: usize = 5;

/// Speed that each level adds to new enemies.
pub const ENEMY_SPEED_INCREMENT_PER_LEVEL: i64 = 20_000;

/// The least time between two spawns.
pub const MIN_ENEMY_SPAWN_INTERVAL: i64 = 200_000;

/// The most targets that an enemy's path can hold.
pub const MAX_TARGETS: usize = 8;

/// A mobile hazard that follows a short list of targets, in order and round
/// again. The first `target_count` places of `target_locs` are its targets.
#[derive(Clone, Copy, Debug)]
pub struct Enemy {
    pub speed: i64,
    pub last_movement_time: i64,
    pub time_between_movements: i64,
    pub target_index: usize,
    pub target_count: usize,
    pub target_locs: [Vec2; 8],
}

/// What stands at place `i` of the targets of a path `locs`: the target with
/// that number, or, past the end of the path, its first target again.
pub open spec fn slot(locs: Seq<Vec2>, i: int) -> Vec2 {
    if i < locs.len() {
        locs[i]
    } else {
        locs[0]
    }
}

/// Whether every one of `locs` lies inside the world.
pub open spec fn all_in_world(locs: Seq<Vec2>) -> bool {
    forall|i: int| 0 <= i < locs.len() ==> (#[trigger] locs[i]).in_world()
}

/// Whether `locs` is the path of a new enemy: from out of view at the top,
/// over a point halfway down, to the lowest height straight below the start,
/// all between the horizontal bounds.
pub open spec fn is_descent(locs: Seq<Vec2>) -> bool {
    &&& locs.len() == 3
    &&& -MAX_X <= locs[0].x < MAX_X
    &&& -MAX_X <= locs[1].x < MAX_X
    &&& locs[0].y == OFFSCREEN_ABOVE
    &&& locs[1].y == (OFFSCREEN_ABOVE + MIN_ENEMY_Y_BELOW) / 2
    &&& locs[2].x == locs[0].x
    &&& locs[2].y == MIN_ENEMY_Y_BELOW
}

/// The path of a new enemy that starts above `x` and swerves over `x_mid`.
pub open spec fn descent(x: i64, x_mid: i64) -> Seq<Vec2> {
    seq![
        Vec2 { x: x, y: OFFSCREEN_ABOVE },
        Vec2 { x: x_mid, y: ((OFFSCREEN_ABOVE + MIN_ENEMY_Y_BELOW) / 2) as i64 },
        Vec2 { x: x, y: MIN_ENEMY_Y_BELOW },
    ]
}

/// Builds the path of a new enemy that starts above `x` and swerves over
/// `x_mid`.
pub fn descent_over(x: i64, x_mid: i64) -> (locs: Vec<Vec2>)
    ensures
        locs@ == descent(x, x_mid),
{
    let mut locs: Vec<Vec2> = Vec::new();
    locs.push(Vec2 { x: x, y: OFFSCREEN_ABOVE });
    locs.push(Vec2 { x: x_mid, y: (OFFSCREEN_ABOVE + MIN_ENEMY_Y_BELOW) / 2 });
    locs.push(Vec2 { x: x, y: MIN_ENEMY_Y_BELOW });
    assert(locs@ =~= descent(x, x_mid));
    locs
}

/// Draws the path of a new enemy: where it starts and where it swerves are
/// left to chance, between the horizontal bounds.
pub fn create_target_locs() -> (locs: Vec<Vec2>)
    ensures
        is_descent(locs@),
        all_in_world(locs@),
        exists|x: i64, x_mid: i64|
            -MAX_X <= x < MAX_X && -MAX_X <= x_mid < MAX_X && locs@ == #[trigger] descent(
                x,
                x_mid,
            ),
{
    let x: i64 = random_between(-MAX_X, MAX_X - 1);
    let x_mid: i64 = random_between(-MAX_X, MAX_X - 1);
    let locs = descent_over(x, x_mid);
    assert(locs@ == descent(x, x_mid));
    locs
}

/// The speed of an enemy of full speed `speed` at `height` above the lowest
/// height: full speed from the slowdown distance up, and below it the share
/// of the full speed that the height is of that distance; none at or below
/// the lowest height.
pub open spec fn throttled_speed(speed: int, height: int) -> int {
    if height >= SLOWDOWN_DISTANCE {
        speed
    } else if height <= 0 {
        0
    } else {
        speed * height / (SLOWDOWN_DISTANCE as int)
    }
}

impl Enemy {
    /// The targets of the enemy, in their order.
    pub open spec fn path(self) -> Seq<Vec2> {
        self.target_locs@.take(self.target_count as int)
    }

    /// The enemy has at least one target and heads for one of them, all its
    /// targets lie in the world, and its speed is a speed.
    pub open spec fn wf(self) -> bool {
        &&& 1 <= self.target_count <= MAX_TARGETS
        &&& self.target_index < self.target_count
        &&& forall|i: int|
            0 <= i < self.target_count ==> (#[trigger] self.target_locs@[i]).in_world()
        &&& valid_speed(self.speed as int)
    }

    /// Whether the enemy at `position` is close enough to its target to turn
    /// to the next.
    pub open spec fn at_target(self, position: Vec2) -> bool {
        closer_than(position, self.target_locs[self.target_index as int], TARGET_REACH as int)
    }

    /// The index of the target that the enemy at `position` heads for: the
    /// next one, or the first one after the last, once the current one is
    /// reached.
    pub open spec fn next_index(self, position: Vec2) -> int {
        if self.at_target(position) {
            (self.target_index + 1) % (self.target_count as int)
        } else {
            self.target_index as int
        }
    }

    /// The target that the enemy at `position` heads for.
    pub open spec fn next_target(self, position: Vec2) -> Vec2 {
        self.target_locs[self.next_index(position)]
    }

    /// The intent of the enemy at `position`: straight at its target, at the
    /// speed that its height allows.
    pub open spec fn steering(self, position: Vec2) -> MovementController {
        let target = self.next_target(position);
        MovementController {
            intent: Vec2 {
                x: unit_part(target.x - position.x, target.y - position.y) as i64,
                y: unit_part(target.y - position.y, target.x - position.x) as i64,
            },
            max_speed: throttled_speed(self.speed as int, position.y - MIN_ENEMY_Y_BELOW) as i64,
        }
    }

    /// The enemy at the start of the path `locs`.
    pub open spec fn on_path(speed: i64, locs: Seq<Vec2>) -> Enemy {
        Enemy {
            speed,
            last_movement_time: 0,
            time_between_movements: SECOND,
            target_index: 0,
            target_count: locs.len() as usize,
            target_locs: [
                slot(locs, 0),
                slot(locs, 1),
                slot(locs, 2),
                slot(locs, 3),
                slot(locs, 4),
                slot(locs, 5),
                slot(locs, 6),
                slot(locs, 7),
            ],
        }
    }

    /// A new enemy at the start of the path `target_locs`, which has at least
    /// one target and no more than an enemy can hold.
    pub fn new(speed: i64, target_locs: &Vec<Vec2>) -> (e: Enemy)
        requires
            1 <= target_locs.len() <= MAX_TARGETS,
        ensures
            e == Enemy::on_path(speed, target_locs@),
            e.path() == target_locs@,
    {
        let e = Enemy {
            speed,
            last_movement_time: 0,
            time_between_movements: SECOND,
            target_index: 0,
            target_count: target_locs.len(),
            target_locs: [
                target_at(target_locs, 0),
                target_at(target_locs, 1),
                target_at(target_locs, 2),
                target_at(target_locs, 3),
                target_at(target_locs, 4),
                target_at(target_locs, 5),
                target_at(target_locs, 6),
                target_at(target_locs, 7),
            ],
        };
        assert(e.target_locs =~= Enemy::on_path(speed, target_locs@).target_locs);
        assert(e.path() =~= target_locs@);
        e
    }

    /// A new enemy at the start of the path `target_locs`, if that has at
    /// least one target and no more than an enemy can hold.
    pub fn try_new(speed: i64, target_locs: &Vec<Vec2>) -> (e: Option<Enemy>)
        ensures
            e.is_some() == (1 <= target_locs.len() <= MAX_TARGETS),
            e.is_some() ==> e.unwrap() == Enemy::on_path(speed, target_locs@),
    {
        if 1 <= target_locs.len() && target_locs.len() <= MAX_TARGETS {
            Some(Enemy::new(speed, target_locs))
        } else {
            None
        }
    }

    /// Decides whether the enemy is well formed.
    pub fn is_wf(&self) -> (r: bool)
        ensures
            r == self.wf(),
    {
        if !(1 <= self.target_count && self.target_count <= MAX_TARGETS && self.target_index
            < self.target_count && is_valid_speed(self.speed)) {
            return false;
        }
        let mut i: usize = 0;
        while i < self.target_count
            invariant
                i <= self.target_count <= MAX_TARGETS,
                forall|k: int| 0 <= k < i ==> (#[trigger] self.target_locs@[k]).in_world(),
            decreases self.target_count - i,
        {
            if !self.target_locs[i].is_in_world() {
                return false;
            }
            i = i + 1;
        }
        true
    }
}

/// The target at place `i` of the path `locs`, or its first target past its
/// end.
fn target_at(locs: &Vec<Vec2>, i: usize) -> (r: Vec2)
    requires
        locs.len() >= 1,
    ensures
        r == slot(locs@, i as int),
{
    if i < locs.len() {
        locs[i]
    } else {
        locs[0]
    }
}

/// Whether an enemy at `position` is low enough to detonate by itself.
pub open spec fn too_low(position: Vec2) -> bool {
    position.y - MIN_ENEMY_Y_BELOW < EXPLOSION_DISTANCE
}

/// Steers one enemy for one tick: turns to the next target when the current
/// one is reached, aims the intent at the target, sets the hazard off when
/// the enemy is too low, and throttles the speed near the lowest height.
pub fn update_enemy_movement_intent(
    movement: &mut MovementController,
    hazard: &mut ExplosionController,
    enemy: &mut Enemy,
    position: Vec2,
)
    requires
        old(enemy).wf(),
        position.in_world(),
    ensures
        final(enemy).target_index == old(enemy).next_index(position),
        final(enemy).target_locs == old(enemy).target_locs,
        final(enemy).target_count == old(enemy).target_count,
        final(enemy).speed == old(enemy).speed,
        final(enemy).last_movement_time == old(enemy).last_movement_time,
        final(enemy).time_between_movements == old(enemy).time_between_movements,
        final(enemy).wf(),
        *final(movement) == old(enemy).steering(position),
        final(movement).wf(),
        final(hazard).should_explode == (old(hazard).should_explode || too_low(position)),
        final(hazard).explosion_radius == old(hazard).explosion_radius,
        final(hazard).hitbox_radius == old(hazard).hitbox_radius,
        final(hazard).explosion_life_span == old(hazard).explosion_life_span,
{
    if is_closer_than(position, enemy.target_locs[enemy.target_index], TARGET_REACH) {
        enemy.target_index = (enemy.target_index + 1) % enemy.target_count;
    }
    let target: Vec2 = enemy.target_locs[enemy.target_index];
    movement.intent = direction_to(position, target);
    let height: i64 = position.y - MIN_ENEMY_Y_BELOW;
    if height < EXPLOSION_DISTANCE {
        hazard.should_explode = true;
    }
    if height >= SLOWDOWN_DISTANCE {
        movement.max_speed = enemy.speed;
    } else if height <= 0 {
        movement.max_speed = 0;
    } else {
        assert(0 <= enemy.speed * height <= SPEED_MAX * SLOWDOWN_DISTANCE) by (nonlinear_arith)
            requires 0 <= enemy.speed <= SPEED_MAX, 0 < height < SLOWDOWN_DISTANCE;
        let product: i64 = enemy.speed * height;
        assert(0 <= product as int / SLOWDOWN_DISTANCE as int <= enemy.speed) by (nonlinear_arith)
            requires
                product == enemy.speed * height,
                0 <= enemy.speed,
                0 < height < SLOWDOWN_DISTANCE,
        ;
        movement.max_speed = product / SLOWDOWN_DISTANCE;
    }
}

/// The controller of a level's enemies: how many may live at once, how fast
/// new ones are, the game time of the current level, the level, and when the
/// last enemy was spawned.
#[derive(Clone, Copy, Debug, PartialEq, Eq, Structural)]
pub struct EnemyController {
    pub max_num_enemies: usize,
    pub enemy_speed: i64,
    pub game_time: i64,
    pub level: usize,
    pub last_enemy_spawn_time: i64,
}

/// What the controller asks for in one tick.
#[derive(Clone, Copy, Debug, PartialEq, Eq, Structural)]
pub struct SpawnDecision {
    /// The level that was just reached, if the level rose.
    pub level_up: Option<usize>,
    /// The speed of the enemy to spawn, if one is due.
    pub spawn: Option<i64>,
}

/// `v`, held to what a `usize` can count.
pub open spec fn capped_count(v: int) -> int {
    if v > usize::MAX {
        usize::MAX as int
    } else {
        v
    }
}

/// `v`, held to the largest speed.
pub open spec fn capped_speed(v: int) -> int {
    if v > SPEED_MAX {
        SPEED_MAX as int
    } else {
        v
    }
}

impl EnemyController {
    /// Speed and times are in range.
    pub open spec fn wf(self) -> bool {
        &&& valid_speed(self.enemy_speed as int)
        &&& valid_time(self.game_time as int)
        &&& valid_time(self.last_enemy_spawn_time as int)
    }

    /// Whether the level rises in a tick of `delta` microseconds.
    pub open spec fn levels_up(self, delta: int) -> bool {
        clock_after(self.game_time as int, delta) >= LEVEL_TIME
    }

    /// The controller after the level part of a tick of `delta` microseconds:
    /// with the game time counted on, or, where that completes a level, with
    /// the level, the cap and the speed raised and the game time back at 0.
    pub open spec fn after_level_check(self, delta: int) -> EnemyController {
        if self.levels_up(delta) {
            EnemyController {
                max_num_enemies: capped_count(
                    self.max_num_enemies + NUM_ENEMIES_INCREMENT_PER_LEVEL,
                ) as usize,
                enemy_speed: capped_speed(
                    self.enemy_speed + ENEMY_SPEED_INCREMENT_PER_LEVEL,
                ) as i64,
                game_time: 0,
                level: capped_count(self.level + 1) as usize,
                last_enemy_spawn_time: self.last_enemy_spawn_time,
            }
        } else {
            EnemyController {
                max_num_enemies: self.max_num_enemies,
                enemy_speed: self.enemy_speed,
                game_time: clock_after(self.game_time as int, delta) as i64,
                level: self.level,
                last_enemy_spawn_time: self.last_enemy_spawn_time,
            }
        }
    }

    /// Whether an enemy is due at `elapsed` when `enemy_count` are alive:
    /// there is room under the cap, and the last spawn is long enough ago.
    pub open spec fn spawn_due(self, enemy_count: int, elapsed: int) -> bool {
        enemy_count < self.max_num_enemies && elapsed - self.last_enemy_spawn_time
            >= MIN_ENEMY_SPAWN_INTERVAL
    }

    /// The controller after the spawn part of a tick at `elapsed`.
    pub open spec fn after_spawn_check(self, enemy_count: int, elapsed: int) -> EnemyController {
        EnemyController {
            max_num_enemies: self.max_num_enemies,
            enemy_speed: self.enemy_speed,
            game_time: self.game_time,
            level: self.level,
            last_enemy_spawn_time: if self.spawn_due(enemy_count, elapsed) {
                elapsed as i64
            } else {
                self.last_enemy_spawn_time
            },
        }
    }

    /// The controller after a whole tick.
    pub open spec fn after_update(
        self,
        enemy_count: int,
        elapsed: int,
        delta: int,
    ) -> EnemyController {
        self.after_level_check(delta).after_spawn_check(enemy_count, elapsed)
    }

    /// What the controller asks for in a tick.
    pub open spec fn decision(self, enemy_count: int, elapsed: int, delta: int) -> SpawnDecision {
        SpawnDecision {
            level_up: if self.levels_up(delta) {
                Some(self.after_level_check(delta).level)
            } else {
                None
            },
            spawn: if self.after_level_check(delta).spawn_due(enemy_count, elapsed) {
                Some(self.after_level_check(delta).enemy_speed)
            } else {
                None
            },
        }
    }

    /// One tick of the controller, `delta` microseconds long, at `elapsed` on
    /// the clock, with `enemy_count` enemies alive. The level rises first;
    /// an enemy spawned in the same tick has the new speed.
    pub fn update(&mut self, enemy_count: usize, elapsed: i64, delta: i64) -> (d: SpawnDecision)
        requires
            old(self).wf(),
            valid_time(elapsed as int),
            valid_delta(delta as int),
        ensures
            *final(self) == old(self).after_update(
                enemy_count as int,
                elapsed as int,
                delta as int,
            ),
            d == old(self).decision(enemy_count as int, elapsed as int, delta as int),
            final(self).wf(),
    {
        let mut level_up: Option<usize> = None;
        self.game_time = advance_clock(self.game_time, delta);
        if self.game_time >= LEVEL_TIME {
            if self.level < usize::MAX {
                self.level = self.level + 1;
            }
            self.max_num_enemies = if self.max_num_enemies > usize::MAX
                - NUM_ENEMIES_INCREMENT_PER_LEVEL {
                usize::MAX
            } else {
                self.max_num_enemies + NUM_ENEMIES_INCREMENT_PER_LEVEL
            };
            self.enemy_speed = if self.enemy_speed > SPEED_MAX - ENEMY_SPEED_INCREMENT_PER_LEVEL {
                SPEED_MAX
            } else {
                self.enemy_speed + ENEMY_SPEED_INCREMENT_PER_LEVEL
            };
            self.game_time = 0;
            level_up = Some(self.level);
        }
        let mut spawn: Option<i64> = None;
        if enemy_count < self.max_num_enemies && elapsed - self.last_enemy_spawn_time
            >= MIN_ENEMY_SPAWN_INTERVAL {
            spawn = Some(self.enemy_speed);
            self.last_enemy_spawn_time = elapsed;
        }
        SpawnDecision { level_up, spawn }
    }
}

impl Default for EnemyController {
    /// The controller of a new game: level 1, at most 5 enemies, 75 units per
    /// second.
    fn default() -> (c: EnemyController)
        ensures
            c.max_num_enemies == 5,
            c.enemy_speed == 75_000,
            c.game_time == 0,
            c.level == 1,
            c.last_enemy_spawn_time == 0,
            c.wf(),
    {
        EnemyController {
            max_num_enemies: 5,
            enemy_speed: 75_000,
            game_time: 0,
            level: 1,
            last_enemy_spawn_time: 0,
        }
    }
}

/// After a spawn, no further enemy is due before the least interval has
/// passed, however few enemies are alive.
pub proof fn lemma_spawns_are_rate_limited(
    c: EnemyController,
    count: int,
    elapsed: int,
    later_count: int,
    later: int,
)
    requires
        c.wf(),
        valid_time(elapsed),
        c.spawn_due(count, elapsed),
        later - elapsed < MIN_ENEMY_SPAWN_INTERVAL,
    ensures
        !c.after_spawn_check(count, elapsed).spawn_due(later_count, later),
{
}

/// The same over whole ticks: when one tick spawns, a tick that ends less
/// than the least interval later does not.
pub proof fn lemma_one_spawn_per_interval(
    c: EnemyController,
    count: int,
    elapsed: int,
    delta: int,
    later_count: int,
    later: int,
    later_delta: int,
)
    requires
        c.wf(),
        valid_time(elapsed),
        valid_delta(delta),
        valid_delta(later_delta),
        c.decision(count, elapsed, delta).spawn.is_some(),
        later - elapsed < MIN_ENEMY_SPAWN_INTERVAL,
    ensures
        c.after_update(count, elapsed, delta).decision(
            later_count,
            later,
            later_delta,
        ).spawn.is_none(),
{
}

/// The level never falls, and rises by one exactly when the game time of the
/// level completes the level window.
pub proof fn lemma_level_progress(c: EnemyController, count: int, elapsed: int, delta: int)
    requires
        c.wf(),
        valid_delta(delta),
        c.level < usize::MAX,
    ensures
        c.after_update(count, elapsed, delta).level == if c.levels_up(delta) {
            c.level + 1
        } else {
            c.level as int
        },
        c.levels_up(delta) ==> c.after_update(count, elapsed, delta).game_time == 0,
        c.levels_up(delta) <==> c.game_time + delta >= LEVEL_TIME,
{
}

/// A new enemy of the given speed on the path `locs`, as an entity at the
/// start of the path: a hazard with a blast and a hitbox of 32 units.
pub fn enemy_on(speed: i64, locs: &Vec<Vec2>) -> (e: crate::entity::Entity)
    requires
        1 <= locs.len() <= MAX_TARGETS,
    ensures
        e == crate::entity::enemy_entity(speed, locs@),
{
    let mut e = crate::entity::bare_entity(crate::entity::Tag::Enemy, locs[0], 4000);
    e.movement = Some(MovementController { intent: Vec2 { x: 0, y: 0 }, max_speed: 400_000 });
    e.hazard = Some(ExplosionController::new(false, 32_000, 32_000, 500_000));
    e.enemy = Some(Enemy::new(speed, locs));
    e
}

/// A new enemy of the given speed, as an entity; its path is left to chance.
pub fn enemy(speed: i64) -> (e: crate::entity::Entity)
    ensures
        exists|locs: Seq<Vec2>|
            is_descent(locs) && e == #[trigger] crate::entity::enemy_entity(speed, locs),
        valid_speed(speed as int) ==> e.wf(),
{
    let locs = create_target_locs();
    let e = enemy_on(speed, &locs);
    assert(e == crate::entity::enemy_entity(speed, locs@));
    e
}

} // verus!
