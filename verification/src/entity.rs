//! Entities: every simulated object is a position, a tag, and whichever of
//! the attribute groups it has. Each rule of the simulation is stated here
//! for one entity; the world applies it to all.
use vstd::prelude::*;
use crate::units::{valid_time, valid_delta, is_valid_time, is_valid_speed, is_valid_radius};
use crate::math::Vec2;
use crate::movement::{
    MovementController, moved, apply_movement, wrapped_x, apply_screen_wrap, MAX_X,
};
use crate::explosions::{ExplosionController, Explosion, blast_of, blast_scale};
use crate::buildings::{Building, damage_tier, BUILDING_Y, INITIAL_BUILDING_HEALTH};
use crate::enemies::{Enemy, update_enemy_movement_intent, too_low};
use crate::shot::{Shot, SHOT_EXPLOSION_RADIUS, SHOT_EXPLOSION_LIFE_SPAN, SHOT_HITBOX_RADIUS};
use crate::shooting::ShootingController;
use crate::reticle::Reticle;
use crate::player::{record_player_directional_input, aim_after, sideways, PLAYER_Y};

verus! {

/// What kind of thing an entity is.
#[derive(Clone, Copy, Debug, PartialEq, Eq, Structural)]
pub enum Tag {
    Player,
    Enemy,
    Building,
    Shot,
    Explosion,
    HazardMarker,
    Reticle,
}

/// A simulated object. `scale` is in thousandths of the natural size, and
/// `sprite_index` is the picture that the presentation layer shows.
#[derive(Clone, Copy, Debug)]
pub struct Entity {
    pub tag: Tag,
    pub position: Vec2,
    pub scale: Vec2,
    pub sprite_index: usize,
    pub screen_wrap: bool,
    pub movement: Option<MovementController>,
    pub hazard: Option<ExplosionController>,
    pub explosion: Option<Explosion>,
    pub building: Option<Building>,
    pub enemy: Option<Enemy>,
    pub shot: Option<Shot>,
    pub shooting: Option<ShootingController>,
    pub reticle: Option<Reticle>,
}

/// What the player wants in one tick: a direction, of unit length or zero,
/// and whether the trigger was just pulled.
#[derive(Clone, Copy, Debug, PartialEq, Eq, Structural)]
pub struct PlayerInput {
    pub intent: Vec2,
    pub fire: bool,
}

impl PlayerInput {
    /// The intent is a direction.
    pub open spec fn wf(self) -> bool {
        self.intent.is_direction()
    }
}

impl Entity {
    /// The position lies in the world and every attribute group that the
    /// entity has is well formed.
    pub open spec fn wf(self) -> bool {
        &&& self.position.in_world()
        &&& self.movement.is_some() ==> self.movement.unwrap().wf()
        &&& self.hazard.is_some() ==> self.hazard.unwrap().wf()
        &&& self.explosion.is_some() ==> self.explosion.unwrap().wf()
        &&& self.building.is_some() ==> self.building.unwrap().wf()
        &&& self.enemy.is_some() ==> self.enemy.unwrap().wf()
        &&& self.shot.is_some() ==> self.shot.unwrap().wf()
        &&& self.shooting.is_some() ==> self.shooting.unwrap().wf()
        &&& self.reticle.is_some() ==> self.reticle.unwrap().wf()
    }

    /// An entity at `position` with no attribute group at all.
    pub open spec fn bare(tag: Tag, position: Vec2, scale: int) -> Entity {
        Entity {
            tag,
            position,
            scale: Vec2 { x: scale as i64, y: scale as i64 },
            sprite_index: 0,
            screen_wrap: false,
            movement: None,
            hazard: None,
            explosion: None,
            building: None,
            enemy: None,
            shot: None,
            shooting: None,
            reticle: None,
        }
    }

    /// Whether the player's input reaches this entity: it is the player and
    /// can both move and fire.
    pub open spec fn takes_input(self) -> bool {
        self.tag == Tag::Player && self.movement.is_some() && self.shooting.is_some()
    }

    /// The entity after the player's input has reached it.
    pub open spec fn with_input(self, input: PlayerInput) -> Entity {
        if self.takes_input() {
            Entity {
                movement: Some(
                    MovementController {
                        intent: Vec2 { x: sideways(input.intent.x as int) as i64, y: 0 },
                        max_speed: self.movement.unwrap().max_speed,
                    },
                ),
                shooting: Some(
                    ShootingController {
                        intent_to_fire: input.fire,
                        target_offset: Vec2 {
                            x: self.shooting.unwrap().target_offset.x,
                            y: aim_after(
                                self.shooting.unwrap().target_offset.y as int,
                                input.intent.y as int,
                            ) as i64,
                        },
                        ..self.shooting.unwrap()
                    },
                ),
                ..self
            }
        } else {
            self
        }
    }

    /// Whether this entity steers itself as an enemy does.
    pub open spec fn steers_itself(self) -> bool {
        self.enemy.is_some() && self.movement.is_some() && self.hazard.is_some()
    }

    /// The entity after it has steered itself.
    pub open spec fn self_steered(self) -> Entity {
        if self.steers_itself() {
            Entity {
                movement: Some(self.enemy.unwrap().steering(self.position)),
                hazard: Some(
                    ExplosionController {
                        should_explode: self.hazard.unwrap().should_explode || too_low(
                            self.position,
                        ),
                        ..self.hazard.unwrap()
                    },
                ),
                enemy: Some(
                    Enemy {
                        target_index: self.enemy.unwrap().next_index(self.position) as usize,
                        ..self.enemy.unwrap()
                    },
                ),
                ..self
            }
        } else {
            self
        }
    }

    /// The entity after the steering of one tick: the player's input first,
    /// then the entity's own steering.
    pub open spec fn steered(self, input: PlayerInput) -> Entity {
        self.with_input(input).self_steered()
    }

    /// The entity after the movement engine's step of `dt` microseconds: it
    /// follows its intent, and wraps round the horizontal bounds if it is
    /// one that does.
    pub open spec fn advanced(self, dt: int) -> Entity {
        let stepped = if self.movement.is_some() {
            moved(self.position, self.movement.unwrap(), dt)
        } else {
            self.position
        };
        Entity {
            position: if self.screen_wrap {
                Vec2 { x: wrapped_x(stepped.x as int, MAX_X as int) as i64, y: stepped.y }
            } else {
                stepped
            },
            ..self
        }
    }

    /// The entity after its reticle, if it has one, looked for the firer and
    /// moved towards where that aims.
    pub open spec fn aimed(self, firer: Option<(Vec2, ShootingController)>, dt: int) -> Entity {
        if self.reticle.is_some() {
            Entity {
                position: self.reticle.unwrap().retargeted(firer).eased(self.position, dt),
                reticle: Some(self.reticle.unwrap().retargeted(firer)),
                ..self
            }
        } else {
            self
        }
    }

    /// Whether this entity fires at `elapsed`.
    pub open spec fn fires(self, elapsed: int) -> bool {
        self.shooting.is_some() && self.shooting.unwrap().fires(elapsed)
    }

    /// The entity after its firing check at `elapsed`.
    pub open spec fn after_firing(self, elapsed: int) -> Entity {
        if self.shooting.is_some() {
            Entity { shooting: Some(self.shooting.unwrap().after_firing(elapsed)), ..self }
        } else {
            self
        }
    }

    /// The shot that this entity fires.
    pub open spec fn fired_shot(self) -> Entity {
        shot_entity(self.shooting.unwrap().shot_from(self.position))
    }

    /// The entity after its shot, if it is one, flew for `dt` microseconds:
    /// a shot under way is drawn as large as its way so far makes it.
    pub open spec fn flown(self, dt: int) -> Entity {
        if self.shot.is_some() {
            Entity {
                position: self.shot.unwrap().position_after(self.position, dt),
                scale: if self.shot.unwrap().flies_from(self.position) {
                    Vec2 {
                        x: self.shot.unwrap().scale_at(self.position) as i64,
                        y: self.shot.unwrap().scale_at(self.position) as i64,
                    }
                } else {
                    self.scale
                },
                shot: Some(self.shot.unwrap().after_step(self.position)),
                ..self
            }
        } else {
            self
        }
    }

    /// Whether this entity turns into a blast now: it is a shot that has
    /// arrived, or a hazard that is about to detonate.
    pub open spec fn detonates(self) -> bool {
        ||| self.shot.is_some() && self.shot.unwrap().arrived()
        ||| self.hazard.is_some() && self.hazard.unwrap().should_explode
    }

    /// The blast that this entity turns into: that of a shot for a shot that
    /// has arrived, else the one that its hazard describes.
    pub open spec fn blast(self) -> Explosion {
        if self.shot.is_some() && self.shot.unwrap().arrived() {
            Explosion {
                radius: SHOT_EXPLOSION_RADIUS,
                center: self.position,
                explosion_max_life_span: SHOT_EXPLOSION_LIFE_SPAN,
                explosion_life_span_remaining: SHOT_EXPLOSION_LIFE_SPAN,
            }
        } else {
            blast_of(self.position, self.hazard.unwrap())
        }
    }

    /// The entity after the end of a shot's life: the blast of a shot in its
    /// place if it is a shot that has arrived, else itself.
    pub open spec fn landed(self) -> Entity {
        if self.shot.is_some() && self.shot.unwrap().arrived() {
            explosion_entity(self.blast())
        } else {
            self
        }
    }

    /// The entity after the trigger pass: a blast in its place if it
    /// detonates, else itself.
    pub open spec fn detonated(self) -> Entity {
        if self.detonates() {
            explosion_entity(self.blast())
        } else {
            self
        }
    }

    /// Whether the aging pass of `dt` microseconds removes this entity: it is
    /// a blast whose life runs out.
    pub open spec fn burns_out(self, dt: int) -> bool {
        self.explosion.is_some() && self.explosion.unwrap().expires(dt)
    }

    /// The entity after the aging pass, where that does not remove it: a
    /// blast is older and shows the frame of its age.
    pub open spec fn aged(self, dt: int) -> Entity {
        if self.explosion.is_some() {
            Entity {
                explosion: Some(self.explosion.unwrap().aged(dt)),
                sprite_index: self.explosion.unwrap().aged(dt).frame() as usize,
                ..self
            }
        } else {
            self
        }
    }

    /// Whether a blast can set this entity off: it is a hazard that is not
    /// about to detonate already.
    pub open spec fn is_quiet_hazard(self) -> bool {
        self.hazard.is_some() && !self.hazard.unwrap().should_explode
    }

    /// The entity with its hazard set off.
    pub open spec fn triggered(self) -> Entity {
        Entity { hazard: Some(self.hazard.unwrap().triggered()), ..self }
    }

    /// The entity with its building damaged at `elapsed`.
    pub open spec fn damaged(self, elapsed: int) -> Entity {
        Entity { building: Some(self.building.unwrap().damaged(elapsed)), ..self }
    }

    /// Whether the removal pass takes this entity away: it is a building
    /// marked for removal, of which nothing is left.
    pub open spec fn is_rubble(self) -> bool {
        self.building.is_some() && self.building.unwrap().destroyed()
    }

    /// The entity showing the picture of its damage, if it is a building.
    pub open spec fn repainted(self) -> Entity {
        if self.building.is_some() {
            Entity {
                sprite_index: damage_tier(self.building.unwrap().health as int) as usize,
                ..self
            }
        } else {
            self
        }
    }
}

/// The entity that a blast is.
pub open spec fn explosion_entity(e: Explosion) -> Entity {
    Entity {
        scale: Vec2 {
            x: blast_scale(e.radius as int) as i64,
            y: blast_scale(e.radius as int) as i64,
        },
        explosion: Some(e),
        ..Entity::bare(Tag::Explosion, e.center, 1000)
    }
}

/// The entity that a shot is, at the place it starts from: a hazard with the
/// blast of a shot, which a blast can set off on its way.
pub open spec fn shot_entity(s: Shot) -> Entity {
    Entity {
        hazard: Some(
            ExplosionController {
                should_explode: false,
                explosion_radius: SHOT_EXPLOSION_RADIUS,
                hitbox_radius: SHOT_HITBOX_RADIUS,
                explosion_life_span: SHOT_EXPLOSION_LIFE_SPAN,
            },
        ),
        shot: Some(s),
        ..Entity::bare(Tag::Shot, s.initial_location, 2000)
    }
}

/// The entity that an enemy on the path `locs` is, at the start of the path.
pub open spec fn enemy_entity(speed: i64, locs: Seq<Vec2>) -> Entity {
    Entity {
        movement: Some(
            MovementController { intent: Vec2 { x: 0, y: 0 }, max_speed: 400_000 },
        ),
        hazard: Some(
            ExplosionController {
                should_explode: false,
                explosion_radius: 32_000,
                hitbox_radius: 32_000,
                explosion_life_span: 500_000,
            },
        ),
        enemy: Some(Enemy::on_path(speed, locs)),
        ..Entity::bare(Tag::Enemy, locs[0], 4000)
    }
}

/// The entity that a building above the ground at `x` is.
pub open spec fn building_entity(x: i64) -> Entity {
    Entity {
        building: Some(Building { health: INITIAL_BUILDING_HEALTH, last_damage_time: 0 }),
        ..Entity::bare(Tag::Building, Vec2 { x: x, y: BUILDING_Y }, 2000)
    }
}

/// The entity that the player's cannon of the given speed is.
pub open spec fn player_entity(max_speed: i64) -> Entity {
    Entity {
        movement: Some(MovementController { intent: Vec2 { x: 0, y: 0 }, max_speed }),
        shooting: Some(
            ShootingController {
                intent_to_fire: false,
                last_shot_time: 0,
                reload_time: 500_000,
                shot_speed: 640_000,
                target_offset: Vec2 { x: 0, y: 200_000 },
            },
        ),
        ..Entity::bare(Tag::Player, Vec2 { x: 0, y: PLAYER_Y }, 2000)
    }
}

/// The entity that the reticle is.
pub open spec fn reticle_entity() -> Entity {
    Entity {
        reticle: Some(
            Reticle {
                move_speed: 450_000,
                visual_speed: 8_000,
                visual_wave_val: 500,
                target: None,
            },
        ),
        ..Entity::bare(Tag::Reticle, Vec2 { x: 0, y: 0 }, 2000)
    }
}

/// The entity that is nothing but a hazard at `position`.
pub open spec fn hazard_entity(position: Vec2, hazard: ExplosionController) -> Entity {
    Entity { hazard: Some(hazard), ..Entity::bare(Tag::HazardMarker, position, 1000) }
}

/// An entity with no attribute group at all.
pub fn bare_entity(tag: Tag, position: Vec2, scale: i64) -> (e: Entity)
    ensures
        e == Entity::bare(tag, position, scale as int),
{
    Entity {
        tag,
        position,
        scale: Vec2 { x: scale, y: scale },
        sprite_index: 0,
        screen_wrap: false,
        movement: None,
        hazard: None,
        explosion: None,
        building: None,
        enemy: None,
        shot: None,
        shooting: None,
        reticle: None,
    }
}

/// A hazard at `position`, as an entity.
pub fn hazard_marker(position: Vec2, hazard: ExplosionController) -> (e: Entity)
    ensures
        e == hazard_entity(position, hazard),
{
    let mut e: Entity = bare_entity(Tag::HazardMarker, position, 1000);
    e.hazard = Some(hazard);
    e
}

impl Entity {
    /// The steering of one tick for one entity.
    pub fn steer(self, input: PlayerInput) -> (r: Entity)
        requires
            self.wf(),
            input.wf(),
        ensures
            r == self.steered(input),
            r.wf(),
    {
        let mut e: Entity = self;
        if matches!(e.tag, Tag::Player) {
            match (e.movement, e.shooting) {
                (Some(m), Some(s)) => {
                    let mut movement: MovementController = m;
                    let mut shooting: ShootingController = s;
                    record_player_directional_input(
                        &mut movement,
                        &mut shooting,
                        input.intent,
                        input.fire,
                    );
                    e.movement = Some(movement);
                    e.shooting = Some(shooting);
                },
                _ => {},
            }
        }
        assert(e == self.with_input(input));
        match (e.movement, e.hazard, e.enemy) {
            (Some(m), Some(h), Some(en)) => {
                let mut movement: MovementController = m;
                let mut hazard: ExplosionController = h;
                let mut enemy: Enemy = en;
                update_enemy_movement_intent(&mut movement, &mut hazard, &mut enemy, e.position);
                e.movement = Some(movement);
                e.hazard = Some(hazard);
                e.enemy = Some(enemy);
            },
            _ => {},
        }
        e
    }

    /// The movement engine's step for one entity.
    pub fn advance(self, dt: i64) -> (r: Entity)
        requires
            self.wf(),
            valid_delta(dt as int),
        ensures
            r == self.advanced(dt as int),
            r.wf(),
    {
        let mut e: Entity = self;
        match e.movement {
            Some(m) => {
                e.position = apply_movement(e.position, m, dt);
            },
            None => {},
        }
        if e.screen_wrap {
            e.position = apply_screen_wrap(e.position, MAX_X);
        }
        e
    }

    /// The reticle's part of one tick for one entity.
    pub fn aim(self, firer: Option<(Vec2, ShootingController)>, dt: i64) -> (r: Entity)
        requires
            self.wf(),
            firer.is_some() ==> firer.unwrap().0.in_world() && firer.unwrap().1.wf(),
            valid_delta(dt as int),
        ensures
            r == self.aimed(firer, dt as int),
            r.wf(),
    {
        let mut e: Entity = self;
        match e.reticle {
            Some(r) => {
                let mut reticle: Reticle = r;
                reticle.update_reticle_target(firer);
                e.position = reticle.update_reticle_position(e.position, dt);
                e.reticle = Some(reticle);
            },
            None => {},
        }
        e
    }

    /// The firing check of one tick for one entity: the entity afterwards,
    /// and the shot that left it, if one did.
    pub fn fire(self, elapsed: i64) -> (r: (Entity, Option<Entity>))
        requires
            self.wf(),
            valid_time(elapsed as int),
        ensures
            r.0 == self.after_firing(elapsed as int),
            r.0.wf(),
            r.1.is_some() == self.fires(elapsed as int),
            r.1.is_some() ==> r.1.unwrap() == self.fired_shot() && r.1.unwrap().wf(),
    {
        let mut e: Entity = self;
        match e.shooting {
            Some(s) => {
                let mut shooting: ShootingController = s;
                let fired: Option<Shot> = shooting.shoot_if_we_shooting(e.position, elapsed);
                e.shooting = Some(shooting);
                match fired {
                    Some(new_shot) => (e, Some(crate::shot::shot_of(new_shot))),
                    None => (e, None),
                }
            },
            None => (e, None),
        }
    }

    /// The flight of one tick for one entity.
    pub fn fly(self, dt: i64) -> (r: Entity)
        requires
            self.wf(),
            valid_delta(dt as int),
        ensures
            r == self.flown(dt as int),
            r.wf(),
    {
        let mut e: Entity = self;
        match e.shot {
            Some(s) => {
                let mut flying: Shot = s;
                let from: Vec2 = e.position;
                e.position = flying.update_shot_position(from, dt);
                if flying.target.is_some() {
                    let k: i64 = s.scale(from);
                    e.scale = Vec2 { x: k, y: k };
                }
                e.shot = Some(flying);
            },
            None => {},
        }
        e
    }

    /// The trigger pass for one entity: a shot that has arrived ends its
    /// life, and any other hazard that is about to detonate gives way to
    /// its blast.
    pub fn detonate(self) -> (r: Entity)
        requires
            self.wf(),
        ensures
            r == self.detonated(),
            r.wf(),
    {
        let e: Entity = crate::shot::shot_end_of_life(self);
        match e.hazard {
            Some(h) => {
                if h.should_explode {
                    return crate::explosions::explosion(
                        e.position,
                        h.explosion_radius,
                        h.explosion_life_span,
                    );
                }
            },
            None => {},
        }
        e
    }

    /// The aging pass for one entity: the entity afterwards, or nothing where
    /// the pass removes it.
    pub fn age(self, dt: i64) -> (r: Option<Entity>)
        requires
            self.wf(),
            valid_delta(dt as int),
        ensures
            r.is_none() == self.burns_out(dt as int),
            r.is_some() ==> r.unwrap() == self.aged(dt as int) && r.unwrap().wf(),
    {
        let mut e: Entity = self;
        match e.explosion {
            Some(x) => {
                let mut blast: Explosion = x;
                if blast.age(dt) {
                    e.sprite_index = blast.frame_index();
                    e.explosion = Some(blast);
                    Some(e)
                } else {
                    None
                }
            },
            None => Some(e),
        }
    }

    /// Sets the entity's hazard off.
    pub fn trigger(self) -> (r: Entity)
        requires
            self.wf(),
            self.hazard.is_some(),
        ensures
            r == self.triggered(),
            r.wf(),
    {
        let mut e: Entity = self;
        match e.hazard {
            Some(h) => {
                let mut hazard: ExplosionController = h;
                hazard.should_explode = true;
                e.hazard = Some(hazard);
            },
            None => {},
        }
        e
    }

    /// Shows the picture of the entity's damage, if it is a building.
    pub fn repaint(self) -> (r: Entity)
        requires
            self.wf(),
        ensures
            r == self.repainted(),
            r.wf(),
    {
        let mut e: Entity = self;
        match e.building {
            Some(b) => {
                e.sprite_index = b.sprite_index();
            },
            None => {},
        }
        e
    }
}

/// Decides whether an optional point, if there is one, lies in the world.
fn is_none_or_in_world(p: Option<Vec2>) -> (r: bool)
    ensures
        r == (p.is_some() ==> p.unwrap().in_world()),
{
    match p {
        Some(v) => v.is_in_world(),
        None => true,
    }
}

impl Entity {
    /// Decides whether the entity is well formed.
    pub fn is_wf(&self) -> (r: bool)
        ensures
            r == self.wf(),
    {
        let movement_ok: bool = match self.movement {
            Some(m) => m.intent.is_a_direction() && is_valid_speed(m.max_speed),
            None => true,
        };
        let hazard_ok: bool = match self.hazard {
            Some(h) => is_valid_radius(h.explosion_radius) && is_valid_radius(h.hitbox_radius)
                && is_valid_time(h.explosion_life_span),
            None => true,
        };
        let explosion_ok: bool = match self.explosion {
            Some(e) => is_valid_radius(e.radius) && e.center.is_in_world() && is_valid_time(
                e.explosion_max_life_span,
            ) && 0 <= e.explosion_life_span_remaining && e.explosion_life_span_remaining
                <= e.explosion_max_life_span,
            None => true,
        };
        let building_ok: bool = match self.building {
            Some(b) => b.health >= 0 && is_valid_time(b.last_damage_time),
            None => true,
        };
        let enemy_ok: bool = match self.enemy {
            Some(e) => e.is_wf(),
            None => true,
        };
        let shot_ok: bool = match self.shot {
            Some(s) => is_valid_speed(s.speed) && is_none_or_in_world(s.target)
                && s.initial_location.is_in_world(),
            None => true,
        };
        let shooting_ok: bool = match self.shooting {
            Some(s) => is_valid_time(s.last_shot_time) && is_valid_time(s.reload_time)
                && is_valid_speed(s.shot_speed) && s.target_offset.is_in_world(),
            None => true,
        };
        let reticle_ok: bool = match self.reticle {
            Some(r) => is_valid_speed(r.move_speed) && is_none_or_in_world(r.target),
            None => true,
        };
        self.position.is_in_world() && movement_ok && hazard_ok && explosion_ok && building_ok
            && enemy_ok && shot_ok && shooting_ok && reticle_ok
    }
}

} // verus!
