//! A running level: its entities, its clock and its controllers, and the
//! tick that takes it from one frame to the next.
use vstd::prelude::*;
use crate::units::{
    valid_time, valid_delta, clock_after, advance_clock, is_valid_time, is_valid_speed,
    is_valid_delta,
};
use crate::math::Vec2;
use crate::entity::{Entity, PlayerInput, enemy_entity, player_entity, reticle_entity};
use crate::passes::{
    all_wf, steer_all, advance_all, aim_all, fire_all, fly_all, detonate_all, age_all, chain_all,
    chain_count, damage_all, clear_rubble, impacts, points_in_world, steer_entities,
    advance_entities,
    aim_entities, fire_entities, fly_entities, create_explosions, update_explosions,
    check_for_explosion_chain, check_for_explosion_damage, update_building_sprite,
};
use crate::enemies::{EnemyController, SpawnDecision, is_descent, enemy};
use crate::score::{ScoreController, NewScore, score_controller, score_chain, event_notes};
use crate::buildings::{
    LevelError, spawn_buildings, buildings_at, within_bounds, well_separated, ouch_text,
    is_level_placement, INITIAL_BUILDING_COUNT, OUCH_COUNT,
};
use crate::floating_text::{
    NewText, is_ouch_near, ouch_text_at, level_up_text, level_label, OUCH_SCATTER,
};
use crate::random::{random_between, random_index};
use crate::player::player;
use crate::reticle::reticle;

verus! {

/// The speed of the player's cannon.
pub const PLAYER_SPEED: i64 = 400_000;

/// The state of a running level.
#[derive(Debug)]
pub struct Level {
    pub entities: Vec<Entity>,
    pub elapsed: i64,
    pub enemies: EnemyController,
    pub score: ScoreController,
    pub game_over: bool,
}

/// Something that a tick reports to the outside.
#[derive(Debug)]
pub enum Notice {
    /// A request to show floating text.
    Text(NewText),
    /// The score or the combo changed.
    Score(NewScore),
    /// The request to end the game.
    GameOver,
}

/// How many notices a notice takes that comes only if `b` holds: 1 or 0.
pub open spec fn one_if(b: bool) -> int {
    if b {
        1
    } else {
        0
    }
}

/// Whether `n` asks for what a building says when a blast at `impact` hits
/// it.
pub open spec fn is_ouch_notice(n: Notice, impact: Vec2) -> bool {
    n matches Notice::Text(t) && is_ouch_near(t, impact)
}

/// Whether `n` asks for the announcement of `level`, in the middle of the
/// field.
pub open spec fn is_level_notice(n: Notice, level: usize) -> bool {
    n matches Notice::Text(t) && t.0@ == level_label(level) && t.1 == 0 && t.2 == 0
}

/// Adds one request to `notices` for each impact, in their order: what is
/// said and where, within the scatter, is left to chance.
pub fn ouch_notices(impacts: &Vec<Vec2>, notices: &mut Vec<Notice>)
    requires
        points_in_world(impacts@),
    ensures
        final(notices)@.len() == old(notices)@.len() + impacts.len(),
        forall|j: int| 0 <= j < old(notices)@.len() ==> final(notices)@[j] == old(notices)@[j],
        forall|j: int|
            old(notices)@.len() <= j < final(notices)@.len() ==> is_ouch_notice(
                #[trigger] final(notices)@[j],
                impacts[j - old(notices)@.len()],
            ),
{
    let mut i: usize = 0;
    while i < impacts.len()
        invariant
            i <= impacts.len(),
            points_in_world(impacts@),
            notices@.len() == old(notices)@.len() + i,
            forall|j: int| 0 <= j < old(notices)@.len() ==> notices@[j] == old(notices)@[j],
            forall|j: int|
                old(notices)@.len() <= j < notices@.len() ==> is_ouch_notice(
                    #[trigger] notices@[j],
                    impacts[j - old(notices)@.len()],
                ),
        decreases impacts.len() - i,
    {
        let dx: i64 = random_between(-OUCH_SCATTER, OUCH_SCATTER);
        let dy: i64 = random_between(-OUCH_SCATTER, OUCH_SCATTER);
        let seed: usize = random_index();
        let t = ouch_text_at(impacts[i], dx, dy, seed);
        assert(t.0@ == ouch_text((seed % OUCH_COUNT) as int));
        assert(is_ouch_near(t, impacts[i as int]));
        notices.push(Notice::Text(t));
        i = i + 1;
    }
}

/// The predicate of the entities that are buildings.
pub open spec fn is_building() -> spec_fn(Entity) -> bool {
    |e: Entity| e.building.is_some()
}

/// The predicate of the entities that are enemies.
pub open spec fn is_enemy() -> spec_fn(Entity) -> bool {
    |e: Entity| e.enemy.is_some()
}

/// How many of `s` are buildings.
pub open spec fn building_count(s: Seq<Entity>) -> nat {
    s.filter(is_building()).len()
}

/// How many of `s` are enemies.
pub open spec fn enemy_count(s: Seq<Entity>) -> nat {
    s.filter(is_enemy()).len()
}

/// Counts the buildings.
pub fn count_buildings(entities: &Vec<Entity>) -> (n: usize)
    ensures
        n == building_count(entities@),
{
    let mut n: usize = 0;
    let mut i: usize = 0;
    proof {
        reveal(Seq::filter);
        assert(entities@.take(0) =~= Seq::<Entity>::empty());
    }
    while i < entities.len()
        invariant
            i <= entities.len(),
            n == building_count(entities@.take(i as int)),
            n <= i,
        decreases entities.len() - i,
    {
        proof {
            reveal(Seq::filter);
            assert(entities@.take(i + 1).drop_last() =~= entities@.take(i as int));
            assert(entities@.take(i + 1).last() == entities[i as int]);
        }
        if entities[i].building.is_some() {
            n = n + 1;
        }
        i = i + 1;
    }
    assert(entities@.take(entities.len() as int) =~= entities@);
    n
}

/// Counts the enemies.
pub fn count_enemies(entities: &Vec<Entity>) -> (n: usize)
    ensures
        n == enemy_count(entities@),
{
    let mut n: usize = 0;
    let mut i: usize = 0;
    proof {
        reveal(Seq::filter);
        assert(entities@.take(0) =~= Seq::<Entity>::empty());
    }
    while i < entities.len()
        invariant
            i <= entities.len(),
            n == enemy_count(entities@.take(i as int)),
            n <= i,
        decreases entities.len() - i,
    {
        proof {
            reveal(Seq::filter);
            assert(entities@.take(i + 1).drop_last() =~= entities@.take(i as int));
            assert(entities@.take(i + 1).last() == entities[i as int]);
        }
        if entities[i].enemy.is_some() {
            n = n + 1;
        }
        i = i + 1;
    }
    assert(entities@.take(entities.len() as int) =~= entities@);
    n
}

/// Decides whether the game is over: no building is left.
pub fn check_for_game_over(entities: &Vec<Entity>) -> (over: bool)
    ensures
        over == (building_count(entities@) == 0),
{
    count_buildings(entities) == 0
}

/// The entities as the explosion engine finds them in a tick that ends at
/// `now`: steered, moved, with the reticles drawn to the aim, the shots fired
/// and flown.
pub open spec fn before_explosions(
    s: Seq<Entity>,
    input: PlayerInput,
    now: int,
    dt: int,
) -> Seq<Entity> {
    fly_all(fire_all(aim_all(advance_all(steer_all(s, input), dt), dt), now), dt)
}

/// The entities as the chain-reaction pass finds them: after the trigger
/// pass and the aging pass of the same tick.
pub open spec fn before_chain(s: Seq<Entity>, input: PlayerInput, now: int, dt: int) -> Seq<
    Entity,
> {
    age_all(detonate_all(before_explosions(s, input, now, dt)), dt)
}

/// The entities as the damage pass finds them: after the chain-reaction pass
/// of the same tick.
pub open spec fn before_damage(s: Seq<Entity>, input: PlayerInput, now: int, dt: int) -> Seq<
    Entity,
> {
    chain_all(before_chain(s, input, now, dt))
}

/// The entities as the spawner finds them: after the damage pass and the
/// removal of the buildings that fell.
pub open spec fn before_spawn(s: Seq<Entity>, input: PlayerInput, now: int, dt: int) -> Seq<
    Entity,
> {
    clear_rubble(damage_all(before_damage(s, input, now, dt), now))
}

impl Level {
    /// Every entity and both controllers are well formed, and the clock
    /// shows a time.
    pub open spec fn wf(self) -> bool {
        &&& all_wf(self.entities@)
        &&& valid_time(self.elapsed as int)
        &&& self.enemies.wf()
        &&& self.score.wf()
    }

    /// Decides whether the level is well formed.
    pub fn is_wf(&self) -> (r: bool)
        ensures
            r == self.wf(),
    {
        let mut i: usize = 0;
        while i < self.entities.len()
            invariant
                i <= self.entities.len(),
                forall|k: int| 0 <= k < i ==> (#[trigger] self.entities@[k]).wf(),
            decreases self.entities.len() - i,
        {
            if !self.entities[i].is_wf() {
                return false;
            }
            i = i + 1;
        }
        is_valid_time(self.elapsed) && is_valid_speed(self.enemies.enemy_speed) && is_valid_time(
            self.enemies.game_time,
        ) && is_valid_time(self.enemies.last_enemy_spawn_time) && self.score.combo >= 1
            && is_valid_time(self.score.time_since_last_score) && is_valid_time(
            self.score.combo_window,
        )
    }

    /// A tick for callers that cannot promise a well-formed level, a unit
    /// intent and a duration in range: it checks all three and, where one
    /// fails, does nothing and returns nothing.
    pub fn try_tick(&mut self, input: PlayerInput, delta: i64, paused: bool) -> (out: Option<
        Vec<Notice>,
    >)
        ensures
            out.is_some() == (old(self).wf() && input.wf() && valid_delta(delta as int)),
            out.is_none() ==> *final(self) == *old(self),
            out.is_some() ==> old(self).ticked(
                *final(self),
                out.unwrap()@,
                input,
                delta as int,
                paused,
            ),
    {
        if self.is_wf() && input.intent.is_a_direction() && is_valid_delta(delta) {
            Some(self.tick(input, delta, paused))
        } else {
            None
        }
    }

    /// Whether a tick leaves the level alone: the game is paused or over.
    pub open spec fn rests(self, paused: bool) -> bool {
        paused || self.game_over
    }

    /// The clock at the end of a tick of `dt` microseconds.
    pub open spec fn now(self, dt: int) -> int {
        clock_after(self.elapsed as int, dt)
    }

    /// The entities that the spawner finds in a tick.
    pub open spec fn survivors(self, input: PlayerInput, dt: int) -> Seq<Entity> {
        before_spawn(self.entities@, input, self.now(dt), dt)
    }

    /// How many hazards the chain-reaction pass of a tick sets off.
    pub open spec fn chained(self, input: PlayerInput, dt: int) -> nat {
        chain_count(before_chain(self.entities@, input, self.now(dt), dt))
    }

    /// Where buildings are hit in a tick.
    pub open spec fn hits(self, input: PlayerInput, dt: int) -> Seq<Vec2> {
        impacts(before_damage(self.entities@, input, self.now(dt), dt), self.now(dt))
    }

    /// What the spawner asks for in a tick.
    pub open spec fn spawning(self, input: PlayerInput, dt: int) -> SpawnDecision {
        self.enemies.decision(enemy_count(self.survivors(input, dt)) as int, self.now(dt), dt)
    }

    /// Whether a tick ends the game: after it no building is left.
    pub open spec fn falls(self, input: PlayerInput, dt: int) -> bool {
        building_count(self.survivors(input, dt)) == 0
    }

    /// The score controller after a tick: after one event for each hazard
    /// set off, and the idle check.
    pub open spec fn score_after(self, input: PlayerInput, dt: int) -> ScoreController {
        self.score.after_events(self.chained(input, dt)).after_idle(dt)
    }

    /// The score notifications of a tick: one for each hazard set off, then
    /// that of the idle check if the combo decays.
    pub open spec fn score_notes(self, input: PlayerInput, dt: int) -> Seq<NewScore> {
        let scored = self.score.after_events(self.chained(input, dt));
        event_notes(self.score, self.chained(input, dt)) + if scored.decays(dt) {
            seq![scored.after_idle(dt).notification()]
        } else {
            Seq::empty()
        }
    }

    /// Whether `after` and `notices` are what a tick of `dt` microseconds
    /// makes of this level.
    ///
    /// A level that rests stays as it is and reports nothing. Otherwise the
    /// clock moves on; the entities are those that the passes leave, with the
    /// enemy that the spawner asks for behind them; controllers and score are
    /// as their rules say; and the notices are, in this order: one request
    /// for each building that was hit, the game-over request if no building
    /// is left, the announcement of the level if it rose, and the score
    /// notifications.
    pub open spec fn ticked(
        self,
        after: Level,
        notices: Seq<Notice>,
        input: PlayerInput,
        dt: int,
        paused: bool,
    ) -> bool {
        if self.rests(paused) {
            after == self && notices.len() == 0
        } else {
            let spawning = self.spawning(input, dt);
            let hits = self.hits(input, dt);
            let notes = self.score_notes(input, dt);
            let over = one_if(self.falls(input, dt));
            let up = one_if(spawning.level_up.is_some());
            &&& after.wf()
            &&& after.elapsed == self.now(dt)
            &&& spawning.spawn.is_none() ==> after.entities@ == self.survivors(input, dt)
            &&& spawning.spawn.is_some() ==> exists|locs: Seq<Vec2>|
                is_descent(locs) && after.entities@ == self.survivors(input, dt).push(
                    #[trigger] enemy_entity(spawning.spawn.unwrap(), locs),
                )
            &&& after.enemies == self.enemies.after_update(
                enemy_count(self.survivors(input, dt)) as int,
                self.now(dt),
                dt,
            )
            &&& after.score == self.score_after(input, dt)
            &&& after.game_over == self.falls(input, dt)
            &&& notices.len() == hits.len() + over + up + notes.len()
            &&& forall|i: int|
                0 <= i < hits.len() ==> is_ouch_notice(#[trigger] notices[i], hits[i])
            &&& self.falls(input, dt) ==> notices[hits.len() as int] is GameOver
            &&& spawning.level_up.is_some() ==> is_level_notice(
                notices[hits.len() + over],
                spawning.level_up.unwrap(),
            )
            &&& forall|j: int|
                hits.len() + over + up <= j < notices.len() ==> #[trigger] notices[j]
                    == Notice::Score(notes[j - (hits.len() + over + up)])
        }
    }

    /// One tick of `delta` microseconds. A level that is paused or over is
    /// left alone. Otherwise the clock moves on and the passes run in their
    /// order: steering, movement, reticle, firing, flight, trigger, aging,
    /// chain reaction, damage, removal, game-over check, spawner, score.
    /// Chance decides only what the buildings that were hit say and where
    /// near the blast, and the path of an enemy that is spawned.
    pub fn tick(&mut self, input: PlayerInput, delta: i64, paused: bool) -> (notices: Vec<Notice>)
        requires
            old(self).wf(),
            input.wf(),
            valid_delta(delta as int),
        ensures
            final(self).wf(),
            old(self).ticked(*final(self), notices@, input, delta as int, paused),
    {
        let mut notices: Vec<Notice> = Vec::new();
        if paused || self.game_over {
            return notices;
        }
        let now: i64 = advance_clock(self.elapsed, delta);
        self.elapsed = now;
        let steered = steer_entities(&self.entities, input);
        let moved = advance_entities(&steered, delta);
        let aimed = aim_entities(&moved, delta);
        let fired = fire_entities(&aimed, now);
        let flown = fly_entities(&fired, delta);
        let detonated = create_explosions(&flown);
        let aged = update_explosions(&detonated, delta);
        let chain = check_for_explosion_chain(&aged);
        let damage = check_for_explosion_damage(&chain.0, now);
        let mut entities: Vec<Entity> = update_building_sprite(&damage.0);
        ouch_notices(&damage.1, &mut notices);
        let over: bool = check_for_game_over(&entities);
        if over {
            notices.push(Notice::GameOver);
        }
        let living: usize = count_enemies(&entities);
        let decision: SpawnDecision = self.enemies.update(living, now, delta);
        match decision.level_up {
            Some(level) => {
                notices.push(Notice::Text(level_up_text(level)));
            },
            None => {},
        }
        match decision.spawn {
            Some(speed) => {
                let newcomer = enemy(speed);
                entities.push(newcomer);
            },
            None => {},
        }
        let ghost before_scores = notices@;
        let mut scores: Vec<NewScore> = Vec::new();
        score_chain(&mut self.score, chain.1, &mut scores);
        match self.score.update_combo_timer(delta) {
            Some(n) => {
                scores.push(n);
            },
            None => {},
        }
        let mut k: usize = 0;
        while k < scores.len()
            invariant
                k <= scores.len(),
                notices@.len() == before_scores.len() + k,
                forall|j: int| 0 <= j < before_scores.len() ==> notices@[j] == before_scores[j],
                forall|j: int|
                    before_scores.len() <= j < notices@.len() ==> #[trigger] notices@[j]
                        == Notice::Score(scores@[j - before_scores.len()]),
            decreases scores.len() - k,
        {
            notices.push(Notice::Score(scores[k]));
            k = k + 1;
        }
        self.entities = entities;
        self.game_over = over;
        proof {
            let dt = delta as int;
            let hits = old(self).hits(input, dt);
            assert(damage.1@ == hits);
            assert(scores@ == old(self).score_notes(input, dt));
            assert(before_scores.len() == hits.len() + one_if(over) + one_if(
                decision.level_up.is_some(),
            ));
            assert forall|i: int| 0 <= i < hits.len() implies is_ouch_notice(
                #[trigger] notices@[i],
                hits[i],
            ) by {
                assert(notices@[i] == before_scores[i]);
            }
            if over {
                assert(notices@[hits.len() as int] == before_scores[hits.len() as int]);
            }
            if decision.level_up.is_some() {
                let at = hits.len() + one_if(over);
                assert(notices@[at] == before_scores[at]);
            }
        }
        notices
    }
}

/// Whether one of `notices` is the request to end the game.
pub open spec fn asks_for_game_over(notices: Seq<Notice>) -> bool {
    exists|k: int| 0 <= k < notices.len() && #[trigger] notices[k] is GameOver
}

/// The request to end the game is made in the tick after which no building is
/// left, and in no tick before it: a tick of a level that does not rest makes
/// the request exactly if it leaves no building, and a level that rests makes
/// none.
pub proof fn lemma_game_over_is_requested_when_the_last_building_falls(
    before: Level,
    after: Level,
    notices: Seq<Notice>,
    input: PlayerInput,
    dt: int,
    paused: bool,
)
    requires
        before.ticked(after, notices, input, dt, paused),
    ensures
        asks_for_game_over(notices) <==> !before.rests(paused) && before.falls(input, dt),
        !before.rests(paused) ==> after.game_over == before.falls(input, dt),
{
    if !before.rests(paused) {
        let hits = before.hits(input, dt);
        let over = one_if(before.falls(input, dt));
        let up = one_if(before.spawning(input, dt).level_up.is_some());
        if before.falls(input, dt) {
            assert(notices[hits.len() as int] is GameOver);
        } else {
            assert forall|k: int| 0 <= k < notices.len() implies !(
            #[trigger] notices[k] is GameOver) by {
                if k < hits.len() {
                    assert(is_ouch_notice(notices[k], hits[k]));
                } else if k < hits.len() + up {
                    assert(is_level_notice(
                        notices[hits.len() + over],
                        before.spawning(input, dt).level_up.unwrap(),
                    ));
                } else {
                    assert(notices[k] == Notice::Score(
                        before.score_notes(input, dt)[k - (hits.len() + over + up)],
                    ));
                }
            }
        }
    }
}

/// A tick ends the game exactly when no building is left after it: as long as
/// one stands, the game goes on.
pub proof fn lemma_game_over_exactly_without_buildings(
    level: Level,
    input: PlayerInput,
    dt: int,
)
    ensures
        level.falls(input, dt) <==> forall|i: int|
            0 <= i < level.survivors(input, dt).len() ==> (#[trigger] level.survivors(
                input,
                dt,
            )[i]).building.is_none(),
{
    let s = level.survivors(input, dt);
    if building_count(s) == 0 {
        assert forall|i: int| 0 <= i < s.len() implies (#[trigger] s[i]).building.is_none() by {
            if s[i].building.is_some() {
                s.lemma_filter_contains(is_building(), i);
            }
        }
    } else {
        s.lemma_filter_pred(is_building(), 0);
        assert(s.filter(is_building()).contains(s.filter(is_building())[0]));
        s.lemma_filter_contains_rev(is_building(), s.filter(is_building())[0]);
    }
}

/// The entities that a new level starts with, with its buildings at
/// `positions`: the player's cannon, the reticle, and the buildings.
pub open spec fn level_start(positions: Seq<i64>) -> Seq<Entity> {
    seq![player_entity(PLAYER_SPEED), reticle_entity()] + buildings_at(positions)
}

/// Builds a new level: the player's cannon, the reticle, the buildings at
/// places left to chance, a fresh spawner and a fresh score. Fails when no
/// placement of the buildings is found.
pub fn spawn_level() -> (r: Result<Level, LevelError>)
    ensures
        match r {
            Ok(level) => {
                &&& level.wf()
                &&& level.elapsed == 0
                &&& !level.game_over
                &&& level.score.score == 0
                &&& level.score.combo == 1
                &&& level.enemies.level == 1
                &&& exists|positions: Seq<i64>|
                    {
                        &&& is_level_placement(Ok(positions))
                        &&& positions.len() == INITIAL_BUILDING_COUNT
                        &&& within_bounds(positions)
                        &&& well_separated(positions)
                        &&& level.entities@ == #[trigger] level_start(positions)
                    }
            },
            Err(e) => is_level_placement(Err(e)),
        },
        r matches Err(LevelError::BuildingPlacement { placed }) ==> placed
            < INITIAL_BUILDING_COUNT,
{
    let mut entities: Vec<Entity> = Vec::new();
    entities.push(player(PLAYER_SPEED));
    entities.push(reticle());
    let ghost start = entities@;
    match spawn_buildings(&mut entities) {
        Ok(()) => {
            proof {
                let positions = choose|positions: Seq<i64>|
                    {
                        &&& is_level_placement(Ok(positions))
                        &&& positions.len() == INITIAL_BUILDING_COUNT
                        &&& within_bounds(positions)
                        &&& well_separated(positions)
                        &&& entities@ == start + #[trigger] buildings_at(positions)
                    };
                assert(start =~= seq![player_entity(PLAYER_SPEED), reticle_entity()]);
                assert(entities@ == level_start(positions));
                assert forall|i: int| 0 <= i < entities@.len() implies (
                #[trigger] entities@[i]).wf() by {
                    if i >= 2 {
                        assert(entities@[i] == buildings_at(positions)[i - 2]);
                        assert(-crate::movement::MAX_X <= positions[i - 2]
                            <= crate::movement::MAX_X);
                    }
                }
            }
            Ok(
                Level {
                    entities,
                    elapsed: 0,
                    enemies: EnemyController::default(),
                    score: score_controller(),
                    game_over: false,
                },
            )
        },
        Err(e) => Err(e),
    }
}

} // verus!
