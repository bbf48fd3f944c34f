//! Buildings: where they stand, how blasts damage them, and when they fall.
use vstd::prelude::*;
use crate::units::valid_time;
use crate::math::{Vec2, closer_than, is_closer_than};
use crate::movement::MAX_X;
use crate::explosions::Explosion;
use crate::random::{random_between, random_index};

verus! {

/// No two buildings start closer together than this.
pub const MIN_BUILDING_SEPARATION: i64 = 100_000;

/// Buildings in a new level.
pub const INITIAL_BUILDING_COUNT: usize = 5;

/// Draws that the placement of a level's buildings may take.
pub const MAX_PLACEMENT_ATTEMPTS: usize = 10_000;

/// Health of a new building.
pub const INITIAL_BUILDING_HEALTH: i32 = 3;

/// The height at which buildings stand.
pub const BUILDING_Y: i64 = -160_000;

/// How far a building reaches from its position.
pub const BUILDING_RADIUS: i64 = 55_000;

/// How long a building is safe after it was damaged.
pub const TIME_BETWEEN_DAMAGE: i64 = 2_000_000;

/// A defensive structure: its health and when it was last damaged.
#[derive(Clone, Copy, Debug, PartialEq, Eq, Structural)]
pub struct Building {
    pub health: i32,
    pub last_damage_time: i64,
}

/// The picture that shows a building of the given health: the first while it
/// is whole, the second below 3, the third below 2.
pub open spec fn damage_tier(health: int) -> int {
    if health < 2 {
        2
    } else if health < 3 {
        1
    } else {
        0
    }
}

impl Building {
    /// The health is not negative, and the building was last damaged at some
    /// point on the clock.
    pub open spec fn wf(self) -> bool {
        self.health >= 0 && valid_time(self.last_damage_time as int)
    }

    /// Whether the building stands: it has health left.
    pub open spec fn standing(self) -> bool {
        self.health >= 1
    }

    /// Whether the building is safe from damage no longer at `elapsed`.
    pub open spec fn cooled_down(self, elapsed: int) -> bool {
        elapsed - self.last_damage_time > TIME_BETWEEN_DAMAGE
    }

    /// The building after a blast damaged it at `elapsed`.
    pub open spec fn damaged(self, elapsed: int) -> Building {
        Building { health: (self.health - 1) as i32, last_damage_time: elapsed as i64 }
    }

    /// Whether nothing is left of the building.
    pub open spec fn destroyed(self) -> bool {
        self.health <= 0
    }

    /// Takes one point of damage at `elapsed`. Only a building that stands
    /// can be damaged, so the health never falls below 0.
    pub fn take_damage(&mut self, elapsed: i64)
        requires
            old(self).wf(),
            old(self).standing(),
            valid_time(elapsed as int),
        ensures
            *final(self) == old(self).damaged(elapsed as int),
            final(self).wf(),
    {
        self.health = self.health - 1;
        self.last_damage_time = elapsed;
    }

    /// Decides whether the building can be damaged again at `elapsed`.
    pub fn is_cooled_down(&self, elapsed: i64) -> (r: bool)
        requires
            valid_time(self.last_damage_time as int),
            valid_time(elapsed as int),
        ensures
            r == self.cooled_down(elapsed as int),
    {
        elapsed - self.last_damage_time > TIME_BETWEEN_DAMAGE
    }

    /// Selects the picture that shows the building.
    pub fn sprite_index(&self) -> (i: usize)
        ensures
            i == damage_tier(self.health as int),
    {
        if self.health < 2 {
            2
        } else if self.health < 3 {
            1
        } else {
            0
        }
    }

    /// Decides whether nothing is left of the building.
    pub fn is_destroyed(&self) -> (r: bool)
        ensures
            r == self.destroyed(),
    {
        self.health <= 0
    }
}

/// Whether a blast damages a building at `position`: the distance between
/// them, less the building's own radius, is smaller than the blast's radius.
pub open spec fn blast_hits(e: Explosion, position: Vec2) -> bool {
    closer_than(e.center, position, e.radius + BUILDING_RADIUS)
}

/// Decides whether a blast damages a building at `position`.
pub fn is_blast_hitting(e: &Explosion, position: Vec2) -> (r: bool)
    requires
        e.wf(),
        position.in_world(),
    ensures
        r == blast_hits(*e, position),
{
    is_closer_than(e.center, position, e.radius + BUILDING_RADIUS)
}

/// A building that was damaged is safe until more than the cooldown has
/// passed: a second blast within that time does not damage it again.
pub proof fn lemma_damage_starts_cooldown(b: Building, first: int, second: int)
    requires
        b.wf(),
        b.standing(),
        valid_time(first),
        first <= second <= first + TIME_BETWEEN_DAMAGE,
    ensures
        !b.damaged(first).cooled_down(second),
{
}

/// Whether the distance between two places on the ground is at least
/// `separation`.
pub open spec fn apart(a: int, b: int, separation: int) -> bool {
    a - b >= separation || b - a >= separation
}

/// Whether `candidate` keeps `separation` from every one of `positions`.
pub open spec fn fits(positions: Seq<i64>, candidate: int, separation: int) -> bool {
    forall|i: int|
        0 <= i < positions.len() ==> apart(#[trigger] positions[i] as int, candidate, separation)
}

/// Whether any two of `positions` keep `separation`.
pub open spec fn separated_by(positions: Seq<i64>, separation: int) -> bool {
    forall|i: int, j: int|
        0 <= i < j < positions.len() ==> apart(
            #[trigger] positions[i] as int,
            #[trigger] positions[j] as int,
            separation,
        )
}

/// Whether any two of `positions` keep the separation that buildings need.
pub open spec fn well_separated(positions: Seq<i64>) -> bool {
    separated_by(positions, MIN_BUILDING_SEPARATION as int)
}

/// Whether every one of `positions` lies between the horizontal bounds.
pub open spec fn within_bounds(positions: Seq<i64>) -> bool {
    forall|i: int| 0 <= i < positions.len() ==> -MAX_X <= #[trigger] positions[i] <= MAX_X
}

/// Decides whether `candidate` keeps `separation` from every one of
/// `positions`.
pub fn candidate_fits(positions: &Vec<i64>, candidate: i64, separation: i64) -> (r: bool)
    requires
        within_bounds(positions@),
        -MAX_X <= candidate <= MAX_X,
    ensures
        r == fits(positions@, candidate as int, separation as int),
{
    let mut i: usize = 0;
    while i < positions.len()
        invariant
            i <= positions.len(),
            within_bounds(positions@),
            -MAX_X <= candidate <= MAX_X,
            forall|k: int|
                0 <= k < i ==> apart(
                    #[trigger] positions[k] as int,
                    candidate as int,
                    separation as int,
                ),
        decreases positions.len() - i,
    {
        let p: i64 = positions[i];
        if !(p - candidate >= separation || candidate - p >= separation) {
            return false;
        }
        i = i + 1;
    }
    true
}

/// One attempt of the placement: takes `candidate` if it keeps `separation`
/// from what was placed before, and says whether it did.
pub fn place_candidate(positions: &mut Vec<i64>, candidate: i64, separation: i64) -> (placed:
    bool)
    requires
        within_bounds(old(positions)@),
        separated_by(old(positions)@, separation as int),
        -MAX_X <= candidate <= MAX_X,
    ensures
        placed == fits(old(positions)@, candidate as int, separation as int),
        placed ==> final(positions)@ == old(positions)@.push(candidate),
        !placed ==> final(positions)@ == old(positions)@,
        within_bounds(final(positions)@),
        separated_by(final(positions)@, separation as int),
{
    if candidate_fits(positions, candidate, separation) {
        positions.push(candidate);
        true
    } else {
        false
    }
}

/// Why a level could not be built.
#[derive(Clone, Copy, Debug, PartialEq, Eq, Structural)]
pub enum LevelError {
    /// The draws ran out before all buildings had a place; `placed` of them
    /// had one.
    BuildingPlacement { placed: usize },
}

/// The places that a placement keeps of `draws`: it takes the draws in their
/// order, keeps each one that keeps `separation` from all that it kept
/// before, and keeps no more once it has `count`.
pub open spec fn placed_from(draws: Seq<i64>, count: nat, separation: int) -> Seq<i64>
    decreases draws.len(),
{
    if draws.len() == 0 {
        Seq::empty()
    } else {
        let before = placed_from(draws.drop_last(), count, separation);
        if before.len() < count && fits(before, draws.last() as int, separation) {
            before.push(draws.last())
        } else {
            before
        }
    }
}

/// What a placement makes of `draws`: the places that it keeps, if they are
/// `count`, else the error that says how many it kept.
pub open spec fn placement_of(draws: Seq<i64>, count: nat, separation: int) -> Result<
    Seq<i64>,
    LevelError,
> {
    let placed = placed_from(draws, count, separation);
    if placed.len() == count {
        Ok(placed)
    } else {
        Err(LevelError::BuildingPlacement { placed: placed.len() as usize })
    }
}

/// Whether a placement with a budget of `max_attempts` draws that drew
/// `draws`, and no more, ended in `outcome`: the draws lie between the
/// horizontal bounds; the placement drew as long as places were missing and
/// the budget lasted; and the outcome is what it makes of the draws.
pub open spec fn placement_ran(
    draws: Seq<i64>,
    outcome: Result<Seq<i64>, LevelError>,
    count: nat,
    separation: int,
    max_attempts: nat,
) -> bool {
    &&& draws.len() <= max_attempts
    &&& within_bounds(draws)
    &&& draws.len() > 0 ==> placed_from(draws.drop_last(), count, separation).len() < count
    &&& placed_from(draws, count, separation).len() == count || draws.len() == max_attempts
    &&& outcome == placement_of(draws, count, separation)
}

/// The outcome of a placement, with the places as a sequence.
pub open spec fn outcome_of(r: Result<Vec<i64>, LevelError>) -> Result<Seq<i64>, LevelError> {
    match r {
        Ok(positions) => Ok(positions@),
        Err(e) => Err(e),
    }
}

/// What a placement keeps lies between the bounds, keeps the separation, and
/// is never more than asked for nor more than was drawn.
pub proof fn lemma_placed_from(draws: Seq<i64>, count: nat, separation: int)
    requires
        within_bounds(draws),
    ensures
        within_bounds(placed_from(draws, count, separation)),
        separated_by(placed_from(draws, count, separation), separation),
        placed_from(draws, count, separation).len() <= count,
        placed_from(draws, count, separation).len() <= draws.len(),
    decreases draws.len(),
{
    if draws.len() > 0 {
        lemma_placed_from(draws.drop_last(), count, separation);
    }
}

/// The placement, for given draws: takes the draws in their order, keeps each
/// one that keeps `separation` from all that it kept before, until it has
/// `count`; fails when the draws end before that.
pub fn positions_from_draws(draws: &Vec<i64>, count: usize, separation: i64) -> (r: Result<
    Vec<i64>,
    LevelError,
>)
    requires
        within_bounds(draws@),
    ensures
        outcome_of(r) == placement_of(draws@, count as nat, separation as int),
{
    let mut positions: Vec<i64> = Vec::new();
    let mut i: usize = 0;
    assert(draws@.take(0) =~= Seq::<i64>::empty());
    while i < draws.len()
        invariant
            i <= draws.len(),
            within_bounds(draws@),
            positions@ == placed_from(draws@.take(i as int), count as nat, separation as int),
            positions.len() <= count,
            within_bounds(positions@),
            separated_by(positions@, separation as int),
        decreases draws.len() - i,
    {
        proof {
            assert(draws@.take(i + 1).drop_last() =~= draws@.take(i as int));
            assert(draws@.take(i + 1).last() == draws[i as int]);
        }
        if positions.len() < count {
            place_candidate(&mut positions, draws[i], separation);
        }
        i = i + 1;
    }
    assert(draws@.take(draws.len() as int) =~= draws@);
    if positions.len() < count {
        Err(LevelError::BuildingPlacement { placed: positions.len() })
    } else {
        Ok(positions)
    }
}

/// Places `count` things between the horizontal bounds, any two at least
/// `separation` apart, by drawing candidates and keeping those that fit, with
/// at most `max_attempts` draws. It draws no more once all have a place, and
/// fails when the draws run out first: the outcome is that of the placement
/// for the draws that were made.
pub fn generate_positions_with(count: usize, separation: i64, max_attempts: usize) -> (r: Result<
    Vec<i64>,
    LevelError,
>)
    ensures
        exists|draws: Seq<i64>| #[trigger]
            placement_ran(
                draws,
                outcome_of(r),
                count as nat,
                separation as int,
                max_attempts as nat,
            ),
        match r {
            Ok(positions) => {
                &&& positions.len() == count
                &&& within_bounds(positions@)
                &&& separated_by(positions@, separation as int)
            },
            Err(LevelError::BuildingPlacement { placed }) => placed < count && placed
                <= max_attempts,
        },
        count == 0 ==> r.is_ok(),
        max_attempts < count ==> r.is_err(),
{
    let mut positions: Vec<i64> = Vec::new();
    let mut attempt: usize = 0;
    let ghost mut draws: Seq<i64> = Seq::empty();
    while attempt < max_attempts && positions.len() < count
        invariant
            attempt <= max_attempts,
            draws.len() == attempt,
            within_bounds(draws),
            draws.len() > 0 ==> placed_from(
                draws.drop_last(),
                count as nat,
                separation as int,
            ).len() < count,
            positions@ == placed_from(draws, count as nat, separation as int),
            positions.len() <= count,
            positions.len() <= attempt,
            within_bounds(positions@),
            separated_by(positions@, separation as int),
        decreases max_attempts - attempt,
    {
        let candidate: i64 = random_between(-MAX_X, MAX_X);
        proof {
            assert(draws.push(candidate).drop_last() =~= draws);
            draws = draws.push(candidate);
        }
        place_candidate(&mut positions, candidate, separation);
        attempt = attempt + 1;
    }
    let r = if positions.len() < count {
        Err(LevelError::BuildingPlacement { placed: positions.len() })
    } else {
        Ok(positions)
    };
    assert(placement_ran(
        draws,
        outcome_of(r),
        count as nat,
        separation as int,
        max_attempts as nat,
    ));
    r
}

/// Whether `outcome` is that of placing the buildings of a new level with
/// some draws within the budget.
pub open spec fn is_level_placement(outcome: Result<Seq<i64>, LevelError>) -> bool {
    exists|draws: Seq<i64>| #[trigger]
        placement_ran(
            draws,
            outcome,
            INITIAL_BUILDING_COUNT as nat,
            MIN_BUILDING_SEPARATION as int,
            MAX_PLACEMENT_ATTEMPTS as nat,
        )
}

/// Places the buildings of a new level. Where they stand is left to chance;
/// when the draws run out before all have a place, the level cannot be built.
pub fn generate_positions() -> (r: Result<Vec<i64>, LevelError>)
    ensures
        is_level_placement(outcome_of(r)),
        match r {
            Ok(positions) => {
                &&& positions.len() == INITIAL_BUILDING_COUNT
                &&& within_bounds(positions@)
                &&& well_separated(positions@)
            },
            Err(LevelError::BuildingPlacement { placed }) => placed < INITIAL_BUILDING_COUNT,
        },
{
    generate_positions_with(
        INITIAL_BUILDING_COUNT,
        MIN_BUILDING_SEPARATION,
        MAX_PLACEMENT_ATTEMPTS,
    )
}

/// The words of a building that was hit.
pub open spec fn ouch_text(i: int) -> Seq<char> {
    if i == 0 {
        "ouch"@
    } else if i == 1 {
        "ouchie"@
    } else if i == 2 {
        "ciao papi"@
    } else if i == 3 {
        "they got me"@
    } else if i == 4 {
        "help me"@
    } else if i == 5 {
        "why father"@
    } else if i == 6 {
        "not like this"@
    } else {
        "oww"@
    }
}

/// How many different things a building can say.
pub const OUCH_COUNT: usize = 8;

/// What a building says for the draw `seed`.
pub fn ouch_string(seed: usize) -> (s: String)
    ensures
        s@ == ouch_text((seed % OUCH_COUNT) as int),
{
    let i: usize = seed % OUCH_COUNT;
    if i == 0 {
        "ouch".to_owned()
    } else if i == 1 {
        "ouchie".to_owned()
    } else if i == 2 {
        "ciao papi".to_owned()
    } else if i == 3 {
        "they got me".to_owned()
    } else if i == 4 {
        "help me".to_owned()
    } else if i == 5 {
        "why father".to_owned()
    } else if i == 6 {
        "not like this".to_owned()
    } else {
        "oww".to_owned()
    }
}

/// Picks at random what a building says when it is hit.
pub fn pick_random_ouch_string() -> (s: String)
    ensures
        exists|i: int| 0 <= i < OUCH_COUNT && s@ == #[trigger] ouch_text(i),
{
    let seed: usize = random_index();
    let s = ouch_string(seed);
    assert(s@ == ouch_text((seed % OUCH_COUNT) as int));
    s
}

/// A new building above the ground at `x`, as an entity.
pub fn building(x: i64) -> (e: crate::entity::Entity)
    ensures
        e == crate::entity::building_entity(x),
{
    let mut e = crate::entity::bare_entity(
        crate::entity::Tag::Building,
        Vec2 { x: x, y: BUILDING_Y },
        2000,
    );
    e.building = Some(Building { health: INITIAL_BUILDING_HEALTH, last_damage_time: 0 });
    e
}

/// The buildings of a new level, in the order of `positions`.
pub open spec fn buildings_at(positions: Seq<i64>) -> Seq<crate::entity::Entity> {
    Seq::new(positions.len(), |i: int| crate::entity::building_entity(positions[i]))
}

/// Places the buildings of a new level and adds them to `entities`, in the
/// order in which they found their place. Where they stand is left to
/// chance; when the draws run out first, nothing is added.
pub fn spawn_buildings(entities: &mut Vec<crate::entity::Entity>) -> (r: Result<(), LevelError>)
    ensures
        r.is_ok() ==> exists|positions: Seq<i64>|
            {
                &&& is_level_placement(Ok(positions))
                &&& positions.len() == INITIAL_BUILDING_COUNT
                &&& within_bounds(positions)
                &&& well_separated(positions)
                &&& final(entities)@ == old(entities)@ + #[trigger] buildings_at(positions)
            },
        r matches Err(e) ==> is_level_placement(Err(e)) && final(entities)@ == old(entities)@,
        r matches Err(LevelError::BuildingPlacement { placed }) ==> placed
            < INITIAL_BUILDING_COUNT,
{
    match generate_positions() {
        Ok(positions) => {
            let mut i: usize = 0;
            while i < positions.len()
                invariant
                    i <= positions.len(),
                    entities@ == old(entities)@ + buildings_at(positions@.take(i as int)),
                decreases positions.len() - i,
            {
                entities.push(building(positions[i]));
                assert(entities@ =~= old(entities)@ + buildings_at(positions@.take(i + 1)));
                i = i + 1;
            }
            assert(positions@.take(positions.len() as int) =~= positions@);
            Ok(())
        },
        Err(e) => Err(e),
    }
}

} // verus!
