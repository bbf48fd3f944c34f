//! The passes of one tick, each over all entities.
use vstd::prelude::*;
use crate::units::{valid_time, valid_delta, valid_radius, COORD_MAX};
use crate::math::{Vec2, travel};
use crate::shooting::ShootingController;
use crate::entity::{Entity, PlayerInput};
use crate::buildings::{Building, blast_hits, is_blast_hitting, TIME_BETWEEN_DAMAGE};

verus! {

/// Whether every one of `s` is well formed.
pub open spec fn all_wf(s: Seq<Entity>) -> bool {
    forall|i: int| 0 <= i < s.len() ==> (#[trigger] s[i]).wf()
}

/// All entities after the steering of one tick.
pub open spec fn steer_all(s: Seq<Entity>, input: PlayerInput) -> Seq<Entity> {
    Seq::new(s.len(), |i: int| s[i].steered(input))
}

/// All entities after the movement engine's step.
pub open spec fn advance_all(s: Seq<Entity>, dt: int) -> Seq<Entity> {
    Seq::new(s.len(), |i: int| s[i].advanced(dt))
}

/// The first entity that can fire: where it is, and its shooting controller.
pub open spec fn first_firer(s: Seq<Entity>) -> Option<(Vec2, ShootingController)>
    decreases s.len(),
{
    if s.len() == 0 {
        None
    } else if s[0].shooting.is_some() {
        Some((s[0].position, s[0].shooting.unwrap()))
    } else {
        first_firer(s.skip(1))
    }
}

/// All entities after the reticles followed the first firer's aim.
pub open spec fn aim_all(s: Seq<Entity>, dt: int) -> Seq<Entity> {
    Seq::new(s.len(), |i: int| s[i].aimed(first_firer(s), dt))
}

/// All entities after the flight of the shots.
pub open spec fn fly_all(s: Seq<Entity>, dt: int) -> Seq<Entity> {
    Seq::new(s.len(), |i: int| s[i].flown(dt))
}

/// All entities after the trigger pass.
pub open spec fn detonate_all(s: Seq<Entity>) -> Seq<Entity> {
    Seq::new(s.len(), |i: int| s[i].detonated())
}

/// The steering pass: the player's input reaches the player, and every enemy
/// steers itself.
pub fn steer_entities(entities: &Vec<Entity>, input: PlayerInput) -> (out: Vec<Entity>)
    requires
        all_wf(entities@),
        input.wf(),
    ensures
        out@ == steer_all(entities@, input),
        all_wf(out@),
{
    let mut out: Vec<Entity> = Vec::new();
    let mut i: usize = 0;
    while i < entities.len()
        invariant
            i <= entities.len(),
            all_wf(entities@),
            input.wf(),
            out.len() == i,
            forall|j: int| 0 <= j < i ==> out[j] == (#[trigger] entities[j]).steered(input),
            all_wf(out@),
        decreases entities.len() - i,
    {
        out.push(entities[i].steer(input));
        i = i + 1;
    }
    assert(out@ =~= steer_all(entities@, input));
    out
}

/// The movement pass: every entity with an intent follows it for `dt`
/// microseconds.
pub fn advance_entities(entities: &Vec<Entity>, dt: i64) -> (out: Vec<Entity>)
    requires
        all_wf(entities@),
        valid_delta(dt as int),
    ensures
        out@ == advance_all(entities@, dt as int),
        all_wf(out@),
{
    let mut out: Vec<Entity> = Vec::new();
    let mut i: usize = 0;
    while i < entities.len()
        invariant
            i <= entities.len(),
            all_wf(entities@),
            valid_delta(dt as int),
            out.len() == i,
            forall|j: int| 0 <= j < i ==> out[j] == (#[trigger] entities[j]).advanced(dt as int),
            all_wf(out@),
        decreases entities.len() - i,
    {
        out.push(entities[i].advance(dt));
        i = i + 1;
    }
    assert(out@ =~= advance_all(entities@, dt as int));
    out
}

/// Finds the first entity that can fire.
pub fn find_first_firer(entities: &Vec<Entity>) -> (r: Option<(Vec2, ShootingController)>)
    requires
        all_wf(entities@),
    ensures
        r == first_firer(entities@),
        r.is_some() ==> r.unwrap().0.in_world() && r.unwrap().1.wf(),
{
    let mut i: usize = 0;
    assert(entities@.skip(0) =~= entities@);
    while i < entities.len()
        invariant
            i <= entities.len(),
            all_wf(entities@),
            first_firer(entities@) == first_firer(entities@.skip(i as int)),
        decreases entities.len() - i,
    {
        let e: Entity = entities[i];
        assert(entities@.skip(i as int)[0] == e);
        assert(entities@.skip(i as int).skip(1) =~= entities@.skip(i + 1));
        match e.shooting {
            Some(s) => {
                return Some((e.position, s));
            },
            None => {},
        }
        i = i + 1;
    }
    None
}

/// The reticle pass: every reticle takes over where the first firer aims and
/// moves towards it.
pub fn aim_entities(entities: &Vec<Entity>, dt: i64) -> (out: Vec<Entity>)
    requires
        all_wf(entities@),
        valid_delta(dt as int),
    ensures
        out@ == aim_all(entities@, dt as int),
        all_wf(out@),
{
    let firer = find_first_firer(entities);
    let mut out: Vec<Entity> = Vec::new();
    let mut i: usize = 0;
    while i < entities.len()
        invariant
            i <= entities.len(),
            all_wf(entities@),
            valid_delta(dt as int),
            firer == first_firer(entities@),
            firer.is_some() ==> firer.unwrap().0.in_world() && firer.unwrap().1.wf(),
            out.len() == i,
            forall|j: int|
                0 <= j < i ==> out[j] == (#[trigger] entities[j]).aimed(firer, dt as int),
            all_wf(out@),
        decreases entities.len() - i,
    {
        out.push(entities[i].aim(firer, dt));
        i = i + 1;
    }
    assert(out@ =~= aim_all(entities@, dt as int));
    out
}

/// The flight pass: every shot under way flies on or arrives.
pub fn fly_entities(entities: &Vec<Entity>, dt: i64) -> (out: Vec<Entity>)
    requires
        all_wf(entities@),
        valid_delta(dt as int),
    ensures
        out@ == fly_all(entities@, dt as int),
        all_wf(out@),
{
    let mut out: Vec<Entity> = Vec::new();
    let mut i: usize = 0;
    while i < entities.len()
        invariant
            i <= entities.len(),
            all_wf(entities@),
            valid_delta(dt as int),
            out.len() == i,
            forall|j: int| 0 <= j < i ==> out[j] == (#[trigger] entities[j]).flown(dt as int),
            all_wf(out@),
        decreases entities.len() - i,
    {
        out.push(entities[i].fly(dt));
        i = i + 1;
    }
    assert(out@ =~= fly_all(entities@, dt as int));
    out
}

/// The trigger pass: every shot that has arrived and every hazard that is
/// about to detonate gives way to its blast.
pub fn create_explosions(entities: &Vec<Entity>) -> (out: Vec<Entity>)
    requires
        all_wf(entities@),
    ensures
        out@ == detonate_all(entities@),
        all_wf(out@),
{
    let mut out: Vec<Entity> = Vec::new();
    let mut i: usize = 0;
    while i < entities.len()
        invariant
            i <= entities.len(),
            all_wf(entities@),
            out.len() == i,
            forall|j: int| 0 <= j < i ==> out[j] == (#[trigger] entities[j]).detonated(),
            all_wf(out@),
        decreases entities.len() - i,
    {
        out.push(entities[i].detonate());
        i = i + 1;
    }
    assert(out@ =~= detonate_all(entities@));
    out
}

/// The shots that leave the entities of `s` at `elapsed`, in the order of
/// their firers.
pub open spec fn new_shots(s: Seq<Entity>, elapsed: int) -> Seq<Entity>
    decreases s.len(),
{
    if s.len() == 0 {
        Seq::empty()
    } else if s.last().fires(elapsed) {
        new_shots(s.drop_last(), elapsed).push(s.last().fired_shot())
    } else {
        new_shots(s.drop_last(), elapsed)
    }
}

/// All entities after the firing check at `elapsed`, with the shots that left
/// behind them.
pub open spec fn fire_all(s: Seq<Entity>, elapsed: int) -> Seq<Entity> {
    Seq::new(s.len(), |i: int| s[i].after_firing(elapsed)) + new_shots(s, elapsed)
}

/// The firing pass: every entity that can fire makes its firing check, and
/// the shots that leave join the entities.
pub fn fire_entities(entities: &Vec<Entity>, elapsed: i64) -> (out: Vec<Entity>)
    requires
        all_wf(entities@),
        valid_time(elapsed as int),
    ensures
        out@ == fire_all(entities@, elapsed as int),
        all_wf(out@),
{
    let mut out: Vec<Entity> = Vec::new();
    let mut shots: Vec<Entity> = Vec::new();
    let mut i: usize = 0;
    assert(entities@.take(0) =~= Seq::<Entity>::empty());
    while i < entities.len()
        invariant
            i <= entities.len(),
            all_wf(entities@),
            valid_time(elapsed as int),
            out.len() == i,
            forall|j: int|
                0 <= j < i ==> out[j] == (#[trigger] entities[j]).after_firing(elapsed as int),
            all_wf(out@),
            shots@ == new_shots(entities@.take(i as int), elapsed as int),
            all_wf(shots@),
        decreases entities.len() - i,
    {
        let r = entities[i].fire(elapsed);
        proof {
            assert(entities@.take(i + 1).drop_last() =~= entities@.take(i as int));
            assert(entities@.take(i + 1).last() == entities[i as int]);
        }
        out.push(r.0);
        match r.1 {
            Some(new_shot) => {
                shots.push(new_shot);
            },
            None => {},
        }
        i = i + 1;
    }
    assert(entities@.take(entities.len() as int) =~= entities@);
    let ghost mapped = out@;
    let mut k: usize = 0;
    while k < shots.len()
        invariant
            k <= shots.len(),
            out@ == mapped + shots@.take(k as int),
            all_wf(out@),
            all_wf(shots@),
        decreases shots.len() - k,
    {
        out.push(shots[k]);
        assert(out@ =~= mapped + shots@.take(k + 1));
        k = k + 1;
    }
    assert(shots@.take(shots.len() as int) =~= shots@);
    assert(out@ =~= fire_all(entities@, elapsed as int));
    out
}

/// The predicate of the entities that the aging pass keeps.
pub open spec fn outlasts(dt: int) -> spec_fn(Entity) -> bool {
    |e: Entity| !e.burns_out(dt)
}

/// All entities after the aging pass: the blasts whose life ran out are gone,
/// the others are older.
pub open spec fn age_all(s: Seq<Entity>, dt: int) -> Seq<Entity> {
    s.filter(outlasts(dt)).map_values(|e: Entity| e.aged(dt))
}

/// The aging pass: every blast ages by `dt` microseconds; one whose life runs
/// out leaves in this pass, the others show the frame of their age.
pub fn update_explosions(entities: &Vec<Entity>, dt: i64) -> (out: Vec<Entity>)
    requires
        all_wf(entities@),
        valid_delta(dt as int),
    ensures
        out@ == age_all(entities@, dt as int),
        all_wf(out@),
{
    let mut out: Vec<Entity> = Vec::new();
    let mut i: usize = 0;
    proof {
        reveal(Seq::filter);
        assert(entities@.take(0) =~= Seq::<Entity>::empty());
        assert(out@ =~= age_all(entities@.take(0), dt as int));
    }
    while i < entities.len()
        invariant
            i <= entities.len(),
            all_wf(entities@),
            valid_delta(dt as int),
            out@ == age_all(entities@.take(i as int), dt as int),
            all_wf(out@),
        decreases entities.len() - i,
    {
        let aged: Option<Entity> = entities[i].age(dt);
        proof {
            reveal(Seq::filter);
            let before = entities@.take(i as int);
            let now = entities@.take(i + 1);
            assert(now.drop_last() =~= before);
            assert(now.last() == entities[i as int]);
            if aged.is_some() {
                assert(now.filter(outlasts(dt as int)) == before.filter(outlasts(dt as int)).push(
                    entities[i as int],
                ));
                assert(age_all(now, dt as int) =~= age_all(before, dt as int).push(
                    entities[i as int].aged(dt as int),
                ));
            } else {
                assert(now.filter(outlasts(dt as int)) == before.filter(outlasts(dt as int)));
            }
        }
        match aged {
            Some(e) => {
                out.push(e);
            },
            None => {},
        }
        i = i + 1;
    }
    assert(entities@.take(entities.len() as int) =~= entities@);
    out
}

/// Whether any blast among `all` sets off a hazard at `position` with a
/// hitbox of `hitbox_radius`.
pub open spec fn any_blast_reaches(all: Seq<Entity>, position: Vec2, hitbox_radius: int) -> bool {
    exists|j: int|
        0 <= j < all.len() && (#[trigger] all[j]).explosion.is_some()
            && all[j].explosion.unwrap().reaches(position, hitbox_radius)
}

/// Decides whether any blast among `all` sets off a hazard at `position`.
pub fn is_any_blast_reaching(all: &Vec<Entity>, position: Vec2, hitbox_radius: i64) -> (r: bool)
    requires
        all_wf(all@),
        position.in_world(),
        valid_radius(hitbox_radius as int),
    ensures
        r == any_blast_reaches(all@, position, hitbox_radius as int),
{
    let mut j: usize = 0;
    while j < all.len()
        invariant
            j <= all.len(),
            all_wf(all@),
            position.in_world(),
            valid_radius(hitbox_radius as int),
            forall|k: int|
                0 <= k < j ==> !((#[trigger] all[k]).explosion.is_some()
                    && all[k].explosion.unwrap().reaches(position, hitbox_radius as int)),
        decreases all.len() - j,
    {
        match all[j].explosion {
            Some(blast) => {
                if blast.is_reaching(position, hitbox_radius) {
                    return true;
                }
            },
            None => {},
        }
        j = j + 1;
    }
    false
}

impl Entity {
    /// Whether the chain-reaction pass sets this entity off: it is a quiet
    /// hazard, and a blast among `all` reaches it.
    pub open spec fn is_set_off(self, all: Seq<Entity>) -> bool {
        self.is_quiet_hazard() && any_blast_reaches(
            all,
            self.position,
            self.hazard.unwrap().hitbox_radius as int,
        )
    }

    /// The entity after the chain-reaction pass.
    pub open spec fn chained(self, all: Seq<Entity>) -> Entity {
        if self.is_set_off(all) {
            self.triggered()
        } else {
            self
        }
    }
}

/// The predicate of the entities that the chain-reaction pass sets off.
pub open spec fn set_off_by(all: Seq<Entity>) -> spec_fn(Entity) -> bool {
    |e: Entity| e.is_set_off(all)
}

/// All entities after the chain-reaction pass.
pub open spec fn chain_all(s: Seq<Entity>) -> Seq<Entity> {
    Seq::new(s.len(), |i: int| s[i].chained(s))
}

/// How many entities the chain-reaction pass sets off: one scoring event
/// each.
pub open spec fn chain_count(s: Seq<Entity>) -> nat {
    s.filter(set_off_by(s)).len()
}

/// The chain-reaction pass: every quiet hazard that a live blast reaches is
/// set off, to detonate in the next tick's trigger pass. Returns the entities
/// afterwards and the number of hazards set off.
pub fn check_for_explosion_chain(entities: &Vec<Entity>) -> (r: (Vec<Entity>, usize))
    requires
        all_wf(entities@),
    ensures
        r.0@ == chain_all(entities@),
        r.1 == chain_count(entities@),
        all_wf(r.0@),
{
    let mut out: Vec<Entity> = Vec::new();
    let mut count: usize = 0;
    let mut i: usize = 0;
    proof {
        reveal(Seq::filter);
        assert(entities@.take(0) =~= Seq::<Entity>::empty());
    }
    while i < entities.len()
        invariant
            i <= entities.len(),
            all_wf(entities@),
            out.len() == i,
            forall|j: int| 0 <= j < i ==> out[j] == (#[trigger] entities[j]).chained(entities@),
            all_wf(out@),
            count == entities@.take(i as int).filter(set_off_by(entities@)).len(),
            count <= i,
        decreases entities.len() - i,
    {
        let e: Entity = entities[i];
        proof {
            reveal(Seq::filter);
            assert(entities@.take(i + 1).drop_last() =~= entities@.take(i as int));
            assert(entities@.take(i + 1).last() == e);
        }
        let mut next: Entity = e;
        match e.hazard {
            Some(h) => {
                if !h.should_explode && is_any_blast_reaching(
                    entities,
                    e.position,
                    h.hitbox_radius,
                ) {
                    next = e.trigger();
                    count = count + 1;
                }
            },
            None => {},
        }
        out.push(next);
        i = i + 1;
    }
    assert(entities@.take(entities.len() as int) =~= entities@);
    assert(out@ =~= chain_all(entities@));
    (out, count)
}

/// The centre of the first blast among `all` that damages a building at
/// `position`.
pub open spec fn first_blast_hitting(all: Seq<Entity>, position: Vec2) -> Option<Vec2>
    decreases all.len(),
{
    if all.len() == 0 {
        None
    } else if all[0].explosion.is_some() && blast_hits(all[0].explosion.unwrap(), position) {
        Some(all[0].explosion.unwrap().center)
    } else {
        first_blast_hitting(all.skip(1), position)
    }
}

/// A building is in the way of some blast exactly when some blast among
/// `all` damages a building at its place.
pub proof fn lemma_first_blast_hitting(all: Seq<Entity>, position: Vec2)
    ensures
        first_blast_hitting(all, position).is_some() <==> exists|j: int|
            0 <= j < all.len() && (#[trigger] all[j]).explosion.is_some() && blast_hits(
                all[j].explosion.unwrap(),
                position,
            ),
    decreases all.len(),
{
    if all.len() == 0 {
    } else if all[0].explosion.is_some() && blast_hits(all[0].explosion.unwrap(), position) {
    } else {
        let rest = all.skip(1);
        lemma_first_blast_hitting(rest, position);
        if first_blast_hitting(rest, position).is_some() {
            let j = choose|j: int|
                0 <= j < rest.len() && (#[trigger] rest[j]).explosion.is_some() && blast_hits(
                    rest[j].explosion.unwrap(),
                    position,
                );
            assert(all[j + 1] == rest[j]);
        } else {
            assert forall|j: int| 0 <= j < all.len() implies !((
            #[trigger] all[j]).explosion.is_some() && blast_hits(
                all[j].explosion.unwrap(),
                position,
            )) by {
                if j > 0 {
                    assert(rest[j - 1] == all[j]);
                }
            }
        }
    }
}

/// Finds the centre of the first blast among `all` that damages a building
/// at `position`.
pub fn find_first_blast_hitting(all: &Vec<Entity>, position: Vec2) -> (r: Option<Vec2>)
    requires
        all_wf(all@),
        position.in_world(),
    ensures
        r == first_blast_hitting(all@, position),
        r.is_some() ==> r.unwrap().in_world(),
{
    let mut j: usize = 0;
    assert(all@.skip(0) =~= all@);
    while j < all.len()
        invariant
            j <= all.len(),
            all_wf(all@),
            position.in_world(),
            first_blast_hitting(all@, position) == first_blast_hitting(
                all@.skip(j as int),
                position,
            ),
        decreases all.len() - j,
    {
        let e: Entity = all[j];
        assert(all@.skip(j as int)[0] == e);
        assert(all@.skip(j as int).skip(1) =~= all@.skip(j + 1));
        match e.explosion {
            Some(blast) => {
                if is_blast_hitting(&blast, position) {
                    return Some(blast.center);
                }
            },
            None => {},
        }
        j = j + 1;
    }
    None
}

impl Entity {
    /// Whether the damage pass at `elapsed` damages this entity: it is a
    /// building that stands and is safe no longer, in the way of a blast
    /// among `all`.
    pub open spec fn is_hit(self, all: Seq<Entity>, elapsed: int) -> bool {
        &&& self.building.is_some()
        &&& self.building.unwrap().standing()
        &&& self.building.unwrap().cooled_down(elapsed)
        &&& first_blast_hitting(all, self.position).is_some()
    }

    /// The entity after the damage pass.
    pub open spec fn struck(self, all: Seq<Entity>, elapsed: int) -> Entity {
        if self.is_hit(all, elapsed) {
            self.damaged(elapsed)
        } else {
            self
        }
    }
}

/// All entities after the damage pass at `elapsed`.
pub open spec fn damage_all(s: Seq<Entity>, elapsed: int) -> Seq<Entity> {
    Seq::new(s.len(), |i: int| s[i].struck(s, elapsed))
}

/// Where the buildings among `part` are hit at `elapsed`: for each that is
/// damaged, in order, the centre of the first blast among `all` in whose way
/// it is.
pub open spec fn impacts_among(part: Seq<Entity>, all: Seq<Entity>, elapsed: int) -> Seq<Vec2>
    decreases part.len(),
{
    if part.len() == 0 {
        Seq::empty()
    } else if part.last().is_hit(all, elapsed) {
        impacts_among(part.drop_last(), all, elapsed).push(
            first_blast_hitting(all, part.last().position).unwrap(),
        )
    } else {
        impacts_among(part.drop_last(), all, elapsed)
    }
}

/// Where buildings are hit in the damage pass at `elapsed`.
pub open spec fn impacts(s: Seq<Entity>, elapsed: int) -> Seq<Vec2> {
    impacts_among(s, s, elapsed)
}

/// The predicate of the entities that the removal pass keeps.
pub open spec fn not_rubble() -> spec_fn(Entity) -> bool {
    |e: Entity| !e.is_rubble()
}

/// All entities after the removal pass: the buildings of which nothing is
/// left are gone, the others show the picture of their damage.
pub open spec fn clear_rubble(s: Seq<Entity>) -> Seq<Entity> {
    s.filter(not_rubble()).map_values(|e: Entity| e.repainted())
}

/// Whether all points of `s` lie in the world.
pub open spec fn points_in_world(s: Seq<Vec2>) -> bool {
    forall|i: int| 0 <= i < s.len() ==> (#[trigger] s[i]).in_world()
}

/// The damage pass. A building that stands in the way of a live blast loses
/// one point of health, unless it was damaged within the cooldown. The pass
/// removes nothing: a building with no health left stays, marked for the
/// removal pass. Returns the entities afterwards, in their order, and the
/// places where buildings were hit.
pub fn check_for_explosion_damage(entities: &Vec<Entity>, elapsed: i64) -> (r: (
    Vec<Entity>,
    Vec<Vec2>,
))
    requires
        all_wf(entities@),
        valid_time(elapsed as int),
    ensures
        r.0@ == damage_all(entities@, elapsed as int),
        r.1@ == impacts(entities@, elapsed as int),
        all_wf(r.0@),
        points_in_world(r.1@),
{
    let mut out: Vec<Entity> = Vec::new();
    let mut hits: Vec<Vec2> = Vec::new();
    let mut i: usize = 0;
    assert(entities@.take(0) =~= Seq::<Entity>::empty());
    while i < entities.len()
        invariant
            i <= entities.len(),
            all_wf(entities@),
            valid_time(elapsed as int),
            out.len() == i,
            forall|j: int|
                0 <= j < i ==> out[j] == (#[trigger] entities[j]).struck(
                    entities@,
                    elapsed as int,
                ),
            hits@ == impacts_among(entities@.take(i as int), entities@, elapsed as int),
            all_wf(out@),
            points_in_world(hits@),
        decreases entities.len() - i,
    {
        let e: Entity = entities[i];
        let mut next: Entity = e;
        match e.building {
            Some(b) => {
                if b.health >= 1 && b.is_cooled_down(elapsed) {
                    match find_first_blast_hitting(entities, e.position) {
                        Some(impact) => {
                            let mut building: Building = b;
                            building.take_damage(elapsed);
                            next.building = Some(building);
                            hits.push(impact);
                        },
                        None => {},
                    }
                }
            },
            None => {},
        }
        proof {
            assert(next == e.struck(entities@, elapsed as int));
            assert(entities@.take(i + 1).drop_last() =~= entities@.take(i as int));
            assert(entities@.take(i + 1).last() == e);
        }
        out.push(next);
        i = i + 1;
    }
    assert(entities@.take(entities.len() as int) =~= entities@);
    assert(out@ =~= damage_all(entities@, elapsed as int));
    (out, hits)
}

/// Whether every building among `s` stands.
pub open spec fn all_standing(s: Seq<Entity>) -> bool {
    forall|i: int|
        0 <= i < s.len() && (#[trigger] s[i]).building.is_some()
            ==> s[i].building.unwrap().standing()
}

/// The removal pass: every building with no health left is removed, and every
/// other building shows the picture of its damage.
pub fn update_building_sprite(entities: &Vec<Entity>) -> (out: Vec<Entity>)
    requires
        all_wf(entities@),
    ensures
        out@ == clear_rubble(entities@),
        all_wf(out@),
        all_standing(out@),
{
    let mut out: Vec<Entity> = Vec::new();
    let mut i: usize = 0;
    proof {
        reveal(Seq::filter);
        assert(entities@.take(0) =~= Seq::<Entity>::empty());
        assert(out@ =~= clear_rubble(entities@.take(0)));
    }
    while i < entities.len()
        invariant
            i <= entities.len(),
            all_wf(entities@),
            out@ == clear_rubble(entities@.take(i as int)),
            all_wf(out@),
            all_standing(out@),
        decreases entities.len() - i,
    {
        let e: Entity = entities[i];
        proof {
            reveal(Seq::filter);
            let before = entities@.take(i as int);
            let now = entities@.take(i + 1);
            assert(now.drop_last() =~= before);
            assert(now.last() == e);
            if e.is_rubble() {
                assert(now.filter(not_rubble()) == before.filter(not_rubble()));
            } else {
                assert(now.filter(not_rubble()) == before.filter(not_rubble()).push(e));
                assert(clear_rubble(now) =~= clear_rubble(before).push(e.repainted()));
            }
        }
        let keep: bool = match e.building {
            Some(b) => !b.is_destroyed(),
            None => true,
        };
        if keep {
            out.push(e.repaint());
        }
        i = i + 1;
    }
    assert(entities@.take(entities.len() as int) =~= entities@);
    out
}

/// In the movement pass every entity with an intent that does not wrap ends
/// at its position plus direction times speed times the time passed, wherever
/// that lies inside the world; every entity without an intent stays; and
/// nothing but positions changes.
pub proof fn lemma_movement_pass(s: Seq<Entity>, dt: int, i: int)
    requires
        all_wf(s),
        valid_delta(dt),
        0 <= i < s.len(),
    ensures
        advance_all(s, dt).len() == s.len(),
        advance_all(s, dt)[i] == (Entity { position: advance_all(s, dt)[i].position, ..s[i] }),
        s[i].movement.is_none() && !s[i].screen_wrap ==> advance_all(s, dt)[i] == s[i],
        ({
            let c = s[i].movement.unwrap();
            let x = s[i].position.x + travel(c.intent.x as int, c.max_speed as int, dt);
            let y = s[i].position.y + travel(c.intent.y as int, c.max_speed as int, dt);
            s[i].movement.is_some() && !s[i].screen_wrap && -COORD_MAX <= x <= COORD_MAX
                && -COORD_MAX <= y <= COORD_MAX ==> advance_all(s, dt)[i].position.x == x
                && advance_all(s, dt)[i].position.y == y
        }),
{
}

/// Whether `e` is one of `s` that does not burn out in `dt` microseconds,
/// aged by as much.
pub open spec fn is_aged_survivor(s: Seq<Entity>, dt: int, e: Entity) -> bool {
    exists|i: int| 0 <= i < s.len() && !(#[trigger] s[i]).burns_out(dt) && e == s[i].aged(dt)
}

/// The aging pass keeps exactly the entities that do not burn out, each aged,
/// in their order; so a blast leaves in the tick in which its life runs out,
/// and no blast that is left has run out of life.
pub proof fn lemma_aging_pass(s: Seq<Entity>, dt: int)
    requires
        all_wf(s),
        valid_delta(dt),
    ensures
        age_all(s, dt).len() <= s.len(),
        forall|i: int|
            0 <= i < s.len() && !(#[trigger] s[i]).burns_out(dt) ==> age_all(s, dt).contains(
                s[i].aged(dt),
            ),
        forall|k: int|
            0 <= k < age_all(s, dt).len() ==> is_aged_survivor(s, dt, #[trigger] age_all(s, dt)[k]),
        forall|k: int|
            0 <= k < age_all(s, dt).len() && (#[trigger] age_all(s, dt)[k]).explosion.is_some()
                ==> age_all(s, dt)[k].explosion.unwrap().explosion_life_span_remaining > 0,
{
    let kept = s.filter(outlasts(dt));
    let aged = age_all(s, dt);
    s.lemma_filter_len(outlasts(dt));
    assert forall|i: int|
        0 <= i < s.len() && !(#[trigger] s[i]).burns_out(dt) implies aged.contains(
        s[i].aged(dt),
    ) by {
        s.lemma_filter_contains(outlasts(dt), i);
        let k = choose|k: int| 0 <= k < kept.len() && kept[k] == s[i];
        assert(aged[k] == s[i].aged(dt));
    }
    assert forall|k: int| 0 <= k < aged.len() implies is_aged_survivor(
        s,
        dt,
        #[trigger] aged[k],
    ) by {
        s.lemma_filter_pred(outlasts(dt), k);
        assert(kept.contains(kept[k]));
        s.lemma_filter_contains_rev(outlasts(dt), kept[k]);
        let i = choose|i: int| 0 <= i < s.len() && s[i] == kept[k];
        assert(!s[i].burns_out(dt));
    }
    assert forall|k: int|
        0 <= k < aged.len() && (#[trigger] aged[k]).explosion.is_some() implies 0
        < aged[k].explosion.unwrap().explosion_life_span_remaining by {
        s.lemma_filter_pred(outlasts(dt), k);
    }
}

/// The chain-reaction pass sets off exactly the quiet hazards that a blast
/// reaches, changes nothing else, and scores nothing when it sets nothing
/// off.
pub proof fn lemma_chain_pass(s: Seq<Entity>, i: int)
    requires
        0 <= i < s.len(),
    ensures
        chain_all(s).len() == s.len(),
        s[i].is_set_off(s) ==> chain_all(s)[i].hazard.unwrap().should_explode,
        !s[i].is_set_off(s) ==> chain_all(s)[i] == s[i],
        chain_all(s)[i].explosion == s[i].explosion,
        chain_all(s)[i].position == s[i].position,
        s[i].is_set_off(s) ==> chain_count(s) >= 1,
{
    if s[i].is_set_off(s) {
        s.lemma_filter_contains(set_off_by(s), i);
    }
}

/// A blast sets hazards off in the very tick in which it is created: when
/// the trigger pass turns one entity into a blast that outlasts the tick, a
/// quiet hazard within its reach that does not detonate itself leaves the
/// chain-reaction pass of the same tick set off, and still a hazard.
pub proof fn lemma_new_blast_chains_at_once(s: Seq<Entity>, dt: int, i: int, j: int)
    requires
        all_wf(s),
        valid_delta(dt),
        0 <= i < s.len(),
        0 <= j < s.len(),
        s[i].detonates(),
        !s[i].blast().expires(dt),
        s[j].is_quiet_hazard(),
        !s[j].detonates(),
        s[j].explosion.is_none(),
        s[i].blast().reaches(s[j].position, s[j].hazard.unwrap().hitbox_radius as int),
    ensures
        chain_all(age_all(detonate_all(s), dt)).contains(s[j].triggered()),
        s[j].triggered().hazard.unwrap().should_explode,
        s[j].triggered().explosion.is_none(),
{
    let fresh = detonate_all(s);
    let aged = age_all(fresh, dt);
    assert(fresh[j] == s[j]);
    assert(fresh[i].explosion == Some(s[i].blast()));
    assert forall|k: int| 0 <= k < fresh.len() implies (#[trigger] fresh[k]).wf() by {
        assert(s[k].wf());
    }
    lemma_aging_pass(fresh, dt);
    assert(!fresh[j].burns_out(dt));
    assert(!fresh[i].burns_out(dt));
    assert(fresh[j].aged(dt) == s[j]);
    let kj = choose|k: int| 0 <= k < aged.len() && aged[k] == s[j];
    let ki = choose|k: int| 0 <= k < aged.len() && aged[k] == fresh[i].aged(dt);
    assert(aged[ki].explosion.is_some());
    assert(aged[ki].explosion.unwrap().reaches(
        s[j].position,
        s[j].hazard.unwrap().hitbox_radius as int,
    ));
    assert(aged[kj].is_set_off(aged));
    assert(chain_all(aged)[kj] == s[j].triggered());
}

/// A building that a damage pass has damaged is damaged by no damage pass
/// until more than the cooldown has passed, whatever blasts it is in the way
/// of; it loses exactly one point of health, and its health does not fall
/// below 0.
pub proof fn lemma_damage_pass_respects_cooldown(
    s: Seq<Entity>,
    i: int,
    elapsed: int,
    later_blasts: Seq<Entity>,
    later: int,
)
    requires
        all_wf(s),
        valid_time(elapsed),
        0 <= i < s.len(),
        s[i].is_hit(s, elapsed),
        later <= elapsed + TIME_BETWEEN_DAMAGE,
    ensures
        damage_all(s, elapsed)[i].building.unwrap().health == s[i].building.unwrap().health - 1,
        damage_all(s, elapsed)[i].building.unwrap().health >= 0,
        !damage_all(s, elapsed)[i].is_hit(later_blasts, later),
        damage_all(s, elapsed)[i].struck(later_blasts, later) == damage_all(s, elapsed)[i],
{
    assert(s[i].wf());
}

/// The damage pass creates and removes nothing: it leaves as many entities
/// as it finds, each in its place and, but for the building that it holds,
/// as it was; a building keeps its health or loses one point of it, and a
/// building without health stays as it is.
pub proof fn lemma_damage_pass_keeps_all(s: Seq<Entity>, elapsed: int, i: int)
    requires
        all_wf(s),
        valid_time(elapsed),
        0 <= i < s.len(),
    ensures
        damage_all(s, elapsed).len() == s.len(),
        damage_all(s, elapsed)[i] == (Entity {
            building: damage_all(s, elapsed)[i].building,
            ..s[i]
        }),
        damage_all(s, elapsed)[i].building.is_some() == s[i].building.is_some(),
        damage_all(s, elapsed)[i].explosion == s[i].explosion,
        s[i].building.is_some() ==> {
            let before = s[i].building.unwrap().health;
            let after = damage_all(s, elapsed)[i].building.unwrap().health;
            after >= 0 && before - 1 <= after <= before
        },
        s[i].building.is_some() && !s[i].building.unwrap().standing() ==> damage_all(
            s,
            elapsed,
        )[i] == s[i],
{
    assert(s[i].wf());
}

} // verus!
