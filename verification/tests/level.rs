use chainvasion::buildings::{building, spawn_buildings, LevelError, MIN_BUILDING_SEPARATION};
use chainvasion::enemies::{enemy, enemy_on, descent_over, EnemyController};
use chainvasion::entity::{bare_entity, hazard_marker, Entity, PlayerInput, Tag};
use chainvasion::explosions::{explosion, ExplosionController};
use chainvasion::floating_text::{
    handle_new_text_event, level_up_text, ouch_text_at, update_floating_text, FloatingText,
    NewText,
};
use chainvasion::level::{
    check_for_game_over, count_buildings, count_enemies, ouch_notices, spawn_level, Level,
    Notice,
};
use chainvasion::math::Vec2;
use chainvasion::movement::MAX_X;
use chainvasion::passes::{
    advance_entities, aim_entities, check_for_explosion_chain, check_for_explosion_damage,
    create_explosions, find_first_blast_hitting, find_first_firer, fire_entities, fly_entities,
    is_any_blast_reaching, steer_entities, update_building_sprite, update_explosions,
};
use chainvasion::player::player;
use chainvasion::reticle::reticle;
use chainvasion::score::{score_controller, NewScore};
use chainvasion::shot::shot;

struct Report {
    texts: Vec<NewText>,
    scores: Vec<NewScore>,
    game_over: bool,
}

fn sorted(notices: Vec<Notice>) -> Report {
    let mut report = Report { texts: Vec::new(), scores: Vec::new(), game_over: false };
    for notice in notices {
        match notice {
            Notice::Text(t) => report.texts.push(t),
            Notice::Score(n) => report.scores.push(n),
            Notice::GameOver => report.game_over = true,
        }
    }
    report
}

fn idle() -> PlayerInput {
    PlayerInput { intent: Vec2::new(0, 0), fire: false }
}

fn level_of(entities: Vec<Entity>, elapsed: i64) -> Level {
    Level {
        entities,
        elapsed,
        enemies: EnemyController {
            max_num_enemies: 0,
            enemy_speed: 75_000,
            game_time: 0,
            level: 1,
            last_enemy_spawn_time: 0,
        },
        score: score_controller(),
        game_over: false,
    }
}

fn armed(position: Vec2, radius: i64) -> Entity {
    hazard_marker(position, ExplosionController::new(true, radius, 5_000, 1_000_000))
}

fn quiet(position: Vec2) -> Entity {
    hazard_marker(position, ExplosionController::default())
}

#[test]
fn blast_sets_off_a_hazard_in_the_tick_it_is_created() {
    let keep = building(300_000);
    let mut level = level_of(
        vec![armed(Vec2::new(0, 0), 100_000), quiet(Vec2::new(104_000, 0)), keep],
        0,
    );
    let out = sorted(level.tick(idle(), 16_000, false));
    assert_eq!(level.entities.len(), 3);
    assert_eq!(level.entities[0].tag, Tag::Explosion);
    let blast = level.entities[0].explosion.unwrap();
    assert_eq!(blast.radius, 100_000);
    assert_eq!(blast.center, Vec2::new(0, 0));
    assert_eq!(blast.explosion_life_span_remaining, 984_000);
    assert!(level.entities[0].hazard.is_none());
    assert_eq!(level.entities[1].tag, Tag::HazardMarker);
    assert!(level.entities[1].hazard.unwrap().should_explode);
    assert!(level.entities[1].explosion.is_none());
    assert_eq!(out.scores, vec![NewScore { combo: 2, score: 1 }]);
    assert_eq!(level.score.score, 1);
    assert!(!out.game_over);
}

#[test]
fn blast_leaves_a_hazard_out_of_reach_alone() {
    let mut level = level_of(
        vec![armed(Vec2::new(0, 0), 100_000), quiet(Vec2::new(106_000, 0)), building(300_000)],
        0,
    );
    let out = sorted(level.tick(idle(), 16_000, false));
    assert!(!level.entities[1].hazard.unwrap().should_explode);
    assert!(out.scores.is_empty());
    assert_eq!(level.score.score, 0);
}

#[test]
fn chain_travels_one_hazard_per_tick() {
    let mut level = level_of(
        vec![
            armed(Vec2::new(0, 0), 100_000),
            quiet(Vec2::new(100_000, 0)),
            quiet(Vec2::new(200_000, 0)),
            building(-300_000),
        ],
        0,
    );
    level.tick(idle(), 16_000, false);
    assert!(level.entities[1].hazard.unwrap().should_explode);
    assert!(!level.entities[2].hazard.unwrap().should_explode);
    assert_eq!(level.entities[1].tag, Tag::HazardMarker);
    let out = sorted(level.tick(idle(), 16_000, false));
    assert_eq!(level.entities[1].tag, Tag::Explosion);
    assert!(level.entities[2].hazard.unwrap().should_explode);
    assert_eq!(out.scores, vec![NewScore { combo: 3, score: 3 }]);
    level.tick(idle(), 16_000, false);
    assert_eq!(level.entities[2].tag, Tag::Explosion);
    assert_eq!(level.score.score, 3);
}

#[test]
fn two_blasts_set_a_hazard_off_once() {
    let mut level = level_of(
        vec![
            armed(Vec2::new(0, 0), 100_000),
            armed(Vec2::new(50_000, 0), 100_000),
            quiet(Vec2::new(60_000, 0)),
            building(-300_000),
        ],
        0,
    );
    let out = sorted(level.tick(idle(), 16_000, false));
    assert_eq!(out.scores.len(), 1);
    assert_eq!(level.score.score, 1);
}

#[test]
fn explosion_is_removed_on_the_tick_its_life_ends() {
    let mut level = level_of(
        vec![explosion(Vec2::new(0, 0), 16_000, 40_000), building(300_000)],
        0,
    );
    level.tick(idle(), 16_000, false);
    assert_eq!(level.entities.len(), 2);
    assert_eq!(level.entities[0].explosion.unwrap().explosion_life_span_remaining, 24_000);
    assert_eq!(level.entities[0].sprite_index, 6);
    level.tick(idle(), 16_000, false);
    assert_eq!(level.entities.len(), 2);
    assert_eq!(level.entities[0].explosion.unwrap().explosion_life_span_remaining, 8_000);
    assert_eq!(level.entities[0].sprite_index, 2);
    level.tick(idle(), 16_000, false);
    assert_eq!(level.entities.len(), 1);
    assert_eq!(level.entities[0].tag, Tag::Building);
}

#[test]
fn building_hit_twice_within_the_cooldown_is_damaged_once() {
    let at = Vec2::new(0, -160_000);
    let mut level = level_of(vec![building(0), explosion(at, 16_000, 1_000_000)], 3_000_000);
    let first = sorted(level.tick(idle(), 16_000, false));
    assert_eq!(level.entities[0].building.unwrap().health, 2);
    assert_eq!(level.entities[0].building.unwrap().last_damage_time, 3_016_000);
    assert_eq!(level.entities[0].sprite_index, 1);
    assert_eq!(first.texts.len(), 1);
    assert!((first.texts[0].1 - at.x).abs() <= 30_000);
    assert!((first.texts[0].2 - at.y).abs() <= 30_000);
    // a second blast, half a second later
    level.entities.push(explosion(at, 16_000, 1_000_000));
    let second = sorted(level.tick(idle(), 484_000, false));
    assert_eq!(level.elapsed, 3_500_000);
    assert_eq!(level.entities[0].building.unwrap().health, 2);
    assert!(second.texts.is_empty());
    // and one after the cooldown
    level.tick(idle(), 1_000_000, false);
    level.tick(idle(), 516_000, false);
    assert_eq!(level.entities.len(), 1);
    level.entities.push(explosion(at, 16_000, 1_000_000));
    let on_the_rim = sorted(level.tick(idle(), 0, false));
    assert_eq!(level.elapsed, 5_016_000);
    assert!(on_the_rim.texts.is_empty());
    let third = sorted(level.tick(idle(), 1, false));
    assert_eq!(level.entities[0].building.unwrap().health, 1);
    assert_eq!(level.entities[0].sprite_index, 2);
    assert_eq!(third.texts.len(), 1);
}

#[test]
fn two_blasts_in_one_tick_damage_a_building_once() {
    let at = Vec2::new(0, -160_000);
    let mut level = level_of(
        vec![
            explosion(Vec2::new(40_000, -160_000), 16_000, 1_000_000),
            building(0),
            explosion(at, 16_000, 1_000_000),
        ],
        3_000_000,
    );
    let out = sorted(level.tick(idle(), 16_000, false));
    assert_eq!(level.entities[1].building.unwrap().health, 2);
    assert_eq!(out.texts.len(), 1);
    assert!((out.texts[0].1 - 40_000).abs() <= 30_000);
}

#[test]
fn game_over_is_requested_on_the_tick_the_last_building_falls() {
    let at = Vec2::new(0, -160_000);
    let mut last = building(0);
    last.building.as_mut().unwrap().health = 2;
    let mut level = level_of(vec![last, explosion(at, 16_000, 1_000_000)], 3_000_000);
    let first = sorted(level.tick(idle(), 16_000, false));
    assert!(!first.game_over);
    assert!(!level.game_over);
    assert_eq!(count_buildings(&level.entities), 1);
    level.entities.push(explosion(at, 16_000, 1_000_000));
    let quiet_tick = sorted(level.tick(idle(), 1_000_000, false));
    assert!(!quiet_tick.game_over);
    level.tick(idle(), 1_000_001, false);
    level.entities.push(explosion(at, 16_000, 1_000_000));
    let fatal = sorted(level.tick(idle(), 16_000, false));
    assert!(fatal.game_over);
    assert!(level.game_over);
    assert_eq!(count_buildings(&level.entities), 0);
    assert!(check_for_game_over(&level.entities));
    // a level that is over rests
    let elapsed = level.elapsed;
    let after = sorted(level.tick(idle(), 16_000, false));
    assert!(!after.game_over);
    assert_eq!(level.elapsed, elapsed);
}

#[test]
fn paused_tick_changes_nothing() {
    let mut level = level_of(
        vec![armed(Vec2::new(0, 0), 100_000), quiet(Vec2::new(10_000, 0)), building(0)],
        5_000,
    );
    let out = sorted(level.tick(idle(), 16_000, true));
    assert!(out.texts.is_empty());
    assert!(out.scores.is_empty());
    assert!(!out.game_over);
    assert_eq!(level.elapsed, 5_000);
    assert_eq!(level.entities.len(), 3);
    assert_eq!(level.entities[0].tag, Tag::HazardMarker);
    assert!(!level.entities[1].hazard.unwrap().should_explode);
    assert_eq!(level.score.time_since_last_score, 0);
}

#[test]
fn spawner_adds_one_enemy_per_interval() {
    let mut level = level_of(vec![building(0)], 1_000_000);
    level.enemies = EnemyController::default();
    level.tick(idle(), 16_000, false);
    assert_eq!(count_enemies(&level.entities), 1);
    let newcomer = level.entities[1];
    assert_eq!(newcomer.tag, Tag::Enemy);
    assert_eq!(newcomer.enemy.unwrap().speed, 75_000);
    assert_eq!(newcomer.position.y, 500_000);
    assert!(-MAX_X <= newcomer.position.x && newcomer.position.x < MAX_X);
    assert_eq!(newcomer.enemy.unwrap().target_locs[0], newcomer.position);
    assert_eq!(newcomer.hazard.unwrap(), ExplosionController::new(false, 32_000, 32_000, 500_000));
    level.tick(idle(), 84_000, false);
    assert_eq!(count_enemies(&level.entities), 1);
    level.tick(idle(), 100_000, false);
    assert_eq!(count_enemies(&level.entities), 1);
    level.tick(idle(), 16_000, false);
    assert_eq!(count_enemies(&level.entities), 2);
}

#[test]
fn level_up_is_announced() {
    let mut level = level_of(vec![building(0)], 0);
    level.enemies = EnemyController::default();
    level.enemies.game_time = 9_990_000;
    level.enemies.max_num_enemies = 0;
    let out = sorted(level.tick(idle(), 16_000, false));
    assert_eq!(out.texts.len(), 1);
    assert_eq!(out.texts[0].0, "level 2");
    assert_eq!((out.texts[0].1, out.texts[0].2), (0, 0));
    assert_eq!(level.enemies.level, 2);
    assert_eq!(level_up_text(17).0, "level 17");
}

#[test]
fn fired_shot_flies_arrives_and_explodes() {
    let mut level = level_of(vec![player(400_000), reticle(), building(300_000)], 1_000_000);
    let fire = PlayerInput { intent: Vec2::new(1_000_000, 0), fire: true };
    level.tick(fire, 16_000, false);
    assert_eq!(level.entities.len(), 4);
    // the cannon moved, the reticle follows the aim, the shot is under way
    assert_eq!(level.entities[0].position, Vec2::new(6_400, -220_000));
    assert_eq!(level.entities[1].reticle.unwrap().target, Some(Vec2::new(6_400, -20_000)));
    assert_eq!(level.entities[3].tag, Tag::Shot);
    assert_eq!(level.entities[3].shot.unwrap().target, Some(Vec2::new(6_400, -20_000)));
    assert_eq!(level.entities[3].position, Vec2::new(6_400, -209_760));
    assert_eq!(level.entities[0].shooting.unwrap().last_shot_time, 1_016_000);
    // holding the trigger does not fire again while reloading
    level.tick(fire, 16_000, false);
    assert_eq!(level.entities.len(), 4);
    let mut ticks = 0;
    while level.entities[3].tag == Tag::Shot && ticks < 200 {
        level.tick(idle(), 16_000, false);
        ticks += 1;
    }
    assert_eq!(level.entities[3].tag, Tag::Explosion);
    assert_eq!(level.entities[3].explosion.unwrap().radius, 16_000);
    assert_eq!(level.entities[3].explosion.unwrap().explosion_max_life_span, 1_000_000);
    let center = level.entities[3].explosion.unwrap().center;
    assert!((center.x - 6_400).abs() < 100 && (center.y + 20_000).abs() < 100);
}

#[test]
fn enemy_descends_and_detonates_near_the_ground() {
    let locs = descent_over(0, 0);
    let mut level = level_of(vec![enemy_on(200_000, &locs), building(300_000)], 0);
    level.tick(idle(), 16_000, false);
    assert_eq!(level.entities[0].enemy.unwrap().target_index, 1);
    assert_eq!(level.entities[0].position, Vec2::new(0, 496_800));
    let mut ticks = 0;
    while level.entities[0].tag == Tag::Enemy && ticks < 2_000 {
        level.tick(idle(), 16_000, false);
        ticks += 1;
    }
    assert_eq!(level.entities[0].tag, Tag::Explosion);
    assert_eq!(level.entities[0].explosion.unwrap().radius, 32_000);
    assert!(level.entities[0].explosion.unwrap().center.y < -105_000);
    assert_eq!(level.score.score, 0);
}

#[test]
fn passes_compose_as_the_tick_does() {
    let start = vec![
        player(400_000),
        reticle(),
        armed(Vec2::new(0, 0), 100_000),
        quiet(Vec2::new(50_000, 0)),
        building(0),
    ];
    let input = PlayerInput { intent: Vec2::new(-1_000_000, 0), fire: false };
    let steered = steer_entities(&start, input);
    assert_eq!(steered[0].movement.unwrap().intent, Vec2::new(-1_000_000, 0));
    let moved = advance_entities(&steered, 16_000);
    assert_eq!(moved[0].position, Vec2::new(-6_400, -220_000));
    assert_eq!(find_first_firer(&moved).unwrap().0, Vec2::new(-6_400, -220_000));
    let aimed = aim_entities(&moved, 16_000);
    assert_eq!(aimed[1].reticle.unwrap().target, Some(Vec2::new(-6_400, -20_000)));
    let fired = fire_entities(&aimed, 16_000);
    assert_eq!(fired.len(), 5);
    let flown = fly_entities(&fired, 16_000);
    let detonated = create_explosions(&flown);
    assert_eq!(detonated[2].tag, Tag::Explosion);
    let aged = update_explosions(&detonated, 16_000);
    assert_eq!(aged.len(), 5);
    assert!(is_any_blast_reaching(&aged, Vec2::new(50_000, 0), 5_000));
    assert!(!is_any_blast_reaching(&aged, Vec2::new(150_000, 0), 4_999));
    let (chained, count) = check_for_explosion_chain(&aged);
    assert_eq!(count, 1);
    assert!(chained[3].hazard.unwrap().should_explode);
    assert_eq!(find_first_blast_hitting(&chained, Vec2::new(0, -154_999)), Some(Vec2::new(0, 0)));
    assert_eq!(find_first_blast_hitting(&chained, Vec2::new(0, -155_000)), None);
    let (after, hits) = check_for_explosion_damage(&chained, 3_000_000);
    assert!(hits.is_empty());
    assert_eq!(after.len(), 5);
    assert_eq!(update_building_sprite(&after).len(), 5);
}

#[test]
fn damage_pass_marks_and_removal_pass_removes() {
    let at = Vec2::new(0, -160_000);
    let mut weak = building(0);
    weak.building.as_mut().unwrap().health = 1;
    let entities = vec![explosion(at, 16_000, 1_000_000), weak, building(300_000)];
    let (struck, hits) = check_for_explosion_damage(&entities, 3_000_000);
    assert_eq!(hits, vec![at]);
    assert_eq!(struck.len(), 3);
    assert_eq!(struck[0].tag, Tag::Explosion);
    assert_eq!(struck[1].building.unwrap().health, 0);
    assert_eq!(struck[1].building.unwrap().last_damage_time, 3_000_000);
    assert_eq!(struck[1].sprite_index, 0);
    assert_eq!(struck[2].building.unwrap().health, 3);
    // a building without health takes no further damage
    let (again, none) = check_for_explosion_damage(&struck, 9_000_000);
    assert!(none.is_empty());
    assert_eq!(again[1].building.unwrap().health, 0);
    let left = update_building_sprite(&struck);
    assert_eq!(left.len(), 2);
    assert_eq!(left[0].tag, Tag::Explosion);
    assert_eq!(left[1].position.x, 300_000);
    assert_eq!(left[1].sprite_index, 0);
    let mut dented = building(0);
    dented.building.as_mut().unwrap().health = 2;
    assert_eq!(update_building_sprite(&vec![dented])[0].sprite_index, 1);
}

#[test]
fn fallen_building_in_a_level_is_removed_by_the_next_tick() {
    let mut fallen = building(0);
    fallen.building.as_mut().unwrap().health = 0;
    let mut level = level_of(vec![fallen, building(300_000)], 0);
    assert!(level.is_wf());
    let out = sorted(level.tick(idle(), 16_000, false));
    assert_eq!(level.entities.len(), 1);
    assert!(!out.game_over);
}

#[test]
fn shots_and_bare_entities_are_built_as_asked() {
    let s = shot(640_000, Some(Vec2::new(1, 2)), Vec2::new(3, 4));
    assert_eq!(s.position, Vec2::new(3, 4));
    assert_eq!(s.shot.unwrap().speed, 640_000);
    let b = bare_entity(Tag::HazardMarker, Vec2::new(5, 6), 1_000);
    assert!(b.movement.is_none() && b.hazard.is_none() && b.shot.is_none());
    assert_eq!(b.scale, Vec2::new(1_000, 1_000));
    let e = explosion(Vec2::new(0, 0), 100_000, 1_000_000);
    assert_eq!(e.scale, Vec2::new(12_500, 12_500));
    let hostile = enemy(75_000);
    assert_eq!(hostile.scale, Vec2::new(4_000, 4_000));
    assert_eq!(hostile.movement.unwrap().max_speed, 400_000);
    let p = player(400_000);
    assert_eq!(p.position, Vec2::new(0, -220_000));
    assert!(p.shooting.is_some());
}

#[test]
fn new_level_has_cannon_reticle_and_buildings() {
    let mut round = 0;
    while round < 30 {
        match spawn_level() {
            Ok(level) => {
                assert_eq!(level.entities.len(), 7);
                assert_eq!(level.entities[0].tag, Tag::Player);
                assert_eq!(level.entities[1].tag, Tag::Reticle);
                assert_eq!(count_buildings(&level.entities), 5);
                assert_eq!(level.score.combo, 1);
                assert_eq!(level.enemies.level, 1);
                for (i, a) in level.entities.iter().enumerate().skip(2) {
                    assert_eq!(a.position.y, -160_000);
                    assert_eq!(a.building.unwrap().health, 3);
                    for b in level.entities.iter().skip(i + 1) {
                        assert!((a.position.x - b.position.x).abs() >= MIN_BUILDING_SEPARATION);
                    }
                }
            }
            Err(LevelError::BuildingPlacement { placed }) => assert!(placed < 5),
        }
        round += 1;
    }
}

#[test]
fn spawn_buildings_adds_nothing_on_failure() {
    let mut round = 0;
    while round < 30 {
        let mut entities = vec![player(400_000)];
        match spawn_buildings(&mut entities) {
            Ok(()) => assert_eq!(entities.len(), 6),
            Err(_) => assert_eq!(entities.len(), 1),
        }
        round += 1;
    }
}

#[test]
fn text_requests_become_a_text_and_its_shadow() {
    let events = vec![NewText("ouch".to_string(), 10_000, -5_000)];
    let labels = handle_new_text_event(&events);
    assert_eq!(labels.len(), 2);
    assert_eq!((labels[0].request, labels[0].shadow), (0, false));
    assert_eq!(labels[0].position, Vec2::new(10_000, -5_000));
    assert_eq!(labels[0].floating, FloatingText(2_000_000));
    assert_eq!((labels[1].request, labels[1].shadow), (0, true));
    assert_eq!(labels[1].position, Vec2::new(12_000, -7_000));
    let later = update_floating_text(&labels, 1_000_000);
    assert_eq!(later.len(), 2);
    assert_eq!(later[0].position, Vec2::new(10_000, -3_500));
    assert_eq!(later[0].floating, FloatingText(1_000_000));
    let gone = update_floating_text(&later, 1_000_000);
    assert!(gone.is_empty());
}

#[test]
fn ouch_texts_stay_near_their_impact() {
    let t = ouch_text_at(Vec2::new(100, 200), -30_000, 30_000, 10);
    assert_eq!(t.0, "ciao papi");
    assert_eq!((t.1, t.2), (-29_900, 30_200));
    let impacts = vec![Vec2::new(0, 0), Vec2::new(100_000, -100_000)];
    let mut round = 0;
    while round < 30 {
        let mut notices = vec![Notice::GameOver];
        ouch_notices(&impacts, &mut notices);
        assert_eq!(notices.len(), 3);
        assert!(matches!(notices[0], Notice::GameOver));
        let texts = sorted(notices).texts;
        assert_eq!(texts.len(), 2);
        assert!(texts[0].1.abs() <= 30_000 && texts[0].2.abs() <= 30_000);
        assert!((texts[1].1 - 100_000).abs() <= 30_000);
        assert!((texts[1].2 + 100_000).abs() <= 30_000);
        round += 1;
    }
}

#[test]
fn notices_come_in_the_order_of_the_passes() {
    let at = Vec2::new(0, -160_000);
    let mut last = building(0);
    last.building.as_mut().unwrap().health = 1;
    let mut level = level_of(
        vec![last, explosion(at, 100_000, 1_000_000), quiet(Vec2::new(0, -100_000))],
        3_000_000,
    );
    level.enemies.game_time = 9_990_000;
    let notices = level.tick(idle(), 16_000, false);
    assert_eq!(notices.len(), 4);
    assert!(matches!(&notices[0], Notice::Text(t) if (t.1 - at.x).abs() <= 30_000));
    assert!(matches!(notices[1], Notice::GameOver));
    assert!(matches!(&notices[2], Notice::Text(t) if t.0 == "level 2" && t.1 == 0 && t.2 == 0));
    assert!(matches!(notices[3], Notice::Score(NewScore { combo: 2, score: 1 })));
}

#[test]
fn resting_level_reports_nothing() {
    let mut level = level_of(vec![], 0);
    level.game_over = true;
    assert!(level.tick(idle(), 16_000, false).is_empty());
}

#[test]
fn wrapping_entity_returns_at_the_opposite_bound() {
    let mut cannon = player(400_000);
    cannon.screen_wrap = true;
    cannon.position = Vec2::new(MAX_X - 1_000, -220_000);
    let mut level = level_of(vec![cannon, building(0)], 0);
    let right = PlayerInput { intent: Vec2::new(1_000_000, 0), fire: false };
    level.tick(right, 16_000, false);
    assert_eq!(level.entities[0].position, Vec2::new(-MAX_X, -220_000));
    let mut plain = player(400_000);
    plain.position = Vec2::new(MAX_X - 1_000, -220_000);
    let mut other = level_of(vec![plain, building(0)], 0);
    other.tick(right, 16_000, false);
    assert_eq!(other.entities[0].position, Vec2::new(MAX_X + 5_400, -220_000));
}

#[test]
fn shot_shrinks_with_the_square_of_its_way() {
    let start = Vec2::new(0, 0);
    let target = Vec2::new(0, 200_000);
    let s = chainvasion::shot::Shot { speed: 640_000, target: Some(target), initial_location: start };
    assert_eq!(s.scale(start), 2_000);
    assert_eq!(s.scale(Vec2::new(0, 100_000)), 1_625);
    assert_eq!(s.scale(Vec2::new(0, 150_000)), 1_157);
    assert_eq!(s.scale(target), 500);
    assert_eq!(s.scale(Vec2::new(0, -50_000)), 2_000);
    let still = chainvasion::shot::Shot { speed: 1, target: Some(start), initial_location: start };
    assert_eq!(still.scale(start), 2_000);
    let mut level = level_of(vec![shot(640_000, Some(target), start), building(0)], 0);
    level.tick(idle(), 16_000, false);
    assert_eq!(level.entities[0].scale, Vec2::new(2_000, 2_000));
    level.tick(idle(), 16_000, false);
    // 10.24 of 200 units lie behind it
    assert_eq!(level.entities[0].scale, Vec2::new(1_997, 1_997));
}

#[test]
fn tick_refuses_what_it_cannot_take() {
    let mut level = level_of(vec![building(0)], 0);
    assert!(level.is_wf());
    assert!(level.try_tick(idle(), 16_000, false).is_some());
    assert_eq!(level.elapsed, 16_000);
    assert!(level.try_tick(idle(), -1, false).is_none());
    assert!(level.try_tick(idle(), 1_000_000_001, false).is_none());
    let long = PlayerInput { intent: Vec2::new(1_000_000, 1_000_000), fire: false };
    assert!(level.try_tick(long, 16_000, false).is_none());
    assert_eq!(level.elapsed, 16_000);
    level.entities[0].building.as_mut().unwrap().health = -1;
    assert!(!level.is_wf());
    assert!(level.try_tick(idle(), 16_000, false).is_none());
    level.entities[0].building.as_mut().unwrap().health = 1;
    level.entities[0].position.x = 1_000_000_000_001;
    assert!(!level.entities[0].is_wf());
    level.entities[0].position.x = 0;
    level.score.combo = 0;
    assert!(!level.is_wf());
}

#[test]
fn tick_on_an_empty_level_ends_the_game_quietly() {
    let mut level = level_of(vec![], 0);
    let out = sorted(level.tick(idle(), 16_000, false));
    assert!(out.texts.is_empty());
    assert!(out.scores.is_empty());
    assert!(out.game_over);
    assert!(level.entities.is_empty());
    assert_eq!(level.elapsed, 16_000);
    assert_eq!(level.score.time_since_last_score, 16_000);
    assert_eq!(find_first_firer(&level.entities), None);
}

#[test]
fn shot_caught_in_a_blast_detonates_and_scores() {
    let flying = shot(640_000, Some(Vec2::new(0, 300_000)), Vec2::new(0, 0));
    assert_eq!(flying.hazard.unwrap(), ExplosionController::new(false, 16_000, 5_000, 1_000_000));
    let mut level = level_of(
        vec![flying, explosion(Vec2::new(0, 30_000), 16_000, 1_000_000), building(300_000)],
        0,
    );
    // after the flight of this tick the shot is at 10.24 units: 19.76 from the blast
    let out = sorted(level.tick(idle(), 16_000, false));
    assert_eq!(level.entities[0].position, Vec2::new(0, 10_240));
    assert!(level.entities[0].hazard.unwrap().should_explode);
    assert_eq!(level.entities[0].tag, Tag::Shot);
    assert_eq!(out.scores, vec![NewScore { combo: 2, score: 1 }]);
    level.tick(idle(), 16_000, false);
    assert_eq!(level.entities[0].tag, Tag::Explosion);
    assert_eq!(level.entities[0].explosion.unwrap().center, Vec2::new(0, 20_480));
    assert_eq!(level.entities[0].explosion.unwrap().radius, 16_000);
}

#[test]
fn arrived_shot_ends_its_life_as_a_blast() {
    let mut arrived = shot(640_000, None, Vec2::new(0, 0));
    arrived.position = Vec2::new(7_000, 9_000);
    let blast = chainvasion::shot::shot_end_of_life(arrived);
    assert_eq!(blast.tag, Tag::Explosion);
    assert_eq!(blast.explosion.unwrap().center, Vec2::new(7_000, 9_000));
    assert_eq!(blast.explosion.unwrap().radius, 16_000);
    assert_eq!(blast.explosion.unwrap().explosion_life_span_remaining, 1_000_000);
    assert!(blast.shot.is_none() && blast.hazard.is_none());
    let flying = shot(640_000, Some(Vec2::new(0, 5)), Vec2::new(0, 0));
    assert_eq!(chainvasion::shot::shot_end_of_life(flying).tag, Tag::Shot);
    let armed_marker = armed(Vec2::new(1, 1), 100_000);
    assert_eq!(chainvasion::shot::shot_end_of_life(armed_marker).tag, Tag::HazardMarker);
}
