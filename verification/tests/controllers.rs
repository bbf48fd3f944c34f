use chainvasion::buildings::{
    candidate_fits, generate_positions, generate_positions_with, is_blast_hitting, ouch_string,
    pick_random_ouch_string, place_candidate, positions_from_draws, Building, LevelError,
    INITIAL_BUILDING_COUNT, MIN_BUILDING_SEPARATION, TIME_BETWEEN_DAMAGE,
};
use chainvasion::enemies::{
    create_target_locs, descent_over, update_enemy_movement_intent, Enemy, EnemyController,
    MIN_ENEMY_Y_BELOW, OFFSCREEN_ABOVE,
};
use chainvasion::explosions::{Explosion, ExplosionAnimation, ExplosionController, NUM_FRAMES};
use chainvasion::math::Vec2;
use chainvasion::movement::{MovementController, MAX_X};
use chainvasion::player::{
    directional_intent, record_player_directional_input, record_player_shooting_input,
    DirectionKeys,
};
use chainvasion::reticle::Reticle;
use chainvasion::score::{score_chain, score_controller, NewScore, Score, ScoreController, ScoreEvent};
use chainvasion::screens::{
    enter_loading_or_gameplay_screen, go_to_main_menu, screen_after_tick,
    update_game_over_timer, GameOverTimer, Screen,
};
use chainvasion::shooting::{aim_from, ShootingController, MAX_TARGET_OFFSET_Y};
use chainvasion::shot::Shot;

#[test]
fn combo_grows_within_the_window_and_resets_outside() {
    let p: u32 = 10;
    let mut c = score_controller();
    let mut combos: Vec<u32> = Vec::new();
    // t = 0.0
    combos.push(c.combo);
    let n1 = c.on_score_event(ScoreEvent { score: p });
    assert_eq!(n1.score, p);
    assert_eq!(c.update_combo_timer(400_000), None);
    // t = 0.4
    combos.push(c.combo);
    let n2 = c.on_score_event(ScoreEvent { score: p });
    assert_eq!(n2.score, p + p * 2);
    assert_eq!(c.update_combo_timer(500_000), None);
    // t = 0.9
    combos.push(c.combo);
    let n3 = c.on_score_event(ScoreEvent { score: p });
    assert_eq!(n3.score, p + p * 2 + p * 3);
    // the combo that each event was scored with
    assert_eq!(combos, vec![1, 2, 3]);
    // the combo that each notification announces for the next event
    assert_eq!((n1.combo, n2.combo, n3.combo), (2, 3, 4));
    // nothing until t = 3.0: the combo falls back to 1 first
    assert_eq!(c.update_combo_timer(2_100_000), Some(NewScore { combo: 1, score: 6 * p }));
    assert_eq!(c.combo, 1);
    let n4 = c.on_score_event(ScoreEvent { score: p });
    assert_eq!(n4.score, 6 * p + p);
    assert_eq!(n4.combo, 1);
    assert_eq!(c.time_since_last_score, 0);
}

#[test]
fn late_event_scores_once_even_without_an_idle_check() {
    let mut c = ScoreController {
        score: 60,
        combo: 4,
        time_since_last_score: 2_100_000,
        combo_window: 1_000_000,
    };
    let n = c.on_score_event(ScoreEvent { score: 10 });
    assert_eq!(n, NewScore { combo: 1, score: 70 });
}

#[test]
fn event_exactly_at_the_window_is_outside() {
    let mut c = ScoreController {
        score: 0,
        combo: 3,
        time_since_last_score: 1_000_000,
        combo_window: 1_000_000,
    };
    assert_eq!(c.on_score_event(ScoreEvent { score: 5 }), NewScore { combo: 1, score: 5 });
}

#[test]
fn idle_check_does_not_notify_twice() {
    let mut c = ScoreController {
        score: 7,
        combo: 3,
        time_since_last_score: 990_000,
        combo_window: 1_000_000,
    };
    assert_eq!(c.update_combo_timer(10_000), None);
    assert_eq!(c.combo, 3);
    assert_eq!(c.update_combo_timer(1), Some(NewScore { combo: 1, score: 7 }));
    assert_eq!(c.update_combo_timer(16_000), None);
    assert_eq!(c.update_combo_timer(16_000), None);
    assert_eq!(c.combo, 1);
    assert_eq!(c.score, 7);
    assert_eq!(c.time_since_last_score, 1_032_001);
}

#[test]
fn idle_check_with_combo_one_stays_silent() {
    let mut c = ScoreController {
        score: 3,
        combo: 1,
        time_since_last_score: 5_000_000,
        combo_window: 1_000_000,
    };
    assert_eq!(c.update_combo_timer(16_000), None);
    assert_eq!(c.combo, 1);
    assert_eq!(c.score, 3);
}

#[test]
fn score_saturates() {
    let mut c = ScoreController {
        score: u32::MAX - 1,
        combo: 2,
        time_since_last_score: 0,
        combo_window: 1_000_000,
    };
    assert_eq!(c.on_score_event(ScoreEvent { score: 5 }), NewScore { combo: 3, score: u32::MAX });
}

#[test]
fn chain_of_events_notifies_each() {
    let mut c = score_controller();
    let mut notes: Vec<NewScore> = Vec::new();
    score_chain(&mut c, 3, &mut notes);
    assert_eq!(
        notes,
        vec![
            NewScore { combo: 2, score: 1 },
            NewScore { combo: 3, score: 3 },
            NewScore { combo: 4, score: 6 }
        ]
    );
    assert_eq!(c.score, 6);
    assert_eq!(Score(6).0, c.score);
}

#[test]
fn explosion_life_runs_down_and_ends_at_zero() {
    let mut e = Explosion::new(100_000, Vec2::new(0, 0), 1_000_000);
    assert_eq!(e.explosion_life_span_remaining, 1_000_000);
    assert!(e.age(300_000));
    assert_eq!(e.explosion_life_span_remaining, 700_000);
    assert!(e.age(300_000));
    assert!(e.age(300_000));
    assert_eq!(e.explosion_life_span_remaining, 100_000);
    assert!(!e.age(300_000));
    assert_eq!(e.explosion_life_span_remaining, 0);
}

#[test]
fn explosion_ends_exactly_when_nothing_is_left() {
    let mut e = Explosion::new(16_000, Vec2::new(0, 0), 500_000);
    assert!(e.age(499_999));
    assert_eq!(e.explosion_life_span_remaining, 1);
    let mut f = e;
    assert!(!e.age(1));
    assert!(f.age(0));
}

#[test]
fn explosion_frame_is_the_share_of_life_rounded_up() {
    let mut e = Explosion::new(100_000, Vec2::new(0, 0), 1_000_000);
    assert_eq!(e.frame_index(), NUM_FRAMES - 1);
    e.age(16_000);
    assert_eq!(e.frame_index(), 10);
    e.age(484_000);
    assert_eq!(e.frame_index(), 5);
    e.age(1);
    assert_eq!(e.frame_index(), 5);
    e.age(99_999);
    assert_eq!(e.frame_index(), 4);
    e.age(399_999);
    assert_eq!(e.explosion_life_span_remaining, 1);
    assert_eq!(e.frame_index(), 1);
}

#[test]
fn blast_reaches_up_to_the_sum_of_the_radii() {
    let e = Explosion::new(100_000, Vec2::new(0, 0), 1_000_000);
    assert!(e.is_reaching(Vec2::new(104_000, 0), 5_000));
    assert!(e.is_reaching(Vec2::new(105_000, 0), 5_000));
    assert!(!e.is_reaching(Vec2::new(106_000, 0), 5_000));
    assert!(e.is_reaching(Vec2::new(-63_000, 84_000), 5_000));
}

#[test]
fn hazard_defaults() {
    let h = ExplosionController::default();
    assert_eq!(h, ExplosionController::new(false, 100_000, 5_000, 1_000_000));
    let a = ExplosionAnimation::default();
    assert_eq!(a.frame_time, 100_000);
    assert_eq!(a.frame_index, 0);
}

#[test]
fn building_is_damaged_once_within_the_cooldown() {
    let mut b = Building { health: 3, last_damage_time: 0 };
    let first: i64 = 3_000_000;
    assert!(b.is_cooled_down(first));
    b.take_damage(first);
    assert_eq!(b.health, 2);
    assert_eq!(b.last_damage_time, first);
    assert!(!b.is_cooled_down(first + 500_000));
    assert!(!b.is_cooled_down(first + TIME_BETWEEN_DAMAGE));
    assert!(b.is_cooled_down(first + TIME_BETWEEN_DAMAGE + 1));
}

#[test]
fn building_picture_follows_health() {
    assert_eq!(Building { health: 3, last_damage_time: 0 }.sprite_index(), 0);
    assert_eq!(Building { health: 2, last_damage_time: 0 }.sprite_index(), 1);
    assert_eq!(Building { health: 1, last_damage_time: 0 }.sprite_index(), 2);
    assert_eq!(Building { health: 0, last_damage_time: 0 }.sprite_index(), 2);
    assert!(Building { health: 0, last_damage_time: 0 }.is_destroyed());
    assert!(!Building { health: 1, last_damage_time: 0 }.is_destroyed());
}

#[test]
fn blast_hits_a_building_within_its_own_radius_more() {
    let e = Explosion::new(16_000, Vec2::new(0, 0), 1_000_000);
    // 16 + 55 units of reach, the rim excluded
    assert!(is_blast_hitting(&e, Vec2::new(70_999, 0)));
    assert!(!is_blast_hitting(&e, Vec2::new(71_000, 0)));
    assert!(!is_blast_hitting(&e, Vec2::new(0, -71_000)));
}

#[test]
fn candidate_must_keep_the_separation() {
    let mut positions: Vec<i64> = vec![0];
    assert!(!candidate_fits(&positions, 99_999, MIN_BUILDING_SEPARATION));
    assert!(candidate_fits(&positions, 100_000, MIN_BUILDING_SEPARATION));
    assert!(candidate_fits(&positions, -100_000, MIN_BUILDING_SEPARATION));
    assert!(place_candidate(&mut positions, -100_000, MIN_BUILDING_SEPARATION));
    assert!(!place_candidate(&mut positions, -50_000, MIN_BUILDING_SEPARATION));
    assert_eq!(positions, vec![0, -100_000]);
}

#[test]
fn generated_positions_are_separated_and_in_bounds() {
    let mut round = 0;
    while round < 50 {
        match generate_positions() {
            Ok(positions) => {
                assert_eq!(positions.len(), INITIAL_BUILDING_COUNT);
                for (i, a) in positions.iter().enumerate() {
                    assert!(-MAX_X <= *a && *a <= MAX_X);
                    for b in positions.iter().skip(i + 1) {
                        assert!((a - b).abs() >= MIN_BUILDING_SEPARATION);
                    }
                }
            }
            Err(LevelError::BuildingPlacement { placed }) => {
                assert!(placed < INITIAL_BUILDING_COUNT);
            }
        }
        round += 1;
    }
}

#[test]
fn draws_differ() {
    // Two places one step apart are found unless ten thousand draws from
    // 700,001 numbers are all the same.
    let positions = generate_positions_with(2, 1, 10_000).unwrap();
    assert_ne!(positions[0], positions[1]);
}

#[test]
fn placement_keeps_the_draws_that_fit_in_their_order() {
    let draws = vec![0, 50_000, 100_000, -100_000, 150_000, 200_000, -200_000, 300_000, -300_000];
    assert_eq!(
        positions_from_draws(&draws, 5, 100_000),
        Ok(vec![0, 100_000, -100_000, 200_000, -200_000])
    );
    assert_eq!(positions_from_draws(&draws, 6, 100_000), Ok(vec![
        0, 100_000, -100_000, 200_000, -200_000, 300_000
    ]));
    assert_eq!(positions_from_draws(&draws, 0, 100_000), Ok(vec![]));
    assert_eq!(
        positions_from_draws(&draws, 8, 100_000),
        Err(LevelError::BuildingPlacement { placed: 7 })
    );
}

#[test]
fn placement_fails_when_too_few_draws_fit() {
    let same = vec![0; 10_000];
    assert_eq!(
        positions_from_draws(&same, 5, 100_000),
        Err(LevelError::BuildingPlacement { placed: 1 })
    );
    let crowded = vec![-251_000, -90_000, 80_000, 251_000, 0, 170_000, -170_000, 350_000, -350_000];
    assert_eq!(
        positions_from_draws(&crowded, 5, 100_000),
        Err(LevelError::BuildingPlacement { placed: 4 })
    );
    assert_eq!(
        positions_from_draws(&vec![], 1, 100_000),
        Err(LevelError::BuildingPlacement { placed: 0 })
    );
}

#[test]
fn placement_fails_when_there_is_no_room() {
    let r = generate_positions_with(5, 400_000, 100);
    assert!(matches!(r, Err(LevelError::BuildingPlacement { placed }) if placed < 5 && placed >= 1));
    let none = generate_positions_with(3, 100_000, 0);
    assert_eq!(none, Err(LevelError::BuildingPlacement { placed: 0 }));
    let few = generate_positions_with(3, 0, 2);
    assert_eq!(few, Err(LevelError::BuildingPlacement { placed: 2 }));
    assert_eq!(generate_positions_with(0, 100_000, 0), Ok(vec![]));
}

#[test]
fn ouch_strings_follow_the_seed() {
    let expected = [
        "ouch",
        "ouchie",
        "ciao papi",
        "they got me",
        "help me",
        "why father",
        "not like this",
        "oww",
    ];
    for (i, word) in expected.iter().enumerate() {
        assert_eq!(ouch_string(i), *word);
        assert_eq!(ouch_string(i + 8 * 1000), *word);
    }
    let mut round = 0;
    while round < 40 {
        let s = pick_random_ouch_string();
        assert!(expected.contains(&s.as_str()));
        round += 1;
    }
}

#[test]
fn enemy_path_descends_from_above() {
    let locs = descent_over(-20_000, 130_000);
    assert_eq!(
        locs,
        vec![
            Vec2::new(-20_000, OFFSCREEN_ABOVE),
            Vec2::new(130_000, 187_500),
            Vec2::new(-20_000, MIN_ENEMY_Y_BELOW)
        ]
    );
    let mut round = 0;
    while round < 50 {
        let drawn = create_target_locs();
        assert_eq!(drawn.len(), 3);
        assert!(-MAX_X <= drawn[0].x && drawn[0].x < MAX_X);
        assert!(-MAX_X <= drawn[1].x && drawn[1].x < MAX_X);
        assert_eq!(drawn[0].y, 500_000);
        assert_eq!(drawn[1].y, 187_500);
        assert_eq!(drawn[2], Vec2::new(drawn[0].x, -125_000));
        round += 1;
    }
}

#[test]
fn enemy_turns_to_the_next_target_and_aims_at_it() {
    let locs = descent_over(0, 100_000);
    let mut enemy = Enemy::new(75_000, &locs);
    let mut movement = MovementController::new();
    let mut hazard = ExplosionController::new(false, 32_000, 32_000, 500_000);
    update_enemy_movement_intent(&mut movement, &mut hazard, &mut enemy, Vec2::new(0, 500_000));
    assert_eq!(enemy.target_index, 1);
    assert_eq!(movement.intent, Vec2::new(304_775, -952_424));
    assert_eq!(movement.max_speed, 75_000);
    assert!(!hazard.should_explode);
    // far from the target: keeps it
    update_enemy_movement_intent(&mut movement, &mut hazard, &mut enemy, Vec2::new(0, 400_000));
    assert_eq!(enemy.target_index, 1);
    // at the last target: round to the first again
    enemy.target_index = 2;
    update_enemy_movement_intent(&mut movement, &mut hazard, &mut enemy, Vec2::new(0, -120_000));
    assert_eq!(enemy.target_index, 0);
    assert!(hazard.should_explode);
}

#[test]
fn enemy_path_can_hold_one_to_eight_targets() {
    let there = Vec2::new(0, 100_000);
    let back = Vec2::new(50_000, 100_000);
    let mut enemy = Enemy::new(10_000, &vec![there, back]);
    assert_eq!(enemy.target_count, 2);
    let mut movement = MovementController::new();
    let mut hazard = ExplosionController::new(false, 32_000, 32_000, 500_000);
    update_enemy_movement_intent(&mut movement, &mut hazard, &mut enemy, there);
    assert_eq!(enemy.target_index, 1);
    assert_eq!(movement.intent, Vec2::new(1_000_000, 0));
    update_enemy_movement_intent(&mut movement, &mut hazard, &mut enemy, back);
    assert_eq!(enemy.target_index, 0);
    assert_eq!(movement.intent, Vec2::new(-1_000_000, 0));
    let mut lone = Enemy::new(10_000, &vec![there]);
    update_enemy_movement_intent(&mut movement, &mut hazard, &mut lone, there);
    assert_eq!(lone.target_index, 0);
    assert_eq!(movement.intent, Vec2::new(0, 0));
    assert!(Enemy::try_new(10_000, &vec![]).is_none());
    assert!(Enemy::try_new(10_000, &vec![there; 8]).is_some());
    assert!(Enemy::try_new(10_000, &vec![there; 9]).is_none());
    assert!(Enemy::try_new(10_000, &vec![there; 8]).unwrap().is_wf());
}

#[test]
fn enemy_slows_down_and_detonates_near_the_ground() {
    let locs = descent_over(0, 0);
    let mut enemy = Enemy::new(75_000, &locs);
    enemy.target_index = 2;
    let mut movement = MovementController::new();
    let mut hazard = ExplosionController::new(false, 32_000, 32_000, 500_000);
    update_enemy_movement_intent(&mut movement, &mut hazard, &mut enemy, Vec2::new(0, 75_000));
    assert_eq!(movement.max_speed, 75_000);
    update_enemy_movement_intent(&mut movement, &mut hazard, &mut enemy, Vec2::new(0, -25_000));
    assert_eq!(movement.max_speed, 37_500);
    assert_eq!(movement.intent, Vec2::new(0, -1_000_000));
    assert!(!hazard.should_explode);
    update_enemy_movement_intent(&mut movement, &mut hazard, &mut enemy, Vec2::new(0, -105_000));
    assert!(!hazard.should_explode);
    assert_eq!(movement.max_speed, 7_500);
    update_enemy_movement_intent(&mut movement, &mut hazard, &mut enemy, Vec2::new(0, -105_001));
    assert!(hazard.should_explode);
    update_enemy_movement_intent(&mut movement, &mut hazard, &mut enemy, Vec2::new(0, -130_000));
    assert_eq!(movement.max_speed, 0);
}

#[test]
fn spawner_is_rate_limited() {
    let mut c = EnemyController::default();
    assert_eq!(c.max_num_enemies, 5);
    let first = c.update(0, 1_000_000, 16_000);
    assert_eq!(first.spawn, Some(75_000));
    assert_eq!(c.last_enemy_spawn_time, 1_000_000);
    let second = c.update(0, 1_100_000, 16_000);
    assert_eq!(second.spawn, None);
    let third = c.update(0, 1_199_999, 16_000);
    assert_eq!(third.spawn, None);
    let fourth = c.update(0, 1_200_000, 16_000);
    assert_eq!(fourth.spawn, Some(75_000));
}

#[test]
fn spawner_respects_the_cap() {
    let mut c = EnemyController::default();
    assert_eq!(c.update(5, 1_000_000, 16_000).spawn, None);
    assert_eq!(c.update(4, 1_000_000, 16_000).spawn, Some(75_000));
}

#[test]
fn level_rises_every_ten_seconds() {
    let mut c = EnemyController::default();
    c.game_time = 9_980_000;
    let quiet = c.update(5, 50_000, 16_000);
    assert_eq!(quiet.level_up, None);
    assert_eq!(c.game_time, 9_996_000);
    let up = c.update(5, 66_000, 16_000);
    assert_eq!(up.level_up, Some(2));
    assert_eq!(c.level, 2);
    assert_eq!(c.max_num_enemies, 10);
    assert_eq!(c.enemy_speed, 95_000);
    assert_eq!(c.game_time, 0);
    // room under the raised cap; the enemy has the new speed
    c.game_time = 9_990_000;
    let both = c.update(12, 1_000_000, 16_000);
    assert_eq!(both.level_up, Some(3));
    assert_eq!(both.spawn, Some(115_000));
}

#[test]
fn shot_leaves_only_after_reloading() {
    let mut c = ShootingController::default();
    let at = Vec2::new(10_000, -220_000);
    assert_eq!(c.shoot_if_we_shooting(at, 600_000), None);
    c.intent_to_fire = true;
    assert_eq!(c.shoot_if_we_shooting(at, 500_000), None);
    let s = c.shoot_if_we_shooting(at, 600_000).unwrap();
    assert_eq!(
        s,
        Shot { speed: 640_000, target: Some(Vec2::new(10_000, -20_000)), initial_location: at }
    );
    assert_eq!(c.last_shot_time, 600_000);
    assert_eq!(c.shoot_if_we_shooting(at, 1_100_000), None);
    assert!(c.shoot_if_we_shooting(at, 1_100_001).is_some());
    assert_eq!(aim_from(at, Vec2::new(-1, 2)), Vec2::new(9_999, -219_998));
}

#[test]
fn shot_flies_brakes_and_arrives() {
    let mut s = Shot {
        speed: 640_000,
        target: Some(Vec2::new(0, 100_000)),
        initial_location: Vec2::new(0, 0),
    };
    let p = s.update_shot_position(Vec2::new(0, 0), 16_000);
    assert_eq!(p, Vec2::new(0, 10_240));
    assert_eq!(s.speed, 640_000);
    let q = s.update_shot_position(Vec2::new(0, 95_000), 16_000);
    assert_eq!(s.speed, 320_000);
    assert_eq!(q, Vec2::new(0, 100_120));
    let back = s.update_shot_position(q, 16_000);
    assert_eq!(s.speed, 160_000);
    assert_eq!(back, Vec2::new(0, 97_560));
    let r = s.update_shot_position(Vec2::new(0, 99_950), 16_000);
    assert_eq!(r, Vec2::new(0, 99_950));
    assert_eq!(s.target, None);
    assert_eq!(s.speed, 160_000);
    let rest = s.update_shot_position(r, 16_000);
    assert_eq!(rest, r);
}

#[test]
fn reticle_eases_and_never_overshoots() {
    let mut r = Reticle::default();
    assert_eq!(r.update_reticle_position(Vec2::new(5, 5), 16_000), Vec2::new(5, 5));
    let firer = (Vec2::new(0, -220_000), ShootingController::default());
    r.update_reticle_target(Some(firer));
    assert_eq!(r.target, Some(Vec2::new(0, -20_000)));
    assert_eq!(r.update_reticle_position(Vec2::new(0, -120_000), 16_000), Vec2::new(0, -112_800));
    assert_eq!(r.update_reticle_position(Vec2::new(0, -27_200), 16_000), Vec2::new(0, -20_000));
    assert_eq!(r.update_reticle_position(Vec2::new(3_000, -24_000), 16_000), Vec2::new(0, -20_000));
    assert_eq!(r.update_reticle_position(Vec2::new(0, -20_000), 16_000), Vec2::new(0, -20_000));
    r.update_reticle_target(None);
    assert_eq!(r.target, Some(Vec2::new(0, -20_000)));
}

#[test]
fn keys_become_a_unit_intent() {
    let none = DirectionKeys { up: false, down: false, left: false, right: false };
    assert_eq!(directional_intent(none), Vec2::new(0, 0));
    let up_right = DirectionKeys { up: true, down: false, left: false, right: true };
    assert_eq!(directional_intent(up_right), Vec2::new(707_106, 707_106));
    let left = DirectionKeys { up: true, down: true, left: true, right: false };
    assert_eq!(directional_intent(left), Vec2::new(-1_000_000, 0));
}

#[test]
fn player_input_steers_and_aims_within_bounds() {
    let mut movement = MovementController::new();
    let mut shooting = ShootingController::default();
    record_player_directional_input(
        &mut movement,
        &mut shooting,
        Vec2::new(707_106, 707_106),
        true,
    );
    // the cannon steers at unit length, however the intent leans
    assert_eq!(movement.intent, Vec2::new(1_000_000, 0));
    assert_eq!(shooting.target_offset, Vec2::new(0, 207_071));
    assert!(shooting.intent_to_fire);
    shooting.target_offset.y = MAX_TARGET_OFFSET_Y - 1;
    record_player_directional_input(&mut movement, &mut shooting, Vec2::new(0, 1_000_000), false);
    assert_eq!(shooting.target_offset.y, MAX_TARGET_OFFSET_Y);
    assert!(!shooting.intent_to_fire);
    assert_eq!(movement.intent, Vec2::new(0, 0));
    shooting.target_offset.y = 5_000;
    record_player_directional_input(&mut movement, &mut shooting, Vec2::new(0, -1_000_000), false);
    assert_eq!(shooting.target_offset.y, 0);
    record_player_directional_input(
        &mut movement,
        &mut shooting,
        Vec2::new(-707_106, -707_106),
        false,
    );
    assert_eq!(movement.intent, Vec2::new(-1_000_000, 0));
    record_player_shooting_input(&mut shooting, true);
    assert!(shooting.intent_to_fire);
}

#[test]
fn game_over_screen_can_be_left_after_two_seconds() {
    let mut timer = GameOverTimer(0);
    let mut score = Score(41);
    update_game_over_timer(&mut timer, 1_999_999);
    assert_eq!(go_to_main_menu(&timer, &mut score), None);
    assert_eq!(score, Score(41));
    update_game_over_timer(&mut timer, 1);
    assert_eq!(go_to_main_menu(&timer, &mut score), Some(Screen::Title));
    assert_eq!(score, Score(0));
    assert_eq!(enter_loading_or_gameplay_screen(true), Screen::Gameplay);
    assert_eq!(enter_loading_or_gameplay_screen(false), Screen::Loading);
    assert_eq!(screen_after_tick(true), Some(Screen::GameOver));
    assert_eq!(screen_after_tick(false), None);
}
