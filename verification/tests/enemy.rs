use std::collections::HashSet;

use game_plugin::combat::events::ShootEvent;
use game_plugin::enemy::{
    count_enemies, enemy_shoot, movement, new_movement, spawn_enemy, test_chase, Dir, Movement,
    RotationDir, Step, ENEMY_COUNT,
};

#[test]
fn defaults() {
    assert_eq!(Dir::default(), Dir::Left);
    assert_eq!(RotationDir::default(), RotationDir::Clockwise);
    assert_eq!(Movement::default(), Movement::Static);
}

#[test]
fn signs() {
    assert_eq!(Dir::Left.sign(), -1);
    assert_eq!(Dir::Right.sign(), 1);
    assert_eq!(RotationDir::Clockwise.sign(), 1);
    assert_eq!(RotationDir::CounterClockwise.sign(), -1);
}

#[test]
fn a_circle_keeps_its_sense() {
    assert_eq!(
        Movement::circle(RotationDir::CounterClockwise),
        Movement::Circle { rotation_dir: RotationDir::CounterClockwise }
    );
}

#[test]
fn the_missing_enemies_are_asked_for() {
    assert_eq!(ENEMY_COUNT, 3);
    assert_eq!(count_enemies(0), 3);
    assert_eq!(count_enemies(1), 2);
    assert_eq!(count_enemies(2), 1);
    assert_eq!(count_enemies(3), 0);
    assert_eq!(count_enemies(4), 0);
    assert_eq!(count_enemies(usize::MAX), 0);
}

#[test]
fn a_patrol_turns_at_its_bounds() {
    let targets = HashSet::new();
    let mut patrol = Movement::Horizontal { current_dir: Dir::Left };
    assert_eq!(movement(&mut patrol, false, false, &targets), Step::Slide(Dir::Left));
    assert_eq!(patrol, Movement::Horizontal { current_dir: Dir::Left });
    assert_eq!(movement(&mut patrol, true, false, &targets), Step::Slide(Dir::Right));
    assert_eq!(patrol, Movement::Horizontal { current_dir: Dir::Right });
    assert_eq!(movement(&mut patrol, false, false, &targets), Step::Slide(Dir::Right));
    assert_eq!(movement(&mut patrol, false, true, &targets), Step::Slide(Dir::Left));
    assert_eq!(patrol, Movement::Horizontal { current_dir: Dir::Left });
}

#[test]
fn the_lower_bound_wins_where_the_bounds_cross() {
    let targets = HashSet::new();
    let mut patrol = Movement::Horizontal { current_dir: Dir::Left };
    assert_eq!(movement(&mut patrol, true, true, &targets), Step::Slide(Dir::Right));
    assert_eq!(movement(&mut patrol, true, true, &targets), Step::Slide(Dir::Right));
}

#[test]
fn a_chaser_heads_for_a_target_that_is_there() {
    let targets: HashSet<u64> = [1].into_iter().collect();
    let mut chaser = Movement::Chase { target: Some(1) };
    assert_eq!(movement(&mut chaser, true, true, &targets), Step::Pursue(1));
    assert_eq!(chaser, Movement::Chase { target: Some(1) });
    let mut lost = Movement::Chase { target: Some(2) };
    assert_eq!(movement(&mut lost, false, false, &targets), Step::Stay);
    let mut aimless = Movement::Chase { target: None };
    assert_eq!(movement(&mut aimless, false, false, &targets), Step::Stay);
    assert_eq!(aimless, Movement::Chase { target: None });
}

#[test]
fn circles_turn_and_statics_stay() {
    let targets = HashSet::new();
    let mut circle = Movement::circle(RotationDir::Clockwise);
    assert_eq!(movement(&mut circle, true, false, &targets), Step::Orbit(RotationDir::Clockwise));
    assert_eq!(circle, Movement::circle(RotationDir::Clockwise));
    let mut fixed = Movement::Static;
    assert_eq!(movement(&mut fixed, false, true, &targets), Step::Stay);
    assert_eq!(fixed, Movement::Static);
}

#[test]
fn the_coin_decides_between_patrol_and_circle() {
    assert_eq!(new_movement(true), Movement::Horizontal { current_dir: Dir::Left });
    assert_eq!(new_movement(false), Movement::Circle { rotation_dir: RotationDir::Clockwise });
}

#[test]
fn one_enemy_is_made_up_for_each_request() {
    let units = vec!["scout", "tank", "drone"];
    let spawns = spawn_enemy(&units, 50);
    assert_eq!(spawns.len(), 50);
    for spawn in &spawns {
        assert!(units.contains(spawn.unit));
        assert!(
            spawn.movement == new_movement(true) || spawn.movement == new_movement(false)
        );
    }
    assert!(spawn_enemy(&units, 0).is_empty());
    let none: Vec<&str> = Vec::new();
    assert!(spawn_enemy(&none, 0).is_empty());
}

#[test]
fn a_single_unit_is_always_drawn() {
    let units = vec![7u8];
    for spawn in spawn_enemy(&units, 10) {
        assert_eq!(*spawn.unit, 7);
        assert!(std::ptr::eq(spawn.unit, &units[0]));
    }
}

#[test]
fn the_first_enemy_that_does_not_chase_is_set_on_the_player() {
    let movements = vec![
        (10, Movement::Chase { target: None }),
        (11, Movement::Chase { target: Some(1) }),
        (12, Movement::Static),
        (13, Movement::Horizontal { current_dir: Dir::Left }),
    ];
    assert_eq!(
        test_chase(true, &vec![1], &movements),
        Some((12, Movement::Chase { target: Some(1) }))
    );
}

#[test]
fn no_chase_without_key_or_without_exactly_one_player() {
    let movements = vec![(12, Movement::Static)];
    assert_eq!(test_chase(false, &vec![1], &movements), None);
    assert_eq!(test_chase(true, &vec![], &movements), None);
    assert_eq!(test_chase(true, &vec![1, 2], &movements), None);
}

#[test]
fn no_chase_when_all_chase_already() {
    let movements = vec![(10, Movement::Chase { target: None }), (11, Movement::Chase { target: Some(1) })];
    assert_eq!(test_chase(true, &vec![1], &movements), None);
    assert_eq!(test_chase(true, &vec![1], &vec![]), None);
}

#[test]
fn every_enemy_shoots() {
    let mut shots = vec![ShootEvent { shooter: 1 }];
    enemy_shoot(&vec![10, 11, 12], &mut shots);
    assert_eq!(
        shots,
        vec![
            ShootEvent { shooter: 1 },
            ShootEvent { shooter: 10 },
            ShootEvent { shooter: 11 },
            ShootEvent { shooter: 12 },
        ]
    );
    enemy_shoot(&vec![], &mut shots);
    assert_eq!(shots.len(), 4);
}
