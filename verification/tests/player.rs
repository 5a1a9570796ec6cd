use game_plugin::combat::components::{Health, Scores};
use game_plugin::combat::events::ShootEvent;
use game_plugin::player::{
    handle_game_over, player_movement, player_shoot, track_player_dead, GameOverEvent,
};
use game_plugin::states::GameState;

#[test]
fn the_death_of_the_player_ends_the_game_with_its_score() {
    let mut events = Vec::new();
    track_player_dead(
        &vec![(Health { current: 0, max: 3 }, Some(Scores { amount: 42 }))],
        &mut events,
    );
    assert_eq!(events, vec![GameOverEvent { score: 42 }]);
}

#[test]
fn a_player_without_scores_ends_with_none() {
    let mut events = Vec::new();
    track_player_dead(&vec![(Health { current: 0, max: 3 }, None)], &mut events);
    assert_eq!(events, vec![GameOverEvent { score: 0 }]);
}

#[test]
fn a_living_player_plays_on() {
    let mut events = Vec::new();
    track_player_dead(&vec![(Health { current: 1, max: 3 }, Some(Scores { amount: 42 }))], &mut events);
    assert!(events.is_empty());
}

#[test]
fn no_player_or_several_end_nothing() {
    let mut events = vec![GameOverEvent { score: 1 }];
    let dead = (Health { current: 0, max: 3 }, Some(Scores { amount: 42 }));
    track_player_dead(&vec![], &mut events);
    track_player_dead(&vec![dead, dead], &mut events);
    assert_eq!(events, vec![GameOverEvent { score: 1 }]);
}

#[test]
fn any_game_over_event_asks_for_the_game_over_phase() {
    assert_eq!(handle_game_over(&vec![]), None);
    assert_eq!(handle_game_over(&vec![GameOverEvent { score: 0 }]), Some(GameState::GameOver));
    assert_eq!(
        handle_game_over(&vec![GameOverEvent { score: 3 }, GameOverEvent { score: 4 }]),
        Some(GameState::GameOver)
    );
}

#[test]
fn the_direction_keys_pull_on_their_axes() {
    assert_eq!(player_movement(false, false, false, false), (0, 0));
    assert_eq!(player_movement(true, false, false, false), (0, 1));
    assert_eq!(player_movement(false, true, false, false), (0, -1));
    assert_eq!(player_movement(false, false, true, false), (-1, 0));
    assert_eq!(player_movement(false, false, false, true), (1, 0));
    assert_eq!(player_movement(true, false, false, true), (1, 1));
    assert_eq!(player_movement(false, true, true, false), (-1, -1));
}

#[test]
fn opposite_keys_cancel() {
    assert_eq!(player_movement(true, true, false, false), (0, 0));
    assert_eq!(player_movement(false, false, true, true), (0, 0));
    assert_eq!(player_movement(true, true, true, true), (0, 0));
    assert_eq!(player_movement(true, true, false, true), (1, 0));
}

#[test]
fn the_fire_key_makes_every_player_shoot() {
    let mut shots = Vec::new();
    player_shoot(true, &vec![1, 2], &mut shots);
    assert_eq!(shots, vec![ShootEvent { shooter: 1 }, ShootEvent { shooter: 2 }]);
    player_shoot(false, &vec![1, 2], &mut shots);
    assert_eq!(shots.len(), 2);
    player_shoot(true, &vec![], &mut shots);
    assert_eq!(shots.len(), 2);
}
