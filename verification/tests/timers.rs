use std::time::Duration;

use bevy::prelude::Timer;
use game_plugin::combat::components::Cooldown;
use game_plugin::combat::systems::update_cooldowns;
use game_plugin::countdown::{setup_countdown, track_countdown, CountdownTimer, COUNTDOWN_SECS};
use game_plugin::states::GameState;
use game_plugin::timer::can_tick;
use game_plugin::{track_lifetime, Lifetime};

fn one_shot(millis: u64) -> Timer {
    Timer::new(Duration::from_millis(millis), false)
}

fn tick(cooldown: Cooldown, delta: Duration) -> Cooldown {
    let mut cooldowns = vec![cooldown];
    update_cooldowns(delta, &mut cooldowns);
    cooldowns.remove(0)
}

#[test]
fn a_tick_adds_up_until_the_duration() {
    let cooldown = tick(Cooldown(one_shot(200)), Duration::from_millis(150));
    assert_eq!(cooldown.0.elapsed(), Duration::from_millis(150));
    assert!(!cooldown.0.finished());
    assert!(!cooldown.0.just_finished());
    let cooldown = tick(cooldown, Duration::from_millis(150));
    assert_eq!(cooldown.0.elapsed(), Duration::from_millis(200));
    assert!(cooldown.0.finished());
    assert!(cooldown.0.just_finished());
    let cooldown = tick(cooldown, Duration::from_millis(150));
    assert_eq!(cooldown.0.elapsed(), Duration::from_millis(200));
    assert_eq!(cooldown.0.duration(), Duration::from_millis(200));
    assert!(cooldown.0.finished());
    assert!(!cooldown.0.just_finished());
    assert!(!cooldown.0.repeating());
    assert!(!cooldown.0.paused());
}

#[test]
fn a_tick_that_lands_on_the_duration_finishes() {
    let cooldown = tick(Cooldown(one_shot(200)), Duration::from_millis(200));
    assert!(cooldown.0.finished());
    assert!(cooldown.0.just_finished());
    let short = tick(Cooldown(one_shot(200)), Duration::from_nanos(199_999_999));
    assert!(!short.0.finished());
}

#[test]
fn a_timer_of_no_duration_finishes_on_its_first_tick() {
    let cooldown = Cooldown(one_shot(0));
    assert!(!cooldown.0.finished());
    let cooldown = tick(cooldown, Duration::ZERO);
    assert!(cooldown.0.finished());
    assert!(cooldown.0.just_finished());
}

#[test]
fn a_paused_timer_stands_still() {
    let mut cooldown = tick(Cooldown(one_shot(200)), Duration::from_millis(50));
    cooldown.0.pause();
    let cooldown = tick(cooldown, Duration::from_millis(500));
    assert_eq!(cooldown.0.elapsed(), Duration::from_millis(50));
    assert!(!cooldown.0.finished());
    assert!(cooldown.0.paused());
}

#[test]
fn two_ticks_go_as_far_as_one_of_their_sum() {
    for (first, second) in [(50, 60), (150, 60), (250, 60), (0, 200), (200, 0)] {
        let twice = tick(
            tick(Cooldown(one_shot(200)), Duration::from_millis(first)),
            Duration::from_millis(second),
        );
        let once = tick(Cooldown(one_shot(200)), Duration::from_millis(first + second));
        assert_eq!(twice.0.elapsed(), once.0.elapsed());
        assert_eq!(twice.0.finished(), once.0.finished());
    }
}

#[test]
fn a_tick_to_the_end_of_time_is_taken() {
    let mut timer = Timer::new(Duration::MAX, false);
    timer.set_elapsed(Duration::from_nanos(1));
    let delta = Duration::MAX - Duration::from_nanos(1);
    assert!(can_tick(&timer, delta));
    let cooldown = tick(Cooldown(timer), delta);
    assert!(cooldown.0.finished());
    assert_eq!(cooldown.0.elapsed(), Duration::MAX);
}

#[test]
fn the_guard_refuses_overlong_ticks() {
    assert!(can_tick(&one_shot(200), Duration::from_millis(16)));
    assert!(can_tick(&one_shot(200), Duration::MAX));

    let mut late = Timer::new(Duration::MAX, false);
    late.set_elapsed(Duration::from_nanos(1));
    assert!(!can_tick(&late, Duration::MAX));
    assert!(can_tick(&late, Duration::MAX - Duration::from_nanos(1)));
    late.pause();
    assert!(can_tick(&late, Duration::MAX));

    let mut done = one_shot(1);
    done.tick(Duration::from_millis(1));
    done.set_elapsed(Duration::MAX);
    assert!(can_tick(&done, Duration::MAX));
}

#[test]
fn the_guard_refuses_a_repeating_timer_of_no_duration() {
    assert!(can_tick(&Timer::new(Duration::from_millis(200), true), Duration::from_millis(16)));
    assert!(can_tick(&Timer::new(Duration::from_nanos(1), true), Duration::ZERO));
    assert!(!can_tick(&Timer::new(Duration::ZERO, true), Duration::from_millis(16)));
    assert!(!can_tick(&Timer::new(Duration::ZERO, true), Duration::ZERO));

    let mut paused = Timer::new(Duration::ZERO, true);
    paused.pause();
    assert!(can_tick(&paused, Duration::from_millis(16)));

    // A repeating timer goes on adding after it has finished.
    let mut late = Timer::new(Duration::MAX, true);
    late.tick(Duration::MAX);
    assert!(late.finished());
    late.set_elapsed(Duration::from_nanos(1));
    assert!(!can_tick(&late, Duration::MAX));
    assert!(can_tick(&late, Duration::MAX - Duration::from_nanos(1)));
}

#[test]
fn a_repeating_timer_wraps_round() {
    let cooldown = tick(
        Cooldown(Timer::new(Duration::from_millis(200), true)),
        Duration::from_millis(500),
    );
    assert_eq!(cooldown.0.elapsed(), Duration::from_millis(100));
    assert!(cooldown.0.finished());
    assert!(cooldown.0.just_finished());
    assert_eq!(cooldown.0.times_finished(), 2);
    assert!(cooldown.0.repeating());

    let cooldown = tick(cooldown, Duration::from_millis(50));
    assert_eq!(cooldown.0.elapsed(), Duration::from_millis(150));
    assert!(!cooldown.0.finished());
    assert!(!cooldown.0.just_finished());

    let cooldown = tick(cooldown, Duration::from_millis(50));
    assert_eq!(cooldown.0.elapsed(), Duration::ZERO);
    assert!(cooldown.0.finished());
    assert!(cooldown.0.just_finished());
    assert_eq!(cooldown.0.duration(), Duration::from_millis(200));
}

#[test]
fn a_repeating_timer_counts_in_32_bits() {
    let often = Duration::from_nanos(1 << 32);
    let cooldown = tick(Cooldown(Timer::new(Duration::from_nanos(1), true)), often);
    assert!(cooldown.0.finished());
    assert!(!cooldown.0.just_finished());
    assert_eq!(cooldown.0.elapsed(), often);

    let cooldown = tick(
        Cooldown(Timer::new(Duration::from_nanos(1), true)),
        often + Duration::from_nanos(3),
    );
    assert!(cooldown.0.finished());
    assert!(cooldown.0.just_finished());
    assert_eq!(cooldown.0.times_finished(), 3);
    assert_eq!(cooldown.0.elapsed(), often);

    let cooldown = tick(
        Cooldown(Timer::new(Duration::from_nanos(1), true)),
        often - Duration::from_nanos(1),
    );
    assert!(cooldown.0.just_finished());
    assert_eq!(cooldown.0.elapsed(), Duration::ZERO);
}

#[test]
fn all_cooldowns_tick_together() {
    let mut cooldowns = vec![Cooldown(one_shot(100)), Cooldown(one_shot(200)), Cooldown(one_shot(300))];
    update_cooldowns(Duration::from_millis(200), &mut cooldowns);
    assert!(cooldowns[0].0.finished());
    assert!(cooldowns[1].0.finished());
    assert!(!cooldowns[2].0.finished());
    assert_eq!(cooldowns[0].0.elapsed(), Duration::from_millis(100));
    assert_eq!(cooldowns[2].0.elapsed(), Duration::from_millis(200));
    let mut none: Vec<Cooldown> = Vec::new();
    update_cooldowns(Duration::from_millis(200), &mut none);
    assert!(none.is_empty());
}

#[test]
fn an_entity_is_despawned_on_the_tick_its_lifetime_ends() {
    let mut rows = vec![
        (1, Lifetime { timer: one_shot(1000) }),
        (2, Lifetime { timer: one_shot(500) }),
        (3, Lifetime { timer: one_shot(400) }),
    ];
    assert_eq!(track_lifetime(&mut rows, Duration::from_millis(450)), vec![3]);
    assert_eq!(track_lifetime(&mut rows, Duration::from_millis(450)), vec![2]);
    assert_eq!(track_lifetime(&mut rows, Duration::from_millis(450)), vec![1]);
    assert!(track_lifetime(&mut rows, Duration::from_millis(450)).is_empty());
    assert_eq!(rows.len(), 3);
    assert_eq!(rows[0].0, 1);
    assert!(rows[0].1.timer.finished());
}

#[test]
fn play_begins_when_the_countdown_runs_out_and_only_then() {
    let mut countdown = CountdownTimer(Timer::new(Duration::from_secs(3), false));
    assert_eq!(track_countdown(&mut countdown, Duration::from_secs(1)), None);
    assert_eq!(track_countdown(&mut countdown, Duration::from_secs(1)), None);
    assert_eq!(track_countdown(&mut countdown, Duration::from_secs(1)), Some(GameState::Gameplay));
    assert_eq!(track_countdown(&mut countdown, Duration::from_secs(1)), None);
    assert_eq!(countdown.0.elapsed(), Duration::from_secs(3));
}

#[test]
fn a_new_cooldown_has_just_begun() {
    let cooldown = Cooldown::new(Duration::from_millis(200));
    assert_eq!(cooldown.0.duration(), Duration::from_millis(200));
    assert_eq!(cooldown.0.elapsed(), Duration::ZERO);
    assert!(!cooldown.0.finished());
    assert!(!cooldown.0.just_finished());
    assert!(!cooldown.0.repeating());
    assert!(!cooldown.0.paused());
    assert!(can_tick(&cooldown.0, Duration::MAX));
}

#[test]
fn a_new_timer_finishes_on_a_tick_as_long_as_its_duration() {
    for (duration, delta) in [(200, 199), (200, 200), (200, 201), (0, 0), (1, 0)] {
        let cooldown = tick(
            Cooldown::new(Duration::from_millis(duration)),
            Duration::from_millis(delta),
        );
        assert_eq!(cooldown.0.finished(), delta >= duration);
    }
}

#[test]
fn a_new_lifetime_and_a_new_countdown_are_one_shot_timers() {
    let lifetime = Lifetime::new(Duration::from_secs(1));
    assert_eq!(lifetime.timer.duration(), Duration::from_secs(1));
    assert!(!lifetime.timer.repeating());
    assert!(!lifetime.timer.finished());
    let mut rows = vec![(7, lifetime)];
    assert_eq!(track_lifetime(&mut rows, Duration::from_secs(1)), vec![7]);

    let mut countdown = CountdownTimer::new(Duration::from_secs(3));
    assert_eq!(countdown.0.duration(), Duration::from_secs(3));
    assert!(!countdown.0.repeating());
    assert_eq!(track_countdown(&mut countdown, Duration::from_secs(3)), Some(GameState::Gameplay));
}

#[test]
fn the_countdown_is_set_up_for_three_seconds() {
    assert_eq!(COUNTDOWN_SECS, 3);
    let mut countdown = setup_countdown();
    assert_eq!(countdown.0.duration(), Duration::from_secs_f32(3.0));
    assert_eq!(countdown.0.duration().as_nanos(), 3_000_000_000);
    assert_eq!(countdown.0.elapsed(), Duration::ZERO);
    assert!(!countdown.0.finished());
    assert!(!countdown.0.repeating());
    assert!(!countdown.0.paused());
    assert_eq!(track_countdown(&mut countdown, Duration::from_nanos(2_999_999_999)), None);
    assert_eq!(track_countdown(&mut countdown, Duration::from_nanos(1)), Some(GameState::Gameplay));
}
