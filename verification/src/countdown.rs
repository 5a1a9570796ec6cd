//! The countdown before play begins.

use crate::states::GameState;
use crate::timer::{duration_nanos, tick, timer_view, TimerView};
use bevy::prelude::Timer;
use std::time::Duration;
use vstd::prelude::*;

verus! {

/// The time left until play begins.
#[derive(Debug)]
pub struct CountdownTimer(pub Timer);

impl View for CountdownTimer {
    type V = TimerView;

    open spec fn view(&self) -> TimerView {
        timer_view(self.0)
    }
}

impl CountdownTimer {
    /// A countdown from `duration`.
    pub fn new(duration: Duration) -> (r: Self)
        ensures
            r@ == TimerView::fresh(duration_nanos(duration)),
    {
        Self(Timer::new(duration, false))
    }
}

/// How long the countdown takes, in seconds.
pub const COUNTDOWN_SECS: u64 = 3;

/// Sets the countdown up: a countdown from three seconds.
pub fn setup_countdown() -> (countdown: CountdownTimer)
    ensures
        countdown@ == TimerView::fresh(3_000_000_000),
{
    CountdownTimer::new(Duration::from_secs(COUNTDOWN_SECS))
}

/// Counts down by `delta`. On the tick on which the countdown runs out,
/// and on no other, play is asked to begin.
pub fn track_countdown(countdown: &mut CountdownTimer, delta: Duration) -> (next: Option<
    GameState,
>)
    requires
        old(countdown)@.can_tick(duration_nanos(delta)),
    ensures
        final(countdown)@ == old(countdown)@.ticked(duration_nanos(delta)),
        next == if final(countdown)@.just_finished {
            Some(GameState::Gameplay)
        } else {
            None
        },
{
    tick(&mut countdown.0, delta);
    if countdown.0.just_finished() {
        Some(GameState::Gameplay)
    } else {
        None
    }
}

} // verus!
