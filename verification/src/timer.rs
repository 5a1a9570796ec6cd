//! The engine's timer, as far as the rules of the game rely on it.
//!
//! Verus sees nothing inside a `Timer`. What its getters return is named
//! here, one name per getter, and the contracts of the calls that the rules
//! make are stated over those names. None of these contracts is proved: each
//! says what the engine's source shows. The rules make one-shot timers only,
//! but a timer's mode is open to whoever holds it, so a tick is stated for
//! repeating timers too.

use bevy::prelude::Timer;
use std::time::Duration;
use vstd::prelude::*;

verus! {

/// The engine's `Timer`, taken as a whole: nothing of its fields is read.
#[verifier::external_type_specification]
#[verifier::external_body]
pub struct ExTimer(Timer);

/// What `Duration::as_nanos` returns for `d`: its length in nanoseconds.
pub uninterp spec fn duration_nanos(d: Duration) -> nat;

/// What `Timer::duration` returns for `t`, in nanoseconds.
pub uninterp spec fn timer_duration(t: Timer) -> nat;

/// What `Timer::elapsed` returns for `t`, in nanoseconds.
pub uninterp spec fn timer_elapsed(t: Timer) -> nat;

/// What `Timer::finished` returns for `t`.
pub uninterp spec fn timer_finished(t: Timer) -> bool;

/// What `Timer::just_finished` returns for `t`.
pub uninterp spec fn timer_just_finished(t: Timer) -> bool;

/// What `Timer::repeating` returns for `t`.
pub uninterp spec fn timer_repeating(t: Timer) -> bool;

/// What `Timer::paused` returns for `t`.
pub uninterp spec fn timer_paused(t: Timer) -> bool;

/// The longest span a `Duration` holds, in nanoseconds: `u64::MAX` seconds
/// and 999,999,999 nanoseconds.
pub open spec fn max_duration_nanos() -> nat {
    18_446_744_073_709_551_615 * 1_000_000_000 + 999_999_999
}

/// The state of a timer that its getters show, as plain values. Times are in
/// nanoseconds.
pub struct TimerView {
    pub duration: nat,
    pub elapsed: nat,
    pub finished: bool,
    pub just_finished: bool,
    pub repeating: bool,
    pub paused: bool,
}

impl TimerView {
    /// The state of a new one-shot timer of `duration`: nothing has elapsed
    /// and it runs.
    pub open spec fn fresh(duration: nat) -> TimerView {
        TimerView {
            duration,
            elapsed: 0,
            finished: false,
            just_finished: false,
            repeating: false,
            paused: false,
        }
    }

    /// The number of times that a repeating timer of this duration has run
    /// out once `total` has elapsed on it, as the timer counts them: in 32
    /// bits, so that the count starts over at 4,294,967,296.
    pub open spec fn times_finished(self, total: nat) -> nat
        recommends
            self.duration > 0,
    {
        if total >= self.duration {
            ((total / self.duration) % 0x1_0000_0000) as nat
        } else {
            0
        }
    }

    /// Whether the timer can take a tick by `delta`.
    ///
    /// A timer that is paused, or a one-shot timer that has finished, takes
    /// any tick: it does not add `delta`. Another timer adds it, and the sum
    /// has to stay within what a `Duration` can hold. A repeating timer
    /// divides by its duration, which then must not be zero.
    pub open spec fn can_tick(self, delta: nat) -> bool {
        ||| self.paused
        ||| !self.repeating && self.finished
        ||| self.elapsed + delta <= max_duration_nanos() && (self.repeating ==> self.duration > 0)
    }

    /// The state after a tick by `delta`.
    ///
    /// A paused timer keeps its state. A one-shot timer that has finished
    /// stays finished and is no longer "just" finished. Every other timer adds
    /// `delta` and is finished exactly if that reaches its duration. A
    /// one-shot timer then stops at its duration and has just finished. A
    /// repeating timer starts over as often as it ran out, and has just
    /// finished if its count of those times is not zero.
    pub open spec fn ticked(self, delta: nat) -> TimerView {
        let total = self.elapsed + delta;
        if self.paused {
            self
        } else if self.repeating {
            TimerView {
                elapsed: (total - self.duration * self.times_finished(total)) as nat,
                finished: total >= self.duration,
                just_finished: self.times_finished(total) > 0,
                ..self
            }
        } else if self.finished {
            TimerView { just_finished: false, ..self }
        } else if total >= self.duration {
            TimerView { elapsed: self.duration, finished: true, just_finished: true, ..self }
        } else {
            TimerView { elapsed: total, finished: false, just_finished: false, ..self }
        }
    }

    /// The state after a reset: the timer starts over, with the same
    /// duration, mode and pause.
    pub open spec fn reset(self) -> TimerView {
        TimerView { elapsed: 0, finished: false, just_finished: false, ..self }
    }
}

/// The state of `t` that its getters show.
pub open spec fn timer_view(t: Timer) -> TimerView {
    TimerView {
        duration: timer_duration(t),
        elapsed: timer_elapsed(t),
        finished: timer_finished(t),
        just_finished: timer_just_finished(t),
        repeating: timer_repeating(t),
        paused: timer_paused(t),
    }
}

/// `Duration::as_nanos`: the length in nanoseconds, which no `Duration`
/// takes past `u64::MAX` seconds and 999,999,999 nanoseconds.
pub assume_specification[ Duration::as_nanos ](d: &Duration) -> (r: u128)
    ensures
        r == duration_nanos(*d),
        r <= max_duration_nanos(),
;

/// `Duration::from_secs`: that many whole seconds.
pub assume_specification[ Duration::from_secs ](secs: u64) -> (r: Duration)
    ensures
        duration_nanos(r) == secs * 1_000_000_000,
;

/// `Timer::new`: a timer of the given duration and mode on which nothing
/// has elapsed, which has not finished and which is not paused.
pub assume_specification[ Timer::new ](duration: Duration, repeating: bool) -> (t: Timer)
    ensures
        timer_duration(t) == duration_nanos(duration),
        timer_repeating(t) == repeating,
        timer_elapsed(t) == 0,
        !timer_finished(t),
        !timer_just_finished(t),
        !timer_paused(t),
;

/// `Timer::duration`: the stored duration.
pub assume_specification[ Timer::duration ](t: &Timer) -> (r: Duration)
    ensures
        duration_nanos(r) == timer_duration(*t),
;

/// `Timer::elapsed`: the time ticked so far.
pub assume_specification[ Timer::elapsed ](t: &Timer) -> (r: Duration)
    ensures
        duration_nanos(r) == timer_elapsed(*t),
;

/// `Timer::finished`: the stored flag, which the last tick or reset set.
pub assume_specification[ Timer::finished ](t: &Timer) -> (r: bool)
    ensures
        r == timer_finished(*t),
;

/// `Timer::just_finished`: whether the last tick was the one that reached
/// the duration.
pub assume_specification[ Timer::just_finished ](t: &Timer) -> (r: bool)
    ensures
        r == timer_just_finished(*t),
;

/// `Timer::repeating`: the stored mode.
pub assume_specification[ Timer::repeating ](t: &Timer) -> (r: bool)
    ensures
        r == timer_repeating(*t),
;

/// `Timer::paused`: whether ticking is switched off.
pub assume_specification[ Timer::paused ](t: &Timer) -> (r: bool)
    ensures
        r == timer_paused(*t),
;

/// `Timer::reset`: clears the elapsed time and both flags, and leaves the
/// duration, the mode and the pause as they were.
pub assume_specification[ Timer::reset ](t: &mut Timer)
    ensures
        timer_duration(*final(t)) == timer_duration(*old(t)),
        timer_repeating(*final(t)) == timer_repeating(*old(t)),
        timer_paused(*final(t)) == timer_paused(*old(t)),
        timer_elapsed(*final(t)) == 0,
        !timer_finished(*final(t)),
        !timer_just_finished(*final(t)),
;

/// `Timer::tick`.
///
/// A paused timer returns at once, and so does a one-shot timer that has
/// finished, but for dropping its "just finished" mark. Every other timer
/// adds `delta` to the elapsed time and is finished exactly if that reaches
/// the duration. A one-shot timer is then set to its duration and has just
/// finished. A repeating timer counts in 32 bits how often the duration
/// fits into the elapsed time, takes the duration off that often, and has
/// just finished if the count is not zero.
///
/// The addition panics past the longest `Duration` and the count divides by
/// the duration: the `requires` leaves both out. What is taken off is no
/// more than what has elapsed, so nothing else can fail.
#[verifier::external_body]
pub(crate) fn tick(t: &mut Timer, delta: Duration)
    requires
        timer_paused(*old(t)) || (!timer_repeating(*old(t)) && timer_finished(*old(t))) || (
        timer_elapsed(*old(t)) + duration_nanos(delta) <= max_duration_nanos() && (
        timer_repeating(*old(t)) ==> timer_duration(*old(t)) > 0)),
    ensures
        timer_duration(*final(t)) == timer_duration(*old(t)),
        timer_repeating(*final(t)) == timer_repeating(*old(t)),
        timer_paused(*final(t)) == timer_paused(*old(t)),
        timer_paused(*old(t)) ==> {
            &&& timer_elapsed(*final(t)) == timer_elapsed(*old(t))
            &&& timer_finished(*final(t)) == timer_finished(*old(t))
            &&& timer_just_finished(*final(t)) == timer_just_finished(*old(t))
        },
        !timer_paused(*old(t)) && !timer_repeating(*old(t)) && timer_finished(*old(t)) ==> {
            &&& timer_elapsed(*final(t)) == timer_elapsed(*old(t))
            &&& timer_finished(*final(t))
            &&& !timer_just_finished(*final(t))
        },
        !timer_paused(*old(t)) && !timer_repeating(*old(t)) && !timer_finished(*old(t)) ==> {
            let total = timer_elapsed(*old(t)) + duration_nanos(delta);
            let done = total >= timer_duration(*old(t));
            &&& timer_finished(*final(t)) == done
            &&& timer_just_finished(*final(t)) == done
            &&& timer_elapsed(*final(t)) == if done {
                timer_duration(*old(t))
            } else {
                total
            }
        },
        !timer_paused(*old(t)) && timer_repeating(*old(t)) ==> {
            let total = timer_elapsed(*old(t)) + duration_nanos(delta);
            let done = total >= timer_duration(*old(t));
            let times = if done {
                ((total / timer_duration(*old(t))) % 0x1_0000_0000) as nat
            } else {
                0
            };
            &&& timer_finished(*final(t)) == done
            &&& timer_just_finished(*final(t)) == (times > 0)
            &&& timer_elapsed(*final(t)) == total - timer_duration(*old(t)) * times
        },
{
    t.tick(delta);
}

/// Whether `t` can take a tick by `delta`.
pub fn can_tick(t: &Timer, delta: Duration) -> (r: bool)
    ensures
        r == timer_view(*t).can_tick(duration_nanos(delta)),
{
    if t.paused() {
        return true;
    }
    let repeating = t.repeating();
    if !repeating && t.finished() {
        return true;
    }
    let elapsed: u128 = t.elapsed().as_nanos();
    let added: u128 = delta.as_nanos();
    let fits = elapsed + added <= 18_446_744_073_709_551_615 * 1_000_000_000 + 999_999_999;
    if repeating {
        fits && t.duration().as_nanos() > 0
    } else {
        fits
    }
}

/// Two ticks in a row bring a one-shot timer as far as one tick of their
/// sum: the same time has elapsed and the timer is finished or not alike.
/// (Whether it has "just" finished is a matter of the last tick alone.)
pub proof fn lemma_ticks_add_up(view: TimerView, first: nat, second: nat)
    requires
        !view.repeating,
    ensures
        view.ticked(first).ticked(second).elapsed == view.ticked(first + second).elapsed,
        view.ticked(first).ticked(second).finished == view.ticked(first + second).finished,
{
}

/// A new timer has finished after one tick exactly if the tick is as long
/// as its duration, and it takes every tick that a `Duration` can hold.
pub proof fn lemma_fresh_timer_finishes_on_time(duration: nat, delta: nat)
    ensures
        TimerView::fresh(duration).ticked(delta).finished == (delta >= duration),
        TimerView::fresh(duration).can_tick(delta) == (delta <= max_duration_nanos()),
{
}

/// A tick never takes a one-shot timer that was within its duration past
/// it, and never turns a finished one back.
pub proof fn lemma_tick_stays_within(view: TimerView, delta: nat)
    requires
        !view.repeating,
    ensures
        view.elapsed <= view.duration ==> view.ticked(delta).elapsed <= view.duration,
        view.finished ==> view.ticked(delta).finished,
{
}

/// A tick leaves a timer the kind of timer it was: its duration, its mode
/// and its pause stay.
pub proof fn lemma_tick_keeps_the_kind(view: TimerView, delta: nat)
    ensures
        view.ticked(delta).duration == view.duration,
        view.ticked(delta).repeating == view.repeating,
        view.ticked(delta).paused == view.paused,
{
}

/// A repeating timer wraps round: as long as it runs out fewer than
/// 4,294,967,296 times on one tick, what has elapsed after the tick is what
/// is left over of the sum when the duration is taken off as often as it
/// goes, and the timer has just finished exactly if it ran out at all.
pub proof fn lemma_repeating_timer_wraps(view: TimerView, delta: nat)
    requires
        view.repeating,
        !view.paused,
        view.duration > 0,
        (view.elapsed + delta) / view.duration < 0x1_0000_0000,
    ensures
        view.ticked(delta).elapsed == (view.elapsed + delta) % view.duration,
        view.ticked(delta).just_finished == (view.elapsed + delta >= view.duration),
        view.ticked(delta).finished == (view.elapsed + delta >= view.duration),
{
    let total = (view.elapsed + delta) as int;
    let duration = view.duration as int;
    vstd::arithmetic::div_mod::lemma_fundamental_div_mod(total, duration);
    vstd::arithmetic::div_mod::lemma_small_mod((total / duration) as nat, 0x1_0000_0000);
    if total >= duration {
        vstd::arithmetic::div_mod::lemma_div_non_zero(total, duration);
    } else {
        vstd::arithmetic::div_mod::lemma_small_mod(total as nat, duration as nat);
    }
}

} // verus!
