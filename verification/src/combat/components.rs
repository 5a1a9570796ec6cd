//! What units, weapons and bullets carry.

use crate::timer::{duration_nanos, timer_view, TimerView};
use bevy::prelude::Timer;
use std::time::Duration;
use vstd::prelude::*;

verus! {

/// The points a player has collected.
#[derive(Debug, Clone, Copy, PartialEq, Eq, Structural)]
pub struct Scores {
    pub amount: u32,
}

impl Default for Scores {
    fn default() -> (r: Self)
        ensures
            r.amount == 0,
    {
        Scores { amount: 0 }
    }
}

/// The points a unit is worth to the player when it dies.
#[derive(Debug, Clone, Copy, PartialEq, Eq, Structural)]
pub struct Loot {
    pub score: u32,
}

impl Default for Loot {
    fn default() -> (r: Self)
        ensures
            r.score == 0,
    {
        Loot { score: 0 }
    }
}

/// How much damage a unit can still take, and how much it could take at
/// first.
#[derive(Debug, Clone, Copy, PartialEq, Eq, Structural)]
pub struct Health {
    pub current: u32,
    pub max: u32,
}

impl Health {
    /// A health is well formed if it holds no more than its maximum.
    pub open spec fn wf(self) -> bool {
        self.current <= self.max
    }

    /// This health after a hit of `damage`: the damage is taken off, and
    /// what goes past zero is lost.
    pub open spec fn damaged(self, damage: u32) -> Health {
        Health {
            current: if damage >= self.current {
                0
            } else {
                (self.current - damage) as u32
            },
            max: self.max,
        }
    }

    /// Full health of `amount`.
    pub fn new(amount: u32) -> (r: Self)
        ensures
            r.current == amount,
            r.max == amount,
            r.wf(),
    {
        Self { current: amount, max: amount }
    }

    /// A unit is dead once nothing is left of its health.
    pub fn is_dead(&self) -> (r: bool)
        ensures
            r == (self.current == 0),
    {
        self.current == 0
    }
}

/// The damage that a weapon gives its bullets.
#[derive(Debug, Clone, Copy, PartialEq, Eq, Structural)]
pub struct Damage(pub u32);

impl Default for Damage {
    fn default() -> (r: Self)
        ensures
            r.0 == 0,
    {
        Damage(0)
    }
}

/// A bullet in flight and the damage it deals on contact.
#[derive(Debug, Clone, Copy, PartialEq, Eq, Structural)]
pub struct Bullet {
    pub damage: u32,
}

/// The time a weapon needs between two shots: a timer that a shot resets
/// and that has to finish before the next one.
#[derive(Debug)]
pub struct Cooldown(pub Timer);

impl View for Cooldown {
    type V = TimerView;

    open spec fn view(&self) -> TimerView {
        timer_view(self.0)
    }
}

impl Cooldown {
    /// A cooldown of `duration` that has just begun.
    pub fn new(duration: Duration) -> (r: Self)
        ensures
            r@ == TimerView::fresh(duration_nanos(duration)),
    {
        Self(Timer::new(duration, false))
    }
}

} // verus!
