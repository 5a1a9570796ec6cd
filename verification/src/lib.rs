//! Rules of a 2D arcade shooter: the game's phases, combat resolution and
//! enemy behaviour, stated over plain values so that an engine front end can
//! feed them and apply what they decide.
//!
//! A system of the game reads component tables and event queues, and writes
//! events and commands. Here a table that is looked up by entity is a
//! `HashMap` keyed by the entity, a table that is walked is a `Vec` of rows
//! in the order of the walk, an event queue is a `Vec`, and what a system
//! asks the engine to do is what it returns.

pub mod audio;
pub mod combat;
pub mod countdown;
pub mod enemy;
pub mod game_over;
pub mod game_ui;
pub mod main_menu;
pub mod player;
pub mod states;
pub mod timer;

use bevy::prelude::Timer;
use std::time::Duration;
use vstd::prelude::*;

verus! {

/// An entity of the game world, by the bits of its engine handle.
pub type Entity = u64;

/// Marks an entity as made by another, such as a bullet by its shooter.
#[derive(Debug, Clone, Copy, PartialEq, Eq, Structural)]
pub struct Owner {
    pub entity: Entity,
}

/// Removes its entity from the world once the timer runs out.
#[derive(Debug)]
pub struct Lifetime {
    pub timer: Timer,
}

impl View for Lifetime {
    type V = timer::TimerView;

    open spec fn view(&self) -> timer::TimerView {
        timer::timer_view(self.timer)
    }
}

impl Lifetime {
    /// A lifetime of `duration` that has just begun.
    pub fn new(duration: Duration) -> (r: Self)
        ensures
            r@ == timer::TimerView::fresh(timer::duration_nanos(duration)),
    {
        Self { timer: Timer::new(duration, false) }
    }
}

/// The entities of `rows` whose timer has just finished, in order.
pub open spec fn expired(rows: Seq<(Entity, Lifetime)>) -> Seq<Entity>
    decreases rows.len(),
{
    if rows.len() == 0 {
        seq![]
    } else {
        let rest = expired(rows.drop_last());
        if rows.last().1@.just_finished {
            rest.push(rows.last().0)
        } else {
            rest
        }
    }
}

/// Whether every timer in `rows` can take a tick by `delta`.
pub open spec fn lifetimes_can_tick(rows: Seq<(Entity, Lifetime)>, delta: Duration) -> bool {
    forall|i: int|
        0 <= i < rows.len() ==> (#[trigger] rows[i]).1@.can_tick(timer::duration_nanos(delta))
}

/// Ages every row of `query` by `delta` and returns the entities to despawn:
/// those whose timer ran out on this very tick, in the order of the rows.
pub fn track_lifetime(query: &mut Vec<(Entity, Lifetime)>, delta: Duration) -> (despawned: Vec<
    Entity,
>)
    requires
        lifetimes_can_tick(old(query)@, delta),
    ensures
        final(query)@.len() == old(query)@.len(),
        forall|i: int|
            0 <= i < old(query)@.len() ==> {
                &&& (#[trigger] final(query)@[i]).0 == old(query)@[i].0
                &&& final(query)@[i].1@ == old(query)@[i].1@.ticked(timer::duration_nanos(delta))
            },
        despawned@ == expired(final(query)@),
{
    let mut despawned: Vec<Entity> = Vec::new();
    let mut i: usize = 0;
    while i < query.len()
        invariant
            i <= query@.len(),
            query@.len() == old(query)@.len(),
            forall|j: int|
                0 <= j < i ==> {
                    &&& (#[trigger] query@[j]).0 == old(query)@[j].0
                    &&& query@[j].1@ == old(query)@[j].1@.ticked(timer::duration_nanos(delta))
                },
            forall|j: int| i <= j < query@.len() ==> query@[j] == old(query)@[j],
            lifetimes_can_tick(old(query)@, delta),
            despawned@ == expired(query@.take(i as int)),
        decreases query@.len() - i,
    {
        let ghost before = query@;
        let row = &mut query[i];
        timer::tick(&mut row.1.timer, delta);
        if row.1.timer.just_finished() {
            despawned.push(row.0);
        }
        proof {
            assert(query@.take(i as int) == before.take(i as int));
            assert(query@.take(i + 1).drop_last() == query@.take(i as int));
        }
        i += 1;
    }
    proof {
        assert(query@.take(i as int) == query@);
    }
    despawned
}

} // verus!
