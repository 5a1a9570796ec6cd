//! Enemies: how many there are to be, where a new one comes from, how each
//! one moves and when it shoots.

use crate::combat::events::ShootEvent;
use crate::Entity;
use rand::seq::SliceRandom;
use std::collections::HashSet;
use vstd::prelude::*;

verus! {

/// The way an enemy on a horizontal patrol is heading.
#[derive(Debug, Clone, Copy, PartialEq, Eq, Structural)]
pub enum Dir {
    Left,
    Right,
}

impl Dir {
    /// The heading as a factor on the x axis: -1 to the left, 1 to the
    /// right.
    pub fn sign(&self) -> (r: i8)
        ensures
            r == match *self {
                Dir::Left => -1i8,
                Dir::Right => 1i8,
            },
    {
        match self {
            Dir::Left => -1,
            Dir::Right => 1,
        }
    }

    /// The heading of a patrol after it has looked at where it stands: at
    /// or past the lower bound it heads right, else at or past the upper
    /// bound it heads left, else it keeps going.
    pub open spec fn turned(self, at_min: bool, at_max: bool) -> Dir {
        if at_min {
            Dir::Right
        } else if at_max {
            Dir::Left
        } else {
            self
        }
    }
}

impl Default for Dir {
    fn default() -> (r: Self)
        ensures
            r == Dir::Left,
    {
        Self::Left
    }
}

/// The sense in which an enemy circles.
#[derive(Debug, Clone, Copy, PartialEq, Eq, Structural)]
pub enum RotationDir {
    Clockwise,
    CounterClockwise,
}

impl RotationDir {
    /// The sense as a factor on the angle: 1 clockwise, -1 counter-clockwise.
    pub fn sign(&self) -> (r: i8)
        ensures
            r == match *self {
                RotationDir::Clockwise => 1i8,
                RotationDir::CounterClockwise => -1i8,
            },
    {
        match self {
            RotationDir::Clockwise => 1,
            RotationDir::CounterClockwise => -1,
        }
    }
}

impl Default for RotationDir {
    fn default() -> (r: Self)
        ensures
            r == RotationDir::Clockwise,
    {
        Self::Clockwise
    }
}

/// How an enemy moves, as far as it is a matter of choice rather than of
/// geometry: the bounds of a patrol, the centre, radius and angle of a
/// circle are the engine's to keep.
#[derive(Debug, Clone, Copy, PartialEq, Eq)]
pub enum Movement {
    Static,
    Horizontal { current_dir: Dir },
    Chase { target: Option<Entity> },
    Circle { rotation_dir: RotationDir },
}

impl Default for Movement {
    fn default() -> (r: Self)
        ensures
            r == Movement::Static,
    {
        Self::Static
    }
}

impl Movement {
    /// A circle in the sense of `rotation_dir`.
    pub fn circle(rotation_dir: RotationDir) -> (r: Self)
        ensures
            r == (Movement::Circle { rotation_dir }),
    {
        Self::Circle { rotation_dir }
    }
}

/// What an enemy does in one frame.
#[derive(Debug, Clone, Copy, PartialEq, Eq)]
pub enum Step {
    /// It stays where it is.
    Stay,
    /// It slides along the x axis in this direction.
    Slide(Dir),
    /// It heads for this entity.
    Pursue(Entity),
    /// It takes its place on the circle and then turns in this sense.
    Orbit(RotationDir),
}

/// The step that `movement` takes in a frame, seen where the enemy stands:
/// `at_min` says that it is at or past the lower bound of its patrol,
/// `at_max` that it is at or past the upper one, and `targets` are the
/// entities that can be chased.
pub open spec fn step_of(
    movement: Movement,
    at_min: bool,
    at_max: bool,
    targets: Set<Entity>,
) -> Step {
    match movement {
        Movement::Static => Step::Stay,
        Movement::Horizontal { current_dir } => Step::Slide(current_dir.turned(at_min, at_max)),
        Movement::Chase { target: Some(target) } => if targets.contains(target) {
            Step::Pursue(target)
        } else {
            Step::Stay
        },
        Movement::Chase { target: None } => Step::Stay,
        Movement::Circle { rotation_dir } => Step::Orbit(rotation_dir),
    }
}

/// The movement after a frame. Only a patrol changes: it takes the heading
/// that it turned to.
pub open spec fn moved(movement: Movement, at_min: bool, at_max: bool) -> Movement {
    match movement {
        Movement::Horizontal { current_dir } => Movement::Horizontal {
            current_dir: current_dir.turned(at_min, at_max),
        },
        _ => movement,
    }
}

/// Moves one enemy by one frame: decides the step to take and keeps the
/// heading of a patrol up to date.
///
/// A patrol turns at its bounds and slides on. A chaser heads for its
/// target as long as the target is among `targets`, and else stays. A
/// circling enemy turns on. A static one stays.
pub fn movement(
    enemy: &mut Movement,
    at_min: bool,
    at_max: bool,
    targets: &HashSet<Entity>,
) -> (step: Step)
    ensures
        step == step_of(*old(enemy), at_min, at_max, targets@),
        *final(enemy) == moved(*old(enemy), at_min, at_max),
{
    match *enemy {
        Movement::Horizontal { current_dir } => {
            let dir = if at_min {
                Dir::Right
            } else if at_max {
                Dir::Left
            } else {
                current_dir
            };
            *enemy = Movement::Horizontal { current_dir: dir };
            Step::Slide(dir)
        },
        Movement::Chase { target } => {
            match target {
                Some(target) => {
                    if targets.contains(&target) {
                        Step::Pursue(target)
                    } else {
                        Step::Stay
                    }
                },
                None => Step::Stay,
            }
        },
        Movement::Circle { rotation_dir } => Step::Orbit(rotation_dir),
        Movement::Static => Step::Stay,
    }
}

/// Asks for a new enemy.
#[derive(Debug, Clone, Copy, PartialEq, Eq, Structural)]
pub struct SpawnEnemyEvent;

/// How many enemies there are to be.
pub const ENEMY_COUNT: usize = 3;

/// How many enemies to ask for, given how many there are: as many as are
/// missing.
pub fn count_enemies(enemy_count: usize) -> (missing: usize)
    ensures
        missing == if enemy_count < ENEMY_COUNT {
            ENEMY_COUNT - enemy_count
        } else {
            0
        },
{
    if enemy_count < ENEMY_COUNT {
        ENEMY_COUNT - enemy_count
    } else {
        0
    }
}

/// A new enemy: the unit it is made from and how it will move.
#[derive(Debug)]
pub struct Spawn<'a, T> {
    pub unit: &'a T,
    pub movement: Movement,
}

/// `SliceRandom::choose` with the thread's generator: nothing of an empty
/// slice, else one of its items. Which one is a matter of chance.
#[verifier::external_body]
fn choose_from<'a, T>(items: &'a Vec<T>) -> (r: Option<&'a T>)
    ensures
        items@.len() == 0 ==> r is None,
        items@.len() > 0 ==> r is Some && items@.contains(*r.unwrap()),
{
    items.choose(&mut rand::thread_rng())
}

/// `rand::random` for a `bool`: either value.
#[verifier::external_body]
fn random_bool() -> bool {
    rand::random::<bool>()
}

/// The movement of a new enemy, on the toss of a coin: a patrol that sets
/// out to the left, or a clockwise circle.
pub open spec fn new_movement_of(coin: bool) -> Movement {
    if coin {
        Movement::Horizontal { current_dir: Dir::Left }
    } else {
        Movement::Circle { rotation_dir: RotationDir::Clockwise }
    }
}

/// Gives a new enemy its movement, on the toss of a coin.
pub fn new_movement(coin: bool) -> (r: Movement)
    ensures
        r == new_movement_of(coin),
{
    if coin {
        Movement::Horizontal { current_dir: Dir::Left }
    } else {
        Movement::circle(RotationDir::Clockwise)
    }
}

/// Makes up the enemies that were asked for: `events` of them, each from a
/// unit drawn from `units` and with a movement that `new_movement` gives on
/// the toss of a coin. To make up any, there has to be a unit to draw.
pub fn spawn_enemy<'a, T>(units: &'a Vec<T>, events: usize) -> (spawns: Vec<Spawn<'a, T>>)
    requires
        events > 0 ==> units@.len() > 0,
    ensures
        spawns@.len() == events,
        forall|i: int|
            0 <= i < spawns@.len() ==> {
                &&& units@.contains(*(#[trigger] spawns@[i]).unit)
                &&& spawns@[i].movement == new_movement_of(true) || spawns@[i].movement
                    == new_movement_of(false)
            },
{
    let mut spawns: Vec<Spawn<'a, T>> = Vec::new();
    let mut i: usize = 0;
    while i < events
        invariant
            i <= events,
            events > 0 ==> units@.len() > 0,
            spawns@.len() == i,
            forall|j: int|
                0 <= j < spawns@.len() ==> {
                    &&& units@.contains(*(#[trigger] spawns@[j]).unit)
                    &&& spawns@[j].movement == new_movement_of(true) || spawns@[j].movement
                        == new_movement_of(false)
                },
        decreases events - i,
    {
        let unit = choose_from(units).unwrap();
        let coin = random_bool();
        let movement = new_movement(coin);
        spawns.push(Spawn { unit, movement });
        i += 1;
    }
    spawns
}

/// The entity that turns chaser, if any: the first of `movements` that does
/// not chase yet.
pub open spec fn first_idle(movements: Seq<(Entity, Movement)>) -> Option<Entity>
    decreases movements.len(),
{
    if movements.len() == 0 {
        None
    } else {
        match first_idle(movements.drop_last()) {
            Some(entity) => Some(entity),
            None => if movements.last().1 is Chase {
                None
            } else {
                Some(movements.last().0)
            },
        }
    }
}

/// Once an entity that does not chase has been found among the first `n`,
/// looking further finds the same one.
proof fn lemma_first_idle_extends(movements: Seq<(Entity, Movement)>, n: int)
    requires
        0 <= n <= movements.len(),
        first_idle(movements.take(n)) is Some,
    ensures
        first_idle(movements) == first_idle(movements.take(n)),
    decreases movements.len() - n,
{
    if n < movements.len() {
        assert(movements.take(n + 1).drop_last() == movements.take(n));
        lemma_first_idle_extends(movements, n + 1);
    } else {
        assert(movements.take(n) == movements);
    }
}

/// `first_idle` is the entity at the least index that does not chase, and
/// there is none exactly if all of them chase.
pub proof fn lemma_first_idle_is_least(movements: Seq<(Entity, Movement)>)
    ensures
        match first_idle(movements) {
            Some(entity) => exists|i: int|
                {
                    &&& 0 <= i < movements.len()
                    &&& (#[trigger] movements[i]).0 == entity
                    &&& !(movements[i].1 is Chase)
                    &&& forall|j: int| 0 <= j < i ==> (#[trigger] movements[j]).1 is Chase
                },
            None => forall|j: int| 0 <= j < movements.len() ==> (#[trigger] movements[j]).1 is Chase,
        },
    decreases movements.len(),
{
    if movements.len() > 0 {
        let front = movements.drop_last();
        lemma_first_idle_is_least(front);
        match first_idle(front) {
            Some(entity) => {
                let i = choose|i: int|
                    {
                        &&& 0 <= i < front.len()
                        &&& (#[trigger] front[i]).0 == entity
                        &&& !(front[i].1 is Chase)
                        &&& forall|j: int| 0 <= j < i ==> (#[trigger] front[j]).1 is Chase
                    };
                assert(movements[i] == front[i]);
                assert forall|j: int| 0 <= j < i implies (#[trigger] movements[j]).1 is Chase by {
                    assert(movements[j] == front[j]);
                }
            },
            None => {
                assert forall|j: int| 0 <= j < movements.len() - 1 implies (
                #[trigger] movements[j]).1 is Chase by {
                    assert(movements[j] == front[j]);
                }
                if !(movements.last().1 is Chase) {
                    assert(movements[movements.len() - 1] == movements.last());
                }
            },
        }
    }
}

/// On the press of the test key, sets an enemy on the player.
///
/// If there is exactly one player, the first of `movements` that does not
/// chase yet is returned with its new movement: the chase of that player.
/// Without the key press, with no player or several, or when all chase
/// already, nothing is returned.
pub fn test_chase(
    pressed: bool,
    players: &Vec<Entity>,
    movements: &Vec<(Entity, Movement)>,
) -> (r: Option<(Entity, Movement)>)
    ensures
        r == if pressed && players@.len() == 1 {
            match first_idle(movements@) {
                Some(entity) => Some((entity, Movement::Chase { target: Some(players@[0]) })),
                None => None,
            }
        } else {
            None
        },
{
    if !pressed {
        return None;
    }
    if players.len() != 1 {
        return None;
    }
    let player_entity = players[0];
    let mut i: usize = 0;
    while i < movements.len()
        invariant
            i <= movements@.len(),
            pressed,
            players@.len() == 1,
            player_entity == players@[0],
            first_idle(movements@.take(i as int)) is None,
        decreases movements@.len() - i,
    {
        proof {
            assert(movements@.take(i + 1).drop_last() == movements@.take(i as int));
        }
        let (entity, movement) = movements[i];
        match movement {
            Movement::Chase { .. } => {},
            _ => {
                proof {
                    assert(movements@.take(i + 1).last() == movements@[i as int]);
                    lemma_first_idle_extends(movements@, i + 1);
                }
                return Some((entity, Movement::Chase { target: Some(player_entity) }));
            },
        }
        i += 1;
    }
    proof {
        assert(movements@.take(i as int) == movements@);
    }
    None
}

/// Every enemy pulls the trigger, every frame: one shoot event is sent for
/// each of `enemies`, in order.
pub fn enemy_shoot(enemies: &Vec<Entity>, shoot_events: &mut Vec<ShootEvent>)
    ensures
        final(shoot_events)@ == old(shoot_events)@ + enemies@.map_values(
            |shooter: Entity| ShootEvent { shooter },
        ),
{
    let mut i: usize = 0;
    while i < enemies.len()
        invariant
            i <= enemies@.len(),
            shoot_events@ == old(shoot_events)@ + enemies@.take(i as int).map_values(
                |shooter: Entity| ShootEvent { shooter },
            ),
        decreases enemies@.len() - i,
    {
        shoot_events.push(ShootEvent { shooter: enemies[i] });
        proof {
            assert(shoot_events@ == old(shoot_events)@ + enemies@.take(i + 1).map_values(
                |shooter: Entity| ShootEvent { shooter },
            ));
        }
        i += 1;
    }
}

} // verus!
