//! The player: steering, shooting, and the end of the game.

use crate::combat::components::{Health, Scores};
use crate::combat::events::ShootEvent;
use crate::states::GameState;
use crate::Entity;
use vstd::prelude::*;

verus! {

/// The game is over, with this final score.
#[derive(Debug, Clone, Copy, PartialEq, Eq, Structural)]
pub struct GameOverEvent {
    pub score: u32,
}

/// The score that a player leaves the game with: what its scores say, and
/// nothing without any.
pub open spec fn final_score(scores: Option<Scores>) -> u32 {
    match scores {
        Some(scores) => scores.amount,
        None => 0,
    }
}

/// What the death watch sends for the players whose health changed: with
/// exactly one such player, and that one dead, the end of the game.
pub open spec fn game_over_of(players: Seq<(Health, Option<Scores>)>) -> Seq<GameOverEvent> {
    if players.len() == 1 && players[0].0.current == 0 {
        seq![GameOverEvent { score: final_score(players[0].1) }]
    } else {
        seq![]
    }
}

/// Watches for the player's death.
///
/// `players` holds the players whose health changed, each with its scores
/// if it has any. If there is exactly one and it is dead, a game-over event
/// with its score is sent to `game_over_events`.
pub fn track_player_dead(
    players: &Vec<(Health, Option<Scores>)>,
    game_over_events: &mut Vec<GameOverEvent>,
)
    ensures
        final(game_over_events)@ == old(game_over_events)@ + game_over_of(players@),
{
    if players.len() == 1 {
        let (health, scores) = players[0];
        if health.is_dead() {
            let score = match scores {
                Some(scores) => scores.amount,
                None => 0,
            };
            game_over_events.push(GameOverEvent { score });
        }
    }
}

/// Ends the game: any game-over event asks for the game-over phase.
pub fn handle_game_over(events: &Vec<GameOverEvent>) -> (next: Option<GameState>)
    ensures
        next == if events@.len() > 0 {
            Some(GameState::GameOver)
        } else {
            None
        },
{
    if events.len() > 0 {
        Some(GameState::GameOver)
    } else {
        None
    }
}

/// The pull on one axis from the two keys that act on it: -1, 0 or 1.
pub open spec fn axis(negative: bool, positive: bool) -> int {
    (if positive { 1int } else { 0 }) - (if negative { 1int } else { 0 })
}

/// Steers the player: the pull on the x axis and on the y axis that the
/// pressed direction keys add up to. Opposite keys cancel.
pub fn player_movement(up: bool, down: bool, left: bool, right: bool) -> (r: (i8, i8))
    ensures
        r.0 == axis(left, right),
        r.1 == axis(down, up),
{
    let x_axis: i8 = -(if left { 1i8 } else { 0i8 }) + (if right { 1i8 } else { 0i8 });
    let y_axis: i8 = -(if down { 1i8 } else { 0i8 }) + (if up { 1i8 } else { 0i8 });
    (x_axis, y_axis)
}

/// Pulls the trigger: while the fire key is down, one shoot event is sent
/// for each of `players`, in order.
pub fn player_shoot(pressed: bool, players: &Vec<Entity>, shoot_events: &mut Vec<ShootEvent>)
    ensures
        final(shoot_events)@ == old(shoot_events)@ + if pressed {
            players@.map_values(|shooter: Entity| ShootEvent { shooter })
        } else {
            seq![]
        },
{
    if pressed {
        let mut i: usize = 0;
        while i < players.len()
            invariant
                i <= players@.len(),
                shoot_events@ == old(shoot_events)@ + players@.take(i as int).map_values(
                    |shooter: Entity| ShootEvent { shooter },
                ),
            decreases players@.len() - i,
        {
            shoot_events.push(ShootEvent { shooter: players[i] });
            proof {
                assert(shoot_events@ == old(shoot_events)@ + players@.take(i + 1).map_values(
                    |shooter: Entity| ShootEvent { shooter },
                ));
            }
            i += 1;
        }
    }
}

} // verus!
