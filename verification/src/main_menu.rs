//! The main menu: what its buttons and keys ask for.

use crate::states::GameState;
use vstd::prelude::*;

verus! {

/// What the pointer does to a button.
#[derive(Debug, Clone, Copy, PartialEq, Eq, Structural)]
pub enum Interaction {
    Clicked,
    Hovered,
    /// The pointer is elsewhere.
    Idle,
}

/// The buttons of the main menu.
#[derive(Debug, Clone, Copy, PartialEq, Eq, Structural)]
pub enum MenuButtonTag {
    Start,
    Exit,
}

/// Asks for a new game.
#[derive(Debug, Clone, Copy, PartialEq, Eq, Structural)]
pub struct StartGameEvent;

/// What a menu asks for.
#[derive(Debug, Clone, Copy, PartialEq, Eq, Structural)]
pub enum MenuAction {
    /// Send a start-game event.
    StartGame,
    /// Leave the application.
    Exit,
}

/// The shade that a button is drawn in.
#[derive(Debug, Clone, Copy, PartialEq, Eq, Structural)]
pub enum ButtonColor {
    Normal,
    Hovered,
    Pressed,
}

/// The shade of a button under the pointer's doing: pressed while clicked,
/// hovered while the pointer is over it, normal else.
pub open spec fn color_of(interaction: Interaction) -> ButtonColor {
    match interaction {
        Interaction::Clicked => ButtonColor::Pressed,
        Interaction::Hovered => ButtonColor::Hovered,
        Interaction::Idle => ButtonColor::Normal,
    }
}

/// Shades the buttons. `interaction_query` holds the interactions that
/// changed, of buttons; returned is the new shade of each, in order.
pub fn button_color_system(interaction_query: &Vec<Interaction>) -> (colors: Vec<ButtonColor>)
    ensures
        colors@ == interaction_query@.map_values(|interaction: Interaction| color_of(interaction)),
{
    let mut colors: Vec<ButtonColor> = Vec::new();
    let mut i: usize = 0;
    while i < interaction_query.len()
        invariant
            i <= interaction_query@.len(),
            colors@ == interaction_query@.take(i as int).map_values(
                |interaction: Interaction| color_of(interaction),
            ),
        decreases interaction_query@.len() - i,
    {
        let color = match interaction_query[i] {
            Interaction::Clicked => ButtonColor::Pressed,
            Interaction::Hovered => ButtonColor::Hovered,
            Interaction::Idle => ButtonColor::Normal,
        };
        colors.push(color);
        proof {
            assert(colors@ == interaction_query@.take(i + 1).map_values(
                |interaction: Interaction| color_of(interaction),
            ));
        }
        i += 1;
    }
    proof {
        assert(interaction_query@.take(i as int) == interaction_query@);
    }
    colors
}

/// What a button of the main menu asks for when clicked.
pub open spec fn action_of(tag: MenuButtonTag) -> MenuAction {
    match tag {
        MenuButtonTag::Start => MenuAction::StartGame,
        MenuButtonTag::Exit => MenuAction::Exit,
    }
}

/// Whether a button was clicked.
pub open spec fn is_clicked(button: (Interaction, MenuButtonTag)) -> bool {
    button.0 == Interaction::Clicked
}

/// What the clicked ones among `buttons` ask for, in order.
pub open spec fn clicks_of(buttons: Seq<(Interaction, MenuButtonTag)>) -> Seq<MenuAction> {
    buttons.filter(|button: (Interaction, MenuButtonTag)| is_clicked(button)).map_values(
        |button: (Interaction, MenuButtonTag)| action_of(button.1),
    )
}

/// Answers the buttons of the main menu. `interaction_query` holds the
/// buttons whose interaction changed; each clicked one asks for what it
/// stands for.
pub fn handle_button_click(interaction_query: &Vec<(Interaction, MenuButtonTag)>) -> (actions:
    Vec<MenuAction>)
    ensures
        actions@ == clicks_of(interaction_query@),
{
    let mut actions: Vec<MenuAction> = Vec::new();
    let mut i: usize = 0;
    while i < interaction_query.len()
        invariant
            i <= interaction_query@.len(),
            actions@ == clicks_of(interaction_query@.take(i as int)),
        decreases interaction_query@.len() - i,
    {
        proof {
            reveal(Seq::filter);
            assert(interaction_query@.take(i + 1).drop_last() == interaction_query@.take(
                i as int,
            ));
        }
        let (interaction, tag) = interaction_query[i];
        if let Interaction::Clicked = interaction {
            match tag {
                MenuButtonTag::Start => actions.push(MenuAction::StartGame),
                MenuButtonTag::Exit => actions.push(MenuAction::Exit),
            }
        }
        i += 1;
    }
    proof {
        assert(interaction_query@.take(i as int) == interaction_query@);
    }
    actions
}

/// What the keys of the main menu ask for: the return key a new game, then
/// the escape key the exit.
pub open spec fn keys_of(return_pressed: bool, escape_pressed: bool) -> Seq<MenuAction> {
    (if return_pressed {
        seq![MenuAction::StartGame]
    } else {
        seq![]
    }) + (if escape_pressed {
        seq![MenuAction::Exit]
    } else {
        seq![]
    })
}

/// Answers the keys of the main menu, given which of them were just
/// pressed.
pub fn handle_keyboard(return_pressed: bool, escape_pressed: bool) -> (actions: Vec<MenuAction>)
    ensures
        actions@ == keys_of(return_pressed, escape_pressed),
{
    let mut actions: Vec<MenuAction> = Vec::new();
    if return_pressed {
        actions.push(MenuAction::StartGame);
    }
    if escape_pressed {
        actions.push(MenuAction::Exit);
    }
    actions
}

/// Starts the game: any start-game event asks for the countdown.
pub fn handle_start_game(events: &Vec<StartGameEvent>) -> (next: Option<GameState>)
    ensures
        next == if events@.len() > 0 {
            Some(GameState::Countdown)
        } else {
            None
        },
{
    if events.len() > 0 {
        Some(GameState::Countdown)
    } else {
        None
    }
}

} // verus!
