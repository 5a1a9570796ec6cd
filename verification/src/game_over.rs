//! The game-over menu: its buttons and what they ask for.

use crate::main_menu::{Interaction, MenuAction};
use vstd::prelude::*;

verus! {

/// The buttons of the game-over menu.
#[derive(Debug, Clone, Copy, PartialEq, Eq, Structural)]
pub enum GameOverButton {
    Restart,
    Exit,
}

impl GameOverButton {
    /// The words on the button.
    pub open spec fn words(self) -> Seq<char> {
        match self {
            GameOverButton::Restart => "Restart"@,
            GameOverButton::Exit => "Exit"@,
        }
    }
}

/// The conversion gives the words on the button.
impl From<GameOverButton> for String {
    fn from(tag: GameOverButton) -> (text: String)
        ensures
            text@ == tag.words(),
    {
        match tag {
            GameOverButton::Restart => "Restart".to_owned(),
            GameOverButton::Exit => "Exit".to_owned(),
        }
    }
}

/// Two strings of the same characters are not known to be the same value,
/// so the conversion is stated by its characters, above, and not as a
/// value here.
impl vstd::std_specs::convert::FromSpecImpl<GameOverButton> for String {
    open spec fn obeys_from_spec() -> bool {
        false
    }

    open spec fn from_spec(tag: GameOverButton) -> String {
        choose|text: String| text@ == tag.words()
    }
}

/// What a button of the game-over menu asks for when clicked.
pub open spec fn action_of(tag: GameOverButton) -> MenuAction {
    match tag {
        GameOverButton::Restart => MenuAction::StartGame,
        GameOverButton::Exit => MenuAction::Exit,
    }
}

/// Whether a button was clicked.
pub open spec fn is_clicked(button: (Interaction, GameOverButton)) -> bool {
    button.0 == Interaction::Clicked
}

/// What the clicked ones among `buttons` ask for, in order.
pub open spec fn clicks_of(buttons: Seq<(Interaction, GameOverButton)>) -> Seq<MenuAction> {
    buttons.filter(|button: (Interaction, GameOverButton)| is_clicked(button)).map_values(
        |button: (Interaction, GameOverButton)| action_of(button.1),
    )
}

/// Answers the buttons of the game-over menu. `interaction_query` holds the
/// buttons whose interaction changed; each clicked one asks for what it
/// stands for.
pub fn handle_button_click(interaction_query: &Vec<(Interaction, GameOverButton)>) -> (actions:
    Vec<MenuAction>)
    ensures
        actions@ == clicks_of(interaction_query@),
{
    let mut actions: Vec<MenuAction> = Vec::new();
    let mut i: usize = 0;
    while i < interaction_query.len()
        invariant
            i <= interaction_query@.len(),
            actions@ == clicks_of(interaction_query@.take(i as int)),
        decreases interaction_query@.len() - i,
    {
        proof {
            reveal(Seq::filter);
            assert(interaction_query@.take(i + 1).drop_last() == interaction_query@.take(
                i as int,
            ));
        }
        let (interaction, tag) = interaction_query[i];
        if let Interaction::Clicked = interaction {
            match tag {
                GameOverButton::Restart => actions.push(MenuAction::StartGame),
                GameOverButton::Exit => actions.push(MenuAction::Exit),
            }
        }
        i += 1;
    }
    proof {
        assert(interaction_query@.take(i as int) == interaction_query@);
    }
    actions
}

} // verus!
