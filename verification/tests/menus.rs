use game_plugin::audio::button_sounds;
use game_plugin::combat::components::Scores;
use game_plugin::game_over::GameOverButton;
use game_plugin::game_ui::display_scores;
use game_plugin::main_menu::{
    button_color_system, handle_keyboard, handle_start_game, ButtonColor, Interaction, MenuAction,
    MenuButtonTag, StartGameEvent,
};
use game_plugin::states::GameState;

#[test]
fn clicked_menu_buttons_ask_for_what_they_stand_for() {
    let actions = game_plugin::main_menu::handle_button_click(&vec![
        (Interaction::Hovered, MenuButtonTag::Start),
        (Interaction::Clicked, MenuButtonTag::Exit),
        (Interaction::Idle, MenuButtonTag::Exit),
        (Interaction::Clicked, MenuButtonTag::Start),
    ]);
    assert_eq!(actions, vec![MenuAction::Exit, MenuAction::StartGame]);
    assert!(game_plugin::main_menu::handle_button_click(&vec![]).is_empty());
}

#[test]
fn clicked_game_over_buttons_ask_for_what_they_stand_for() {
    let actions = game_plugin::game_over::handle_button_click(&vec![
        (Interaction::Clicked, GameOverButton::Restart),
        (Interaction::Hovered, GameOverButton::Exit),
        (Interaction::Clicked, GameOverButton::Exit),
        (Interaction::Idle, GameOverButton::Restart),
    ]);
    assert_eq!(actions, vec![MenuAction::StartGame, MenuAction::Exit]);
}

#[test]
fn the_keys_of_the_main_menu() {
    assert!(handle_keyboard(false, false).is_empty());
    assert_eq!(handle_keyboard(true, false), vec![MenuAction::StartGame]);
    assert_eq!(handle_keyboard(false, true), vec![MenuAction::Exit]);
    assert_eq!(handle_keyboard(true, true), vec![MenuAction::StartGame, MenuAction::Exit]);
}

#[test]
fn any_start_game_event_asks_for_the_countdown() {
    assert_eq!(handle_start_game(&vec![]), None);
    assert_eq!(handle_start_game(&vec![StartGameEvent]), Some(GameState::Countdown));
    assert_eq!(handle_start_game(&vec![StartGameEvent, StartGameEvent]), Some(GameState::Countdown));
}

#[test]
fn the_words_on_the_game_over_buttons() {
    assert_eq!(String::from(GameOverButton::Restart), "Restart");
    assert_eq!(String::from(GameOverButton::Exit), "Exit");
}

#[test]
fn the_phases_of_the_game_are_distinct() {
    let phases = [
        GameState::Loading,
        GameState::MainMenu,
        GameState::Countdown,
        GameState::Gameplay,
        GameState::GameOver,
    ];
    for (i, a) in phases.iter().enumerate() {
        for (j, b) in phases.iter().enumerate() {
            assert_eq!(a == b, i == j);
        }
    }
}

#[test]
fn the_score_line_shows_the_score_in_decimal() {
    assert_eq!(display_scores(&vec![Scores { amount: 0 }], 1), Some("Score: 0".to_string()));
    assert_eq!(display_scores(&vec![Scores { amount: 7 }], 1), Some("Score: 7".to_string()));
    assert_eq!(display_scores(&vec![Scores { amount: 10 }], 1), Some("Score: 10".to_string()));
    assert_eq!(display_scores(&vec![Scores { amount: 1905 }], 1), Some("Score: 1905".to_string()));
    assert_eq!(
        display_scores(&vec![Scores { amount: u32::MAX }], 1),
        Some("Score: 4294967295".to_string())
    );
}

#[test]
fn the_score_line_is_written_for_one_score_and_one_line_only() {
    let one = vec![Scores { amount: 5 }];
    let two = vec![Scores { amount: 5 }, Scores { amount: 6 }];
    assert_eq!(display_scores(&vec![], 1), None);
    assert_eq!(display_scores(&two, 1), None);
    assert_eq!(display_scores(&one, 0), None);
    assert_eq!(display_scores(&one, 2), None);
    assert_eq!(display_scores(&vec![], 0), None);
}

#[test]
fn a_button_is_shaded_by_what_the_pointer_does_to_it() {
    assert_eq!(
        button_color_system(&vec![
            Interaction::Hovered,
            Interaction::Clicked,
            Interaction::Idle,
            Interaction::Hovered,
        ]),
        vec![ButtonColor::Hovered, ButtonColor::Pressed, ButtonColor::Normal, ButtonColor::Hovered]
    );
    assert!(button_color_system(&vec![]).is_empty());
}

#[test]
fn the_hover_sound_is_played_for_each_button_the_pointer_comes_over() {
    assert_eq!(button_sounds(&vec![]), 0);
    assert_eq!(button_sounds(&vec![Interaction::Clicked, Interaction::Idle]), 0);
    assert_eq!(
        button_sounds(&vec![
            Interaction::Hovered,
            Interaction::Clicked,
            Interaction::Hovered,
            Interaction::Idle,
            Interaction::Hovered,
        ]),
        3
    );
}
