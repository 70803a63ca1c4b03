use odemay::game_mod::FruitType;
use odemay::loading::{animate_background_and_load, tick_loading, AnimationIndices, LoadingTimer};
use odemay::main_menu::{
    animate_menu_title, interact_button, interact_menu, ActionButton, BackButton, BackInput,
    MenuInput,
};
use odemay::settings::{
    hover_fruit, set_fruits, BorderShade, GameSettings, HoverEffect, Interaction, Marker,
    MouseButton,
};
use odemay::timer::Countdown;
use odemay::AppState;

#[test]
fn the_program_starts_on_the_loading_screen() {
    assert_eq!(AppState::default(), AppState::LoadingScreen);
}

#[test]
fn a_fresh_countdown_has_counted_nothing() {
    let timer = Countdown::from_nanos(5_000_000_000);
    assert_eq!(timer.duration(), 5_000_000_000);
    assert_eq!(timer.elapsed(), 0);
    assert_eq!(timer.remaining(), 5_000_000_000);
    assert!(!timer.finished());
    assert!(!timer.paused());
    assert_eq!(Countdown::from_millis(500), Countdown::from_nanos(500_000_000));
    assert_eq!(Countdown::from_millis(u32::MAX).duration(), 4_294_967_295_000_000);
}

#[test]
fn a_countdown_runs_out_at_its_duration_and_stops_there() {
    let mut timer = Countdown::from_nanos(100);
    timer.tick(40);
    assert_eq!(timer.elapsed(), 40);
    assert_eq!(timer.remaining(), 60);
    assert!(!timer.finished());
    timer.tick(59);
    assert!(!timer.finished());
    timer.tick(1);
    assert!(timer.finished());
    assert_eq!(timer.elapsed(), 100);
    timer.tick(1_000);
    assert!(timer.finished());
    assert_eq!(timer.elapsed(), 100);
    assert_eq!(timer.remaining(), 0);
}

#[test]
fn a_long_step_does_not_overflow_a_countdown() {
    let mut timer = Countdown::from_nanos(u64::MAX);
    timer.tick(u64::MAX - 1);
    assert!(!timer.finished());
    timer.tick(u64::MAX);
    assert!(timer.finished());
    assert_eq!(timer.elapsed(), u64::MAX);
}

#[test]
fn a_held_countdown_does_not_move() {
    let mut timer = Countdown::from_nanos(100);
    timer.tick(30);
    timer.pause();
    assert!(timer.paused());
    timer.tick(500);
    assert_eq!(timer.elapsed(), 30);
    assert!(!timer.finished());
    timer.unpause();
    assert!(!timer.paused());
    timer.tick(70);
    assert!(timer.finished());
}

#[test]
fn a_reset_countdown_starts_over_and_stays_held() {
    let mut timer = Countdown::from_nanos(100);
    timer.tick(100);
    timer.pause();
    timer.reset();
    assert_eq!(timer.elapsed(), 0);
    assert!(!timer.finished());
    assert!(timer.paused());
    assert_eq!(timer.duration(), 100);
}

#[test]
fn a_countdown_of_no_time_runs_out_on_its_first_step() {
    let mut timer = Countdown::from_nanos(0);
    assert!(!timer.finished());
    timer.tick(0);
    assert!(timer.finished());
}

#[test]
fn the_loading_screen_stays_four_seconds() {
    let mut timer = LoadingTimer::default();
    assert_eq!(timer.loading_timer.duration(), 4_000_000_000);
    assert_eq!(tick_loading(3_999_999_999, &mut timer), None);
    assert_eq!(tick_loading(1, &mut timer), Some(AppState::MainMenu));
    assert_eq!(tick_loading(1, &mut timer), Some(AppState::MainMenu));
}

#[test]
fn frames_follow_each_other_and_start_over() {
    let indices = AnimationIndices { first: 1, last: 5 };
    assert_eq!(indices.following(1), 2);
    assert_eq!(indices.following(4), 5);
    assert_eq!(indices.following(5), 1);
    assert_eq!(indices.following(0), 1);
    assert_eq!(indices.following(9), 10);
    let whole = AnimationIndices { first: 0, last: usize::MAX };
    assert_eq!(whole.following(usize::MAX), 0);
}

#[test]
fn a_picture_moves_only_when_its_time_has_come() {
    let indices = AnimationIndices { first: 0, last: 4 };
    assert_eq!(animate_background_and_load(&indices, false, 2), 2);
    assert_eq!(animate_background_and_load(&indices, true, 2), 3);
    assert_eq!(animate_background_and_load(&indices, true, 4), 0);
    assert_eq!(animate_background_and_load(&indices, false, usize::MAX), usize::MAX);
    let title = AnimationIndices { first: 1, last: 5 };
    assert_eq!(animate_menu_title(&title, false, 5), 5);
    assert_eq!(animate_menu_title(&title, true, 5), 1);
    assert_eq!(animate_menu_title(&title, true, 1), 2);
}

#[test]
fn the_menu_leads_to_every_screen() {
    assert_eq!(interact_menu(MenuInput::Return), AppState::StartRound);
    assert_eq!(interact_menu(MenuInput::Pressed(ActionButton::Play)), AppState::StartRound);
    assert_eq!(
        interact_menu(MenuInput::Pressed(ActionButton::Leaderboard)),
        AppState::Leaderboard
    );
    assert_eq!(interact_menu(MenuInput::Pressed(ActionButton::HowToPlay)), AppState::HowToPlay);
    assert_eq!(interact_menu(MenuInput::Pressed(ActionButton::Settings)), AppState::Settings);
    assert_eq!(interact_menu(MenuInput::Pressed(ActionButton::Quit)), AppState::QuitGame);
}

#[test]
fn every_screen_leads_back_to_the_menu() {
    assert_eq!(interact_button(BackInput::Escape), AppState::MainMenu);
    assert_eq!(interact_button(BackInput::Pressed(BackButton::MainMenu)), AppState::MainMenu);
}

#[test]
fn a_game_starts_with_apples_and_pears() {
    let settings = GameSettings::default();
    assert_eq!(settings.fruit_a, FruitType::Apple);
    assert_eq!(settings.fruit_b, FruitType::Pear);
}

#[test]
fn each_button_chooses_its_own_fruit() {
    let mut settings = GameSettings::default();
    set_fruits(MouseButton::Left, FruitType::Orange, &mut settings);
    assert_eq!(settings, GameSettings { fruit_a: FruitType::Orange, fruit_b: FruitType::Pear });
    set_fruits(MouseButton::Right, FruitType::Apple, &mut settings);
    assert_eq!(settings, GameSettings { fruit_a: FruitType::Orange, fruit_b: FruitType::Apple });
    set_fruits(MouseButton::Left, FruitType::Orange, &mut settings);
    assert_eq!(settings, GameSettings { fruit_a: FruitType::Orange, fruit_b: FruitType::Apple });
}

#[test]
fn the_two_fruits_never_become_the_same() {
    let mut settings = GameSettings::default();
    set_fruits(MouseButton::Left, FruitType::Pear, &mut settings);
    assert_eq!(settings, GameSettings::default());
    set_fruits(MouseButton::Right, FruitType::Apple, &mut settings);
    assert_eq!(settings, GameSettings::default());
    let fruits = [FruitType::Apple, FruitType::Pear, FruitType::Orange, FruitType::Strawberry];
    for first in fruits {
        for second in fruits {
            set_fruits(MouseButton::Left, first, &mut settings);
            set_fruits(MouseButton::Right, second, &mut settings);
            assert_ne!(settings.fruit_a, settings.fruit_b);
        }
    }
}

#[test]
fn a_button_under_the_pointer_is_marked() {
    let settings = GameSettings::default();
    assert_eq!(
        hover_fruit(true, Interaction::Pressed, FruitType::Orange, &settings),
        HoverEffect {
            border: Some(BorderShade::White),
            insert: Some(Marker::Pressed),
            remove_hovered: false,
            remove_pressed: false,
        }
    );
    assert_eq!(
        hover_fruit(true, Interaction::Hovered, FruitType::Apple, &settings),
        HoverEffect {
            border: Some(BorderShade::Salmon),
            insert: Some(Marker::Hovered),
            remove_hovered: false,
            remove_pressed: false,
        }
    );
    let untouched = HoverEffect {
        border: None,
        insert: None,
        remove_hovered: false,
        remove_pressed: false,
    };
    assert_eq!(hover_fruit(false, Interaction::Pressed, FruitType::Apple, &settings), untouched);
    assert_eq!(hover_fruit(false, Interaction::Hovered, FruitType::Pear, &settings), untouched);
}

#[test]
fn a_button_at_rest_shows_whose_fruit_it_is() {
    let settings = GameSettings::default();
    let resting = |shade: BorderShade, left: bool| HoverEffect {
        border: Some(shade),
        insert: None,
        remove_hovered: true,
        remove_pressed: left,
    };
    assert_eq!(
        hover_fruit(true, Interaction::Idle, FruitType::Apple, &settings),
        resting(BorderShade::BasilGreen, true)
    );
    assert_eq!(
        hover_fruit(false, Interaction::Idle, FruitType::Apple, &settings),
        resting(BorderShade::BasilGreen, false)
    );
    assert_eq!(
        hover_fruit(true, Interaction::Idle, FruitType::Pear, &settings),
        resting(BorderShade::SkyBlue, true)
    );
    assert_eq!(
        hover_fruit(false, Interaction::Idle, FruitType::Orange, &settings),
        resting(BorderShade::OliveGreen, false)
    );
    assert_eq!(
        hover_fruit(true, Interaction::Idle, FruitType::Strawberry, &settings),
        resting(BorderShade::OliveGreen, true)
    );
}
