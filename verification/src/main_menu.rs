//! The main menu and the way back to it.

use vstd::prelude::*;

use crate::loading::{animate_background_and_load, AnimationIndices};
use crate::AppState;

verus! {

/// The buttons of the main menu.
#[derive(Debug, Clone, Copy, PartialEq, Eq, Hash, Structural)]
pub enum ActionButton {
    Play,
    Leaderboard,
    HowToPlay,
    Settings,
    Quit,
}

/// The button that leads back from a screen.
#[derive(Debug, Clone, Copy, PartialEq, Eq, Hash, Structural)]
pub enum BackButton {
    MainMenu,
}

/// What a player can do on the main menu.
#[derive(Debug, Clone, Copy, PartialEq, Eq, Hash, Structural)]
pub enum MenuInput {
    /// The return key was released.
    Return,
    /// A button was pressed.
    Pressed(ActionButton),
}

/// Where a button of the main menu leads.
pub open spec fn button_target(button: ActionButton) -> AppState {
    match button {
        ActionButton::Play => AppState::StartRound,
        ActionButton::Leaderboard => AppState::Leaderboard,
        ActionButton::HowToPlay => AppState::HowToPlay,
        ActionButton::Settings => AppState::Settings,
        ActionButton::Quit => AppState::QuitGame,
    }
}

/// Takes one input on the main menu and says which screen follows: the
/// return key starts a game, a button leads where [`button_target`] says.
pub fn interact_menu(input: MenuInput) -> (next: AppState)
    ensures
        next == match input {
            MenuInput::Return => AppState::StartRound,
            MenuInput::Pressed(button) => button_target(button),
        },
{
    match input {
        MenuInput::Return => AppState::StartRound,
        MenuInput::Pressed(button) => match button {
            ActionButton::Play => AppState::StartRound,
            ActionButton::Leaderboard => AppState::Leaderboard,
            ActionButton::HowToPlay => AppState::HowToPlay,
            ActionButton::Settings => AppState::Settings,
            ActionButton::Quit => AppState::QuitGame,
        },
    }
}

/// What a player can do on a screen that only leads back.
#[derive(Debug, Clone, Copy, PartialEq, Eq, Hash, Structural)]
pub enum BackInput {
    /// The escape key was released.
    Escape,
    /// The button was pressed.
    Pressed(BackButton),
}

/// Takes one input on a screen that only leads back: either way the main
/// menu follows.
pub fn interact_button(input: BackInput) -> (next: AppState)
    ensures
        next == AppState::MainMenu,
{
    match input {
        BackInput::Escape => AppState::MainMenu,
        BackInput::Pressed(BackButton::MainMenu) => AppState::MainMenu,
    }
}

/// Moves the title on by one frame when its time has come.
pub fn animate_menu_title(indices: &AnimationIndices, just_finished: bool, index: usize) -> (next:
    usize)
    requires
        !just_finished || index == indices.last || index < usize::MAX,
    ensures
        next == if just_finished {
            indices.spec_following(index)
        } else {
            index as int
        },
{
    animate_background_and_load(indices, just_finished, index)
}

} // verus!
