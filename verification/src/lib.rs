//! Odemay: the rules of a fruit-counting guessing game.
//!
//! A round shows two kinds of fruit; the player says which kind there is more
//! of before a countdown runs out. Every correct answer leads to the next
//! level, some levels unlock a villager, and the best result can be kept on an
//! online leaderboard. This crate holds the rules only: how a round is dealt,
//! how a guess is judged, how the screens follow each other and what is sent
//! to the leaderboard. Drawing, sound and the network belong to the program
//! that uses it.

use vstd::prelude::*;

pub mod game_mod;
pub mod leaderboard;
pub mod loading;
pub mod login;
pub mod main_menu;
pub mod random;
pub mod settings;
pub mod timer;

verus! {

/// The screens and phases of the program.
#[derive(Debug, Clone, Copy, PartialEq, Eq, Hash, Structural)]
pub enum AppState {
    LoadingScreen,
    MainMenu,
    StartRound,
    Pause,
    ShowResults,
    GameOver,
    QuitGame,
    Leaderboard,
    HowToPlay,
    Settings,
}

impl Default for AppState {
    /// The program starts on the loading screen.
    fn default() -> (state: AppState)
        ensures
            state == AppState::LoadingScreen,
    {
        AppState::LoadingScreen
    }
}

} // verus!
