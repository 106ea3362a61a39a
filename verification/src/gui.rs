//! The navigation shell around a running game: the main menu, the pause
//! menu, and the game screen itself.
use crate::game::{GameSettings, GameState};
use vstd::prelude::*;

verus! {

/// The whole application: which screen is showing, and the settings the
/// next game will be started with.
#[derive(Debug)]
pub struct App {
    pub state: Gui,
    pub settings: GameSettings,
}

/// Which screen is showing.
#[derive(Debug)]
pub enum Gui {
    GameOnly(GameState),
    PauseMenu(GameState),
    MainMenu,
}

impl Gui {
    /// The screen the application starts on.
    pub fn new() -> (r: Self)
        ensures
            r == Gui::MainMenu,
    {
        Gui::MainMenu
    }

    /// Reacts to the escape key: the game screen pauses a live game and
    /// abandons a finished one; the pause menu falls back to the main
    /// menu. Returns false only when already on the main menu, where
    /// escape is left for the host to act on (it closes the window).
    pub fn handle_esc(&mut self) -> (r: bool)
        ensures
            match *old(self) {
                Gui::GameOnly(state) => r && if state is GameOver {
                    *final(self) == Gui::MainMenu
                } else {
                    *final(self) == Gui::PauseMenu(state)
                },
                Gui::PauseMenu(_) => r && *final(self) == Gui::MainMenu,
                Gui::MainMenu => !r && *final(self) == Gui::MainMenu,
            },
    {
        let mut taken = Gui::MainMenu;
        core::mem::swap(self, &mut taken);
        match taken {
            Gui::GameOnly(state) => {
                if let GameState::GameOver { .. } = state {
                    *self = Gui::MainMenu;
                } else {
                    *self = Gui::PauseMenu(state);
                }
                true
            },
            Gui::PauseMenu(_) => {
                *self = Gui::MainMenu;
                true
            },
            Gui::MainMenu => false,
        }
    }
}

} // verus!
