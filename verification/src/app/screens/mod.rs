//! The screens of the game, the events they raise for the application, and
//! what they decide.

use vstd::prelude::*;

use super::events::{FlagEvent, SetEvent};

pub mod load;
pub mod main;
pub mod menu;
pub mod new_game;

verus! {

/// The screens of the game; the menu shows first.
#[derive(Clone, Copy, Debug, PartialEq, Eq, Structural)]
pub enum AppScreen {
    Menu,
    NewGame,
    Load,
    Main,
}

impl Default for AppScreen {
    fn default() -> (screen: Self)
        ensures
            screen == AppScreen::Menu,
    {
        AppScreen::Menu
    }
}

/// Asks the application to save the game after the frame.
pub struct AppSaveEvent(pub FlagEvent);

/// Asks the application to load the save of the name after the frame.
pub struct AppLoadEvent(pub SetEvent<String>);

/// Asks the application to exit after the frame.
pub struct AppExitEvent(pub FlagEvent);

/// Asks the application to start a new game of the name after the frame.
pub struct AppNewGameEvent(pub SetEvent<String>);

impl AppSaveEvent {
    /// Asks for the save; it must not have been asked for yet.
    pub fn emit(&mut self)
        requires
            !old(self).0@,
        ensures
            final(self).0@,
    {
        self.0.emit()
    }
}

impl AppLoadEvent {
    /// Asks to load the save; no load must have been asked for yet.
    pub fn emit(&mut self, name: String)
        requires
            old(self).0@ is None,
        ensures
            final(self).0@ == Some(name),
    {
        self.0.emit(name)
    }
}

impl AppExitEvent {
    /// Asks to exit; it must not have been asked for yet.
    pub fn emit(&mut self)
        requires
            !old(self).0@,
        ensures
            final(self).0@,
    {
        self.0.emit()
    }
}

impl AppNewGameEvent {
    /// Asks to start a new game; none must have been asked for yet.
    pub fn emit(&mut self, name: String)
        requires
            old(self).0@ is None,
        ensures
            final(self).0@ == Some(name),
    {
        self.0.emit(name)
    }
}

} // verus!
