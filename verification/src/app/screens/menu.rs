//! The menu screen: new game, continue, language and exit; `L` is a
//! language the game is translated to.

use vstd::prelude::*;

use super::{AppExitEvent, AppScreen};
use crate::app::events::SetEvent;
use crate::app::widgets::ScreenTransitionEvent;

verus! {

/// The menu screen, with the languages to pick from while that window is
/// open.
pub struct MenuScreen<L> {
    language_select_open: Option<Vec<L>>,
}

impl<L> MenuScreen<L> {
    /// The languages offered, while the language window is open.
    pub closed spec fn spec_languages(&self) -> Option<Seq<L>> {
        match self.language_select_open {
            Some(languages) => Some(languages@),
            None => None,
        }
    }

    /// The menu, with the language window closed.
    pub fn new() -> (menu: Self)
        ensures
            menu.spec_languages() is None,
    {
        MenuScreen { language_select_open: None }
    }

    /// The new-game button: asks for the new-game screen.
    pub fn new_game<Id>(&self, transition: &mut ScreenTransitionEvent<AppScreen, Id>)
        requires
            old(transition)@ is None,
        ensures
            final(transition)@ == Some(AppScreen::NewGame),
    {
        transition.emit(AppScreen::NewGame);
    }

    /// The continue button: asks for the load screen.
    pub fn resume<Id>(&self, transition: &mut ScreenTransitionEvent<AppScreen, Id>)
        requires
            old(transition)@ is None,
        ensures
            final(transition)@ == Some(AppScreen::Load),
    {
        transition.emit(AppScreen::Load);
    }

    /// The exit button: asks the application to exit.
    pub fn exit(&self, exit: &mut AppExitEvent)
        requires
            !old(exit).0@,
        ensures
            final(exit).0@,
    {
        exit.emit();
    }

    /// The language button: opens the window with the languages available.
    pub fn open_languages(&mut self, available: Vec<L>)
        ensures
            final(self).spec_languages() == Some(available@),
    {
        self.language_select_open = Some(available);
    }

    /// The languages offered, while the language window is open.
    pub fn languages(&self) -> (languages: Option<&Vec<L>>)
        ensures
            match languages {
                Some(offered) => self.spec_languages() == Some(offered@),
                None => self.spec_languages() is None,
            },
    {
        match &self.language_select_open {
            Some(languages) => Some(languages),
            None => None,
        }
    }

    /// A language's button: asks to switch to it, and closes the window.
    pub fn pick_language(&mut self, index: usize, switch: &mut SetEvent<L>)
        requires
            old(self).spec_languages() matches Some(languages) && index < languages.len(),
            old(switch)@ is None,
        ensures
            final(switch)@ == Some(old(self).spec_languages()->Some_0[index as int]),
            final(self).spec_languages() is None,
    {
        let mut open: Option<Vec<L>> = None;
        std::mem::swap(&mut open, &mut self.language_select_open);
        if let Some(mut languages) = open {
            let language = languages.remove(index);
            switch.emit(language);
        }
    }
}

} // verus!
