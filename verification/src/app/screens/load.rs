//! The load screen: the saves to choose from, where a single save is
//! loaded at once.

use vstd::prelude::*;

use super::{AppLoadEvent, AppScreen};
use crate::app::widgets::ScreenTransitionEvent;

verus! {

/// The load screen; `M` describes a save.
pub struct LoadScreen<M> {
    saves: Option<Vec<(String, M)>>,
}

impl<M> LoadScreen<M> {
    /// The saves listed, if they are.
    pub closed spec fn spec_saves(&self) -> Option<Seq<(String, M)>> {
        match self.saves {
            Some(saves) => Some(saves@),
            None => None,
        }
    }

    /// A screen that has not listed the saves yet.
    pub fn new() -> (screen: Self)
        ensures
            screen.spec_saves() is None,
    {
        LoadScreen { saves: None }
    }

    /// Whether the saves must be listed before the screen shows.
    pub fn needs_saves(&self) -> (needs: bool)
        ensures
            needs == self.spec_saves() is None,
    {
        self.saves.is_none()
    }

    /// The saves listed, to draw a button for each.
    pub fn saves(&self) -> (saves: Option<&Vec<(String, M)>>)
        ensures
            match saves {
                Some(listed) => self.spec_saves() == Some(listed@),
                None => self.spec_saves() is None,
            },
    {
        match &self.saves {
            Some(saves) => Some(saves),
            None => None,
        }
    }

    /// Takes the listed saves: a single save is loaded at once, with the
    /// main screen asked for, and the saves stay unlisted; otherwise the
    /// saves are kept to choose from.
    pub fn receive_saves<Id>(
        &mut self,
        saves: Vec<(String, M)>,
        load: &mut AppLoadEvent,
        transition: &mut ScreenTransitionEvent<AppScreen, Id>,
    )
        requires
            old(load).0@ is None,
            old(transition)@ is None,
        ensures
            saves@.len() == 1 ==> {
                &&& final(load).0@ == Some(saves@[0].0)
                &&& final(transition)@ == Some(AppScreen::Main)
                &&& final(self).spec_saves() == old(self).spec_saves()
            },
            saves@.len() != 1 ==> {
                &&& final(load).0@ is None
                &&& final(transition)@ is None
                &&& final(self).spec_saves() == Some(saves@)
            },
    {
        if saves.len() == 1 {
            load.emit(saves[0].0.clone());
            transition.emit(AppScreen::Main);
        } else {
            self.saves = Some(saves);
        }
    }

    /// The button of the save at `index`: asks to load it and for the main
    /// screen, and drops the list to list the saves anew next time.
    pub fn pick<Id>(
        &mut self,
        index: usize,
        load: &mut AppLoadEvent,
        transition: &mut ScreenTransitionEvent<AppScreen, Id>,
    )
        requires
            old(self).spec_saves() matches Some(saves) && index < saves.len(),
            old(load).0@ is None,
            old(transition)@ is None,
        ensures
            final(load).0@ == Some(old(self).spec_saves()->Some_0[index as int].0),
            final(transition)@ == Some(AppScreen::Main),
            final(self).spec_saves() is None,
    {
        let name = match &self.saves {
            Some(saves) => saves[index].0.clone(),
            None => String::new(),
        };
        load.emit(name);
        transition.emit(AppScreen::Main);
        self.saves = None;
    }

    /// The return button: asks for the menu, and drops the list.
    pub fn back<Id>(&mut self, transition: &mut ScreenTransitionEvent<AppScreen, Id>)
        requires
            old(transition)@ is None,
        ensures
            final(transition)@ == Some(AppScreen::Menu),
            final(self).spec_saves() is None,
    {
        transition.emit(AppScreen::Menu);
        self.saves = None;
    }
}

} // verus!
