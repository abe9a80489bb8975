//! The state of the widget containers: a window that stays until closed,
//! screens of which one shows at a time, and tabs of which one is selected.

use std::marker::PhantomData;

use vstd::prelude::*;

use super::events::{FlagEvent, SetEvent};

verus! {

/// A widget whose answer goes through a function.
pub struct WidgetMap<W, R, F>(pub W, pub F, pub PhantomData<R>);

/// A window that keeps its content while closed; `Id` tells its close
/// event apart from others.
pub struct PersistentWindow<T, Id> {
    pub is_open: bool,
    pub content: T,
    pub phantom: PhantomData<Id>,
}

/// Asks the window `Id` to close at the end of the frame.
pub struct WindowCloseEvent<Id>(FlagEvent, PhantomData<Id>);

impl<T, Id> PersistentWindow<T, Id> {
    /// A closed window with the content.
    pub fn new(content: T) -> (window: Self)
        ensures
            !window.is_open,
            window.content == content,
    {
        PersistentWindow { is_open: false, content, phantom: PhantomData }
    }

    /// The end of a frame: the window closes where its content asked it to.
    pub fn finish_frame(&mut self, close: &WindowCloseEvent<Id>)
        ensures
            final(self).is_open == (old(self).is_open && !close@),
            final(self).content == old(self).content,
    {
        if close.get() {
            self.is_open = false;
        }
    }
}

impl<Id> View for WindowCloseEvent<Id> {
    type V = bool;

    closed spec fn view(&self) -> bool {
        self.0@
    }
}

impl<Id> WindowCloseEvent<Id> {
    /// No close asked for yet.
    pub fn new() -> (event: Self)
        ensures
            !event@,
    {
        WindowCloseEvent(FlagEvent::new(), PhantomData)
    }

    /// Asks for the close; it must not have been asked for yet.
    pub fn emit(&mut self)
        requires
            !old(self)@,
        ensures
            final(self)@,
    {
        self.0.emit()
    }

    /// Asks for the close; whether it was asked for already.
    pub fn emit_idem(&mut self) -> (was_raised: bool)
        ensures
            final(self)@,
            was_raised == old(self)@,
    {
        self.0.emit_idem()
    }

    /// Whether the close was asked for.
    pub fn get(&self) -> (raised: bool)
        ensures
            raised == self@,
    {
        self.0.get()
    }
}

/// Screens of which the one of the current key shows; `Id` tells their
/// transition event apart from others.
pub struct Screens<S, E, Id> {
    current: E,
    screens: S,
    phantom: PhantomData<Id>,
}

/// Asks the screens `Id` to go to another screen at the end of the frame.
pub struct ScreenTransitionEvent<E, Id>(SetEvent<E>, PhantomData<Id>);

impl<E, Id> View for ScreenTransitionEvent<E, Id> {
    type V = Option<E>;

    closed spec fn view(&self) -> Option<E> {
        self.0@
    }
}

impl<E, Id> ScreenTransitionEvent<E, Id> {
    /// No transition asked for yet.
    pub fn new() -> (event: Self)
        ensures
            event@ == None::<E>,
    {
        ScreenTransitionEvent(SetEvent::new(), PhantomData)
    }

    /// Asks to go to the screen; no transition must have been asked for yet.
    pub fn emit(&mut self, value: E)
        requires
            old(self)@ is None,
        ensures
            final(self)@ == Some(value),
    {
        self.0.emit(value)
    }

    /// Asks to go to the screen; the screen asked for before, if any.
    pub fn emit_idem(&mut self, value: E) -> (previous: Option<E>)
        ensures
            final(self)@ == Some(value),
            previous == old(self)@,
    {
        self.0.emit_idem(value)
    }
}

impl<S, E, Id> Screens<S, E, Id> {
    /// The key of the screen that shows.
    pub closed spec fn spec_current(&self) -> E {
        self.current
    }

    /// The screens.
    pub closed spec fn spec_screens(&self) -> S {
        self.screens
    }

    /// The screens, showing the one of `initial`.
    pub fn new_at(initial: E, screens: S) -> (built: Self)
        ensures
            built.spec_current() == initial,
            built.spec_screens() == screens,
    {
        Screens { current: initial, screens, phantom: PhantomData }
    }

    /// The screens, showing the one of the default key.
    pub fn new(screens: S) -> (built: Self) where E: Default
        ensures
            call_ensures(E::default, (), built.spec_current()),
            built.spec_screens() == screens,
    {
        let initial = E::default();
        Self::new_at(initial, screens)
    }

    /// The key of the screen that shows.
    pub fn current(&self) -> (current: E) where E: Copy
        ensures
            current == self.spec_current(),
    {
        self.current
    }

    /// The screens, to draw the current one.
    pub fn screens_mut(&mut self) -> (screens: &mut S)
        ensures
            *screens == old(self).spec_screens(),
            final(self).spec_screens() == *final(screens),
            final(self).spec_current() == old(self).spec_current(),
    {
        &mut self.screens
    }

    /// The end of a frame: the screen asked for, if any, shows from now on.
    pub fn finish_frame(&mut self, transition: &ScreenTransitionEvent<E, Id>) where E: Copy
        ensures
            final(self).spec_current() == match transition@ {
                Some(next) => next,
                None => old(self).spec_current(),
            },
            final(self).spec_screens() == old(self).spec_screens(),
    {
        if let Some(next) = transition.0.get() {
            self.current = next;
        }
    }
}

/// Tabs, one of which is selected; `O` is how their headers are laid out.
pub struct Tabs<T, O> {
    tabs: Vec<T>,
    selected: usize,
    orientation: O,
}

impl<T, O> Tabs<T, O> {
    /// The selected tab is one of the tabs, or the first where there is none.
    #[verifier::type_invariant]
    closed spec fn inv(self) -> bool {
        self.selected < self.tabs@.len() || self.selected == 0
    }

    /// The tabs in order.
    pub closed spec fn spec_tabs(&self) -> Seq<T> {
        self.tabs@
    }

    /// The index of the selected tab.
    pub closed spec fn spec_selected(&self) -> nat {
        self.selected as nat
    }

    /// How the headers are laid out.
    pub closed spec fn spec_orientation(&self) -> O {
        self.orientation
    }

    /// No tabs, with the headers laid out so.
    pub fn new(orientation: O) -> (tabs: Self)
        ensures
            tabs.spec_tabs() == Seq::<T>::empty(),
            tabs.spec_selected() == 0,
            tabs.spec_orientation() == orientation,
    {
        Tabs { tabs: Vec::new(), selected: 0, orientation }
    }

    /// Adds a tab after the others.
    pub fn push(&mut self, tab: T)
        ensures
            final(self).spec_tabs() == old(self).spec_tabs().push(tab),
            final(self).spec_selected() == old(self).spec_selected(),
            final(self).spec_orientation() == old(self).spec_orientation(),
    {
        proof {
            use_type_invariant(&*self);
        }
        let selected = self.selected;
        self.selected = 0;
        let mut tabs = Vec::new();
        std::mem::swap(&mut tabs, &mut self.tabs);
        tabs.push(tab);
        self.tabs = tabs;
        self.selected = selected;
    }

    /// The number of tabs.
    pub fn len(&self) -> (count: usize)
        ensures
            count == self.spec_tabs().len(),
    {
        self.tabs.len()
    }

    /// The index of the selected tab.
    pub fn selected(&self) -> (index: usize)
        ensures
            index == self.spec_selected(),
            self.spec_tabs().len() > 0 ==> index < self.spec_tabs().len(),
    {
        proof {
            use_type_invariant(self);
        }
        self.selected
    }

    /// Selects the tab whose header was clicked.
    pub fn select(&mut self, index: usize)
        requires
            index < old(self).spec_tabs().len(),
        ensures
            final(self).spec_selected() == index,
            final(self).spec_tabs() == old(self).spec_tabs(),
            final(self).spec_orientation() == old(self).spec_orientation(),
    {
        self.selected = index;
    }

    /// The tab and the index of each, to draw the headers.
    pub fn tabs(&self) -> (tabs: &Vec<T>)
        ensures
            tabs@ == self.spec_tabs(),
    {
        &self.tabs
    }

    /// How the headers are laid out.
    pub fn orientation(&self) -> (orientation: &O)
        ensures
            *orientation == self.spec_orientation(),
    {
        &self.orientation
    }

    /// The selected tab, to draw it; there must be a tab.
    pub fn selected_tab_mut(&mut self) -> (tab: &mut T)
        requires
            old(self).spec_tabs().len() > 0,
        ensures
            *tab == old(self).spec_tabs()[old(self).spec_selected() as int],
            final(self).spec_tabs() == old(self).spec_tabs().update(
                old(self).spec_selected() as int,
                *final(tab),
            ),
            final(self).spec_selected() == old(self).spec_selected(),
    {
        proof {
            use_type_invariant(&*self);
        }
        let index = self.selected;
        &mut self.tabs[index]
    }
}

} // verus!
