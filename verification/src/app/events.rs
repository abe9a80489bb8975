//! Events that widgets raise during a frame and their owner reads after it.

use vstd::prelude::*;

verus! {

/// An event that is raised or not.
pub struct FlagEvent(bool);

/// An event that carries a value once raised.
pub struct SetEvent<T>(Option<T>);

impl View for FlagEvent {
    type V = bool;

    closed spec fn view(&self) -> bool {
        self.0
    }
}

impl<T> View for SetEvent<T> {
    type V = Option<T>;

    closed spec fn view(&self) -> Option<T> {
        self.0
    }
}

impl FlagEvent {
    /// An event not raised yet.
    pub fn new() -> (event: Self)
        ensures
            !event@,
    {
        FlagEvent(false)
    }

    /// Raises the event, which must not be raised yet.
    pub fn emit(&mut self)
        requires
            !old(self)@,
        ensures
            final(self)@,
    {
        self.emit_idem();
    }

    /// Raises the event; whether it was raised already.
    pub fn emit_idem(&mut self) -> (was_raised: bool)
        ensures
            final(self)@,
            was_raised == old(self)@,
    {
        let was_raised = self.0;
        self.0 = true;
        was_raised
    }

    /// Whether the event was raised.
    pub fn get(&self) -> (raised: bool)
        ensures
            raised == self@,
    {
        self.0
    }
}

impl<T> SetEvent<T> {
    /// An event not raised yet.
    pub fn new() -> (event: Self)
        ensures
            event@ == None::<T>,
    {
        SetEvent(None)
    }

    /// Raises the event with the value; it must not be raised yet.
    pub fn emit(&mut self, value: T)
        requires
            old(self)@ is None,
        ensures
            final(self)@ == Some(value),
    {
        self.emit_idem(value);
    }

    /// Raises the event with the value; the value it was raised with
    /// before, if any.
    pub fn emit_idem(&mut self, value: T) -> (previous: Option<T>)
        ensures
            final(self)@ == Some(value),
            previous == old(self)@,
    {
        let mut previous = Some(value);
        std::mem::swap(&mut self.0, &mut previous);
        previous
    }

    /// The value the event was raised with, if it was.
    pub fn get(&self) -> (value: Option<T>) where T: Copy
        ensures
            value == self@,
    {
        self.0
    }

    /// The value the event was raised with, to change in place.
    pub fn get_mut(&mut self) -> (value: Option<&mut T>)
        ensures
            match value {
                Some(v) => old(self)@ == Some(*v) && final(self)@ == Some(*final(v)),
                None => old(self)@ is None && final(self)@ is None,
            },
    {
        match &mut self.0 {
            Some(v) => Some(v),
            None => None,
        }
    }
}

} // verus!
