//! Keyboard modifiers held during a click.

use vstd::prelude::*;

verus! {

/// The modifier held alone during a click, if any.
#[derive(Clone, Copy, Debug, PartialEq, Eq, Structural)]
pub enum Modifier {
    Plain,
    Command,
    Shift,
}

impl Modifier {
    /// The value for the modifier: `on_none` without one, `on_shift` with
    /// shift, `on_cmd` with the command key.
    pub fn elim<R>(self, on_none: R, on_shift: R, on_cmd: R) -> (chosen: R)
        ensures
            chosen == match self {
                Modifier::Plain => on_none,
                Modifier::Command => on_cmd,
                Modifier::Shift => on_shift,
            },
    {
        match self {
            Modifier::Plain => on_none,
            Modifier::Command => on_cmd,
            Modifier::Shift => on_shift,
        }
    }

    /// The modifier of a click where shift alone or the command key alone
    /// was held; shift wins where both are reported.
    pub fn from_keys(shift_only: bool, command_only: bool) -> (modifier: Modifier)
        ensures
            modifier == (if shift_only {
                Modifier::Shift
            } else if command_only {
                Modifier::Command
            } else {
                Modifier::Plain
            }),
    {
        if shift_only {
            Modifier::Shift
        } else if command_only {
            Modifier::Command
        } else {
            Modifier::Plain
        }
    }
}

} // verus!
