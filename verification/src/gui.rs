//! The errors of the game's window.

use vstd::prelude::*;

use crate::config::ConfigRetrievalError;

verus! {

/// Why the window could not draw.
#[derive(Debug)]
pub enum GuiError {
    /// A config it draws could not be found.
    ConfigRetrievalFailed(ConfigRetrievalError),
}

} // verus!
