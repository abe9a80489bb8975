//! The errors of the application's screens.

use vstd::prelude::*;

use crate::config::ConfigRetrievalError;

verus! {

/// Why a screen could not show.
#[derive(Debug)]
pub enum AppError {
    /// A config it shows could not be found.
    ConfigRetrievalFailed(ConfigRetrievalError),
}

} // verus!
