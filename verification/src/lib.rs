//! Configuration loading and game-state bookkeeping for the Plemeshko
//! economy game, with every rule proved by Verus.

mod assoc;
pub mod app;
pub mod config;
pub mod env;
pub mod gui;
pub mod json;
pub mod log;
mod strings;
mod type_id;
