//! The decisions of the game's screens and widgets: what each click,
//! frame and event changes, apart from the drawing itself.

pub mod env;
pub mod error;
pub mod events;
pub mod resources;
pub mod screens;
pub mod util;
pub mod widgets;
