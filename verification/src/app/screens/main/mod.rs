//! The tabs of the main screen.

pub mod debug_tab;
pub mod info_tab;
pub mod production_menu;
pub mod productions_tab;
pub mod research_tab;
