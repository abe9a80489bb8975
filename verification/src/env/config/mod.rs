//! Configs identified by label in data files and by number in the game.

pub mod id;
pub mod indexer;
pub mod laws;
pub mod repository;
pub mod repository_builder;
