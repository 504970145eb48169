//! Entity/component store, system pipeline and energy-driven turn scheduler
//! for a terminal roguelike.
pub mod character;
pub mod command_manager;
pub mod components;
pub mod config_manager;
mod dice;
pub mod entities;
pub mod input;
pub mod items;
pub mod map;
pub mod monsters;
pub mod systems;
pub mod text;
pub mod types;
