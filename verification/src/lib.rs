//! Verified core of the ReversedFront desktop shell.

pub mod account_manager;
pub mod commands;
pub mod config_manager;
pub mod json;
pub mod locks;
pub mod mod_updater;
pub mod outside;
pub mod packaging;
pub mod path;
pub mod process_slots;
pub mod resource_manager;
pub mod server;
pub mod standalone;
pub mod text;
pub mod updater;
pub mod version;
