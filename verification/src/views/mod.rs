//! The panes of the interface.

pub mod activity;
pub mod chrome;
pub mod config;
pub mod diff;
pub mod files;
pub mod help;
pub mod inbox;
pub mod loading;
pub mod overview;
pub mod search;
pub mod setup;
pub mod text;
pub mod toast;
