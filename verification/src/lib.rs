//! Terminal user interface logic of Brunson, a pull-request inbox.

pub mod api;
pub mod app;
pub mod cache;
pub mod client;
pub mod clipboard;
pub mod clock;
pub mod component;
pub mod config;
pub mod daemon;
pub mod diff;
pub mod draw;
pub mod events;
pub mod frame;
pub mod github;
pub mod split;
pub mod state;
pub mod sort;
pub mod laws;
pub mod layout;
pub mod markdown;
pub mod navigation;
pub mod primitives;
pub mod scroll;
pub mod inbox_rows;
pub mod tasks;
pub mod text;
pub mod theme;
pub mod views;
pub mod wizard;
pub mod keys;
