//! What the library promises of its operations as a whole, stated over what
//! goes in and what comes out.
pub mod activity;
pub mod config;
pub mod daemon;
pub mod diff;
pub mod events;
pub mod frame;
pub mod inbox;
pub mod keys;
pub mod lists;
pub mod markdown;
pub mod overview;
pub mod screens;
pub mod selection;
pub mod text;
pub mod wizard;
