//! Terminal client core for a music-streaming service: the view model, the
//! commands it issues, and how service results are merged into it.

pub mod channel;
pub mod client;
pub mod config;
pub mod event;
pub mod library;
pub mod model;
pub mod player;
pub mod spoterm;
pub mod spotify;
pub mod text;
pub mod ui;
