//! Core of a terminal client for a BlueBubbles iMessage relay server.

pub mod text;
pub mod helpers;
pub mod types;
pub mod api;
pub mod model;
pub mod navigation;
pub mod display;
pub mod paths;
pub mod attachments;
pub mod responses;
pub mod keys;
pub mod config;
pub mod session;
pub mod chooser;
pub mod layout;
