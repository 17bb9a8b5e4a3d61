//! A verified core for a terminal viewer of captured proxy traffic.

pub mod text;
pub mod time;
pub mod flow;
pub mod app;
pub mod input;
pub mod ui;
pub mod config;
pub mod theme;
pub mod laws;
