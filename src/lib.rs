//! System facts gathered from the host and laid out beside an ASCII logo.

pub mod config;
pub mod probe;
pub mod render;
pub mod text;
