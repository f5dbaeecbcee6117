//! The logic of a terminal multiplexer for coding agents.
pub mod model;
pub mod text;
pub mod daemon;
pub mod input;
pub mod detect;
pub mod shell;
pub mod browser;
pub mod protocol;
pub mod cli;
pub mod laws;
