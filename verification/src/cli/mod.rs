//! The command line: what commands ask of the daemon, and what they print.
pub mod commands;
pub mod hooks;
pub mod logs;
pub mod remote;
pub mod texts;
pub mod select;
pub mod doctor;
pub mod run;
pub mod smoke;
