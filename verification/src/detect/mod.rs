//! What an agent is doing, as its screen shows it.
//!
//! The rules of an agent, where there are any, are the first source of its status.
pub mod agents;
pub mod manifest;
pub mod regions;
