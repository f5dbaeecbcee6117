//! What the parts of the library do, said of their results alone.
pub mod keys;
pub mod regions;
pub mod counts;
pub mod restores;
pub mod listening;
pub mod endings;
pub mod statuses;
pub mod spaces;
pub mod terminals;
pub mod commands;
pub mod pages;
pub mod requests;
pub mod agents;
pub mod sockets;
pub mod calls;
pub mod deeds;
pub mod details;
pub mod refusals;
pub mod tabs;
pub mod texts;
pub mod families;
pub mod pairs;
pub mod records;
pub mod reports;
