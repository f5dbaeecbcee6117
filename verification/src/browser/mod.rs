//! Looking at pages without a browser: links, forms, scripts and text of their source.
pub mod url;
pub mod html;
pub mod page;
pub mod forms;
pub mod evaluate;
pub mod network;
pub mod open;
pub mod refusals;
