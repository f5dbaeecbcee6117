//! The daemon: what it keeps of each pane, and the rules by which it changes.
pub mod output;
pub mod osc;
pub mod stream;
pub mod terminal;
pub mod screen;
pub mod emulator;
pub mod status;
pub mod runtime;
pub mod session;
pub mod panes;
pub mod places;
pub mod view_size;
pub mod portmap;
pub mod ports;
pub mod sockets;
pub mod live;
pub mod titles;
pub mod lifecycle;
pub mod handlers;
pub mod navigate;
pub mod capture;
pub mod snapshot;
pub mod startup;
pub mod workspaces;
pub mod plans;
pub mod dispatch;
pub mod finish;
pub mod refusals;
pub mod restart;
