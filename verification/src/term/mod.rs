//! The terminal: frames from the daemon, the visible grid, what is drawn and
//! how the pointer and the keyboard act on it.
pub mod client_grid;
pub mod frame;
pub mod keys;
pub mod primitive;
pub mod widget;
pub mod draw;
pub mod event_laws;
