//! Decision logic of a tiling window manager for the river compositor.
//!
//! The library holds the window manager's state as plain values (windows,
//! outputs and seats identified by their protocol object ids) and turns each
//! compositor event into a new state and a list of requests to send back.
pub mod config;
pub mod dispatch;
pub mod keyed;
pub mod laws;
pub mod request;
pub mod state;
pub mod wm;
