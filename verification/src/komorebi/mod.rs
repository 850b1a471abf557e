//! Integration with the komorebi tiling window manager.
//!
//! - [`client`] holds the commands that are sent to komorebi.
//! - [`pipe`] drives the worker that subscribes to komorebi.
//! - [`types`] mirrors the part of komorebi's state that is used.
//! - [`state`] derives a UI-friendly [`state::WorldState`] from it.

pub mod client;
pub mod pipe;
pub mod state;
pub mod types;
