//! Events delivered to the event loop.
//!
//! Every event the application reacts to is funneled through one enum, so the
//! event loop has a single match site.

use vstd::prelude::*;

use crate::app::TrayEvent;
use crate::komorebi::state::WorldState;
use crate::windows_theme::ColorScheme;

verus! {

/// An event of the event loop.
#[derive(Debug)]
pub enum UserEvent {
    /// Fresh world state from the komorebi worker.
    StateChanged(WorldState),
    /// Mouse event on any tray icon.
    TrayIcon(TrayEvent),
    /// Activation of the context-menu entry with this identifier.
    Menu(String),
    /// The color scheme of apps has changed.
    ColorSchemeChanged(ColorScheme),
    /// The global hotkey was pressed; tells whether a menu was displayed.
    Hotkey { menu_was_visible: bool },
}

} // verus!
