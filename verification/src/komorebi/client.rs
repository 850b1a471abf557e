//! Commands that are sent to komorebi.

use vstd::prelude::*;

verus! {

/// A message to komorebi's control socket.
#[derive(Debug, Clone, Copy, PartialEq, Eq, Structural)]
pub enum SocketMessage {
    /// Asks for the full state.
    State,
    /// Focuses a workspace, by its number, on a monitor, by its position.
    FocusMonitorWorkspaceNumber(usize, usize),
}

} // verus!
