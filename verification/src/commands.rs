//! The commands that a client sends to the manager over the control socket.

use vstd::prelude::*;

verus! {

/// A command to the window manager proper.
#[derive(Debug, Clone, Copy, PartialEq, Eq)]
pub enum WMCommand {
    /// Close the currently focused window.
    CloseWindow,
}

/// A command to the running program.
#[derive(Debug, Clone, Copy, PartialEq, Eq)]
pub enum R3Command {
    /// Commands specific to window management.
    WM(WMCommand),
    /// Returns the currently running version.
    GetVersion,
    /// Returns the current configuration.
    GetConfig,
    /// Exit the app.
    Exit,
}

/// What the client tool is started with.
#[derive(Debug, Clone, PartialEq, Eq)]
pub struct Args {
    /// Path to the control socket. Without it the tool reads the path from
    /// the root window of the running server.
    pub socket: Option<String>,
    /// The command to send.
    pub command: R3Command,
}

} // verus!
