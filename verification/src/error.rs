//! The failure taxonomy threaded through the terminal subsystem.

use vstd::prelude::*;

verus! {

/// Everything that can go wrong around a terminal.
#[derive(Debug)]
pub enum TerminalError {
    /// The terminal id is not registered.
    NotFound(String),
    /// The terminal id is already in use.
    AlreadyExists(String),
    /// Pseudo-terminal allocation, spawn, read, write, or wait failed.
    PtyError(String),
    /// The backend child process has terminated.
    ProcessExited,
    /// The terminal's input queue is closed.
    SendError(String),
    /// The quota of live terminals is reached.
    MaxTerminalsReached,
}

impl TerminalError {
    /// A human-readable description of the error.
    pub fn message(&self) -> (r: String)
        ensures
            match self {
                TerminalError::NotFound(id) => r@ == "Terminal not found: "@ + id@,
                TerminalError::AlreadyExists(id) => r@ == "Terminal already exists: "@ + id@,
                TerminalError::PtyError(m) => r@ == "PTY error: "@ + m@,
                TerminalError::ProcessExited => r@ == "Terminal process exited"@,
                TerminalError::SendError(m) => r@ == "Send error: "@ + m@,
                TerminalError::MaxTerminalsReached => r@ == "Maximum terminals reached"@,
            },
    {
        match self {
            TerminalError::NotFound(id) => "Terminal not found: ".to_owned().concat(id.as_str()),
            TerminalError::AlreadyExists(id) => "Terminal already exists: ".to_owned().concat(
                id.as_str(),
            ),
            TerminalError::PtyError(m) => "PTY error: ".to_owned().concat(m.as_str()),
            TerminalError::ProcessExited => "Terminal process exited".to_owned(),
            TerminalError::SendError(m) => "Send error: ".to_owned().concat(m.as_str()),
            TerminalError::MaxTerminalsReached => "Maximum terminals reached".to_owned(),
        }
    }
}

} // verus!
