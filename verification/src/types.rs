//! The wire-envelope types and the shared terminal value types.

use vstd::prelude::*;

use crate::text::{spec_udec, usize_to_string};

verus! {

/// Client asks to open a terminal of the given size.
#[derive(Debug, Clone)]
pub struct TerminalOpenRequest {
    pub id: String,
    pub cols: u16,
    pub rows: u16,
}

/// Client sends keystrokes for a terminal.
#[derive(Debug, Clone)]
pub struct TerminalInput {
    pub id: String,
    pub input: String,
}

/// Client asks to resize a terminal.
#[derive(Debug, Clone)]
pub struct TerminalResize {
    pub id: String,
    pub cols: u16,
    pub rows: u16,
}

/// Client asks to close a terminal.
#[derive(Debug, Clone)]
pub struct TerminalClose {
    pub id: String,
}

/// Server sends a terminal's output.
#[derive(Debug, Clone)]
pub struct ShellOutput {
    pub id: String,
    pub output: String,
}

/// Server reports a terminal's shell has exited.
#[derive(Debug, Clone)]
pub struct ShellExit {
    pub id: String,
    pub code: Option<i32>,
}

/// One tagged envelope on the full-duplex socket. The first four variants
/// flow client to server; the last two, server to client.
#[derive(Debug, Clone)]
pub enum WsMessage {
    TerminalOpen(TerminalOpenRequest),
    TerminalInput(TerminalInput),
    TerminalResize(TerminalResize),
    TerminalClose(TerminalClose),
    ShellOutput(ShellOutput),
    ShellExit(ShellExit),
}

/// Open request as the event-channel endpoint names its fields.
#[derive(Debug, Clone)]
pub struct OpenTerminalRequest {
    pub id: String,
    pub cols: u16,
    pub rows: u16,
}

/// Input request on the event-channel endpoint.
#[derive(Debug, Clone)]
pub struct InputRequest {
    pub id: String,
    pub input: String,
}

/// Resize request on the event-channel endpoint.
#[derive(Debug, Clone)]
pub struct ResizeRequest {
    pub id: String,
    pub cols: u16,
    pub rows: u16,
}

/// Close request on the event-channel endpoint.
#[derive(Debug, Clone)]
pub struct CloseRequest {
    pub id: String,
}

/// Output event addressed to one terminal.
#[derive(Debug, Clone)]
pub struct OutputResponse {
    pub id: String,
    pub output: String,
}

/// Error event addressed to one terminal.
#[derive(Debug, Clone)]
pub struct ErrorResponse {
    pub id: String,
    pub error: String,
}

/// Exit event addressed to one terminal.
#[derive(Debug, Clone)]
pub struct ExitResponse {
    pub id: String,
    pub code: Option<i32>,
}

/// How the terminal cursor is drawn.
#[derive(Debug, Clone, Copy, PartialEq, Eq, Structural)]
pub enum CursorStyle {
    Block,
    Underline,
    Bar,
}

/// Display settings of the client-side terminal.
#[derive(Debug, Clone)]
pub struct TerminalSettings {
    pub font_size: u16,
    pub font_family: String,
    pub cursor_style: CursorStyle,
    pub cursor_blink: bool,
    pub scrollback: u32,
}

impl Default for TerminalSettings {
    /// A 14-point monospace stack, a blinking block cursor, and ten
    /// thousand lines of scrollback.
    fn default() -> (s: Self)
        ensures
            s.font_size == 14,
            s.font_family@ == "'JetBrains Mono', 'Fira Code', Consolas, monospace"@,
            s.cursor_style == CursorStyle::Block,
            s.cursor_blink == true,
            s.scrollback == 10000,
    {
        TerminalSettings {
            font_size: 14,
            font_family: "'JetBrains Mono', 'Fira Code', Consolas, monospace".to_owned(),
            cursor_style: CursorStyle::Block,
            cursor_blink: true,
            scrollback: 10000,
        }
    }
}

/// A named terminal tab on the client.
#[derive(Debug, Clone)]
pub struct TerminalSession {
    pub id: String,
    pub name: String,
}

/// Relies on uuid's `Uuid::new_v4` and its hyphenated rendering: a random
/// version-4 identifier always prints as 36 characters.
#[verifier::external_body]
fn new_uuid_string() -> (r: String)
    ensures
        r@.len() == 36,
{
    uuid::Uuid::new_v4().to_string()
}

/// Mint a fresh random terminal id in the hyphenated 36-character form.
pub fn generate_terminal_id() -> (r: String)
    ensures
        r@.len() == 36,
{
    new_uuid_string()
}

impl TerminalSession {
    /// A fresh tab with a random id, named `Terminal` plus its number.
    pub fn new(number: usize) -> (s: Self)
        ensures
            s.id@.len() == 36,
            s.name@ == "Terminal "@ + spec_udec(number as nat),
    {
        let digits = usize_to_string(number);
        TerminalSession { id: new_uuid_string(), name: "Terminal ".to_owned().concat(
            digits.as_str(),
        ) }
    }
}

} // verus!
