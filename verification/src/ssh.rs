//! The remote-shell side of the gateway, as plain values: connection
//! parameters and the classification of channel events.
//!
//! Dialing, authenticating, and driving the secure channel are network
//! I/O and happen outside the library; the library fixes what is sent
//! (the connection plan) and decides what each received event means.

use vstd::prelude::*;

verus! {

/// How to authenticate against the remote host.
#[derive(Debug, Clone)]
pub enum SshAuth {
    Password(String),
    KeyFile { path: String, passphrase: Option<String> },
    KeyData { data: String, passphrase: Option<String> },
}

/// Everything needed to dial one remote shell.
#[derive(Debug, Clone)]
pub struct SshConfig {
    pub host: String,
    pub port: u16,
    pub user: String,
    pub auth: SshAuth,
}

/// One event received on the remote channel, as plain values.
#[derive(Debug)]
pub enum ChannelEvent {
    /// Payload on the primary stream.
    Data(Vec<u8>),
    /// Payload on an extended stream (standard error).
    ExtendedData(Vec<u8>),
    /// The peer sent end-of-file.
    Eof,
    /// The channel closed.
    Closed,
    /// Any other channel message.
    Other,
}

/// What the reader does with one channel event.
#[derive(Debug)]
pub enum ReadStep {
    /// Hand these bytes to the output sink.
    Emit(Vec<u8>),
    /// The byte stream has ended; the reader stops.
    EndOfStream,
    /// Nothing to deliver; wait for the next event.
    Skip,
}

/// Decide what one remote channel event means for the byte stream: data
/// and extended data are emitted unchanged, end-of-file and close end the
/// stream, anything else is skipped.
pub fn classify_channel_event(ev: ChannelEvent) -> (r: ReadStep)
    ensures
        match ev {
            ChannelEvent::Data(d) => r matches ReadStep::Emit(b) && b == d,
            ChannelEvent::ExtendedData(d) => r matches ReadStep::Emit(b) && b == d,
            ChannelEvent::Eof => r is EndOfStream,
            ChannelEvent::Closed => r is EndOfStream,
            ChannelEvent::Other => r is Skip,
        },
{
    match ev {
        ChannelEvent::Data(d) => ReadStep::Emit(d),
        ChannelEvent::ExtendedData(d) => ReadStep::Emit(d),
        ChannelEvent::Eof => ReadStep::EndOfStream,
        ChannelEvent::Closed => ReadStep::EndOfStream,
        ChannelEvent::Other => ReadStep::Skip,
    }
}

} // verus!
