//! A web-based terminal gateway, modelled as verified state machines.
//!
//! The library holds the decision logic of the gateway: the registry of
//! live terminals with its quota and reaper, the authentication session
//! store, the wire-envelope dispatch, and the configuration rules. All
//! I/O (sockets, pseudo-terminals, the remote shell) lives outside the
//! library and hands it plain values: timestamps, byte chunks, and the
//! outcomes of outside calls.

pub mod auth;
pub mod config;
pub mod error;
pub mod gateway;
pub mod pty;
pub mod session;
pub mod ssh;
pub mod text;
pub mod types;
