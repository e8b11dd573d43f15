//! PADRE: a debugger front end that speaks to Vim over a socket and drives
//! LLDB or PDB underneath.
//!
//! This crate holds the verified core: the configuration store, the wire
//! protocol spoken with Vim, the JSON values it carries, and the analysers
//! that turn debugger output into notifications.

pub mod text;
pub mod config;
pub mod json;
pub mod error;
pub mod request;
pub mod vimcodec;
pub mod notify;
pub mod pattern;
pub mod lldb;
pub mod lldb_command;
pub mod python;
pub mod pdb;
pub mod node;
pub mod server;
pub mod debugger;
pub mod notifier;
pub mod dlv;
pub mod lldb_events;
pub mod lldb_signals;
pub mod pdb_handler;
pub mod pdb_listeners;
