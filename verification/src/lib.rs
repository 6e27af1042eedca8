//! Core engine for managing WSL distributions by driving the `wsl.exe`
//! command-line tool: command classification and result handling, an
//! incremental output decoder that tolerates multi-byte sequences split
//! across read boundaries, a state coordinator for the lifecycle verbs,
//! and the debounced refresh dispatcher.
//!
//! All process, file and registry I/O lives outside this crate; the logic
//! here works on plain values (argument vectors, output text, parsed
//! distribution lists) and is verified.

pub mod autostart;
pub mod config_text;
pub mod dashboard;
pub mod decoder;
pub mod dispatcher;
pub mod executor;
pub mod info;
pub mod lifecycle;
pub mod maintenance;
pub mod models;
pub mod ordering;
pub mod parser;
pub mod result;
pub mod stream;
pub mod text;
pub mod winstyle;

pub use result::WslCommandResult;
