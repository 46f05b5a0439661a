//! Dialog subsystem for a terminal bridge between a modal editor and a
//! locally running assistant server.
//!
//! The crate holds the verified core of the bridge: the multi-line input
//! editor with placeholder autocomplete and soft wrapping, the fuzzy-filter
//! selection menu, the raw-byte key decoder, editor-context formatting, and
//! the command-line grammar. Terminal, process and network I/O live in the
//! surrounding binary, which feeds plain values into these functions and
//! carries their results out.

pub mod cli;
pub mod config;
pub mod context;
pub mod digits;
pub mod effects;
pub mod input;
pub mod keys;
pub mod select;
pub mod server;
pub mod strutil;
pub mod text;
pub mod theme;
pub mod wrap;
