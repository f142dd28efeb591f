//! The parts of a shell for web pages that do not touch the page themselves:
//! paths, files that live on the JavaScript side, pipes, captured streams, the
//! shell's dealings with files, and its file commands.
//!
//! Whatever reaches outside is handed in as a callback, and the contracts say
//! which callbacks are called, with what, and in which order.

pub mod builtins;
pub mod env;
pub mod error;
pub mod glob;
pub mod json;
pub mod laws;
pub mod names;
pub mod open_files;
pub mod path;
pub mod pipe;
pub mod search;
pub mod session;
pub mod shell;
pub mod size;
pub mod streams;
pub mod text;
pub mod vfs;
pub mod wasm_vfs;
