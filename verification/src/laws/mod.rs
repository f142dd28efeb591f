//! What the operations promise, stated of their contracts.
//!
//! The contracts say through spec functions what an operation does. The laws
//! here say what follows for somebody who uses it: which callbacks are called
//! with what, what a result has in common with the input, how two results
//! relate.

pub mod arguments;
pub mod commands;
pub mod files;
pub mod globs;
pub mod hooks;
pub mod listing;
pub mod opening;
pub mod paths;
pub mod pipes;
pub mod records;
pub mod searching;
pub mod session;
pub mod shells;
pub mod sizes;
pub mod tables;
pub mod words;
