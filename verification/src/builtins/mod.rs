//! The commands that the shell brings along.

pub mod args;
pub mod find;
pub mod ls;
pub mod mkdir;
pub mod mv;
pub mod names;
pub mod output;
pub mod registry;
pub mod rm;
pub mod tee;
pub mod touch;
pub mod turns;
