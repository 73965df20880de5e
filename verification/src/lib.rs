//! Command-dispatch and session engine of an interactive shell.
//!
//! The library decides; the program around it reads lines, spawns the sibling
//! executables and prints. The functions here are verified against their
//! contracts; the few that wrap a call whose contract is taken on trust say so.

pub mod text;
pub mod split;
pub mod number;
pub mod registry;
pub mod runner;
pub mod history;
pub mod errors;
pub mod session;
pub mod help;
pub mod report;
pub mod commands;
