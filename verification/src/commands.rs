//! The commands of the one-shot batch mode, which take their data as a JSON
//! document, and the argument handling of the sibling executables.

pub mod add;
pub mod close_db;
pub mod handlers;
pub mod history;
pub mod json;
pub mod print;
pub mod set_object;
