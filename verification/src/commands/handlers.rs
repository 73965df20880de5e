//! The interface of a batch command.

use vstd::prelude::*;
use serde_json::Value;

verus! {

/// A command of the batch mode: it is handed the JSON document that holds its
/// data.
pub trait CommandHandler {
    fn execute(&self, data: &Value);
}

} // verus!
